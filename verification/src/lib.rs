//! Verified core of a runtime SDK for composable blockchain execution
//! modules.
//!
//! A runtime takes an ordered batch of transactions from the consensus
//! layer, dispatches each call to the module that handles it, collects
//! the events and the messages for the consensus layer that the calls
//! emit, and commits the state. This crate holds that pipeline with its
//! contracts:
//!
//! * [`dispatcher`]: decoding, authentication, the scope of a
//!   transaction, method routing, and the handlers of message results;
//! * [`storage`]: the key-value stores and their wrappers, among them the
//!   confidential store;
//! * [`context`]: the contexts of a batch and of a transaction;
//! * [`module`] and [`runtime`]: the hooks of a module and how modules
//!   are put in a row;
//! * [`modules`]: the core module, the ledger, the consensus module, the
//!   consensus accounts module and the stores of contract instances;
//! * [`cbor`]: CBOR items and their encoding;
//! * [`macros`]: the plans behind the derive of module errors and the
//!   attributes of handler traits.
//!
//! What needs a key, a signature check or the host runs outside this
//! crate; its answers come in as values.

pub mod callformat;
pub mod cbor;
pub mod context;
pub mod contract_sdk;
pub mod dispatcher;
pub mod error;
pub mod event;
pub mod hash;
pub mod keymanager;
pub mod macros;
pub mod module;
pub mod modules;
pub mod runtime;
pub mod storage;
pub mod text;
pub mod types;
