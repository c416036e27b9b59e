//! The modules that come with the SDK.

pub mod accounts;
pub mod consensus;
pub mod consensus_accounts;
pub mod contracts;
pub mod core_module;
