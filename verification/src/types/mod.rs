//! The values that transactions, messages and modules exchange.

pub mod address;
pub mod codec;
pub mod message;
pub mod proofs;
pub mod token;
pub mod transaction;
pub mod wire;
