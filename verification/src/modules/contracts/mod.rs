//! The contracts module: what it keeps in the state of each contract
//! instance.

pub mod store;
