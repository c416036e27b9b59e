//! What a contract sees of the runtime that hosts it.

pub mod context;
pub mod storage;
