//! Planning logic behind the derive and attribute helpers. The functions
//! here decide what is generated; rendering the decision as tokens is left
//! to the procedural-macro front end.

pub mod error_derive;
pub mod handler_attrs;
