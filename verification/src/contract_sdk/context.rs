//! Contract execution context.

use vstd::prelude::*;
use crate::event::Event;
use crate::storage::Store;
use crate::types::address::Address;
use crate::types::message::Message;
use crate::types::token::BaseUnits;

verus! {

/// Identifies an instance of a contract.
#[derive(PartialEq, Eq, Structural, Clone, Copy, Debug)]
pub struct InstanceId(pub u64);

/// Execution context.
pub trait Context {
    /// The public store.
    type PublicStore: Store;

    /// The confidential store.
    type ConfidentialStore;

    /// Contract instance identifier.
    fn instance_id(&self) -> InstanceId;

    /// Contract instance address.
    fn instance_address(&self) -> &Address;

    /// Caller address.
    fn caller_address(&self) -> &Address;

    /// Tokens deposited by the caller.
    fn deposited_tokens(&self) -> &[BaseUnits];

    /// Emits a message.
    fn emit_message(&mut self, msg: Message);

    /// Emits an event.
    fn emit_event<E: Event>(&mut self, event: E);

    /// Public contract store.
    fn public_store(&mut self) -> &mut Self::PublicStore;

    /// Confidential contract store.
    fn confidential_store(&mut self) -> &mut Self::ConfidentialStore;
}

} // verus!
