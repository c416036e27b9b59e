//! Messages to the consensus layer and their results.

use vstd::prelude::*;
use crate::cbor::{
    entries_view, from_entries, into_entries, into_text, into_unsigned, is_text, reversed, text,
    Decode, DecodeError, Encode, Item, ItemView,
};
use crate::types::address::Address;

verus! {

/// A message that the runtime sends to the staking part of the
/// consensus layer. Amounts are in consensus base units.
#[derive(Clone, Copy, Debug)]
pub enum StakingMessage {
    /// Moves tokens from the runtime's account to another account.
    Transfer { to: Address, amount: u128 },
    /// Moves tokens from an account to the runtime's account, within the
    /// allowance that the account gave to the runtime.
    Withdraw { from: Address, amount: u128 },
}

/// A message that the runtime sends to the consensus layer.
#[derive(Clone, Copy, Debug)]
pub enum Message {
    Staking(StakingMessage),
}

/// What the consensus layer reports of a message that was sent in the
/// previous round.
#[derive(Debug)]
pub struct MessageEvent {
    /// The module of the error, empty on success.
    pub module: String,
    /// The error code, 0 on success.
    pub code: u32,
    /// Position of the message among those of its round.
    pub index: u32,
}

impl MessageEvent {
    /// Whether the message was carried out.
    pub fn is_success(&self) -> (ok: bool)
        ensures
            ok == (self.code == 0),
    {
        self.code == 0
    }
}

/// The handler to call with the result of a message, and what to hand to
/// it.
#[derive(Debug)]
pub struct MessageEventHookInvocation {
    pub hook_name: String,
    pub payload: Item,
}

impl MessageEventHookInvocation {
    /// An invocation of the named handler with the given payload.
    pub fn new(hook_name: String, payload: Item) -> (hook: Self)
        ensures
            hook.hook_name == hook_name,
            hook.payload == payload,
    {
        MessageEventHookInvocation { hook_name, payload }
    }
}

/// The result of a message, as its handler receives it.
#[derive(Debug)]
pub struct MessageResult {
    pub event: MessageEvent,
    pub context: Item,
}

impl Encode for MessageEventHookInvocation {
    open spec fn encoded(&self) -> ItemView {
        ItemView::Mapping(
            seq![
                (ItemView::TextString("payload"@), self.payload@),
                (ItemView::TextString("hook_name"@), ItemView::TextString(self.hook_name@)),
            ],
        )
    }

    fn into_cbor_value(self) -> (item: Item) {
        let mut entries: Vec<(Item, Item)> = Vec::new();
        entries.push((text("payload"), self.payload));
        entries.push((text("hook_name"), Item::TextString(self.hook_name)));
        let item = from_entries(entries);
        assert(item@->Mapping_0 =~= self.encoded()->Mapping_0);
        item
    }
}

impl Decode for MessageEventHookInvocation {
    fn try_from_cbor_value(item: Item) -> (r: Result<Self, DecodeError>) {
        let mut entries = match into_entries(item) {
            Some(entries) => entries,
            None => {
                return Err(DecodeError::UnexpectedType);
            },
        };
        if entries.len() != 2 {
            assert forall|value: Self| value.encoded() != item@ by {
                assert(value.encoded()->Mapping_0.len() == 2);
            }
            return Err(DecodeError::MissingField);
        }
        let ghost all = entries@;
        let (name_key, name_item) = entries.pop().unwrap();
        let (payload_key, payload) = entries.pop().unwrap();
        assert(all[0] == (payload_key, payload) && all[1] == (name_key, name_item));
        if !is_text(&payload_key, "payload") || !is_text(&name_key, "hook_name") {
            assert forall|value: Self| value.encoded() != item@ by {
                assert(value.encoded()->Mapping_0[0].0 == ItemView::TextString("payload"@));
                assert(value.encoded()->Mapping_0[1].0 == ItemView::TextString("hook_name"@));
                assert(item@->Mapping_0[0].0 == payload_key@);
                assert(item@->Mapping_0[1].0 == name_key@);
            }
            return Err(DecodeError::UnknownField);
        }
        match into_text(name_item) {
            Some(hook_name) => {
                let hook = MessageEventHookInvocation { hook_name, payload };
                assert(hook.encoded()->Mapping_0 =~= item@->Mapping_0);
                Ok(hook)
            },
            None => {
                assert forall|value: Self| value.encoded() != item@ by {
                    assert(value.encoded()->Mapping_0[1].1 is TextString);
                    assert(item@->Mapping_0[1].1 == name_item@);
                }
                Err(DecodeError::UnexpectedType)
            },
        }
    }
}

/// The handlers of the messages that a batch has sent, each with the
/// position of its message.
#[derive(Debug)]
pub struct MessageHandlers {
    pub entries: Vec<(u32, MessageEventHookInvocation)>,
}

/// No position stands twice in the table.
pub open spec fn has_distinct_positions(entries: Seq<(u32, MessageEventHookInvocation)>) -> bool {
    forall|i: int, j: int|
        0 <= i < j < entries.len() ==> (#[trigger] entries[i]).0 != (#[trigger] entries[j]).0
}

impl MessageHandlers {
    /// The table is a map: no position has two handlers.
    pub open spec fn is_well_formed(&self) -> bool {
        has_distinct_positions(self.entries@)
    }
}

/// The CBOR form of the entries of a handler table.
pub open spec fn handler_entries(entries: Seq<(u32, MessageEventHookInvocation)>) -> Seq<
    (ItemView, ItemView),
> {
    Seq::new(
        entries.len(),
        |i: int| (ItemView::Unsigned(entries[i].0 as u64), entries[i].1.encoded()),
    )
}

impl Encode for MessageHandlers {
    open spec fn encoded(&self) -> ItemView {
        ItemView::Mapping(handler_entries(self.entries@))
    }

    fn into_cbor_value(self) -> (item: Item) {
        let ghost all = self.entries@;
        let mut rest = reversed(self.entries);
        let mut entries: Vec<(Item, Item)> = Vec::new();
        while rest.len() > 0
            invariant
                rest@.len() + entries@.len() == all.len(),
                rest@ == all.reverse().subrange(0, rest@.len() as int),
                forall|j: int|
                    0 <= j < entries@.len() ==> (#[trigger] entries@[j].0@, entries@[j].1@)
                        == handler_entries(all)[j],
            decreases rest.len(),
        {
            let (index, hook) = rest.pop().unwrap();
            entries.push((Item::Unsigned(index as u64), hook.into_cbor_value()));
        }
        let item = from_entries(entries);
        assert(item@->Mapping_0 =~= handler_entries(all));
        item
    }
}

impl Decode for MessageHandlers {
    fn try_from_cbor_value(item: Item) -> (r: Result<Self, DecodeError>) {
        let given = match into_entries(item) {
            Some(entries) => entries,
            None => {
                return Err(DecodeError::UnexpectedType);
            },
        };
        let ghost all = given@;
        let mut rest = reversed(given);
        let mut entries: Vec<(u32, MessageEventHookInvocation)> = Vec::new();
        while rest.len() > 0
            invariant
                item@ == ItemView::Mapping(entries_view(all)),
                rest@.len() + entries@.len() == all.len(),
                rest@ == all.reverse().subrange(0, rest@.len() as int),
                forall|j: int|
                    0 <= j < entries@.len() ==> (
                        ItemView::Unsigned((#[trigger] entries@[j]).0 as u64),
                        entries@[j].1.encoded(),
                    ) == (all[j].0@, all[j].1@),
            decreases rest.len(),
        {
            let ghost at = entries@.len() as int;
            let (key, value) = rest.pop().unwrap();
            assert((key, value) == all[at]);
            assert forall|table: Self| table.encoded() == item@ implies at < table.entries@.len()
                && ItemView::Unsigned(table.entries@[at].0 as u64) == key@
                && table.entries@[at].1.encoded() == value@ by {
                assert(handler_entries(table.entries@) == entries_view(all));
                assert(handler_entries(table.entries@).len() == all.len());
                assert(handler_entries(table.entries@)[at] == entries_view(all)[at]);
            }
            let index = match into_unsigned(key) {
                Some(n) => n,
                None => {
                    return Err(DecodeError::UnexpectedType);
                },
            };
            if index > u32::MAX as u64 {
                return Err(DecodeError::UnexpectedIntegerSize);
            }
            match MessageEventHookInvocation::try_from_cbor_value(value) {
                Ok(hook) => {
                    entries.push((index as u32, hook));
                },
                Err(e) => {
                    return Err(e);
                },
            }
        }
        let table = MessageHandlers { entries };
        assert(handler_entries(table.entries@) =~= entries_view(all));
        Ok(table)
    }
}

} // verus!
