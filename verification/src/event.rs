//! Events.
//!
//! A module tells the outside of what it did by emitting events. An event
//! goes out as a tag: the key is the name of the module followed by the
//! code of the event in four bytes, most significant first, and the value
//! is the encoded event.

use vstd::prelude::*;
use vstd::string::StringSliceAdditionalSpecFns;
use crate::cbor::{to_vec, Item, ItemView};
use crate::context::{Context, ContextView, Tag};
use crate::storage::concat;
use crate::storage::typed::stored_form;

verus! {

/// The code of an event in four bytes, most significant first.
pub open spec fn code_bytes(code: u32) -> Seq<u8> {
    seq![(code >> 24) as u8, (code >> 16) as u8, (code >> 8) as u8, code as u8]
}

/// The key of the tag of an event.
pub open spec fn tag_key(module: Seq<u8>, code: u32) -> Seq<u8> {
    module + code_bytes(code)
}

/// An event emitted by a module.
pub trait Event: Sized {
    /// The name of the module that emits the event.
    spec fn module_name_spec() -> Seq<u8>;

    /// The code of the event, unique within its module.
    spec fn code_spec(&self) -> u32;

    /// The CBOR form of the event.
    spec fn value_spec(&self) -> ItemView;

    fn module_name() -> (name: &'static str)
        ensures
            name.spec_bytes() == Self::module_name_spec(),
    ;

    fn code(&self) -> (code: u32)
        ensures
            code == self.code_spec(),
    ;

    fn value(self) -> (item: Item)
        ensures
            item@ == self.value_spec(),
    ;

    /// The event as a tag; `None` where the event has no encoding.
    fn into_tag(self) -> (tag: Option<Tag>)
        ensures
            match stored_form(self.value_spec()) {
                Some(bytes) => tag matches Some(t) && t.key@ == tag_key(
                    Self::module_name_spec(),
                    self.code_spec(),
                ) && t.value@ == bytes,
                None => tag is None,
            },
    {
        let code = self.code();
        let suffix: [u8; 4] = [
            (code >> 24) as u8,
            (code >> 16) as u8,
            (code >> 8) as u8,
            code as u8,
        ];
        assert(suffix@ =~= code_bytes(code));
        let key = concat(Self::module_name().as_bytes(), suffix.as_slice());
        let item = self.value();
        match to_vec(&item) {
            Some(value) => Some(Tag { key, value }),
            None => None,
        }
    }
}

/// Emits an event in a context. Returns whether the event went out: it
/// does not where it has no encoding, and then nothing changes.
pub fn emit_event<C: Context, E: Event>(ctx: &mut C, event: E) -> (emitted: bool)
    ensures
        match stored_form(event.value_spec()) {
            Some(bytes) => emitted && exists|tag: Tag|
                tag.key@ == tag_key(E::module_name_spec(), event.code_spec()) && tag.value@
                    == bytes && #[trigger] final(ctx).snapshot() == (ContextView {
                    tags: old(ctx).snapshot().tags.push(tag),
                    ..old(ctx).snapshot()
                }),
            None => !emitted && final(ctx).snapshot() == old(ctx).snapshot(),
        },
{
    match event.into_tag() {
        Some(tag) => {
            ctx.emit_tag(tag);
            true
        },
        None => false,
    }
}

} // verus!
