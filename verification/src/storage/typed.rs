//! Typed access to stored values.

use vstd::prelude::*;
use crate::cbor::{
    cbor_decoding, cbor_encoding, from_slice, representable, to_vec, Decode, Encode, EncoderError,
    ItemView, MAX_NESTING_LEVEL,
};
use crate::context::{Context, ContextView};
use crate::storage::Store;

verus! {

/// The item that stored bytes decode to is the CBOR form of the value.
pub open spec fn is_stored_form<T: Encode>(bytes: Seq<u8>, value: T) -> bool {
    cbor_decoding(bytes, MAX_NESTING_LEVEL) == Some(value.encoded())
}

/// What a typed read of a key gives: the value whose CBOR form the stored
/// bytes decode to, or nothing where the key is absent or holds no such
/// bytes.
pub open spec fn is_typed_read<T: Encode>(
    contents: Map<Seq<u8>, Seq<u8>>,
    key: Seq<u8>,
    r: Option<T>,
) -> bool {
    match r {
        Some(value) => contents.contains_key(key) && is_stored_form(contents[key], value),
        None => !contents.contains_key(key) || forall|value: T|
            !is_stored_form(contents[key], value),
    }
}

/// The bytes that are stored for a value, where it has an encoding.
pub open spec fn stored_form(value: ItemView) -> Option<Seq<u8>> {
    if representable(value) {
        match cbor_encoding(value) {
            Ok(bytes) => Some(bytes),
            Err(_) => None,
        }
    } else {
        None
    }
}

/// Decodes stored bytes to a value.
pub fn decode_stored<T: Decode>(bytes: &[u8]) -> (r: Option<T>)
    ensures
        match r {
            Some(value) => is_stored_form(bytes@, value),
            None => forall|value: T| !is_stored_form(bytes@, value),
        },
{
    match from_slice(bytes) {
        Some(item) => match T::try_from_cbor_value(item) {
            Ok(value) => Some(value),
            Err(_) => None,
        },
        None => None,
    }
}

/// A store that keeps values in their CBOR encoding.
pub struct TypedStore<S: Store> {
    parent: S,
}

impl<S: Store> TypedStore<S> {
    /// The store below.
    pub closed spec fn parent(&self) -> S {
        self.parent
    }

    /// A typed store over `parent`.
    pub fn new(parent: S) -> (store: Self)
        ensures
            store.parent() == parent,
    {
        TypedStore { parent }
    }

    /// Gives the parent back.
    pub fn into_inner(self) -> (parent: S)
        ensures
            parent == self.parent(),
    {
        self.parent
    }

    /// Reads the value stored under the key. A key that holds bytes
    /// which are not the encoding of a value reads as absent.
    pub fn get<T: Decode>(&self, key: &[u8]) -> (r: Option<T>)
        ensures
            is_typed_read(self.parent().contents(), key@, r),
    {
        match self.parent.get(key) {
            Some(bytes) => decode_stored(bytes.as_slice()),
            None => None,
        }
    }

    /// Stores the encoding of the value under the key. Returns whether
    /// the value has an encoding; where it has none, nothing is stored.
    pub fn insert<T: Encode>(&mut self, key: &[u8], value: T) -> (stored: bool)
        ensures
            match stored_form(value.encoded()) {
                Some(bytes) => stored && final(self).parent().contents() == old(
                    self,
                ).parent().contents().insert(key@, bytes),
                None => !stored && final(self).parent().contents() == old(
                    self,
                ).parent().contents(),
            },
    {
        let item = value.into_cbor_value();
        match to_vec(&item) {
            Some(bytes) => {
                self.parent.insert(key, bytes.as_slice());
                true
            },
            None => false,
        }
    }

    /// Removes the key.
    pub fn remove(&mut self, key: &[u8])
        ensures
            final(self).parent().contents() == old(self).parent().contents().remove(key@),
    {
        self.parent.remove(key)
    }
}

/// Reads a value from the runtime state of a context.
pub fn get_typed<C: Context, T: Decode>(ctx: &C, key: &[u8]) -> (r: Option<T>)
    ensures
        is_typed_read(ctx.snapshot().state, key@, r),
{
    match ctx.state_get(key) {
        Some(bytes) => decode_stored(bytes.as_slice()),
        None => None,
    }
}

/// Stores the encoding of a value in the runtime state of a context.
/// Returns whether the value has an encoding; where it has none, nothing
/// is stored.
pub fn insert_typed<C: Context, T: Encode>(ctx: &mut C, key: &[u8], value: T) -> (stored: bool)
    ensures
        match stored_form(value.encoded()) {
            Some(bytes) => stored && final(ctx).snapshot() == (ContextView {
                state: old(ctx).snapshot().state.insert(key@, bytes),
                ..old(ctx).snapshot()
            }),
            None => !stored && final(ctx).snapshot() == old(ctx).snapshot(),
        },
{
    let item = value.into_cbor_value();
    match to_vec(&item) {
        Some(bytes) => {
            ctx.state_insert(key, bytes.as_slice());
            true
        },
        None => false,
    }
}

} // verus!
