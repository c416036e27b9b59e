//! Content-addressed storage.

use vstd::prelude::*;
use crate::hash::{blake3_digest, digest_bytes};
use crate::storage::Store;

verus! {

/// A store that keeps each value under the Blake3 digest of its key. A
/// caller reaches a value only with the key itself; the keys cannot be
/// enumerated.
pub struct HashedStore<S: Store> {
    parent: S,
}

impl<S: Store> HashedStore<S> {
    /// The store below.
    pub closed spec fn parent(&self) -> S {
        self.parent
    }

    /// A store that addresses `parent` by digest.
    pub fn new(parent: S) -> (store: Self)
        ensures
            store.parent() == parent,
    {
        HashedStore { parent }
    }

    /// Gives the parent back.
    pub fn into_inner(self) -> (parent: S)
        ensures
            parent == self.parent(),
    {
        self.parent
    }

    /// Fetches what the parent holds under the digest of the key.
    pub fn get(&self, key: &[u8]) -> (value: Option<Vec<u8>>)
        ensures
            match value {
                Some(v) => self.parent().contents().contains_key(blake3_digest(key@))
                    && self.parent().contents()[blake3_digest(key@)] == v@,
                None => !self.parent().contents().contains_key(blake3_digest(key@)),
            },
    {
        let digest = digest_bytes(key);
        self.parent.get(digest.as_slice())
    }

    /// Stores the value in the parent under the digest of the key.
    pub fn insert(&mut self, key: &[u8], value: &[u8])
        ensures
            final(self).parent().contents() == old(self).parent().contents().insert(
                blake3_digest(key@),
                value@,
            ),
    {
        let digest = digest_bytes(key);
        self.parent.insert(digest.as_slice(), value);
    }

    /// Removes from the parent what it holds under the digest of the key.
    pub fn remove(&mut self, key: &[u8])
        ensures
            final(self).parent().contents() == old(self).parent().contents().remove(
                blake3_digest(key@),
            ),
    {
        let digest = digest_bytes(key);
        self.parent.remove(digest.as_slice());
    }
}

} // verus!
