//! Key scoping.

use vstd::prelude::*;
use crate::storage::{concat, to_vec, Store};

verus! {

/// A store that puts a fixed prefix before every key. Nested prefix
/// stores compose by concatenation, and none reaches the parent outside
/// its prefix.
pub struct PrefixStore<S: Store> {
    parent: S,
    prefix: Vec<u8>,
}

/// Two keys under one prefix are the same key.
pub proof fn lemma_prefix_injective(prefix: Seq<u8>, a: Seq<u8>, b: Seq<u8>)
    requires
        prefix + a == prefix + b,
    ensures
        a == b,
{
    assert(a =~= (prefix + a).subrange(prefix.len() as int, (prefix + a).len() as int));
    assert(b =~= (prefix + b).subrange(prefix.len() as int, (prefix + b).len() as int));
}

/// What a parent with the given contents holds under the prefix.
pub open spec fn scoped(parent: Map<Seq<u8>, Seq<u8>>, prefix: Seq<u8>) -> Map<Seq<u8>, Seq<u8>> {
    Map::new(|k: Seq<u8>| parent.contains_key(prefix + k), |k: Seq<u8>| parent[prefix + k])
}

impl<S: Store> PrefixStore<S> {
    /// The store below.
    pub closed spec fn parent(&self) -> S {
        self.parent
    }

    /// The prefix put before every key.
    pub closed spec fn prefix(&self) -> Seq<u8> {
        self.prefix@
    }

    /// A store that scopes `parent` to the keys that start with `prefix`.
    pub fn new(parent: S, prefix: &[u8]) -> (store: Self)
        ensures
            store.parent() == parent,
            store.prefix() == prefix@,
    {
        PrefixStore { parent, prefix: to_vec(prefix) }
    }

    /// Gives the parent back.
    pub fn into_inner(self) -> (parent: S)
        ensures
            parent == self.parent(),
    {
        self.parent
    }
}

impl<S: Store> Store for PrefixStore<S> {
    open spec fn contents(&self) -> Map<Seq<u8>, Seq<u8>> {
        scoped(self.parent().contents(), self.prefix())
    }

    fn get(&self, key: &[u8]) -> (value: Option<Vec<u8>>)
        ensures
            match value {
                Some(v) => self.parent().contents().contains_key(self.prefix() + key@)
                    && self.parent().contents()[self.prefix() + key@] == v@,
                None => !self.parent().contents().contains_key(self.prefix() + key@),
            },
    {
        let full = concat(self.prefix.as_slice(), key);
        self.parent.get(full.as_slice())
    }

    fn insert(&mut self, key: &[u8], value: &[u8])
        ensures
            final(self).prefix() == old(self).prefix(),
            final(self).parent().contents() == old(self).parent().contents().insert(
                old(self).prefix() + key@,
                value@,
            ),
    {
        let full = concat(self.prefix.as_slice(), key);
        self.parent.insert(full.as_slice(), value);
        proof {
            let p = self.prefix@;
            assert forall|k: Seq<u8>| (#[trigger] (p + k) == p + key@) == (k == key@) by {
                if p + k == p + key@ {
                    lemma_prefix_injective(p, k, key@);
                }
            }
            assert(scoped(self.parent.contents(), p) =~= scoped(old(self).parent.contents(), p).insert(
                key@,
                value@,
            ));
        }
    }

    fn remove(&mut self, key: &[u8])
        ensures
            final(self).prefix() == old(self).prefix(),
            final(self).parent().contents() == old(self).parent().contents().remove(
                old(self).prefix() + key@,
            ),
    {
        let full = concat(self.prefix.as_slice(), key);
        self.parent.remove(full.as_slice());
        proof {
            let p = self.prefix@;
            assert forall|k: Seq<u8>| (#[trigger] (p + k) == p + key@) == (k == key@) by {
                if p + k == p + key@ {
                    lemma_prefix_injective(p, k, key@);
                }
            }
            assert(scoped(self.parent.contents(), p) =~= scoped(old(self).parent.contents(), p).remove(
                key@,
            ));
        }
    }

    fn prefetch_prefixes(&mut self, prefixes: &Vec<Vec<u8>>, limit: u16)
        ensures
            final(self).prefix() == old(self).prefix(),
    {
        let mut scoped_prefixes: Vec<Vec<u8>> = Vec::new();
        let mut i: usize = 0;
        while i < prefixes.len()
            invariant
                i <= prefixes.len(),
            decreases prefixes.len() - i,
        {
            scoped_prefixes.push(concat(self.prefix.as_slice(), prefixes[i].as_slice()));
            i += 1;
        }
        self.parent.prefetch_prefixes(&scoped_prefixes, limit);
    }
}

/// A write through a prefix store shows in the parent under the prefixed
/// key and nowhere else: every other key of the parent reads as before.
pub proof fn lemma_prefix_insert_observed(
    before: Map<Seq<u8>, Seq<u8>>,
    prefix: Seq<u8>,
    key: Seq<u8>,
    value: Seq<u8>,
    other: Seq<u8>,
)
    ensures
        before.insert(prefix + key, value).contains_key(prefix + key),
        before.insert(prefix + key, value)[prefix + key] == value,
        other != prefix + key ==> before.insert(prefix + key, value).contains_key(other)
            == before.contains_key(other),
        other != prefix + key && before.contains_key(other) ==> before.insert(
            prefix + key,
            value,
        )[other] == before[other],
{
}

/// A prefix store over a prefix store is a prefix store over the
/// concatenated prefixes.
pub proof fn lemma_prefix_nesting(
    parent: Map<Seq<u8>, Seq<u8>>,
    outer: Seq<u8>,
    inner: Seq<u8>,
)
    ensures
        scoped(scoped(parent, outer), inner) == scoped(parent, outer + inner),
{
    assert forall|k: Seq<u8>| outer + (#[trigger] (inner + k)) == (outer + inner) + k by {
        assert(outer + (inner + k) =~= (outer + inner) + k);
    }
    assert(scoped(scoped(parent, outer), inner) =~= scoped(parent, outer + inner));
}

} // verus!
