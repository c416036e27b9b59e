//! Stores that collect writes: the overlay that scopes a transaction, and
//! a store that lives in memory.

use vstd::prelude::*;
use crate::storage::{
    apply_write, apply_writes, find_written, lemma_apply_writes_at, to_vec, writes_view, Store,
    Write,
};

verus! {

/// A store that reads through to a parent and keeps its own writes apart,
/// so that they can be committed to the parent or dropped as a whole.
pub struct OverlayStore<'a, S: Store> {
    parent: &'a S,
    writes: Vec<Write>,
}

impl<'a, S: Store> OverlayStore<'a, S> {
    /// The parent that the overlay reads through to.
    pub closed spec fn parent(&self) -> &'a S {
        self.parent
    }

    /// The writes made so far, in order.
    pub closed spec fn writes(&self) -> Seq<(Seq<u8>, Option<Seq<u8>>)> {
        writes_view(self.writes@)
    }

    /// An overlay without writes.
    pub fn new(parent: &'a S) -> (overlay: Self)
        ensures
            overlay.parent() == parent,
            overlay.writes() == Seq::<(Seq<u8>, Option<Seq<u8>>)>::empty(),
            overlay.contents() == parent.contents(),
    {
        let overlay = OverlayStore { parent, writes: Vec::new() };
        assert(overlay.writes() =~= Seq::empty());
        overlay
    }

    /// Gives up the overlay and hands out its writes; applied to the
    /// parent in order they make its contents those of the overlay.
    pub fn into_writes(self) -> (writes: Vec<Write>)
        ensures
            writes_view(writes@) == self.writes(),
            self.contents() == apply_writes(self.parent().contents(), self.writes()),
    {
        self.writes
    }
}

impl<'a, S: Store> Store for OverlayStore<'a, S> {
    closed spec fn contents(&self) -> Map<Seq<u8>, Seq<u8>> {
        apply_writes(self.parent.contents(), writes_view(self.writes@))
    }

    fn get(&self, key: &[u8]) -> (value: Option<Vec<u8>>) {
        proof {
            lemma_apply_writes_at(self.parent.contents(), writes_view(self.writes@), key@);
        }
        match find_written(&self.writes, key) {
            Some(found) => found,
            None => self.parent.get(key),
        }
    }

    fn insert(&mut self, key: &[u8], value: &[u8])
        ensures
            final(self).parent() == old(self).parent(),
            final(self).writes() == old(self).writes().push((key@, Some(value@))),
    {
        let write = Write { key: to_vec(key), value: Some(to_vec(value)) };
        self.writes.push(write);
        proof {
            let before = writes_view(old(self).writes@);
            let after = writes_view(self.writes@);
            assert(after =~= before.push((key@, Some(value@))));
            assert(after.drop_last() =~= before);
        }
    }

    fn remove(&mut self, key: &[u8])
        ensures
            final(self).parent() == old(self).parent(),
            final(self).writes() == old(self).writes().push((key@, None::<Seq<u8>>)),
    {
        let write = Write { key: to_vec(key), value: None };
        self.writes.push(write);
        proof {
            let before = writes_view(old(self).writes@);
            let after = writes_view(self.writes@);
            assert(after =~= before.push((key@, None::<Seq<u8>>)));
            assert(after.drop_last() =~= before);
        }
    }

    fn prefetch_prefixes(&mut self, prefixes: &Vec<Vec<u8>>, limit: u16) {
    }
}

/// A store that lives in memory. It starts out empty.
pub struct MemoryStore {
    writes: Vec<Write>,
}

impl MemoryStore {
    /// An empty store.
    pub fn new() -> (store: Self)
        ensures
            store.contents() == Map::<Seq<u8>, Seq<u8>>::empty(),
    {
        let store = MemoryStore { writes: Vec::new() };
        assert(writes_view(store.writes@) =~= Seq::empty());
        store
    }
}

impl Store for MemoryStore {
    closed spec fn contents(&self) -> Map<Seq<u8>, Seq<u8>> {
        apply_writes(Map::empty(), writes_view(self.writes@))
    }

    fn get(&self, key: &[u8]) -> (value: Option<Vec<u8>>) {
        proof {
            lemma_apply_writes_at(Map::empty(), writes_view(self.writes@), key@);
        }
        match find_written(&self.writes, key) {
            Some(found) => found,
            None => None,
        }
    }

    fn insert(&mut self, key: &[u8], value: &[u8]) {
        let write = Write { key: to_vec(key), value: Some(to_vec(value)) };
        self.writes.push(write);
        proof {
            let before = writes_view(old(self).writes@);
            let after = writes_view(self.writes@);
            assert(after =~= before.push((key@, Some(value@))));
            assert(after.drop_last() =~= before);
        }
    }

    fn remove(&mut self, key: &[u8]) {
        let write = Write { key: to_vec(key), value: None };
        self.writes.push(write);
        proof {
            let before = writes_view(old(self).writes@);
            let after = writes_view(self.writes@);
            assert(after =~= before.push((key@, None::<Seq<u8>>)));
            assert(after.drop_last() =~= before);
        }
    }

    fn prefetch_prefixes(&mut self, prefixes: &Vec<Vec<u8>>, limit: u16) {
    }
}

} // verus!
