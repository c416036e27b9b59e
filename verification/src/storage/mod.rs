//! The layered storage stack.
//!
//! A [`Store`] is a mutable mapping from byte strings to byte strings.
//! The wrappers of this module each hold the store below them and change
//! what a key means: a [`PrefixStore`] scopes keys, a [`HashedStore`]
//! addresses values by the digest of the key, and an [`OverlayStore`]
//! collects writes that are later committed or dropped as a whole.

use vstd::prelude::*;

pub mod confidential;
pub mod hashed;
pub mod overlay;
pub mod prefix;
pub mod typed;

verus! {

/// A key-value store.
pub trait Store {
    /// What the store holds.
    spec fn contents(&self) -> Map<Seq<u8>, Seq<u8>>;

    /// Fetches the value stored under the key.
    fn get(&self, key: &[u8]) -> (value: Option<Vec<u8>>)
        ensures
            match value {
                Some(v) => self.contents().contains_key(key@) && self.contents()[key@] == v@,
                None => !self.contents().contains_key(key@),
            },
    ;

    /// Stores the value under the key, in place of any earlier one.
    fn insert(&mut self, key: &[u8], value: &[u8])
        ensures
            final(self).contents() == old(self).contents().insert(key@, value@),
    ;

    /// Removes the key and its value.
    fn remove(&mut self, key: &[u8])
        ensures
            final(self).contents() == old(self).contents().remove(key@),
    ;

    /// Tells the store which keys are about to be read: those that start
    /// with one of the prefixes, up to `limit` of them. A store that
    /// fetches from afar may fetch them ahead; what the store holds does
    /// not change.
    fn prefetch_prefixes(&mut self, prefixes: &Vec<Vec<u8>>, limit: u16)
        ensures
            final(self).contents() == old(self).contents(),
    ;
}

/// A store can be used through an exclusive reference to it.
impl<'a, S: Store> Store for &'a mut S {
    open spec fn contents(&self) -> Map<Seq<u8>, Seq<u8>> {
        (**self).contents()
    }

    fn get(&self, key: &[u8]) -> (value: Option<Vec<u8>>) {
        (**self).get(key)
    }

    fn insert(&mut self, key: &[u8], value: &[u8]) {
        (**self).insert(key, value)
    }

    fn remove(&mut self, key: &[u8]) {
        (**self).remove(key)
    }

    fn prefetch_prefixes(&mut self, prefixes: &Vec<Vec<u8>>, limit: u16) {
        (**self).prefetch_prefixes(prefixes, limit)
    }
}

/// The bytes of `a` followed by those of `b`.
pub fn concat(a: &[u8], b: &[u8]) -> (r: Vec<u8>)
    ensures
        r@ == a@ + b@,
{
    let mut r: Vec<u8> = Vec::new();
    r.extend_from_slice(a);
    r.extend_from_slice(b);
    r
}

/// Whether two byte strings are equal.
pub fn bytes_eq(a: &[u8], b: &[u8]) -> (eq: bool)
    ensures
        eq == (a@ == b@),
{
    if a.len() != b.len() {
        return false;
    }
    let mut i: usize = 0;
    while i < a.len()
        invariant
            i <= a.len(),
            a.len() == b.len(),
            forall|j: int| 0 <= j < i ==> a@[j] == b@[j],
        decreases a.len() - i,
    {
        if a[i] != b[i] {
            return false;
        }
        i += 1;
    }
    assert(a@ =~= b@);
    true
}

/// A copy of the bytes.
pub fn to_vec(a: &[u8]) -> (r: Vec<u8>)
    ensures
        r@ == a@,
{
    let mut r: Vec<u8> = Vec::new();
    r.extend_from_slice(a);
    r
}

/// One pending write: a value to store under the key, or `None` to remove
/// the key.
pub struct Write {
    pub key: Vec<u8>,
    pub value: Option<Vec<u8>>,
}

impl View for Write {
    type V = (Seq<u8>, Option<Seq<u8>>);

    open spec fn view(&self) -> (Seq<u8>, Option<Seq<u8>>) {
        (
            self.key@,
            match self.value {
                Some(v) => Some(v@),
                None => None,
            },
        )
    }
}

/// The contents of a store after one write.
pub open spec fn apply_write(base: Map<Seq<u8>, Seq<u8>>, write: (Seq<u8>, Option<Seq<u8>>)) -> Map<
    Seq<u8>,
    Seq<u8>,
> {
    match write.1 {
        Some(v) => base.insert(write.0, v),
        None => base.remove(write.0),
    }
}

/// The contents of a store after the writes, applied in order.
pub open spec fn apply_writes(
    base: Map<Seq<u8>, Seq<u8>>,
    writes: Seq<(Seq<u8>, Option<Seq<u8>>)>,
) -> Map<Seq<u8>, Seq<u8>>
    decreases writes.len(),
{
    if writes.len() == 0 {
        base
    } else {
        apply_write(apply_writes(base, writes.drop_last()), writes.last())
    }
}

/// The views of the writes, in order.
pub open spec fn writes_view(writes: Seq<Write>) -> Seq<(Seq<u8>, Option<Seq<u8>>)> {
    writes.map_values(|w: Write| w@)
}

/// What the writes say of a key: `None` if they leave it alone, else the
/// outcome of the last write to it.
pub open spec fn written(writes: Seq<(Seq<u8>, Option<Seq<u8>>)>, key: Seq<u8>) -> Option<
    Option<Seq<u8>>,
>
    decreases writes.len(),
{
    if writes.len() == 0 {
        None
    } else if writes.last().0 == key {
        Some(writes.last().1)
    } else {
        written(writes.drop_last(), key)
    }
}

/// A key that the writes touch reads as the last write to it says; any
/// other key reads as in the base.
pub proof fn lemma_apply_writes_at(
    base: Map<Seq<u8>, Seq<u8>>,
    writes: Seq<(Seq<u8>, Option<Seq<u8>>)>,
    key: Seq<u8>,
)
    ensures
        match written(writes, key) {
            None => apply_writes(base, writes).contains_key(key) == base.contains_key(key) && (
            base.contains_key(key) ==> apply_writes(base, writes)[key] == base[key]),
            Some(None) => !apply_writes(base, writes).contains_key(key),
            Some(Some(v)) => apply_writes(base, writes).contains_key(key) && apply_writes(
                base,
                writes,
            )[key] == v,
        },
    decreases writes.len(),
{
    if writes.len() > 0 {
        lemma_apply_writes_at(base, writes.drop_last(), key);
    }
}

/// Applying writes one after the other is applying their concatenation.
pub proof fn lemma_apply_writes_concat(
    base: Map<Seq<u8>, Seq<u8>>,
    first: Seq<(Seq<u8>, Option<Seq<u8>>)>,
    second: Seq<(Seq<u8>, Option<Seq<u8>>)>,
)
    ensures
        apply_writes(apply_writes(base, first), second) == apply_writes(base, first + second),
    decreases second.len(),
{
    if second.len() == 0 {
        assert(first + second =~= first);
    } else {
        lemma_apply_writes_concat(base, first, second.drop_last());
        assert((first + second).drop_last() =~= first + second.drop_last());
        assert((first + second).last() == second.last());
    }
}

/// Looks the key up in the writes, latest first.
pub fn find_written(writes: &Vec<Write>, key: &[u8]) -> (r: Option<Option<Vec<u8>>>)
    ensures
        match r {
            None => written(writes_view(writes@), key@) is None,
            Some(None) => written(writes_view(writes@), key@) == Some(None::<Seq<u8>>),
            Some(Some(v)) => written(writes_view(writes@), key@) == Some(Some(v@)),
        },
{
    let mut i: usize = writes.len();
    assert(writes_view(writes@).subrange(0, i as int) =~= writes_view(writes@));
    while i > 0
        invariant
            i <= writes.len(),
            written(writes_view(writes@), key@) == written(
                writes_view(writes@).subrange(0, i as int),
                key@,
            ),
        decreases i,
    {
        let ghost prefix = writes_view(writes@).subrange(0, i as int);
        i -= 1;
        assert(prefix.drop_last() =~= writes_view(writes@).subrange(0, i as int));
        assert(prefix.last() == writes@[i as int]@);
        if bytes_eq(writes[i].key.as_slice(), key) {
            return match &writes[i].value {
                Some(v) => Some(Some(to_vec(v.as_slice()))),
                None => Some(None),
            };
        }
    }
    None
}

/// Applies the writes to a store, in order.
pub fn commit_writes<S: Store>(writes: &Vec<Write>, target: &mut S)
    ensures
        (*final(target)).contents() == apply_writes(
            (*old(target)).contents(),
            writes_view(writes@),
        ),
{
    let mut i: usize = 0;
    assert(writes_view(writes@).subrange(0, 0) =~= Seq::empty());
    while i < writes.len()
        invariant
            i <= writes.len(),
            (*target).contents() == apply_writes(
                (*old(target)).contents(),
                writes_view(writes@).subrange(0, i as int),
            ),
        decreases writes.len() - i,
    {
        let ghost next = writes_view(writes@).subrange(0, i + 1);
        assert(next.drop_last() =~= writes_view(writes@).subrange(0, i as int));
        assert(next.last() == writes@[i as int]@);
        match &writes[i].value {
            Some(v) => target.insert(writes[i].key.as_slice(), v.as_slice()),
            None => target.remove(writes[i].key.as_slice()),
        }
        i += 1;
    }
    assert(writes_view(writes@).subrange(0, i as int) =~= writes_view(writes@));
}

} // verus!
