//! Confidential storage.
//!
//! A confidential store keeps every key and value sealed with
//! Deoxys-II under a 32-byte state key. The nonce of an entry is derived
//! from its plain key, so the same plain key always leads to the same
//! stored key and a value can be found again without an index:
//!
//! ```text
//! nonce        = first 15 bytes of Blake3(plain_key)
//! stored_key   = nonce ∥ seal(nonce, plain_key, aad = nonce)
//! stored_value = seal(nonce, value, aad = nonce)
//! ```
//!
//! The cipher itself runs outside this module. The store says what is to
//! be sealed or opened ([`CipherRequest`]) and takes the cipher's answer
//! as an argument; it never sees a plain value that it did not ask for.

use vstd::prelude::*;
use crate::context::Context;
use crate::hash::{blake3_digest, digest_bytes};
use crate::keymanager::{KeyManagerError, KeyPair};
use crate::storage::{concat, to_vec, Store};

verus! {

/// Size of a Deoxys-II key in bytes.
pub const KEY_SIZE: usize = 32;

/// Size of a Deoxys-II nonce in bytes.
pub const NONCE_SIZE: usize = 15;

/// Size of the tag that sealing appends, in bytes.
pub const TAG_SIZE: usize = 16;

/// A Deoxys-II nonce.
pub type Nonce = [u8; 15];

/// The cipher did not accept a sealed text: it was not sealed under this
/// key, nonce and additional data, or it was changed since.
#[derive(PartialEq, Eq, Structural, Clone, Copy, Debug)]
pub struct DecryptionError;

/// Errors of the confidential store.
#[derive(PartialEq, Eq, Structural, Clone, Copy, Debug)]
pub enum Error {
    /// The runtime has no key manager.
    NotAvailable,
    /// The key manager did not hand out the keys.
    KeyManager,
    /// A stored key is too short to hold a nonce and a sealed key.
    RawKeyTooShort,
    /// A stored key or value did not open.
    Decryption,
    /// The iterator below is valid and shows no key.
    NoKey,
    /// The iterator below is valid and shows no value.
    NoValue,
}

impl Error {
    /// The error in words.
    pub fn message(&self) -> (text: &'static str)
        ensures
            text@ == match self {
                Error::NotAvailable => "confidential transactions not available"@,
                Error::KeyManager => "key manager failure"@,
                Error::RawKeyTooShort => "raw key value not long enough"@,
                Error::Decryption => "decryption failed"@,
                Error::NoKey => "no key in valid inner iterator"@,
                Error::NoValue => "no value in valid inner iterator"@,
            },
    {
        match self {
            Error::NotAvailable => "confidential transactions not available",
            Error::KeyManager => "key manager failure",
            Error::RawKeyTooShort => "raw key value not long enough",
            Error::Decryption => "decryption failed",
            Error::NoKey => "no key in valid inner iterator",
            Error::NoValue => "no value in valid inner iterator",
        }
    }
}

/// What the cipher is asked to seal or to open.
pub struct CipherRequest {
    pub nonce: Nonce,
    /// The plain text to seal, or the sealed text to open.
    pub text: Vec<u8>,
    pub additional_data: Vec<u8>,
}

/// The nonce of the entry with the given plain key.
pub open spec fn nonce_of(plain_key: Seq<u8>) -> Seq<u8> {
    blake3_digest(plain_key).subrange(0, NONCE_SIZE as int)
}

/// The stored key made of a nonce and a sealed key.
pub open spec fn packed(nonce: Seq<u8>, enc_key: Seq<u8>) -> Seq<u8> {
    nonce + enc_key
}

/// The length of the stored key of a plain key of the given length: the
/// nonce, the sealed key, and the tag.
pub open spec fn stored_key_len(plain_len: int) -> int {
    NONCE_SIZE + plain_len + TAG_SIZE
}

/// The request that is made for a text under a nonce: the nonce also
/// serves as additional data, and so is authenticated with the text.
pub open spec fn is_request(request: CipherRequest, nonce: Seq<u8>, text: Seq<u8>) -> bool {
    &&& request.nonce@ == nonce
    &&& request.text@ == text
    &&& request.additional_data@ == nonce
}

/// The nonce of the entry with the given plain key.
pub fn derive_nonce(plain_key: &[u8]) -> (nonce: Nonce)
    ensures
        nonce@ == nonce_of(plain_key@),
{
    let digest = digest_bytes(plain_key);
    let mut nonce: Nonce = [0u8; 15];
    let mut i: usize = 0;
    while i < NONCE_SIZE
        invariant
            i <= NONCE_SIZE,
            digest@.len() == 32,
            forall|j: int| 0 <= j < i ==> nonce@[j] == digest@[j],
        decreases NONCE_SIZE - i,
    {
        nonce[i] = digest[i];
        i += 1;
    }
    assert(nonce@ =~= digest@.subrange(0, NONCE_SIZE as int));
    nonce
}

/// The request for a text under a nonce.
fn request(nonce: &Nonce, text: &[u8]) -> (r: CipherRequest)
    ensures
        is_request(r, nonce@, text@),
{
    CipherRequest { nonce: *nonce, text: to_vec(text), additional_data: to_vec(nonce.as_slice()) }
}

/// A key-value store that keeps all content sealed with Deoxys-II.
pub struct ConfidentialStore<S: Store> {
    inner: S,
    key: [u8; 32],
}

impl<S: Store> ConfidentialStore<S> {
    /// The store that holds the sealed entries.
    pub closed spec fn inner(&self) -> S {
        self.inner
    }

    /// The key that the cipher is to use.
    pub closed spec fn key(&self) -> Seq<u8> {
        self.key@
    }

    /// Creates a confidential store that seals under the state key of the
    /// given key pair.
    pub fn new_with_key_pair(inner: S, keypair: KeyPair) -> (store: Self)
        ensures
            store.inner() == inner,
            store.key() == keypair.state_key.0@,
    {
        ConfidentialStore { inner, key: keypair.state_key.0 }
    }

    /// Creates a confidential store from the key manager's answer to the
    /// request for the store's keys.
    pub fn new_with_id_from_client(keys: Result<KeyPair, KeyManagerError>, inner: S) -> (r: Result<
        Self,
        Error,
    >)
        ensures
            match (keys, r) {
                (Ok(keypair), Ok(store)) => store.inner() == inner && store.key()
                    == keypair.state_key.0@,
                (Err(_), Err(e)) => e == Error::KeyManager,
                _ => false,
            },
    {
        match keys {
            Ok(keypair) => Ok(Self::new_with_key_pair(inner, keypair)),
            Err(_) => Err(Error::KeyManager),
        }
    }

    /// Creates a confidential store in a context, from the key manager's
    /// answer to the request for the store's keys. A runtime without a
    /// key manager has no confidential stores, whatever the answer.
    pub fn new_with_id<C: Context>(
        ctx: &C,
        inner: S,
        keys: Result<KeyPair, KeyManagerError>,
    ) -> (r: Result<Self, Error>)
        ensures
            if !ctx.snapshot().key_manager {
                r matches Err(Error::NotAvailable)
            } else {
                match (keys, r) {
                    (Ok(keypair), Ok(store)) => store.inner() == inner && store.key()
                        == keypair.state_key.0@,
                    (Err(_), Err(e)) => e == Error::KeyManager,
                    _ => false,
                }
            },
    {
        if !ctx.has_key_manager() {
            return Err(Error::NotAvailable);
        }
        Self::new_with_id_from_client(keys, inner)
    }

    /// The key for the cipher.
    pub fn cipher_key(&self) -> (key: &[u8; 32])
        ensures
            key@ == self.key(),
    {
        &self.key
    }

    /// Gives the inner store back.
    pub fn into_inner(self) -> (inner: S)
        ensures
            inner == self.inner(),
    {
        self.inner
    }

    /// Joins a nonce and a sealed key into a stored key.
    pub fn pack_key(&self, enc_key: &[u8], nonce: &Nonce) -> (raw_key: Vec<u8>)
        ensures
            raw_key@ == packed(nonce@, enc_key@),
            raw_key@.len() == NONCE_SIZE + enc_key@.len(),
    {
        concat(nonce.as_slice(), enc_key)
    }

    /// What is to be sealed to make the stored key of a plain key.
    pub fn key_request(&self, plain_key: &[u8]) -> (r: CipherRequest)
        ensures
            is_request(r, nonce_of(plain_key@), plain_key@),
    {
        let nonce = derive_nonce(plain_key);
        request(&nonce, plain_key)
    }

    /// The nonce and the stored key of a plain key, given the sealed key
    /// that the cipher returned for [`Self::key_request`].
    pub fn make_key(&self, plain_key: &[u8], enc_key: &[u8]) -> (r: (Nonce, Vec<u8>))
        ensures
            r.0@ == nonce_of(plain_key@),
            r.1@ == packed(nonce_of(plain_key@), enc_key@),
            enc_key@.len() == plain_key@.len() + TAG_SIZE ==> r.1@.len() == stored_key_len(
                plain_key@.len() as int,
            ),
    {
        let nonce = derive_nonce(plain_key);
        let key = self.pack_key(enc_key, &nonce);
        (nonce, key)
    }

    /// Splits a stored key into its nonce and the sealed key. A stored key
    /// that holds nothing after the nonce is no stored key.
    pub fn unpack_key(&self, raw_key: &[u8]) -> (r: Option<(Nonce, Vec<u8>)>)
        ensures
            match r {
                Some((nonce, enc_key)) => raw_key@.len() > NONCE_SIZE && nonce@
                    == raw_key@.subrange(0, NONCE_SIZE as int) && enc_key@ == raw_key@.subrange(
                    NONCE_SIZE as int,
                    raw_key@.len() as int,
                ),
                None => raw_key@.len() <= NONCE_SIZE,
            },
    {
        if raw_key.len() <= NONCE_SIZE {
            return None;
        }
        let mut nonce: Nonce = [0u8; 15];
        let mut i: usize = 0;
        while i < NONCE_SIZE
            invariant
                i <= NONCE_SIZE < raw_key@.len(),
                forall|j: int| 0 <= j < i ==> nonce@[j] == raw_key@[j],
            decreases NONCE_SIZE - i,
        {
            nonce[i] = raw_key[i];
            i += 1;
        }
        let mut enc_key: Vec<u8> = Vec::new();
        let mut k: usize = NONCE_SIZE;
        while k < raw_key.len()
            invariant
                NONCE_SIZE <= k <= raw_key@.len(),
                enc_key@ == raw_key@.subrange(NONCE_SIZE as int, k as int),
            decreases raw_key.len() - k,
        {
            enc_key.push(raw_key[k]);
            assert(enc_key@ =~= raw_key@.subrange(NONCE_SIZE as int, k + 1));
            k += 1;
        }
        assert(nonce@ =~= raw_key@.subrange(0, NONCE_SIZE as int));
        Some((nonce, enc_key))
    }

    /// What is to be opened to read the plain key out of a stored key.
    pub fn open_key_request(&self, raw_key: &[u8]) -> (r: Result<CipherRequest, Error>)
        ensures
            match r {
                Ok(request) => raw_key@.len() > NONCE_SIZE && is_request(
                    request,
                    raw_key@.subrange(0, NONCE_SIZE as int),
                    raw_key@.subrange(NONCE_SIZE as int, raw_key@.len() as int),
                ),
                Err(e) => raw_key@.len() <= NONCE_SIZE && e == Error::RawKeyTooShort,
            },
    {
        match self.unpack_key(raw_key) {
            Some((nonce, enc_key)) => Ok(request(&nonce, enc_key.as_slice())),
            None => Err(Error::RawKeyTooShort),
        }
    }

    /// The nonce and the plain key of a stored key, given what the cipher
    /// answered to [`Self::open_key_request`]. A stored key that is too
    /// short is reported as such whatever the cipher said.
    pub fn get_key(&self, raw_key: &[u8], opened: Result<Vec<u8>, DecryptionError>) -> (r: Result<
        (Nonce, Vec<u8>),
        Error,
    >)
        ensures
            match r {
                Ok((nonce, key)) => raw_key@.len() > NONCE_SIZE && nonce@ == raw_key@.subrange(
                    0,
                    NONCE_SIZE as int,
                ) && opened == Ok::<Vec<u8>, DecryptionError>(key),
                Err(e) => if raw_key@.len() <= NONCE_SIZE {
                    e == Error::RawKeyTooShort
                } else {
                    opened is Err && e == Error::Decryption
                },
            },
    {
        match self.unpack_key(raw_key) {
            Some((nonce, _)) => match opened {
                Ok(key) => Ok((nonce, key)),
                Err(_) => Err(Error::Decryption),
            },
            None => Err(Error::RawKeyTooShort),
        }
    }

    /// What is to be opened to read a stored value.
    pub fn open_value_request(&self, enc_value: &[u8], nonce: &Nonce) -> (r: CipherRequest)
        ensures
            is_request(r, nonce@, enc_value@),
    {
        request(nonce, enc_value)
    }

    /// The plain value, given what the cipher answered to
    /// [`Self::open_value_request`].
    pub fn get_value(&self, opened: Result<Vec<u8>, DecryptionError>) -> (r: Result<Vec<u8>, Error>)
        ensures
            match r {
                Ok(value) => opened == Ok::<Vec<u8>, DecryptionError>(value),
                Err(e) => opened is Err && e == Error::Decryption,
            },
    {
        match opened {
            Ok(value) => Ok(value),
            Err(_) => Err(Error::Decryption),
        }
    }

    /// What is to be sealed to store a value under a nonce.
    pub fn make_value(&self, value: &[u8], nonce: &Nonce) -> (r: CipherRequest)
        ensures
            is_request(r, nonce@, value@),
    {
        request(nonce, value)
    }

    /// Looks an entry up. `enc_key` is the sealed form of `key`. Where the
    /// entry exists, the result says what is to be opened to read its
    /// value; a value that does not open is corrupt.
    pub fn get(&self, key: &[u8], enc_key: &[u8]) -> (r: Option<CipherRequest>)
        ensures
            match r {
                Some(request) => {
                    let stored = packed(nonce_of(key@), enc_key@);
                    &&& self.inner().contents().contains_key(stored)
                    &&& is_request(request, nonce_of(key@), self.inner().contents()[stored])
                },
                None => !self.inner().contents().contains_key(packed(nonce_of(key@), enc_key@)),
            },
    {
        let (nonce, inner_key) = self.make_key(key, enc_key);
        match self.inner.get(inner_key.as_slice()) {
            None => None,
            Some(inner_value) => Some(self.open_value_request(inner_value.as_slice(), &nonce)),
        }
    }

    /// Stores an entry. `enc_key` and `enc_value` are the sealed forms of
    /// `key` and of the value. Only sealed bytes reach the inner store.
    pub fn insert(&mut self, key: &[u8], enc_key: &[u8], enc_value: &[u8])
        ensures
            final(self).key() == old(self).key(),
            final(self).inner().contents() == old(self).inner().contents().insert(
                packed(nonce_of(key@), enc_key@),
                enc_value@,
            ),
    {
        let (_, inner_key) = self.make_key(key, enc_key);
        self.inner.insert(inner_key.as_slice(), enc_value)
    }

    /// Removes an entry. `enc_key` is the sealed form of `key`.
    pub fn remove(&mut self, key: &[u8], enc_key: &[u8])
        ensures
            final(self).key() == old(self).key(),
            final(self).inner().contents() == old(self).inner().contents().remove(
                packed(nonce_of(key@), enc_key@),
            ),
    {
        let (_, inner_key) = self.make_key(key, enc_key);
        self.inner.remove(inner_key.as_slice())
    }
}

/// What an iterator over the inner store shows at its position.
pub struct InnerEntry {
    pub valid: bool,
    pub key: Option<Vec<u8>>,
    pub value: Option<Vec<u8>>,
}

/// The plain view of one entry while a confidential store is walked.
///
/// The iterator over the inner store is moved by the caller. After each
/// move the caller shows this iterator where the inner one stands, with
/// the cipher's answers for the entry there, and reads the plain entry
/// from it. Entries come in the order of their stored keys, which is not
/// the order of the plain keys.
pub struct ConfidentialStoreIterator {
    key: Option<Vec<u8>>,
    value: Option<Vec<u8>>,
    error: Option<Error>,
}

/// The view of an optional byte string.
pub open spec fn opt_view(bytes: Option<Vec<u8>>) -> Option<Seq<u8>> {
    match bytes {
        Some(b) => Some(b@),
        None => None,
    }
}

/// What loading an entry leaves in the iterator: the plain key, the plain
/// value and the error. A stored key without room for a sealed key is an
/// error, as is a key or a value that does not open.
pub open spec fn loaded(
    raw_key: Seq<u8>,
    opened_key: Result<Vec<u8>, DecryptionError>,
    opened_value: Result<Vec<u8>, DecryptionError>,
) -> (Option<Seq<u8>>, Option<Seq<u8>>, Option<Error>) {
    if raw_key.len() <= NONCE_SIZE {
        (None, None, Some(Error::RawKeyTooShort))
    } else {
        match (opened_key, opened_value) {
            (Ok(k), Ok(v)) => (Some(k@), Some(v@), None),
            _ => (None, None, Some(Error::Decryption)),
        }
    }
}

/// What the iterator holds after it was reset and shown the position of
/// the inner iterator.
pub open spec fn reloaded(
    inner: InnerEntry,
    opened_key: Result<Vec<u8>, DecryptionError>,
    opened_value: Result<Vec<u8>, DecryptionError>,
) -> (Option<Seq<u8>>, Option<Seq<u8>>, Option<Error>) {
    if !inner.valid {
        (None, None, None)
    } else {
        match (inner.key, inner.value) {
            (Some(k), Some(_)) => loaded(k@, opened_key, opened_value),
            (Some(_), None) => (None, None, Some(Error::NoValue)),
            (None, _) => (None, None, Some(Error::NoKey)),
        }
    }
}

impl ConfidentialStoreIterator {
    /// The plain key of the current entry.
    pub closed spec fn key(&self) -> Option<Seq<u8>> {
        opt_view(self.key)
    }

    /// The plain value of the current entry.
    pub closed spec fn value(&self) -> Option<Seq<u8>> {
        opt_view(self.value)
    }

    /// The error that stopped the iterator.
    pub closed spec fn failure(&self) -> Option<Error> {
        self.error
    }

    /// The three of them.
    pub open spec fn state(&self) -> (Option<Seq<u8>>, Option<Seq<u8>>, Option<Error>) {
        (self.key(), self.value(), self.failure())
    }

    /// An iterator that shows no entry yet.
    pub fn new() -> (it: Self)
        ensures
            it.state() == (None::<Seq<u8>>, None::<Seq<u8>>, None::<Error>),
    {
        ConfidentialStoreIterator { key: None, value: None, error: None }
    }

    /// Forgets the current entry and the error.
    pub fn reset(&mut self)
        ensures
            final(self).state() == (None::<Seq<u8>>, None::<Seq<u8>>, None::<Error>),
    {
        self.key = None;
        self.value = None;
        self.error = None;
    }

    /// Whether the iterator shows an entry: it has met no error and the
    /// inner iterator is valid.
    pub fn is_valid(&self, inner_valid: bool) -> (valid: bool)
        ensures
            valid == (self.failure() is None && inner_valid),
    {
        self.error.is_none() && inner_valid
    }

    /// The error of this iterator, or else that of the inner one.
    pub fn error(&self, inner_error: Option<Error>) -> (e: Option<Error>)
        ensures
            e == match self.failure() {
                Some(own) => Some(own),
                None => inner_error,
            },
    {
        match self.error {
            Some(_) => self.error,
            None => inner_error,
        }
    }

    /// Takes in the entry at which the inner iterator stands: its stored
    /// key, and the cipher's answers to the requests to open that key and
    /// its value. Nothing is taken in once the iterator is not valid.
    pub fn load<S: Store>(
        &mut self,
        store: &ConfidentialStore<S>,
        inner_valid: bool,
        inner_key: &[u8],
        opened_key: Result<Vec<u8>, DecryptionError>,
        opened_value: Result<Vec<u8>, DecryptionError>,
    )
        ensures
            final(self).state() == if old(self).failure() is None && inner_valid {
                let outcome = loaded(inner_key@, opened_key, opened_value);
                match outcome.2 {
                    Some(e) => (old(self).key(), old(self).value(), Some(e)),
                    None => outcome,
                }
            } else {
                old(self).state()
            },
    {
        if !self.is_valid(inner_valid) {
            return ;
        }
        match store.get_key(inner_key, opened_key) {
            Ok((_, key)) => match store.get_value(opened_value) {
                Ok(value) => {
                    self.key = Some(key);
                    self.value = Some(value);
                },
                Err(err) => {
                    self.error = Some(err);
                },
            },
            Err(err) => {
                self.error = Some(err);
            },
        }
    }

    /// Resets the iterator and takes in the entry at which the inner
    /// iterator stands, if it stands at one.
    pub fn reset_and_load<S: Store>(
        &mut self,
        store: &ConfidentialStore<S>,
        inner: &InnerEntry,
        opened_key: Result<Vec<u8>, DecryptionError>,
        opened_value: Result<Vec<u8>, DecryptionError>,
    )
        ensures
            final(self).state() == reloaded(*inner, opened_key, opened_value),
    {
        self.reset();
        if inner.valid {
            match &inner.key {
                Some(inner_key) => match &inner.value {
                    Some(_) => {
                        self.load(store, inner.valid, inner_key.as_slice(), opened_key, opened_value);
                    },
                    None => {
                        self.error = Some(Error::NoValue);
                    },
                },
                None => {
                    self.error = Some(Error::NoKey);
                },
            }
        }
    }

    /// Steps to the item that the inner iterator yielded, and yields its
    /// plain form. An item that was yielded is taken in whether or not
    /// the inner iterator still stands at an entry: an inner iterator
    /// that steps ahead reports that it is no longer valid as soon as it
    /// has yielded its last item. Nothing is yielded where the inner
    /// iterator is exhausted, or where the item does not open, and then
    /// the error says why.
    pub fn next<S: Store>(
        &mut self,
        store: &ConfidentialStore<S>,
        item: Option<(Vec<u8>, Vec<u8>)>,
        inner_valid: bool,
        opened_key: Result<Vec<u8>, DecryptionError>,
        opened_value: Result<Vec<u8>, DecryptionError>,
    ) -> (r: Option<(Vec<u8>, Vec<u8>)>)
        ensures
            match item {
                Some(entry) => {
                    let outcome = loaded(entry.0@, opened_key, opened_value);
                    &&& final(self).state() == outcome
                    &&& match r {
                        Some((k, v)) => outcome == (Some(k@), Some(v@), None::<Error>),
                        None => outcome.2 is Some,
                    }
                },
                None => r is None && final(self).state() == (
                    None::<Seq<u8>>,
                    None::<Seq<u8>>,
                    None::<Error>,
                ),
            },
    {
        self.reset();
        match item {
            Some(entry) => {
                self.load(store, true, entry.0.as_slice(), opened_key, opened_value);
                if self.error.is_none() {
                    match (&self.key, &self.value) {
                        (Some(k), Some(v)) => Some((to_vec(k.as_slice()), to_vec(v.as_slice()))),
                        _ => None,
                    }
                } else {
                    None
                }
            },
            None => None,
        }
    }

    /// The stored key at which the inner iterator is to be placed to seek
    /// the given plain key; `enc_key` is the sealed form of `key`. After
    /// the inner iterator has moved there, [`Self::reset_and_load`] takes
    /// the entry in.
    pub fn seek<S: Store>(store: &ConfidentialStore<S>, key: &[u8], enc_key: &[u8]) -> (inner_key:
        Vec<u8>)
        ensures
            inner_key@ == packed(nonce_of(key@), enc_key@),
    {
        let (_, inner_key) = store.make_key(key, enc_key);
        inner_key
    }

    /// The plain key of the current entry.
    pub fn get_key(&self) -> (key: &Option<Vec<u8>>)
        ensures
            opt_view(*key) == self.key(),
    {
        &self.key
    }

    /// The plain value of the current entry.
    pub fn get_value(&self) -> (value: &Option<Vec<u8>>)
        ensures
            opt_view(*value) == self.value(),
    {
        &self.value
    }
}

/// What was stored for a sealed key is what a lookup with the same sealed
/// key asks to open, and no other entry of the inner store has changed.
/// The inner store has received `enc_value` and nothing else.
pub proof fn lemma_get_after_insert(
    before: Map<Seq<u8>, Seq<u8>>,
    key: Seq<u8>,
    enc_key: Seq<u8>,
    enc_value: Seq<u8>,
)
    ensures
        ({
            let stored = packed(nonce_of(key), enc_key);
            let after = before.insert(stored, enc_value);
            &&& after.contains_key(stored) && after[stored] == enc_value
            &&& forall|other: Seq<u8>|
                other != stored ==> after.contains_key(other) == before.contains_key(other) && (
                before.contains_key(other) ==> after[other] == before[other])
        }),
{
}

/// A stored key splits into a nonce and a sealed key that pack into the
/// same stored key again.
pub proof fn lemma_pack_unpack(raw_key: Seq<u8>)
    requires
        raw_key.len() > NONCE_SIZE,
    ensures
        packed(
            raw_key.subrange(0, NONCE_SIZE as int),
            raw_key.subrange(NONCE_SIZE as int, raw_key.len() as int),
        ) == raw_key,
{
    assert(raw_key.subrange(0, NONCE_SIZE as int) + raw_key.subrange(
        NONCE_SIZE as int,
        raw_key.len() as int,
    ) =~= raw_key);
}

/// A packed key splits into the nonce and the sealed key it was made of.
pub proof fn lemma_unpack_pack(nonce: Seq<u8>, enc_key: Seq<u8>)
    requires
        nonce.len() == NONCE_SIZE,
    ensures
        packed(nonce, enc_key).subrange(0, NONCE_SIZE as int) == nonce,
        packed(nonce, enc_key).subrange(NONCE_SIZE as int, packed(nonce, enc_key).len() as int)
            == enc_key,
{
    assert(packed(nonce, enc_key).subrange(0, NONCE_SIZE as int) =~= nonce);
    assert(packed(nonce, enc_key).subrange(
        NONCE_SIZE as int,
        packed(nonce, enc_key).len() as int,
    ) =~= enc_key);
}

/// The empty key is a key like any other: its stored key holds the nonce
/// and a tag, and is long enough to be split again.
pub proof fn lemma_empty_key_is_valid()
    ensures
        stored_key_len(0) == NONCE_SIZE + TAG_SIZE,
        stored_key_len(0) > NONCE_SIZE,
{
}

} // verus!
