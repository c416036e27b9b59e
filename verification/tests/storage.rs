use oasis_sdk::hash::{digest_bytes, truncated};
use oasis_sdk::storage::confidential::{
    derive_nonce, ConfidentialStore, ConfidentialStoreIterator, DecryptionError, Error,
    InnerEntry, NONCE_SIZE, TAG_SIZE,
};
use oasis_sdk::storage::hashed::HashedStore;
use oasis_sdk::storage::overlay::{MemoryStore, OverlayStore};
use oasis_sdk::storage::prefix::PrefixStore;
use oasis_sdk::storage::typed::TypedStore;
use oasis_sdk::storage;
use oasis_sdk::storage::{bytes_eq, commit_writes, Store};
use oasis_sdk::keymanager::{InputKeyPair, KeyManagerError, KeyPair, PrivateKey, PublicKey, StateKey};

const EMPTY_DIGEST: [u8; 32] = [
    0xaf, 0x13, 0x49, 0xb9, 0xf5, 0xf9, 0xa1, 0xa6, 0xa0, 0x40, 0x4d, 0xea, 0x36, 0xdc, 0xc9,
    0x49, 0x9b, 0xcb, 0x25, 0xc9, 0xad, 0xc1, 0x12, 0xb7, 0xcc, 0x9a, 0x93, 0xca, 0xe4, 0x1f,
    0x32, 0x62,
];

fn keypair(fill: u8) -> KeyPair {
    KeyPair {
        input_keypair: InputKeyPair {
            pk: PublicKey([0u8; 32]),
            sk: PrivateKey([0u8; 32]),
        },
        state_key: StateKey([fill; 32]),
        checksum: Vec::new(),
    }
}

/// Stands in for the cipher: the sealed text is the text with every byte
/// turned over, followed by a tag of 16 bytes.
fn seal(text: &[u8]) -> Vec<u8> {
    let mut sealed: Vec<u8> = text.iter().map(|b| !b).collect();
    sealed.extend_from_slice(&[0xEE; 16]);
    sealed
}

fn open(sealed: &[u8]) -> Result<Vec<u8>, DecryptionError> {
    if sealed.len() < 16 || sealed[sealed.len() - 16..] != [0xEE; 16] {
        return Err(DecryptionError);
    }
    Ok(sealed[..sealed.len() - 16].iter().map(|b| !b).collect())
}

#[test]
fn digest_of_the_empty_input_is_the_blake3_digest() {
    assert_eq!(digest_bytes(b""), EMPTY_DIGEST);
    assert_ne!(digest_bytes(b"a"), EMPTY_DIGEST);
}

#[test]
fn truncated_digest_is_its_head() {
    assert_eq!(truncated(&EMPTY_DIGEST, 4), vec![0xaf, 0x13, 0x49, 0xb9]);
    assert_eq!(truncated(&EMPTY_DIGEST, 0), Vec::<u8>::new());
}

#[test]
fn concat_and_bytes_eq() {
    assert_eq!(storage::concat(b"ab", b"cd"), b"abcd".to_vec());
    assert!(bytes_eq(b"abc", b"abc"));
    assert!(!bytes_eq(b"abc", b"abd"));
    assert!(!bytes_eq(b"abc", b"ab"));
}

#[test]
fn memory_store_is_a_map() {
    let mut store = MemoryStore::new();
    assert_eq!(store.get(b"k"), None);
    store.insert(b"k", b"v1");
    store.insert(b"k", b"v2");
    store.insert(b"other", b"x");
    assert_eq!(store.get(b"k"), Some(b"v2".to_vec()));
    store.remove(b"k");
    assert_eq!(store.get(b"k"), None);
    assert_eq!(store.get(b"other"), Some(b"x".to_vec()));
}

#[test]
fn prefix_store_writes_under_prefix_and_nowhere_else() {
    let mut base = MemoryStore::new();
    base.insert(b"key", b"untouched");
    {
        let mut store = PrefixStore::new(&mut base, b"mod");
        store.insert(b"key", b"value");
        assert_eq!(store.get(b"key"), Some(b"value".to_vec()));
        assert_eq!(store.get(b"other"), None);
    }
    assert_eq!(base.get(b"modkey"), Some(b"value".to_vec()));
    assert_eq!(base.get(b"key"), Some(b"untouched".to_vec()));
    assert_eq!(base.get(b"mod"), None);
}

#[test]
fn nested_prefix_stores_concatenate() {
    let mut base = MemoryStore::new();
    {
        let outer = PrefixStore::new(&mut base, b"a");
        let mut inner = PrefixStore::new(outer, b"b");
        inner.insert(b"c", b"v");
        inner.remove(b"gone");
    }
    assert_eq!(base.get(b"abc"), Some(b"v".to_vec()));
}

#[test]
fn overlay_keeps_writes_apart_until_they_are_committed() {
    let mut base = MemoryStore::new();
    base.insert(b"a", b"1");
    base.insert(b"b", b"2");
    let writes = {
        let mut overlay = OverlayStore::new(&base);
        overlay.insert(b"a", b"10");
        overlay.remove(b"b");
        overlay.insert(b"c", b"3");
        assert_eq!(overlay.get(b"a"), Some(b"10".to_vec()));
        assert_eq!(overlay.get(b"b"), None);
        assert_eq!(overlay.get(b"c"), Some(b"3".to_vec()));
        overlay.into_writes()
    };
    assert_eq!(base.get(b"a"), Some(b"1".to_vec()));
    assert_eq!(base.get(b"b"), Some(b"2".to_vec()));
    assert_eq!(base.get(b"c"), None);
    commit_writes(&writes, &mut base);
    assert_eq!(base.get(b"a"), Some(b"10".to_vec()));
    assert_eq!(base.get(b"b"), None);
    assert_eq!(base.get(b"c"), Some(b"3".to_vec()));
}

#[test]
fn hashed_store_keeps_values_under_the_digest() {
    let mut base = MemoryStore::new();
    {
        let mut store = HashedStore::new(&mut base);
        store.insert(b"", b"value");
        assert_eq!(store.get(b""), Some(b"value".to_vec()));
        assert_eq!(store.get(b"a"), None);
    }
    assert_eq!(base.get(&EMPTY_DIGEST), Some(b"value".to_vec()));
    assert_eq!(base.get(b""), None);
    let mut store = HashedStore::new(&mut base);
    store.remove(b"");
    assert_eq!(store.get(b""), None);
}

#[test]
fn typed_store_keeps_encoded_values() {
    let mut base = MemoryStore::new();
    {
        let mut store = TypedStore::new(&mut base);
        assert!(store.insert(b"n", 500u64));
        assert_eq!(store.get::<u64>(b"n"), Some(500));
        assert_eq!(store.get::<u64>(b"absent"), None);
    }
    assert_eq!(base.get(b"n"), Some(vec![0x19, 0x01, 0xf4]));
    base.insert(b"text", &[0x61, 0x61]);
    let store = TypedStore::new(&mut base);
    assert_eq!(store.get::<u64>(b"text"), None);
}

#[test]
fn nonce_is_the_head_of_the_digest_of_the_plain_key() {
    assert_eq!(derive_nonce(b"").to_vec(), EMPTY_DIGEST[..15].to_vec());
    assert_eq!(derive_nonce(b"key").to_vec(), digest_bytes(b"key")[..15].to_vec());
    assert_eq!(derive_nonce(b"key"), derive_nonce(b"key"));
    assert_ne!(derive_nonce(b"key"), derive_nonce(b"kez"));
}

#[test]
fn confidential_store_takes_its_key_from_the_key_pair() {
    let store = ConfidentialStore::new_with_key_pair(MemoryStore::new(), keypair(7));
    assert_eq!(store.cipher_key(), &[7u8; 32]);
    let store =
        ConfidentialStore::new_with_id_from_client(Ok(keypair(9)), MemoryStore::new()).unwrap();
    assert_eq!(store.cipher_key(), &[9u8; 32]);
    let failed = ConfidentialStore::new_with_id_from_client(
        Err(KeyManagerError {
            message: "no keys".to_string(),
        }),
        MemoryStore::new(),
    );
    assert!(matches!(failed, Err(Error::KeyManager)));
}

#[test]
fn stored_key_is_nonce_then_sealed_key() {
    let store = ConfidentialStore::new_with_key_pair(MemoryStore::new(), keypair(1));
    let request = store.key_request(b"plain");
    assert_eq!(request.nonce, derive_nonce(b"plain"));
    assert_eq!(request.text, b"plain".to_vec());
    assert_eq!(request.additional_data, derive_nonce(b"plain").to_vec());
    let sealed = seal(&request.text);
    let (nonce, stored) = store.make_key(b"plain", &sealed);
    assert_eq!(nonce, derive_nonce(b"plain"));
    assert_eq!(stored[..NONCE_SIZE], nonce[..]);
    assert_eq!(stored[NONCE_SIZE..], sealed[..]);
    assert_eq!(stored, store.pack_key(&sealed, &nonce));
}

#[test]
fn zero_length_key_is_valid() {
    let store = ConfidentialStore::new_with_key_pair(MemoryStore::new(), keypair(1));
    let sealed = seal(b"");
    let (_, stored) = store.make_key(b"", &sealed);
    assert_eq!(stored.len(), NONCE_SIZE + TAG_SIZE);
    assert_eq!(stored.len(), 31);
    let (nonce, enc_key) = store.unpack_key(&stored).unwrap();
    assert_eq!(nonce.to_vec(), EMPTY_DIGEST[..15].to_vec());
    assert_eq!(enc_key, sealed);
}

#[test]
fn unpack_is_the_inverse_of_pack() {
    let store = ConfidentialStore::new_with_key_pair(MemoryStore::new(), keypair(1));
    let nonce = [3u8; 15];
    let packed = store.pack_key(b"sealed key", &nonce);
    let (n, k) = store.unpack_key(&packed).unwrap();
    assert_eq!(n, nonce);
    assert_eq!(k, b"sealed key".to_vec());
    assert_eq!(store.pack_key(&k, &n), packed);
}

#[test]
fn raw_key_without_room_for_a_sealed_key_is_no_key() {
    let store = ConfidentialStore::new_with_key_pair(MemoryStore::new(), keypair(1));
    assert!(store.unpack_key(&[0u8; 14]).is_none());
    assert!(store.unpack_key(&[0u8; 15]).is_none());
    assert!(store.unpack_key(&[0u8; 16]).is_some());
    assert!(matches!(
        store.get_key(&[0u8; 15], Ok(Vec::new())),
        Err(Error::RawKeyTooShort)
    ));
    assert!(matches!(
        store.open_key_request(&[0u8; 3]),
        Err(Error::RawKeyTooShort)
    ));
    assert!(matches!(
        store.get_key(&[0u8; 16], Err(DecryptionError)),
        Err(Error::Decryption)
    ));
    assert_eq!(Error::RawKeyTooShort.message(), "raw key value not long enough");
}

#[test]
fn insert_then_get_asks_to_open_what_was_stored() {
    let mut store = ConfidentialStore::new_with_key_pair(MemoryStore::new(), keypair(1));
    let enc_key = seal(b"key");
    let nonce = derive_nonce(b"key");
    let value_request = store.make_value(b"value", &nonce);
    assert_eq!(value_request.text, b"value".to_vec());
    assert_eq!(value_request.additional_data, nonce.to_vec());
    let enc_value = seal(&value_request.text);
    store.insert(b"key", &enc_key, &enc_value);
    let request = store.get(b"key", &enc_key).unwrap();
    assert_eq!(request.nonce, nonce);
    assert_eq!(request.text, enc_value);
    assert_eq!(store.get_value(open(&request.text)).unwrap(), b"value".to_vec());
    assert!(store.get(b"other", &seal(b"other")).is_none());
    store.remove(b"key", &enc_key);
    assert!(store.get(b"key", &enc_key).is_none());
}

#[test]
fn inner_store_holds_sealed_bytes_only() {
    let mut store = ConfidentialStore::new_with_key_pair(MemoryStore::new(), keypair(1));
    let enc_key = seal(b"key");
    let enc_value = seal(b"value");
    store.insert(b"key", &enc_key, &enc_value);
    let inner = store.into_inner();
    let mut stored_key = derive_nonce(b"key").to_vec();
    stored_key.extend_from_slice(&enc_key);
    assert_eq!(inner.get(&stored_key), Some(enc_value));
    assert_eq!(inner.get(b"key"), None);
}

#[test]
fn iterator_reports_short_raw_key_as_error() {
    let store = ConfidentialStore::new_with_key_pair(MemoryStore::new(), keypair(1));
    let mut it = ConfidentialStoreIterator::new();
    let inner = InnerEntry {
        valid: true,
        key: Some(vec![1, 2, 3]),
        value: Some(seal(b"v")),
    };
    it.reset_and_load(&store, &inner, Ok(Vec::new()), open(&seal(b"v")));
    assert!(!it.is_valid(true));
    assert_eq!(it.error(None), Some(Error::RawKeyTooShort));
    assert_eq!(it.get_key(), &None);
    assert_eq!(it.get_value(), &None);
}

#[test]
fn iterator_shows_the_plain_entry() {
    let store = ConfidentialStore::new_with_key_pair(MemoryStore::new(), keypair(1));
    let enc_key = seal(b"b");
    let (_, stored_key) = store.make_key(b"b", &enc_key);
    let mut it = ConfidentialStoreIterator::new();
    assert_eq!(ConfidentialStoreIterator::seek(&store, b"b", &enc_key), stored_key);
    let inner = InnerEntry {
        valid: true,
        key: Some(stored_key.clone()),
        value: Some(seal(b"value of b")),
    };
    let request = store.open_key_request(&stored_key).unwrap();
    assert_eq!(request.text, enc_key);
    it.reset_and_load(&store, &inner, open(&request.text), open(&seal(b"value of b")));
    assert!(it.is_valid(true));
    assert_eq!(it.get_key(), &Some(b"b".to_vec()));
    assert_eq!(it.get_value(), &Some(b"value of b".to_vec()));
    assert_eq!(it.error(None), None);
    it.reset();
    assert_eq!(it.get_key(), &None);
}

#[test]
fn iterator_stops_where_the_inner_iterator_stops() {
    let store = ConfidentialStore::new_with_key_pair(MemoryStore::new(), keypair(1));
    let mut it = ConfidentialStoreIterator::new();
    let inner = InnerEntry {
        valid: false,
        key: None,
        value: None,
    };
    it.reset_and_load(&store, &inner, Err(DecryptionError), Err(DecryptionError));
    assert!(!it.is_valid(false));
    assert_eq!(it.error(None), None);
    assert_eq!(it.error(Some(Error::NoKey)), Some(Error::NoKey));
    let missing_value = InnerEntry {
        valid: true,
        key: Some(vec![0u8; 20]),
        value: None,
    };
    it.reset_and_load(&store, &missing_value, Ok(Vec::new()), Ok(Vec::new()));
    assert_eq!(it.error(None), Some(Error::NoValue));
    let missing_key = InnerEntry {
        valid: true,
        key: None,
        value: None,
    };
    it.reset_and_load(&store, &missing_key, Ok(Vec::new()), Ok(Vec::new()));
    assert_eq!(it.error(None), Some(Error::NoKey));
}

#[test]
fn iterator_next_yields_plain_items() {
    let store = ConfidentialStore::new_with_key_pair(MemoryStore::new(), keypair(1));
    let mut it = ConfidentialStoreIterator::new();
    let (_, stored_key) = store.make_key(b"a", &seal(b"a"));
    let item = Some((stored_key, seal(b"1")));
    let yielded = it.next(&store, item, true, open(&seal(b"a")), open(&seal(b"1")));
    assert_eq!(yielded, Some((b"a".to_vec(), b"1".to_vec())));
    let failed = it.next(
        &store,
        Some((vec![0u8; 40], seal(b"1"))),
        true,
        Err(DecryptionError),
        open(&seal(b"1")),
    );
    assert_eq!(failed, None);
    assert_eq!(it.error(None), Some(Error::Decryption));
    assert_eq!(it.next(&store, None, false, Ok(Vec::new()), Ok(Vec::new())), None);
}

#[test]
fn iterator_yields_the_last_item_of_an_inner_iterator_that_steps_ahead() {
    let store = ConfidentialStore::new_with_key_pair(MemoryStore::new(), keypair(1));
    let mut it = ConfidentialStoreIterator::new();
    let pairs: [(&[u8], &[u8]); 3] = [(b"a", b"1"), (b"bb", b"22"), (b"", b"333")];
    let mut yielded = Vec::new();
    for (at, (key, value)) in pairs.iter().enumerate() {
        let (_, stored_key) = store.make_key(key, &seal(key));
        // The inner iterator has stepped ahead: after its last item it is
        // no longer valid.
        let inner_valid = at + 1 < pairs.len();
        let item = it.next(
            &store,
            Some((stored_key, seal(value))),
            inner_valid,
            open(&seal(key)),
            open(&seal(value)),
        );
        assert_eq!(it.error(None), None);
        yielded.push(item.unwrap());
    }
    assert_eq!(
        yielded,
        vec![
            (b"a".to_vec(), b"1".to_vec()),
            (b"bb".to_vec(), b"22".to_vec()),
            (Vec::new(), b"333".to_vec()),
        ]
    );
    assert_eq!(it.next(&store, None, false, Ok(Vec::new()), Ok(Vec::new())), None);
    assert_eq!(it.error(None), None);
    let short = it.next(
        &store,
        Some((vec![0u8; 10], seal(b"1"))),
        false,
        open(&seal(b"a")),
        open(&seal(b"1")),
    );
    assert_eq!(short, None);
    assert_eq!(it.error(None), Some(Error::RawKeyTooShort));
}
