//! Contract storage.
//!
//! The state of a contract instance lives under the name of the module,
//! the tag of instance states, the identifier of the instance, and the
//! prefix of the kind of store. The public store addresses values by the
//! digest of their key; the confidential store seals them.

use vstd::prelude::*;
use vstd::string::StringSliceAdditionalSpecFns;
use crate::contract_sdk::context::InstanceId;
use crate::contract_sdk::storage::StoreKind;
use crate::keymanager::{KeyManagerError, KeyPair};
use crate::storage::confidential::ConfidentialStore;
use crate::storage::hashed::HashedStore;
use crate::storage::prefix::{lemma_prefix_nesting, scoped, PrefixStore};
use crate::storage::Store;

verus! {

/// Unique module name.
pub const MODULE_NAME: &'static str = "contracts";

/// State tag of the states of the instances.
pub const INSTANCE_STATE: [u8; 1] = [0x04];

/// Errors of the contracts module that the store can meet.
#[derive(Debug)]
pub enum Error {
    /// The runtime has no key manager, so it has no confidential stores.
    Unsupported,
    /// The key manager did not hand out the keys of the instance.
    ExecutionFailed(KeyManagerError),
}

/// What the module knows of an instance.
#[derive(Clone, Copy, Debug)]
pub struct Instance {
    pub id: InstanceId,
}

/// The identifier of an instance in eight bytes, most significant first.
pub open spec fn storage_key(id: u64) -> Seq<u8> {
    seq![
        (id >> 56) as u8,
        (id >> 48) as u8,
        (id >> 40) as u8,
        (id >> 32) as u8,
        (id >> 24) as u8,
        (id >> 16) as u8,
        (id >> 8) as u8,
        id as u8,
    ]
}

impl InstanceId {
    /// The identifier as a state key.
    pub fn to_storage_key(&self) -> (key: [u8; 8])
        ensures
            key@ == storage_key(self.0),
    {
        let id = self.0;
        let key: [u8; 8] = [
            (id >> 56) as u8,
            (id >> 48) as u8,
            (id >> 40) as u8,
            (id >> 32) as u8,
            (id >> 24) as u8,
            (id >> 16) as u8,
            (id >> 8) as u8,
            id as u8,
        ];
        assert(key@ =~= storage_key(id));
        key
    }
}

/// The state prefix of a store of an instance.
pub open spec fn instance_prefix(id: u64, kind: StoreKind) -> Seq<u8> {
    MODULE_NAME.spec_bytes() + INSTANCE_STATE@ + storage_key(id) + kind.prefix_spec()
}

/// The state of an instance below all its prefixes.
pub type InstanceState<S> = PrefixStore<PrefixStore<PrefixStore<PrefixStore<S>>>>;

/// A store of a contract instance.
pub enum InstanceStore<S: Store> {
    /// For public storage we use a hashed store using the Blake3 hash
    /// function.
    Public(HashedStore<InstanceState<S>>),
    /// For confidential storage we seal with the keys of the instance.
    Confidential(ConfidentialStore<InstanceState<S>>),
}

impl<S: Store> InstanceStore<S> {
    /// What the store of the instance holds, below its prefix.
    pub open spec fn inner_contents(&self) -> Map<Seq<u8>, Seq<u8>> {
        match self {
            InstanceStore::Public(store) => store.parent().contents(),
            InstanceStore::Confidential(store) => store.inner().contents(),
        }
    }
}

/// Create a contract instance store over the runtime state.
///
/// `keys` is what the key manager answered to the request for the keys of
/// the instance; `None` where the runtime has no key manager. The keys
/// are looked at for a confidential store only.
pub fn for_instance<S: Store>(
    state: S,
    instance_info: &Instance,
    store_kind: StoreKind,
    keys: Option<Result<KeyPair, KeyManagerError>>,
) -> (r: Result<InstanceStore<S>, Error>)
    ensures
        match store_kind {
            StoreKind::Public => r matches Ok(InstanceStore::Public(store)) && store.parent().contents()
                == scoped(state.contents(), instance_prefix(instance_info.id.0, store_kind)),
            StoreKind::Confidential => match keys {
                None => r matches Err(Error::Unsupported),
                Some(Err(cause)) => r matches Err(Error::ExecutionFailed(e)) && e == cause,
                Some(Ok(keypair)) => r matches Ok(InstanceStore::Confidential(store)) && store.key()
                    == keypair.state_key.0@ && store.inner().contents() == scoped(
                    state.contents(),
                    instance_prefix(instance_info.id.0, store_kind),
                ),
            },
        },
{
    let key_pair: Option<KeyPair> = match store_kind {
        StoreKind::Confidential => match keys {
            None => {
                return Err(Error::Unsupported);
            },
            Some(Err(cause)) => {
                return Err(Error::ExecutionFailed(cause));
            },
            Some(Ok(keypair)) => Some(keypair),
        },
        StoreKind::Public => None,
    };
    let ghost base = state.contents();
    let store = PrefixStore::new(state, MODULE_NAME.as_bytes());
    let instance_prefix = instance_info.id.to_storage_key();
    let contract_state = PrefixStore::new(
        PrefixStore::new(store, INSTANCE_STATE.as_slice()),
        instance_prefix.as_slice(),
    );
    let kind_prefix = store_kind.prefix();
    let contract_state = PrefixStore::new(contract_state, kind_prefix.as_slice());
    proof {
        let a = MODULE_NAME.spec_bytes();
        let b = INSTANCE_STATE@;
        let c = storage_key(instance_info.id.0);
        let d = store_kind.prefix_spec();
        lemma_prefix_nesting(base, a, b);
        lemma_prefix_nesting(base, a + b, c);
        lemma_prefix_nesting(base, a + b + c, d);
    }
    match key_pair {
        None => Ok(InstanceStore::Public(HashedStore::new(contract_state))),
        Some(key_pair) => Ok(
            InstanceStore::Confidential(
                ConfidentialStore::new_with_key_pair(contract_state, key_pair),
            ),
        ),
    }
}

} // verus!
