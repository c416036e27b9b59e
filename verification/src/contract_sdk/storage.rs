//! The storage of a contract.

use vstd::prelude::*;

verus! {

/// The kind of store of a contract instance.
#[derive(PartialEq, Eq, Structural, Clone, Copy, Debug)]
pub enum StoreKind {
    /// Everyone can read what the contract stores.
    Public,
    /// What the contract stores is sealed.
    Confidential,
}

impl StoreKind {
    /// The state prefix of the store, below the prefix of the instance.
    pub open spec fn prefix_spec(&self) -> Seq<u8> {
        match self {
            StoreKind::Public => seq![0x00u8],
            StoreKind::Confidential => seq![0x01u8],
        }
    }

    /// The state prefix of the store, below the prefix of the instance.
    pub fn prefix(&self) -> (prefix: [u8; 1])
        ensures
            prefix@ == self.prefix_spec(),
    {
        let prefix: [u8; 1] = match self {
            StoreKind::Public => [0x00u8],
            StoreKind::Confidential => [0x01u8],
        };
        assert(prefix@ =~= self.prefix_spec());
        prefix
    }

    /// The number that stands for the kind at the host.
    pub fn number(&self) -> (n: u32)
        ensures
            n == match self {
                StoreKind::Public => 0u32,
                StoreKind::Confidential => 1u32,
            },
    {
        match self {
            StoreKind::Public => 0,
            StoreKind::Confidential => 1,
        }
    }
}

/// A region of the memory of the contract that the host has filled.
#[derive(Clone, Copy, Debug)]
pub struct HostRegion {
    pub offset: u32,
    pub length: u32,
}

/// What the host answers to a read: a null pointer where the key is
/// absent, else a pointer to the region that holds the value.
pub fn region_of(pointer: u32, region: HostRegion) -> (r: Option<HostRegion>)
    ensures
        r == if pointer == 0 {
            None
        } else {
            Some(region)
        },
{
    // Special value of 0 is treated as if the key doesn't exist.
    if pointer == 0 {
        return None;
    }
    Some(region)
}

/// Store backed by the host through the WASM ABI.
#[derive(Clone, Copy, Debug)]
pub struct HostStore {
    kind: StoreKind,
}

impl HostStore {
    /// The kind of the store.
    pub closed spec fn kind_spec(&self) -> StoreKind {
        self.kind
    }

    /// Create a new host-backed storage.
    pub fn new(kind: StoreKind) -> (store: Self)
        ensures
            store.kind_spec() == kind,
    {
        Self { kind }
    }

    /// The kind of the store.
    pub fn kind(&self) -> (kind: StoreKind)
        ensures
            kind == self.kind_spec(),
    {
        self.kind
    }
}

} // verus!
