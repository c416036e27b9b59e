//! Account addresses.

use vstd::prelude::*;
use vstd::string::StringSliceAdditionalSpecFns;
use crate::hash::{blake3_digest, digest_bytes};
use crate::storage::concat;

verus! {

/// Size of an address in bytes: a version and a truncated digest.
pub const ADDRESS_SIZE: usize = 21;

/// Version of the addresses of modules.
pub const ADDRESS_MODULE_VERSION: u8 = 0;

/// An account address.
#[derive(Clone, Copy, Debug)]
pub struct Address(pub [u8; 21]);

/// What is hashed for the address of a module: the module's name, a
/// dot, and the kind of the address.
pub open spec fn module_address_seed(module: Seq<u8>, kind: Seq<u8>) -> Seq<u8> {
    module + seq![0x2eu8] + kind
}

/// The bytes of an address of the given version over the given data: the
/// version, then the first 20 bytes of the digest of the data.
pub open spec fn address_bytes(version: u8, data: Seq<u8>) -> Seq<u8> {
    seq![version] + blake3_digest(data).subrange(0, 20)
}

impl Address {
    /// The address of the given version over the given data.
    pub fn new(version: u8, data: &[u8]) -> (address: Address)
        ensures
            address.0@ == address_bytes(version, data@),
    {
        let digest = digest_bytes(data);
        let mut bytes: [u8; 21] = [0u8; 21];
        bytes[0] = version;
        let mut i: usize = 0;
        while i < 20
            invariant
                i <= 20,
                digest@.len() == 32,
                bytes@[0] == version,
                forall|j: int| 0 <= j < i ==> bytes@[j + 1] == digest@[j],
            decreases 20 - i,
        {
            bytes[i + 1] = digest[i];
            i += 1;
        }
        assert(bytes@ =~= address_bytes(version, data@));
        Address(bytes)
    }

    /// The address that a module keeps for the given purpose.
    pub fn from_module(module: &str, kind: &str) -> (address: Address)
        ensures
            address.0@ == address_bytes(
                ADDRESS_MODULE_VERSION,
                module_address_seed(module.spec_bytes(), kind.spec_bytes()),
            ),
    {
        let dot: [u8; 1] = [0x2eu8];
        let head = concat(module.as_bytes(), dot.as_slice());
        let seed = concat(head.as_slice(), kind.as_bytes());
        assert(seed@ =~= module_address_seed(module.spec_bytes(), kind.spec_bytes()));
        Address::new(ADDRESS_MODULE_VERSION, seed.as_slice())
    }

    /// Whether the two addresses are the same.
    pub fn equals(&self, other: &Address) -> (eq: bool)
        ensures
            eq == (self.0@ == other.0@),
    {
        let mut i: usize = 0;
        while i < ADDRESS_SIZE
            invariant
                i <= ADDRESS_SIZE,
                forall|j: int| 0 <= j < i ==> self.0@[j] == other.0@[j],
            decreases ADDRESS_SIZE - i,
        {
            if self.0[i] != other.0[i] {
                return false;
            }
            i += 1;
        }
        assert(self.0@ =~= other.0@);
        true
    }
}

} // verus!
