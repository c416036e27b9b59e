//! Key material as the key manager hands it out.
//!
//! The key manager itself is reached through the host. The library takes
//! its answers as values.

use vstd::prelude::*;

verus! {

/// Size of a symmetric state key in bytes.
pub const STATE_KEY_SIZE: usize = 32;

/// Identifies a key pair at the key manager.
pub struct KeyPairId(pub [u8; 32]);

/// A public key for call data encryption.
#[derive(Debug)]
pub struct PublicKey(pub [u8; 32]);

/// A private key for call data decryption.
pub struct PrivateKey(pub [u8; 32]);

/// A symmetric key for state encryption.
pub struct StateKey(pub [u8; 32]);

/// The key pair that call data is encrypted to.
pub struct InputKeyPair {
    pub pk: PublicKey,
    pub sk: PrivateKey,
}

/// The keys that the key manager keeps for one identifier.
pub struct KeyPair {
    pub input_keypair: InputKeyPair,
    pub state_key: StateKey,
    pub checksum: Vec<u8>,
}

/// The key manager did not hand out keys.
#[derive(Debug)]
pub struct KeyManagerError {
    pub message: String,
}

} // verus!
