//! Transactions.

use vstd::prelude::*;
use crate::cbor::{from_entries, mapping1, text, Encode, Item, ItemView};
use crate::types::address::Address;
use crate::types::token::BaseUnits;

verus! {

/// The version of transactions that the runtime accepts.
pub const LATEST_TRANSACTION_VERSION: u16 = 1;

/// How the body of a call is wrapped.
#[derive(PartialEq, Eq, Structural, Clone, Copy, Debug)]
pub enum CallFormat {
    /// The body is the plain argument of the method.
    Plain,
    /// The body is an envelope sealed to the runtime's call data key.
    EncryptedX25519DeoxysII,
}

/// A method call.
#[derive(Debug)]
pub struct Call {
    pub format: CallFormat,
    pub method: String,
    pub body: Item,
}

/// The kind of key or key set that signs for an address.
#[derive(PartialEq, Eq, Structural, Clone, Copy, Debug)]
pub enum SignerKind {
    Ed25519,
    Secp256k1Eth,
    Sr25519,
    Multisig,
}

/// Who signs, and the address that follows from it.
#[derive(Clone, Copy, Debug)]
pub struct AddressSpec {
    pub kind: SignerKind,
    pub address: Address,
}

impl AddressSpec {
    /// The address of the signer.
    pub fn address(&self) -> (address: Address)
        ensures
            address == self.address,
    {
        self.address
    }
}

/// A signer of a transaction and the nonce it signed with.
#[derive(Clone, Copy, Debug)]
pub struct SignerInfo {
    pub address_spec: AddressSpec,
    pub nonce: u64,
}

/// The fee offered with a transaction.
#[derive(Debug)]
pub struct Fee {
    pub amount: BaseUnits,
    /// The most gas that the transaction may use.
    pub gas: u64,
    /// The most consensus messages that the transaction may emit.
    pub consensus_messages: u32,
}

/// Who authorised a transaction, and the fee.
#[derive(Debug)]
pub struct AuthInfo {
    pub signer_info: Vec<SignerInfo>,
    pub fee: Fee,
}

/// A transaction whose authorisation has been checked.
#[derive(Debug)]
pub struct Transaction {
    pub version: u16,
    pub call: Call,
    pub auth_info: AuthInfo,
}

/// Why a transaction is not valid.
#[derive(PartialEq, Eq, Structural, Clone, Copy, Debug)]
pub enum TransactionError {
    /// The transaction has a version that the runtime does not accept.
    UnsupportedVersion,
    /// The transaction names no signer.
    MalformedTransaction,
}

impl Transaction {
    /// The transaction has the accepted version and names a signer.
    pub open spec fn is_valid_basic(&self) -> bool {
        self.version == LATEST_TRANSACTION_VERSION && self.auth_info.signer_info@.len() > 0
    }

    /// Perform basic validation on the transaction.
    pub fn validate_basic(&self) -> (r: Result<(), TransactionError>)
        ensures
            r == if self.version != LATEST_TRANSACTION_VERSION {
                Err::<(), TransactionError>(TransactionError::UnsupportedVersion)
            } else if self.auth_info.signer_info@.len() == 0 {
                Err::<(), TransactionError>(TransactionError::MalformedTransaction)
            } else {
                Ok::<(), TransactionError>(())
            },
            r is Ok <==> self.is_valid_basic(),
    {
        if self.version != LATEST_TRANSACTION_VERSION {
            return Err(TransactionError::UnsupportedVersion);
        }
        if self.auth_info.signer_info.len() == 0 {
            return Err(TransactionError::MalformedTransaction);
        }
        Ok(())
    }
}

/// Proof that a signer stands behind a transaction.
#[derive(Debug)]
pub enum AuthProof {
    /// A signature of the body.
    Signature(Vec<u8>),
    /// Signatures of the members of a multisig account; `None` for a
    /// member that did not sign.
    Multisig(Vec<Option<Vec<u8>>>),
    /// The body is in a scheme of its own that the named module decodes
    /// and authenticates.
    Module(String),
}

/// A transaction as it arrives: the encoded body and the proofs.
#[derive(Debug)]
pub struct UnverifiedTransaction(pub Vec<u8>, pub Vec<AuthProof>);

/// A resource, beside gas, that a batch has a limit on.
#[derive(PartialEq, Eq, Structural, Clone, Copy, Debug)]
pub enum TransactionWeight {
    /// Messages to the consensus layer.
    ConsensusMessages,
    /// Size of the transaction in bytes.
    SizeBytes,
}

/// The result of a call as it is reported on the wire.
#[derive(Debug)]
pub enum CallResult {
    Success(Item),
    Failed { module: String, code: u32, message: String },
}

/// The CBOR form of a failed call: code and module, and the message
/// where there is one.
pub open spec fn failure_view(module: Seq<char>, code: u32, message: Seq<char>) -> ItemView {
    if message.len() == 0 {
        ItemView::Mapping(
            seq![
                (ItemView::TextString("code"@), ItemView::Unsigned(code as u64)),
                (ItemView::TextString("module"@), ItemView::TextString(module)),
            ],
        )
    } else {
        ItemView::Mapping(
            seq![
                (ItemView::TextString("code"@), ItemView::Unsigned(code as u64)),
                (ItemView::TextString("module"@), ItemView::TextString(module)),
                (ItemView::TextString("message"@), ItemView::TextString(message)),
            ],
        )
    }
}

impl Encode for CallResult {
    open spec fn encoded(&self) -> ItemView {
        match self {
            CallResult::Success(value) => ItemView::Mapping(
                seq![(ItemView::TextString("ok"@), value@)],
            ),
            CallResult::Failed { module, code, message } => ItemView::Mapping(
                seq![(ItemView::TextString("fail"@), failure_view(module@, *code, message@))],
            ),
        }
    }

    fn into_cbor_value(self) -> (item: Item) {
        match self {
            CallResult::Success(value) => mapping1(text("ok"), value),
            CallResult::Failed { module, code, message } => {
                let mut entries: Vec<(Item, Item)> = Vec::new();
                entries.push((text("code"), Item::Unsigned(code as u64)));
                entries.push((text("module"), Item::TextString(module)));
                if !message.as_str().is_empty() {
                    entries.push((text("message"), Item::TextString(message)));
                }
                let failure = from_entries(entries);
                assert(failure@->Mapping_0 =~= failure_view(module@, code, message@)->Mapping_0);
                mapping1(text("fail"), failure)
            },
        }
    }
}

} // verus!
