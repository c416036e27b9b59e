//! The CBOR forms of a transaction.
//!
//! A transaction and its parts are records: mappings from the names of
//! their fields to their values, in the order in which an encoder puts
//! the names: shorter names first, and names of one length in the order
//! of their bytes. The format of a call and the kind of a signer are
//! numbers, counted from 0 in the order of their variants. Numbers are
//! unsigned integers.

use vstd::prelude::*;
use crate::cbor::{
    cbor_decoding, from_items, from_record, from_slice, into_items, into_record, into_text,
    into_unsigned, items_view, record_view, reversed, Decode, DecodeError, Encode, Item, ItemView,
    MAX_NESTING_LEVEL,
};
use crate::types::address::Address;
use crate::types::token::BaseUnits;
use crate::types::transaction::{
    AddressSpec, AuthInfo, Call, CallFormat, Fee, SignerInfo, SignerKind, Transaction,
};

verus! {

/// Records with the same names and the same form have the same values.
pub proof fn lemma_record_field(
    keys: Seq<&'static str>,
    a: Seq<ItemView>,
    b: Seq<ItemView>,
    i: int,
)
    requires
        record_view(keys, a) == record_view(keys, b),
        0 <= i < keys.len(),
    ensures
        a[i] == b[i],
{
    assert(record_view(keys, a)->Mapping_0[i] == record_view(keys, b)->Mapping_0[i]);
}

impl Encode for CallFormat {
    open spec fn encoded(&self) -> ItemView {
        ItemView::Unsigned(
            match self {
                CallFormat::Plain => 0,
                CallFormat::EncryptedX25519DeoxysII => 1,
            },
        )
    }

    fn into_cbor_value(self) -> (item: Item) {
        match self {
            CallFormat::Plain => Item::Unsigned(0),
            CallFormat::EncryptedX25519DeoxysII => Item::Unsigned(1),
        }
    }
}

impl Decode for CallFormat {
    fn try_from_cbor_value(item: Item) -> (r: Result<Self, DecodeError>) {
        match into_unsigned(item) {
            Some(0) => Ok(CallFormat::Plain),
            Some(1) => Ok(CallFormat::EncryptedX25519DeoxysII),
            Some(_) => Err(DecodeError::UnexpectedIntegerSize),
            None => Err(DecodeError::UnexpectedType),
        }
    }
}

impl Encode for SignerKind {
    open spec fn encoded(&self) -> ItemView {
        ItemView::Unsigned(
            match self {
                SignerKind::Ed25519 => 0,
                SignerKind::Secp256k1Eth => 1,
                SignerKind::Sr25519 => 2,
                SignerKind::Multisig => 3,
            },
        )
    }

    fn into_cbor_value(self) -> (item: Item) {
        match self {
            SignerKind::Ed25519 => Item::Unsigned(0),
            SignerKind::Secp256k1Eth => Item::Unsigned(1),
            SignerKind::Sr25519 => Item::Unsigned(2),
            SignerKind::Multisig => Item::Unsigned(3),
        }
    }
}

impl Decode for SignerKind {
    fn try_from_cbor_value(item: Item) -> (r: Result<Self, DecodeError>) {
        match into_unsigned(item) {
            Some(0) => Ok(SignerKind::Ed25519),
            Some(1) => Ok(SignerKind::Secp256k1Eth),
            Some(2) => Ok(SignerKind::Sr25519),
            Some(3) => Ok(SignerKind::Multisig),
            Some(_) => Err(DecodeError::UnexpectedIntegerSize),
            None => Err(DecodeError::UnexpectedType),
        }
    }
}

/// The names of the fields of a call.
pub open spec fn call_keys() -> Seq<&'static str> {
    seq!["body", "format", "method"]
}

impl Encode for Call {
    open spec fn encoded(&self) -> ItemView {
        record_view(
            call_keys(),
            seq![self.body@, self.format.encoded(), ItemView::TextString(self.method@)],
        )
    }

    fn into_cbor_value(self) -> (item: Item) {
        let keys: [&'static str; 3] = ["body", "format", "method"];
        assert(keys@ =~= call_keys());
        let mut values: Vec<Item> = Vec::new();
        values.push(self.body);
        values.push(self.format.into_cbor_value());
        values.push(Item::TextString(self.method));
        assert(items_view(values@) =~= seq![
            self.body@,
            self.format.encoded(),
            ItemView::TextString(self.method@),
        ]);
        from_record(keys.as_slice(), values)
    }
}

impl Decode for Call {
    fn try_from_cbor_value(item: Item) -> (r: Result<Self, DecodeError>) {
        let keys: [&'static str; 3] = ["body", "format", "method"];
        assert(keys@ =~= call_keys());
        let mut values = match into_record(item, keys.as_slice()) {
            Some(values) => values,
            None => {
                return Err(DecodeError::MissingField);
            },
        };
        let ghost all = values@;
        let method_item = values.pop().unwrap();
        let format_item = values.pop().unwrap();
        let body = values.pop().unwrap();
        assert(body == all[0] && format_item == all[1] && method_item == all[2]);
        assert forall|value: Self| value.encoded() == item@ implies value.format.encoded()
            == format_item@ && ItemView::TextString(value.method@) == method_item@ by {
            let fields = seq![
                value.body@,
                value.format.encoded(),
                ItemView::TextString(value.method@),
            ];
            lemma_record_field(call_keys(), fields, items_view(all), 1);
            lemma_record_field(call_keys(), fields, items_view(all), 2);
        }
        let format = match CallFormat::try_from_cbor_value(format_item) {
            Ok(format) => format,
            Err(e) => {
                return Err(e);
            },
        };
        let method = match into_text(method_item) {
            Some(method) => method,
            None => {
                return Err(DecodeError::UnexpectedType);
            },
        };
        let call = Call { format, method, body };
        assert(items_view(all) =~= seq![
            call.body@,
            call.format.encoded(),
            ItemView::TextString(call.method@),
        ]);
        Ok(call)
    }
}

/// The names of the fields of an address specification.
pub open spec fn address_spec_keys() -> Seq<&'static str> {
    seq!["kind", "address"]
}

impl Encode for AddressSpec {
    open spec fn encoded(&self) -> ItemView {
        record_view(address_spec_keys(), seq![self.kind.encoded(), self.address.encoded()])
    }

    fn into_cbor_value(self) -> (item: Item) {
        let keys: [&'static str; 2] = ["kind", "address"];
        assert(keys@ =~= address_spec_keys());
        let mut values: Vec<Item> = Vec::new();
        values.push(self.kind.into_cbor_value());
        values.push(self.address.into_cbor_value());
        assert(items_view(values@) =~= seq![self.kind.encoded(), self.address.encoded()]);
        from_record(keys.as_slice(), values)
    }
}

impl Decode for AddressSpec {
    fn try_from_cbor_value(item: Item) -> (r: Result<Self, DecodeError>) {
        let keys: [&'static str; 2] = ["kind", "address"];
        assert(keys@ =~= address_spec_keys());
        let mut values = match into_record(item, keys.as_slice()) {
            Some(values) => values,
            None => {
                return Err(DecodeError::MissingField);
            },
        };
        let ghost all = values@;
        let address_item = values.pop().unwrap();
        let kind_item = values.pop().unwrap();
        assert(kind_item == all[0] && address_item == all[1]);
        assert forall|value: Self| value.encoded() == item@ implies value.kind.encoded()
            == kind_item@ && value.address.encoded() == address_item@ by {
            let fields = seq![value.kind.encoded(), value.address.encoded()];
            lemma_record_field(address_spec_keys(), fields, items_view(all), 0);
            lemma_record_field(address_spec_keys(), fields, items_view(all), 1);
        }
        let kind = match SignerKind::try_from_cbor_value(kind_item) {
            Ok(kind) => kind,
            Err(e) => {
                return Err(e);
            },
        };
        let address = match Address::try_from_cbor_value(address_item) {
            Ok(address) => address,
            Err(e) => {
                return Err(e);
            },
        };
        let spec = AddressSpec { kind, address };
        assert(items_view(all) =~= seq![spec.kind.encoded(), spec.address.encoded()]);
        Ok(spec)
    }
}

/// The names of the fields of a signer.
pub open spec fn signer_keys() -> Seq<&'static str> {
    seq!["nonce", "address_spec"]
}

impl Encode for SignerInfo {
    open spec fn encoded(&self) -> ItemView {
        record_view(signer_keys(), seq![ItemView::Unsigned(self.nonce), self.address_spec.encoded()])
    }

    fn into_cbor_value(self) -> (item: Item) {
        let keys: [&'static str; 2] = ["nonce", "address_spec"];
        assert(keys@ =~= signer_keys());
        let mut values: Vec<Item> = Vec::new();
        values.push(Item::Unsigned(self.nonce));
        values.push(self.address_spec.into_cbor_value());
        assert(items_view(values@) =~= seq![
            ItemView::Unsigned(self.nonce),
            self.address_spec.encoded(),
        ]);
        from_record(keys.as_slice(), values)
    }
}

impl Decode for SignerInfo {
    fn try_from_cbor_value(item: Item) -> (r: Result<Self, DecodeError>) {
        let keys: [&'static str; 2] = ["nonce", "address_spec"];
        assert(keys@ =~= signer_keys());
        let mut values = match into_record(item, keys.as_slice()) {
            Some(values) => values,
            None => {
                return Err(DecodeError::MissingField);
            },
        };
        let ghost all = values@;
        let spec_item = values.pop().unwrap();
        let nonce_item = values.pop().unwrap();
        assert(nonce_item == all[0] && spec_item == all[1]);
        assert forall|value: Self| value.encoded() == item@ implies value.address_spec.encoded()
            == spec_item@ && ItemView::Unsigned(value.nonce) == nonce_item@ by {
            let fields = seq![ItemView::Unsigned(value.nonce), value.address_spec.encoded()];
            lemma_record_field(signer_keys(), fields, items_view(all), 0);
            lemma_record_field(signer_keys(), fields, items_view(all), 1);
        }
        let address_spec = match AddressSpec::try_from_cbor_value(spec_item) {
            Ok(address_spec) => address_spec,
            Err(e) => {
                return Err(e);
            },
        };
        let nonce = match into_unsigned(nonce_item) {
            Some(nonce) => nonce,
            None => {
                return Err(DecodeError::UnexpectedType);
            },
        };
        let signer = SignerInfo { address_spec, nonce };
        assert(items_view(all) =~= seq![
            ItemView::Unsigned(signer.nonce),
            signer.address_spec.encoded(),
        ]);
        Ok(signer)
    }
}

/// The names of the fields of a fee.
pub open spec fn fee_keys() -> Seq<&'static str> {
    seq!["gas", "amount", "consensus_messages"]
}

impl Encode for Fee {
    open spec fn encoded(&self) -> ItemView {
        record_view(
            fee_keys(),
            seq![
                ItemView::Unsigned(self.gas),
                self.amount.encoded(),
                ItemView::Unsigned(self.consensus_messages as u64),
            ],
        )
    }

    fn into_cbor_value(self) -> (item: Item) {
        let keys: [&'static str; 3] = ["gas", "amount", "consensus_messages"];
        assert(keys@ =~= fee_keys());
        let ghost amount = self.amount;
        let mut values: Vec<Item> = Vec::new();
        values.push(Item::Unsigned(self.gas));
        values.push(self.amount.into_cbor_value());
        values.push(Item::Unsigned(self.consensus_messages as u64));
        assert(items_view(values@) =~= seq![
            ItemView::Unsigned(self.gas),
            amount.encoded(),
            ItemView::Unsigned(self.consensus_messages as u64),
        ]);
        from_record(keys.as_slice(), values)
    }
}

impl Decode for Fee {
    fn try_from_cbor_value(item: Item) -> (r: Result<Self, DecodeError>) {
        let keys: [&'static str; 3] = ["gas", "amount", "consensus_messages"];
        assert(keys@ =~= fee_keys());
        let mut values = match into_record(item, keys.as_slice()) {
            Some(values) => values,
            None => {
                return Err(DecodeError::MissingField);
            },
        };
        let ghost all = values@;
        let messages_item = values.pop().unwrap();
        let amount_item = values.pop().unwrap();
        let gas_item = values.pop().unwrap();
        assert(gas_item == all[0] && amount_item == all[1] && messages_item == all[2]);
        assert forall|value: Self| value.encoded() == item@ implies value.amount.encoded()
            == amount_item@ && ItemView::Unsigned(value.gas) == gas_item@ && ItemView::Unsigned(
            value.consensus_messages as u64,
        ) == messages_item@ by {
            let fields = seq![
                ItemView::Unsigned(value.gas),
                value.amount.encoded(),
                ItemView::Unsigned(value.consensus_messages as u64),
            ];
            lemma_record_field(fee_keys(), fields, items_view(all), 0);
            lemma_record_field(fee_keys(), fields, items_view(all), 1);
            lemma_record_field(fee_keys(), fields, items_view(all), 2);
        }
        let amount = match BaseUnits::try_from_cbor_value(amount_item) {
            Ok(amount) => amount,
            Err(e) => {
                return Err(e);
            },
        };
        let gas = match into_unsigned(gas_item) {
            Some(gas) => gas,
            None => {
                return Err(DecodeError::UnexpectedType);
            },
        };
        let messages = match into_unsigned(messages_item) {
            Some(messages) => messages,
            None => {
                return Err(DecodeError::UnexpectedType);
            },
        };
        if messages > u32::MAX as u64 {
            return Err(DecodeError::UnexpectedIntegerSize);
        }
        let fee = Fee { amount, gas, consensus_messages: messages as u32 };
        assert(items_view(all) =~= seq![
            ItemView::Unsigned(fee.gas),
            fee.amount.encoded(),
            ItemView::Unsigned(fee.consensus_messages as u64),
        ]);
        Ok(fee)
    }
}

/// The CBOR forms of the signers.
pub open spec fn signer_views(signers: Seq<SignerInfo>) -> Seq<ItemView> {
    Seq::new(signers.len(), |i: int| signers[i].encoded())
}

/// The names of the fields of the authorisation of a transaction.
pub open spec fn auth_info_keys() -> Seq<&'static str> {
    seq!["fee", "signer_info"]
}

impl Encode for AuthInfo {
    open spec fn encoded(&self) -> ItemView {
        record_view(
            auth_info_keys(),
            seq![self.fee.encoded(), ItemView::Array(signer_views(self.signer_info@))],
        )
    }

    fn into_cbor_value(self) -> (item: Item) {
        let keys: [&'static str; 2] = ["fee", "signer_info"];
        assert(keys@ =~= auth_info_keys());
        let ghost all = self.signer_info@;
        let ghost fee = self.fee;
        let mut rest = reversed(self.signer_info);
        let mut signers: Vec<Item> = Vec::new();
        while rest.len() > 0
            invariant
                rest@.len() + signers@.len() == all.len(),
                rest@ == all.reverse().subrange(0, rest@.len() as int),
                forall|j: int|
                    0 <= j < signers@.len() ==> (#[trigger] signers@[j])@ == all[j].encoded(),
            decreases rest.len(),
        {
            let signer = rest.pop().unwrap();
            signers.push(signer.into_cbor_value());
        }
        let listed = from_items(signers);
        assert(listed@->Array_0 =~= signer_views(all));
        let mut values: Vec<Item> = Vec::new();
        values.push(self.fee.into_cbor_value());
        values.push(listed);
        assert(items_view(values@) =~= seq![fee.encoded(), ItemView::Array(signer_views(all))]);
        from_record(keys.as_slice(), values)
    }
}

impl Decode for AuthInfo {
    fn try_from_cbor_value(item: Item) -> (r: Result<Self, DecodeError>) {
        let keys: [&'static str; 2] = ["fee", "signer_info"];
        assert(keys@ =~= auth_info_keys());
        let mut values = match into_record(item, keys.as_slice()) {
            Some(values) => values,
            None => {
                return Err(DecodeError::MissingField);
            },
        };
        let ghost fields_given = values@;
        let listed = values.pop().unwrap();
        let fee_item = values.pop().unwrap();
        assert(fee_item == fields_given[0] && listed == fields_given[1]);
        assert forall|value: Self| value.encoded() == item@ implies ItemView::Array(
            signer_views(value.signer_info@),
        ) == listed@ && value.fee.encoded() == fee_item@ by {
            let fields = seq![
                value.fee.encoded(),
                ItemView::Array(signer_views(value.signer_info@)),
            ];
            lemma_record_field(auth_info_keys(), fields, items_view(fields_given), 0);
            lemma_record_field(auth_info_keys(), fields, items_view(fields_given), 1);
        }
        let fee = match Fee::try_from_cbor_value(fee_item) {
            Ok(fee) => fee,
            Err(e) => {
                return Err(e);
            },
        };
        let items = match into_items(listed) {
            Some(items) => items,
            None => {
                return Err(DecodeError::UnexpectedType);
            },
        };
        let ghost all = items@;
        let mut rest = reversed(items);
        let mut signer_info: Vec<SignerInfo> = Vec::new();
        while rest.len() > 0
            invariant
                listed@ == ItemView::Array(items_view(all)),
                forall|value: Self|
                    value.encoded() == item@ ==> ItemView::Array(
                        signer_views(#[trigger] value.signer_info@),
                    ) == listed@,
                rest@.len() + signer_info@.len() == all.len(),
                rest@ == all.reverse().subrange(0, rest@.len() as int),
                forall|j: int|
                    0 <= j < signer_info@.len() ==> (#[trigger] signer_info@[j]).encoded()
                        == all[j]@,
            decreases rest.len(),
        {
            let ghost at = signer_info@.len() as int;
            let next = rest.pop().unwrap();
            assert(next == all[at]);
            match SignerInfo::try_from_cbor_value(next) {
                Ok(signer) => {
                    signer_info.push(signer);
                },
                Err(e) => {
                    assert forall|value: Self| value.encoded() != item@ by {
                        if value.encoded() == item@ {
                            assert(signer_views(value.signer_info@) == items_view(all));
                            assert(signer_views(value.signer_info@)[at] == items_view(all)[at]);
                            assert(value.signer_info@[at].encoded() == all[at]@);
                        }
                    }
                    return Err(e);
                },
            }
        }
        let info = AuthInfo { signer_info, fee };
        assert(signer_views(info.signer_info@) =~= items_view(all));
        assert(items_view(fields_given) =~= seq![
            info.fee.encoded(),
            ItemView::Array(signer_views(info.signer_info@)),
        ]);
        Ok(info)
    }
}

/// The names of the fields of a transaction.
pub open spec fn transaction_keys() -> Seq<&'static str> {
    seq!["call", "version", "auth_info"]
}

impl Encode for Transaction {
    open spec fn encoded(&self) -> ItemView {
        record_view(
            transaction_keys(),
            seq![
                self.call.encoded(),
                ItemView::Unsigned(self.version as u64),
                self.auth_info.encoded(),
            ],
        )
    }

    fn into_cbor_value(self) -> (item: Item) {
        let keys: [&'static str; 3] = ["call", "version", "auth_info"];
        assert(keys@ =~= transaction_keys());
        let ghost call = self.call;
        let ghost auth_info = self.auth_info;
        let mut values: Vec<Item> = Vec::new();
        values.push(self.call.into_cbor_value());
        values.push(Item::Unsigned(self.version as u64));
        values.push(self.auth_info.into_cbor_value());
        assert(items_view(values@) =~= seq![
            call.encoded(),
            ItemView::Unsigned(self.version as u64),
            auth_info.encoded(),
        ]);
        from_record(keys.as_slice(), values)
    }
}

impl Decode for Transaction {
    fn try_from_cbor_value(item: Item) -> (r: Result<Self, DecodeError>) {
        let keys: [&'static str; 3] = ["call", "version", "auth_info"];
        assert(keys@ =~= transaction_keys());
        let mut values = match into_record(item, keys.as_slice()) {
            Some(values) => values,
            None => {
                return Err(DecodeError::MissingField);
            },
        };
        let ghost all = values@;
        let auth_item = values.pop().unwrap();
        let version_item = values.pop().unwrap();
        let call_item = values.pop().unwrap();
        assert(call_item == all[0] && version_item == all[1] && auth_item == all[2]);
        assert forall|value: Self| value.encoded() == item@ implies ItemView::Unsigned(
            value.version as u64,
        ) == version_item@ && value.call.encoded() == call_item@ && value.auth_info.encoded()
            == auth_item@ by {
            let fields = seq![
                value.call.encoded(),
                ItemView::Unsigned(value.version as u64),
                value.auth_info.encoded(),
            ];
            lemma_record_field(transaction_keys(), fields, items_view(all), 0);
            lemma_record_field(transaction_keys(), fields, items_view(all), 1);
            lemma_record_field(transaction_keys(), fields, items_view(all), 2);
        }
        let version = match into_unsigned(version_item) {
            Some(version) => version,
            None => {
                return Err(DecodeError::UnexpectedType);
            },
        };
        if version > u16::MAX as u64 {
            return Err(DecodeError::UnexpectedIntegerSize);
        }
        let call = match Call::try_from_cbor_value(call_item) {
            Ok(call) => call,
            Err(e) => {
                return Err(e);
            },
        };
        let auth_info = match AuthInfo::try_from_cbor_value(auth_item) {
            Ok(auth_info) => auth_info,
            Err(e) => {
                return Err(e);
            },
        };
        let tx = Transaction { version: version as u16, call, auth_info };
        assert(items_view(all) =~= seq![
            tx.call.encoded(),
            ItemView::Unsigned(tx.version as u64),
            tx.auth_info.encoded(),
        ]);
        Ok(tx)
    }
}

/// What the encoded body of a transaction decodes to: the transaction
/// whose CBOR form the bytes hold, or the reason for which they hold
/// none.
pub open spec fn is_transaction_body(raw: Seq<u8>, r: Result<Transaction, DecodeError>) -> bool {
    match cbor_decoding(raw, MAX_NESTING_LEVEL) {
        None => r == Err::<Transaction, DecodeError>(DecodeError::ParsingFailed),
        Some(item) => match r {
            Ok(tx) => tx.encoded() == item,
            Err(_) => forall|tx: Transaction| tx.encoded() != item,
        },
    }
}

/// Decodes a transaction from its encoded body.
pub fn decode_transaction(raw: &[u8]) -> (r: Result<Transaction, DecodeError>)
    ensures
        is_transaction_body(raw@, r),
{
    match from_slice(raw) {
        Some(item) => Transaction::try_from_cbor_value(item),
        None => Err(DecodeError::ParsingFailed),
    }
}

} // verus!
