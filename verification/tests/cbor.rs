use oasis_sdk::cbor;
use oasis_sdk::cbor::{
    decode_encoded, entry_count, from_entries, from_items, from_record, into_bytes, into_entries,
    into_items, into_record, into_text, into_unsigned, is_text, mapping1, reversed, Decode,
    DecodeError, Encode, Item, Simple,
};
use oasis_sdk::modules::consensus_accounts::types::{
    BalanceQuery, ConsensusTransferContext, ConsensusWithdrawContext, Deposit, Withdraw,
};
use oasis_sdk::modules::consensus_accounts::{GasCosts, Parameters};
use oasis_sdk::modules::core_module::types::{Metadata, ModuleVersion};
use oasis_sdk::types::address::Address;
use oasis_sdk::types::message::{MessageEventHookInvocation, MessageHandlers};
use oasis_sdk::types::token::{BaseUnits, Denomination};
use oasis_sdk::dispatcher::BatchEntry;
use oasis_sdk::types::proofs::decode_unverified;
use oasis_sdk::types::transaction::{
    AddressSpec, AuthInfo, AuthProof, Call, CallFormat, CallResult, Fee, SignerInfo, SignerKind,
    Transaction, UnverifiedTransaction,
};
use oasis_sdk::types::wire::decode_transaction;

fn show(item: &Item) -> String {
    format!("{:?}", item)
}

fn nested(depth: usize) -> Item {
    let mut item = Item::Unsigned(0);
    for _ in 0..depth {
        item = Item::Array(vec![item]);
    }
    item
}

#[test]
fn encodes_integers_in_the_shortest_form() {
    assert_eq!(cbor::to_vec(&Item::Unsigned(10)), Some(vec![0x0a]));
    assert_eq!(cbor::to_vec(&Item::Unsigned(500)), Some(vec![0x19, 0x01, 0xf4]));
    assert_eq!(cbor::to_vec(&Item::Negative(-1)), Some(vec![0x20]));
    assert_eq!(cbor::to_vec(&Item::Negative(-500)), Some(vec![0x39, 0x01, 0xf3]));
}

#[test]
fn encodes_strings_arrays_and_simple_values() {
    assert_eq!(cbor::to_vec(&cbor::text("a")), Some(vec![0x61, 0x61]));
    assert_eq!(
        cbor::to_vec(&Item::ByteString(vec![1, 2])),
        Some(vec![0x42, 0x01, 0x02])
    );
    assert_eq!(
        cbor::to_vec(&Item::Array(vec![Item::Unsigned(1), Item::Unsigned(2)])),
        Some(vec![0x82, 0x01, 0x02])
    );
    assert_eq!(cbor::to_vec(&Item::null()), Some(vec![0xf6]));
    assert_eq!(cbor::to_vec(&Item::Simple(Simple::TrueValue)), Some(vec![0xf5]));
    assert_eq!(
        cbor::to_vec(&Item::Tag(1, Box::new(Item::Unsigned(0)))),
        Some(vec![0xc1, 0x00])
    );
}

#[test]
fn encodes_mappings_with_sorted_keys() {
    let item = Item::Mapping(vec![
        (cbor::text("bb"), Item::Unsigned(2)),
        (cbor::text("a"), Item::Unsigned(1)),
    ]);
    assert_eq!(
        cbor::to_vec(&item),
        Some(vec![0xa2, 0x61, 0x61, 0x01, 0x62, 0x62, 0x62, 0x02])
    );
}

#[test]
fn refuses_what_has_no_encoding() {
    let repeated = Item::Mapping(vec![
        (cbor::text("a"), Item::Unsigned(1)),
        (cbor::text("a"), Item::Unsigned(2)),
    ]);
    assert_eq!(cbor::to_vec(&repeated), None);
    assert_eq!(cbor::to_vec(&Item::Negative(i128::MAX)), None);
    assert_eq!(cbor::to_vec(&Item::Negative(0)), None);
    assert_eq!(
        cbor::to_vec(&Item::Array(vec![Item::Negative(-(1i128 << 64) - 1)])),
        None
    );
    assert!(cbor::to_vec(&Item::Negative(-(1i128 << 64))).is_some());
    assert!(cbor::to_vec(&nested(127)).is_some());
    assert_eq!(cbor::to_vec(&nested(129)), None);
}

#[test]
fn representable_looks_at_every_child() {
    assert!(Item::Negative(-1).is_representable());
    assert!(!Item::Negative(1).is_representable());
    assert!(!Item::Tag(0, Box::new(Item::Negative(5))).is_representable());
    assert!(!Item::Mapping(vec![(Item::Unsigned(1), Item::Negative(5))]).is_representable());
    assert!(!Item::Mapping(vec![(Item::Negative(5), Item::Unsigned(1))]).is_representable());
    assert!(Item::Mapping(vec![(Item::Negative(-5), Item::Unsigned(1))]).is_representable());
}

#[test]
fn decodes_what_was_encoded() {
    let item = Item::Array(vec![
        Item::Unsigned(7),
        Item::Negative(-7),
        cbor::text("text"),
        Item::ByteString(vec![9, 9]),
        Item::Mapping(vec![(Item::Unsigned(1), Item::null())]),
        Item::Tag(5, Box::new(Item::Simple(Simple::FalseValue))),
        Item::Simple(Simple::Undefined),
    ]);
    let bytes = cbor::to_vec(&item).unwrap();
    let back = cbor::from_slice(&bytes).unwrap();
    assert_eq!(show(&back), show(&item));
    assert_eq!(show(&item.duplicate()), show(&item));
}

#[test]
fn rejects_data_that_is_no_item() {
    assert!(cbor::from_slice(&[]).is_none());
    assert!(cbor::from_slice(&[0x0a, 0x0a]).is_none());
    assert!(cbor::from_slice(&[0x18, 0x0a]).is_none());
    assert!(cbor::from_slice(&[0x61]).is_none());
    assert!(cbor::from_slice(&[0xa2, 0x62, 0x62, 0x62, 0x02, 0x61, 0x61, 0x01]).is_none());
    let deep = cbor::to_vec(&nested(70)).unwrap();
    assert!(cbor::from_slice(&deep).is_none());
    let shallow = cbor::to_vec(&nested(64)).unwrap();
    assert!(cbor::from_slice(&shallow).is_some());
}

#[test]
fn takes_items_apart() {
    assert_eq!(into_unsigned(Item::Unsigned(3)), Some(3));
    assert_eq!(into_unsigned(cbor::text("3")), None);
    assert_eq!(into_text(cbor::text("t")), Some("t".to_string()));
    assert_eq!(into_text(Item::Unsigned(1)), None);
    assert_eq!(into_bytes(Item::ByteString(vec![1])), Some(vec![1]));
    assert_eq!(into_bytes(Item::Unsigned(1)), None);
    assert_eq!(into_items(Item::Unsigned(1)).map(|v| v.len()), None);
    assert_eq!(
        into_items(from_items(vec![Item::Unsigned(1)])).map(|v| v.len()),
        Some(1)
    );
    assert_eq!(into_entries(Item::Unsigned(1)).map(|v| v.len()), None);
    assert_eq!(
        into_entries(from_entries(vec![(Item::Unsigned(1), Item::null())])).map(|v| v.len()),
        Some(1)
    );
    assert!(is_text(&cbor::text("key"), "key"));
    assert!(!is_text(&cbor::text("key"), "Key"));
    assert!(!is_text(&Item::Unsigned(1), "key"));
    assert_eq!(entry_count(&mapping1(cbor::text("k"), Item::null())), Some(1));
    assert_eq!(entry_count(&Item::Array(Vec::new())), None);
    assert_eq!(reversed(vec![1, 2, 3]), vec![3, 2, 1]);
    assert_eq!(reversed(Vec::<u8>::new()), Vec::<u8>::new());
}

#[test]
fn records_keep_their_fields_in_order() {
    let item = from_record(&["a", "b"], vec![Item::Unsigned(1), Item::Unsigned(2)]);
    assert_eq!(
        show(&item),
        "Mapping([(TextString(\"a\"), Unsigned(1)), (TextString(\"b\"), Unsigned(2))])"
    );
    let values = into_record(item.duplicate(), &["a", "b"]).unwrap();
    assert_eq!(show(&values[0]), "Unsigned(1)");
    assert_eq!(show(&values[1]), "Unsigned(2)");
    assert!(into_record(item.duplicate(), &["b", "a"]).is_none());
    assert!(into_record(item.duplicate(), &["a"]).is_none());
    assert!(into_record(item, &["a", "b", "c"]).is_none());
    assert!(into_record(Item::Unsigned(1), &[]).is_none());
}

#[test]
fn decode_errors_have_messages() {
    assert_eq!(DecodeError::ParsingFailed.message(), "parsing failed");
    assert_eq!(DecodeError::UnexpectedType.message(), "unexpected type");
    assert_eq!(DecodeError::MissingField.message(), "missing field");
    assert_eq!(DecodeError::UnknownField.message(), "unknown field");
    assert_eq!(
        DecodeError::UnexpectedIntegerSize.message(),
        "unexpected integer size"
    );
}

#[test]
fn basic_values_round_trip() {
    assert_eq!(decode_encoded(77u64).unwrap(), 77);
    assert_eq!(decode_encoded(u128::MAX - 5).unwrap(), u128::MAX - 5);
    assert_eq!(decode_encoded(Address([4; 21])).unwrap().0, [4; 21]);
    let units = decode_encoded(BaseUnits::new(12, Denomination(b"TEST".to_vec()))).unwrap();
    assert_eq!(units.amount(), 12);
    assert_eq!(units.denomination().0, b"TEST".to_vec());
    assert_eq!(
        show(&1u128.into_cbor_value()),
        "ByteString([1, 0, 0, 0, 0, 0, 0, 0, 0, 0, 0, 0, 0, 0, 0, 0])"
    );
    assert!(<u128 as Decode>::try_from_cbor_value(Item::ByteString(vec![1])).is_err());
    assert!(<u64 as Decode>::try_from_cbor_value(Item::Negative(-1)).is_err());
    assert!(Address::try_from_cbor_value(Item::ByteString(vec![0; 20])).is_err());
    assert!(BaseUnits::try_from_cbor_value(Item::Array(vec![Item::Unsigned(1)])).is_err());
}

#[test]
fn calls_and_contexts_round_trip() {
    let deposit = decode_encoded(Deposit {
        to: Some(Address([1; 21])),
        amount: BaseUnits::new(5, Denomination(Vec::new())),
    })
    .unwrap();
    assert_eq!(deposit.to.unwrap().0, [1; 21]);
    assert_eq!(deposit.amount.amount(), 5);
    let withdraw = decode_encoded(Withdraw {
        to: None,
        amount: BaseUnits::new(6, Denomination(Vec::new())),
    })
    .unwrap();
    assert!(withdraw.to.is_none());
    assert_eq!(withdraw.amount.amount(), 6);
    let query = decode_encoded(BalanceQuery {
        address: Address([2; 21]),
    })
    .unwrap();
    assert_eq!(query.address.0, [2; 21]);
    let transfer = decode_encoded(ConsensusTransferContext {
        to: Address([1; 21]),
        nonce: 9,
        address: Address([2; 21]),
        amount: BaseUnits::new(7, Denomination(b"T".to_vec())),
    })
    .unwrap();
    assert_eq!(transfer.to.0, [1; 21]);
    assert_eq!(transfer.nonce, 9);
    assert_eq!(transfer.address.0, [2; 21]);
    assert_eq!(transfer.amount.amount(), 7);
    let context = ConsensusWithdrawContext {
        from: Address([3; 21]),
        nonce: 1,
        address: Address([4; 21]),
        amount: BaseUnits::new(8, Denomination(b"T".to_vec())),
    }
    .into_cbor_value();
    assert!(ConsensusTransferContext::try_from_cbor_value(context.duplicate()).is_err());
    let back = ConsensusWithdrawContext::try_from_cbor_value(context).unwrap();
    assert_eq!(back.from.0, [3; 21]);
    assert_eq!(back.address.0, [4; 21]);
    assert!(Deposit::try_from_cbor_value(Item::Mapping(Vec::new())).is_err());
    assert!(Deposit::try_from_cbor_value(mapping1(cbor::text("to"), Item::null())).is_err());
}

#[test]
fn parameters_and_metadata_round_trip() {
    let params = decode_encoded(Parameters {
        gas_costs: GasCosts {
            tx_deposit: 3,
            tx_withdraw: 4,
        },
    })
    .unwrap();
    assert_eq!(params.gas_costs.tx_deposit, 3);
    assert_eq!(params.gas_costs.tx_withdraw, 4);
    assert_eq!(Parameters::default().gas_costs.tx_deposit, 0);
    assert_eq!(GasCosts::default().tx_withdraw, 0);
    let mut meta = Metadata::new();
    meta.insert("accounts".to_string(), 2);
    meta.insert("core".to_string(), 1);
    meta.insert("accounts".to_string(), 3);
    assert_eq!(meta.get("accounts"), Some(3));
    assert_eq!(meta.get("core"), Some(1));
    assert_eq!(meta.get("absent"), None);
    let back = decode_encoded(meta).unwrap();
    assert_eq!(back.versions.len(), 2);
    assert_eq!(back.get("accounts"), Some(3));
    let too_large = Item::Mapping(vec![(cbor::text("m"), Item::Unsigned(1 << 40))]);
    assert!(Metadata::try_from_cbor_value(too_large).is_err());
    let one = Metadata {
        versions: vec![ModuleVersion {
            name: "m".to_string(),
            version: 1,
        }],
    };
    assert_eq!(
        show(&one.into_cbor_value()),
        "Mapping([(TextString(\"m\"), Unsigned(1))])"
    );
}

#[test]
fn message_handlers_round_trip() {
    let table = MessageHandlers {
        entries: vec![
            (
                0,
                MessageEventHookInvocation::new("first".to_string(), Item::Unsigned(1)),
            ),
            (
                1,
                MessageEventHookInvocation::new("second".to_string(), Item::null()),
            ),
        ],
    };
    let back = decode_encoded(table).unwrap();
    assert_eq!(back.entries.len(), 2);
    assert_eq!(back.entries[0].0, 0);
    assert_eq!(back.entries[0].1.hook_name, "first");
    assert_eq!(show(&back.entries[0].1.payload), "Unsigned(1)");
    assert_eq!(back.entries[1].0, 1);
    assert_eq!(back.entries[1].1.hook_name, "second");
    let hook = MessageEventHookInvocation::new("h".to_string(), Item::Unsigned(2));
    assert_eq!(
        show(&hook.into_cbor_value()),
        "Mapping([(TextString(\"payload\"), Unsigned(2)), (TextString(\"hook_name\"), \
         TextString(\"h\"))])"
    );
    let swapped = Item::Mapping(vec![
        (cbor::text("hook_name"), cbor::text("h")),
        (cbor::text("payload"), Item::Unsigned(2)),
    ]);
    assert!(MessageEventHookInvocation::try_from_cbor_value(swapped).is_err());
    let bad_index = Item::Mapping(vec![(Item::Unsigned(1 << 33), Item::null())]);
    assert!(MessageHandlers::try_from_cbor_value(bad_index).is_err());
}

#[test]
fn call_results_have_their_wire_form() {
    assert_eq!(
        show(&CallResult::Success(Item::Unsigned(1)).into_cbor_value()),
        "Mapping([(TextString(\"ok\"), Unsigned(1))])"
    );
    let failed = CallResult::Failed {
        module: "m".to_string(),
        code: 2,
        message: String::new(),
    };
    assert_eq!(
        show(&failed.into_cbor_value()),
        "Mapping([(TextString(\"fail\"), Mapping([(TextString(\"code\"), Unsigned(2)), \
         (TextString(\"module\"), TextString(\"m\"))]))])"
    );
}

#[test]
fn transaction_as_it_arrives_round_trips_through_bytes() {
    let utx = UnverifiedTransaction(
        vec![1, 2, 3],
        vec![
            AuthProof::Signature(vec![9; 64]),
            AuthProof::Multisig(vec![Some(vec![7; 64]), None]),
            AuthProof::Module("keyvalue.special-greeting.v0".to_string()),
        ],
    );
    let item = utx.into_cbor_value();
    assert_eq!(
        show(&item),
        format!(
            "Array([ByteString([1, 2, 3]), Array([Mapping([(TextString(\"signature\"), \
             ByteString({:?}))]), Mapping([(TextString(\"multisig\"), \
             Array([ByteString({:?}), Simple(NullValue)]))]), \
             Mapping([(TextString(\"module\"), \
             TextString(\"keyvalue.special-greeting.v0\"))])])])",
            vec![9u8; 64],
            vec![7u8; 64]
        )
    );
    let raw = cbor::to_vec(&item).unwrap();
    let back = decode_unverified(&raw).unwrap();
    assert_eq!(back.0, vec![1, 2, 3]);
    assert_eq!(back.1.len(), 3);
    assert!(matches!(&back.1[0], AuthProof::Signature(s) if s == &vec![9u8; 64]));
    assert!(
        matches!(&back.1[1], AuthProof::Multisig(m) if m == &vec![Some(vec![7u8; 64]), None])
    );
    assert!(matches!(&back.1[2], AuthProof::Module(s) if s == "keyvalue.special-greeting.v0"));
    let entry = BatchEntry::from_raw(&raw, Err("unsigned".to_string()), None);
    assert_eq!(entry.size, raw.len());
    assert!(entry.unverified.is_ok());
}

#[test]
fn bytes_that_are_no_transaction_do_not_decode() {
    assert_eq!(
        decode_unverified(&[0xff]).err(),
        Some(DecodeError::ParsingFailed)
    );
    let number = cbor::to_vec(&Item::Unsigned(7)).unwrap();
    assert_eq!(
        decode_unverified(&number).err(),
        Some(DecodeError::UnexpectedType)
    );
    let short = cbor::to_vec(&from_items(vec![Item::ByteString(vec![1])])).unwrap();
    assert_eq!(
        decode_unverified(&short).err(),
        Some(DecodeError::UnexpectedType)
    );
    let unknown = from_items(vec![
        Item::ByteString(vec![1]),
        from_items(vec![mapping1(cbor::text("other"), Item::null())]),
    ]);
    assert_eq!(
        UnverifiedTransaction::try_from_cbor_value(unknown).err(),
        Some(DecodeError::UnknownField)
    );
    let two = from_items(vec![
        Item::ByteString(vec![1]),
        from_items(vec![from_entries(vec![
            (cbor::text("module"), cbor::text("a")),
            (cbor::text("signature"), Item::ByteString(vec![2])),
        ])]),
    ]);
    assert!(UnverifiedTransaction::try_from_cbor_value(two).is_err());
    let member = from_items(vec![
        Item::ByteString(vec![1]),
        from_items(vec![mapping1(
            cbor::text("multisig"),
            from_items(vec![Item::Unsigned(1)]),
        )]),
    ]);
    assert!(UnverifiedTransaction::try_from_cbor_value(member).is_err());
    let entry = BatchEntry::from_raw(&[0xff], Err("unsigned".to_string()), None);
    assert_eq!(entry.size, 1);
    assert_eq!(entry.unverified.err(), Some(DecodeError::ParsingFailed));
}

fn sample_transaction() -> Transaction {
    Transaction {
        version: 1,
        call: Call {
            format: CallFormat::EncryptedX25519DeoxysII,
            method: "consensus.Deposit".to_string(),
            body: mapping1(cbor::text("amount"), Item::Unsigned(5)),
        },
        auth_info: AuthInfo {
            signer_info: vec![
                SignerInfo {
                    address_spec: AddressSpec {
                        kind: SignerKind::Ed25519,
                        address: Address([7; 21]),
                    },
                    nonce: 42,
                },
                SignerInfo {
                    address_spec: AddressSpec {
                        kind: SignerKind::Multisig,
                        address: Address([8; 21]),
                    },
                    nonce: 0,
                },
            ],
            fee: Fee {
                amount: BaseUnits::new(12, Denomination(b"TEST".to_vec())),
                gas: 1000,
                consensus_messages: 2,
            },
        },
    }
}

#[test]
fn transaction_round_trips_through_bytes() {
    let raw = cbor::to_vec(&sample_transaction().into_cbor_value()).unwrap();
    let back = decode_transaction(&raw).unwrap();
    assert_eq!(back.version, 1);
    assert_eq!(back.call.format, CallFormat::EncryptedX25519DeoxysII);
    assert_eq!(back.call.method, "consensus.Deposit");
    assert_eq!(
        show(&back.call.body),
        "Mapping([(TextString(\"amount\"), Unsigned(5))])"
    );
    assert_eq!(back.auth_info.signer_info.len(), 2);
    assert_eq!(back.auth_info.signer_info[0].address_spec.kind, SignerKind::Ed25519);
    assert_eq!(back.auth_info.signer_info[0].address_spec.address.0, [7; 21]);
    assert_eq!(back.auth_info.signer_info[0].nonce, 42);
    assert_eq!(back.auth_info.signer_info[1].address_spec.kind, SignerKind::Multisig);
    assert_eq!(back.auth_info.fee.amount.0, 12);
    assert_eq!(back.auth_info.fee.gas, 1000);
    assert_eq!(back.auth_info.fee.consensus_messages, 2);
    let call = decode_encoded(Call {
        format: CallFormat::Plain,
        method: "m".to_string(),
        body: Item::null(),
    })
    .unwrap();
    assert_eq!(call.format, CallFormat::Plain);
    assert_eq!(
        show(&call.into_cbor_value()),
        "Mapping([(TextString(\"body\"), Simple(NullValue)), (TextString(\"format\"), \
         Unsigned(0)), (TextString(\"method\"), TextString(\"m\"))])"
    );
}

#[test]
fn item_that_is_no_transaction_does_not_decode() {
    assert_eq!(
        decode_transaction(&[0xff]).err(),
        Some(DecodeError::ParsingFailed)
    );
    let item = sample_transaction().into_cbor_value();
    let mut entries = into_entries(item).unwrap();
    entries[1].1 = Item::Unsigned(1 << 20);
    assert_eq!(
        Transaction::try_from_cbor_value(from_entries(entries)).err(),
        Some(DecodeError::UnexpectedIntegerSize)
    );
    let item = sample_transaction().into_cbor_value();
    let mut entries = into_entries(item).unwrap();
    entries.pop();
    assert_eq!(
        Transaction::try_from_cbor_value(from_entries(entries)).err(),
        Some(DecodeError::MissingField)
    );
    assert_eq!(
        CallFormat::try_from_cbor_value(Item::Unsigned(2)).err(),
        Some(DecodeError::UnexpectedIntegerSize)
    );
    assert_eq!(
        SignerKind::try_from_cbor_value(cbor::text("ed25519")).err(),
        Some(DecodeError::UnexpectedType)
    );
    assert!(SignerKind::try_from_cbor_value(Item::Unsigned(3)).is_ok());
}
