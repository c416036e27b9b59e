use oasis_sdk::cbor::Item;
use oasis_sdk::context::{
    ConsensusAccount, Context, EmittedMessage, HostInfo, Mode, RuntimeBatchContext, Weights,
};
use oasis_sdk::dispatcher::Error as DispatchError;
use oasis_sdk::storage::confidential::Error as StoreError;
use oasis_sdk::contract_sdk::context::InstanceId;
use oasis_sdk::contract_sdk::storage::{region_of, HostRegion, HostStore, StoreKind};
use oasis_sdk::error::{Error, RuntimeError};
use oasis_sdk::event::{emit_event, Event};
use oasis_sdk::keymanager::{InputKeyPair, KeyManagerError, KeyPair, PrivateKey, PublicKey, StateKey};
use oasis_sdk::module;
use oasis_sdk::module::{
    AuthHandler, BlockHandler, CallResult, DispatchResult, MethodHandler, MigrationHandler,
    Module,
};
use oasis_sdk::modules::accounts;
use oasis_sdk::modules::accounts::API;
use oasis_sdk::modules::consensus;
use oasis_sdk::modules::consensus::API as _;
use oasis_sdk::modules::consensus_accounts;
use oasis_sdk::modules::consensus_accounts::types::ConsensusError;
use oasis_sdk::modules::contracts::store::{for_instance, Instance, InstanceStore};
use oasis_sdk::modules::core_module;
use oasis_sdk::modules::core_module::types::Metadata;
use oasis_sdk::storage::confidential::ConfidentialStore;
use oasis_sdk::storage::overlay::MemoryStore;
use oasis_sdk::storage::Store;
use oasis_sdk::text;
use oasis_sdk::types::address::Address;
use oasis_sdk::types::message::{
    Message, MessageEvent, MessageEventHookInvocation, MessageResult, StakingMessage,
};
use oasis_sdk::types::token::{BaseUnits, Denomination};
use oasis_sdk::types::transaction::{
    AuthInfo, Fee, Transaction, TransactionError, TransactionWeight,
};
use oasis_sdk::types::transaction::{Call, CallFormat};

type Ledger = accounts::Module;
type Consensus = consensus::Module<consensus::TestParameters>;
type ConsensusAccounts = consensus_accounts::Module<Ledger, Consensus>;

fn host() -> HostInfo {
    HostInfo {
        runtime_address: Address([0xaa; 21]),
        consensus_accounts: vec![
            ConsensusAccount {
                address: Address([1; 21]),
                general_balance: 5,
            },
            ConsensusAccount {
                address: Address([1; 21]),
                general_balance: 6,
            },
        ],
    }
}

fn batch(mode: Mode) -> RuntimeBatchContext<MemoryStore> {
    RuntimeBatchContext::new(mode, host(), MemoryStore::new(), true, 2, 100)
}

fn units(amount: u128) -> BaseUnits {
    BaseUnits::new(amount, Denomination(b"TEST".to_vec()))
}

fn keypair() -> KeyPair {
    KeyPair {
        input_keypair: InputKeyPair {
            pk: PublicKey([0u8; 32]),
            sk: PrivateKey([0u8; 32]),
        },
        state_key: StateKey([5; 32]),
        checksum: Vec::new(),
    }
}

#[test]
fn text_helpers() {
    assert_eq!(text::join("ab", "cd"), "abcd");
    assert_eq!(text::owned("x"), "x");
    assert_eq!(text::decimal(0), "0");
    assert_eq!(text::decimal(4_000_000_000), "4000000000");
    assert!(text::str_eq("a", "a"));
    assert!(!text::str_eq("a", "A"));
}

#[test]
fn addresses_are_derived_from_names() {
    let pending = consensus_accounts::address_pending_withdrawal();
    assert_eq!(pending.0[0], 0);
    let digest = oasis_sdk::hash::digest_bytes(b"consensus_accounts.pending-withdrawal");
    assert_eq!(pending.0[1..], digest[..20]);
    let same = Address::from_module("consensus_accounts", "pending-withdrawal");
    assert!(pending.equals(&same));
    assert!(!pending.equals(&Address::from_module("consensus_accounts", "other")));
    assert_eq!(Address::new(3, b"x").0[0], 3);
}

#[test]
fn ledger_moves_tokens() {
    let mut ctx = batch(Mode::ExecuteTx);
    let a = Address([1; 21]);
    let b = Address([2; 21]);
    let denomination = Denomination(b"TEST".to_vec());
    assert_eq!(Ledger::get_total_supply(&ctx, &denomination), None);
    Ledger::mint(&mut ctx, a, &units(100)).unwrap();
    assert_eq!(Ledger::get_balance(&ctx, a, &denomination), 100);
    assert_eq!(Ledger::get_total_supply(&ctx, &denomination), Some(100));
    Ledger::transfer(&mut ctx, a, b, &units(30)).unwrap();
    assert_eq!(Ledger::get_balance(&ctx, a, &denomination), 70);
    assert_eq!(Ledger::get_balance(&ctx, b, &denomination), 30);
    assert_eq!(
        Ledger::transfer(&mut ctx, a, b, &units(71)),
        Err(accounts::Error::InsufficientBalance)
    );
    Ledger::transfer(&mut ctx, a, a, &units(70)).unwrap();
    assert_eq!(Ledger::get_balance(&ctx, a, &denomination), 70);
    Ledger::burn(&mut ctx, b, &units(10)).unwrap();
    assert_eq!(Ledger::get_balance(&ctx, b, &denomination), 20);
    assert_eq!(Ledger::get_total_supply(&ctx, &denomination), Some(90));
    assert_eq!(
        Ledger::burn(&mut ctx, b, &units(21)),
        Err(accounts::Error::InsufficientBalance)
    );
    assert_eq!(
        Ledger::get_balance(&ctx, a, &Denomination(b"OTHER".to_vec())),
        0
    );
    Ledger::mint(&mut ctx, a, &units(u128::MAX - 90)).unwrap();
    assert_eq!(
        Ledger::mint(&mut ctx, b, &units(1)),
        Err(accounts::Error::InvalidArgument)
    );
    assert_eq!(Ledger::get_balance(&ctx, b, &denomination), 20);
    let (_, _, state) = ctx.commit();
    let mut key = b"accounts".to_vec();
    key.push(0x02);
    key.extend_from_slice(&b.0);
    key.extend_from_slice(b"TEST");
    let mut expected = vec![0u8; 16];
    expected[0] = 20;
    assert_eq!(state.get(&key), Some(expected));
}

#[test]
fn ledger_errors_have_codes() {
    assert_eq!(accounts::Error::InvalidArgument.code(), 1);
    assert_eq!(accounts::Error::InsufficientBalance.code(), 2);
    assert_eq!(accounts::Error::Forbidden.code(), 3);
    assert_eq!(accounts::Error::NotFound.code(), 4);
    assert_eq!(accounts::Error::NotFound.module_name(), "accounts");
    assert_eq!(
        accounts::Error::InsufficientBalance.message(),
        "insufficient balance"
    );
    let wire: RuntimeError = accounts::Error::Forbidden.into_runtime_error();
    assert_eq!(wire.module, "accounts");
    assert_eq!(wire.code, 3);
    assert_eq!(wire.message, "forbidden by policy");
    let made = RuntimeError::new("m", 1, "text");
    assert_eq!(made.module, "m");
    assert_eq!(made.message, "text");
}

#[test]
fn core_errors_have_codes_and_messages() {
    let cases: Vec<(core_module::Error, u32, &str)> = vec![
        (
            core_module::Error::MalformedTransaction("x".to_string()),
            1,
            "malformed transaction: x",
        ),
        (
            core_module::Error::InvalidTransaction("x".to_string()),
            2,
            "invalid transaction: x",
        ),
        (
            core_module::Error::InvalidMethod("m".to_string()),
            3,
            "invalid method: m",
        ),
        (core_module::Error::InvalidNonce, 4, "invalid nonce"),
        (
            core_module::Error::InsufficientFeeBalance,
            5,
            "insufficient balance to pay fees",
        ),
        (core_module::Error::OutOfMessageSlots, 6, "out of message slots"),
        (
            core_module::Error::MessageHandlerNotInvoked,
            8,
            "message handler not invoked",
        ),
        (
            core_module::Error::MessageHandlerMissing(12),
            9,
            "missing message handler for message 12",
        ),
        (
            core_module::Error::InvalidArgument("x".to_string()),
            10,
            "invalid argument: x",
        ),
        (core_module::Error::GasOverflow, 11, "gas overflow"),
        (core_module::Error::OutOfGas, 12, "out of gas"),
        (core_module::Error::BatchGasOverflow, 13, "batch gas overflow"),
        (core_module::Error::BatchOutOfGas, 14, "batch out of gas"),
        (
            core_module::Error::InvariantViolation("x".to_string()),
            17,
            "invariant violation: x",
        ),
        (
            core_module::Error::InvalidCallFormat("x".to_string()),
            18,
            "invalid call format: x",
        ),
        (core_module::Error::NotAuthenticated, 19, "not authenticated"),
    ];
    for (error, code, message) in cases {
        assert_eq!(error.module_name(), "core");
        assert_eq!(error.code(), code);
        assert_eq!(error.message(), message);
        assert!(matches!(error.into_call_result(), CallResult::Failed { .. }));
    }
}

#[test]
fn dispatcher_errors_have_codes_and_messages() {
    let cases: Vec<(DispatchError, u32, &str)> = vec![
        (DispatchError::Aborted, 1, "dispatch aborted"),
        (
            DispatchError::MalformedTransactionInBatch("x".to_string()),
            2,
            "malformed transaction in batch: x",
        ),
        (
            DispatchError::QueryAborted("x".to_string()),
            3,
            "query aborted: x",
        ),
        (
            DispatchError::KeyManagerFailure(KeyManagerError {
                message: "x".to_string(),
            }),
            4,
            "key manager failure: x",
        ),
    ];
    for (error, code, message) in cases {
        assert_eq!(error.module_name(), "dispatcher");
        assert_eq!(error.code(), code);
        assert_eq!(error.message(), message);
        assert!(error.into_abort().is_err());
    }
}

#[test]
fn module_errors_forward_module_and_code() {
    let wrapped =
        consensus_accounts::Error::Core(core_module::Error::InvalidMethod("m".to_string()));
    assert_eq!(wrapped.module_name(), "core");
    assert_eq!(wrapped.code(), 3);
    assert_eq!(wrapped.message(), "core: invalid method: m");
    let wrapped = consensus_accounts::Error::Consensus(consensus::Error::AmountNotRepresentable);
    assert_eq!(wrapped.module_name(), "consensus");
    assert_eq!(wrapped.code(), 5);
    assert_eq!(wrapped.message(), "consensus: amount not representable");
    assert_eq!(consensus_accounts::Error::InvalidArgument.code(), 1);
    assert_eq!(consensus_accounts::Error::InvalidDenomination.code(), 2);
    let own = consensus_accounts::Error::InsufficientWithdrawBalance;
    assert_eq!(own.module_name(), "consensus_accounts");
    assert_eq!(own.code(), 3);
    assert_eq!(consensus::Error::InvalidArgument.code(), 1);
    assert_eq!(consensus::Error::InvalidDenomination.code(), 2);
    assert_eq!(consensus::Error::InternalStateError.code(), 3);
    assert_eq!(consensus::Error::ConsensusIncompatibleSigner.code(), 4);
    let through = consensus::Error::Core(core_module::Error::OutOfGas);
    assert_eq!(through.module_name(), "core");
    assert_eq!(through.code(), 12);
}

#[test]
fn call_result_on_the_wire() {
    assert!(CallResult::Success(Item::null()).is_success());
    let failed = CallResult::Failed {
        module: "m".to_string(),
        code: 1,
        message: "x".to_string(),
    };
    assert!(!failed.is_success());
    match failed.into_wire() {
        oasis_sdk::types::transaction::CallResult::Failed {
            module,
            code,
            message,
        } => {
            assert_eq!(module, "m");
            assert_eq!(code, 1);
            assert_eq!(message, "x");
        }
        _ => panic!("not failed"),
    }
    let aborted = CallResult::Aborted(oasis_sdk::dispatcher::Error::QueryAborted("q".to_string()));
    assert!(!aborted.is_success());
    match aborted.into_wire() {
        oasis_sdk::types::transaction::CallResult::Failed {
            module,
            code,
            message,
        } => {
            assert_eq!(module, "dispatcher");
            assert_eq!(code, 3);
            assert_eq!(message, "query aborted: q");
        }
        _ => panic!("not failed"),
    }
}

#[test]
fn dispatch_result_becomes_a_result() {
    let handled: DispatchResult<u8, u16> = DispatchResult::Handled(5);
    assert_eq!(handled.ok_or("unhandled"), Ok(5));
    let unhandled: DispatchResult<u8, u16> = DispatchResult::Unhandled(1);
    assert_eq!(unhandled.ok_or("unhandled"), Err("unhandled"));
    let handled: DispatchResult<u8, u16> = DispatchResult::Handled(5);
    assert_eq!(handled.ok_or_else(|| 7), Ok(5));
    let unhandled: DispatchResult<u8, u16> = DispatchResult::Unhandled(1);
    assert_eq!(unhandled.ok_or_else(|| 7), Err(7));
}

#[test]
fn empty_module_handles_nothing() {
    let mut ctx = batch(Mode::ExecuteTx);
    let mut prefixes = Vec::new();
    let auth_info = AuthInfo {
        signer_info: Vec::new(),
        fee: Fee {
            amount: units(0),
            gas: 0,
            consensus_messages: 0,
        },
    };
    assert!(matches!(
        <() as MethodHandler>::prefetch(&mut prefixes, "m", Item::null(), &auth_info),
        DispatchResult::Unhandled(_)
    ));
    assert!(matches!(
        <() as MethodHandler>::dispatch_query(&mut ctx, "m", Item::null()),
        DispatchResult::Unhandled(_)
    ));
    let result = MessageResult {
        event: MessageEvent {
            module: String::new(),
            code: 0,
            index: 0,
        },
        context: Item::null(),
    };
    assert!(matches!(
        <() as MethodHandler>::dispatch_message_result(&mut ctx, "h", result),
        DispatchResult::Unhandled(_)
    ));
    assert!(matches!(
        <() as AuthHandler>::decode_tx(&mut ctx, "scheme", b""),
        Ok(None)
    ));
    assert!(matches!(
        <((), ()) as AuthHandler>::decode_tx(&mut ctx, "scheme", b""),
        Ok(None)
    ));
    let mut meta = Metadata::new();
    assert!(!<((), ()) as MigrationHandler>::init_or_migrate(
        &mut ctx,
        &mut meta,
        ((), ())
    ));
    let limits = <((), ()) as BlockHandler>::get_block_weight_limits(&mut ctx);
    assert_eq!(limits.get(TransactionWeight::ConsensusMessages), None);
    <((), ()) as BlockHandler>::begin_block(&mut ctx);
    <((), ()) as BlockHandler>::end_block(&mut ctx);
}

#[test]
fn module_initialises_its_state_once() {
    let mut ctx = batch(Mode::ExecuteTx);
    let mut meta = Metadata::new();
    let genesis = consensus_accounts::Genesis {
        parameters: consensus_accounts::Parameters {
            gas_costs: consensus_accounts::GasCosts {
                tx_deposit: 1,
                tx_withdraw: 2,
            },
        },
    };
    assert_eq!(ConsensusAccounts::params(&ctx).gas_costs.tx_deposit, 0);
    assert!(<ConsensusAccounts as MigrationHandler>::init_or_migrate(
        &mut ctx, &mut meta, genesis
    ));
    assert_eq!(meta.get("consensus_accounts"), Some(1));
    assert_eq!(ConsensusAccounts::params(&ctx).gas_costs.tx_deposit, 1);
    assert_eq!(ConsensusAccounts::params(&ctx).gas_costs.tx_withdraw, 2);
    let other = consensus_accounts::Genesis {
        parameters: consensus_accounts::Parameters::default(),
    };
    assert!(!<ConsensusAccounts as MigrationHandler>::init_or_migrate(
        &mut ctx, &mut meta, other
    ));
    assert_eq!(ConsensusAccounts::params(&ctx).gas_costs.tx_deposit, 1);
    assert_eq!(ConsensusAccounts::name(), "consensus_accounts");
    assert_eq!(ConsensusAccounts::version(), 1);
}

#[test]
fn consensus_amounts_and_accounts() {
    let ctx = batch(Mode::ExecuteTx);
    assert_eq!(
        Consensus::consensus_denomination(&ctx).unwrap().0,
        b"TEST".to_vec()
    );
    assert_eq!(Consensus::amount_to_consensus(&ctx, 7).unwrap(), 7);
    assert_eq!(Consensus::amount_from_consensus(&ctx, 7).unwrap(), 7);
    let account = Consensus::account(&ctx, Address([1; 21])).unwrap();
    assert_eq!(account.general_balance, 5);
    assert!(matches!(
        Consensus::account(&ctx, Address([2; 21])),
        Err(consensus::Error::InternalStateError)
    ));
    assert_eq!(ctx.runtime_address().0, [0xaa; 21]);
    assert!(ctx.has_key_manager());
    assert!(!ctx.is_check_only());
    assert!(!ctx.is_simulation());
    assert!(batch(Mode::CheckTx).is_check_only());
    assert!(batch(Mode::SimulateTx).is_simulation());
}

#[test]
fn batch_context_limits_messages() {
    let message = || {
        Message::Staking(StakingMessage::Transfer {
            to: Address([1; 21]),
            amount: 1,
        })
    };
    let hook = || MessageEventHookInvocation::new("h".to_string(), Item::null());
    let mut ctx = batch(Mode::ExecuteTx);
    assert!(ctx.emit_message(message(), hook()).is_ok());
    let two = vec![
        EmittedMessage {
            message: message(),
            hook: hook(),
        },
        EmittedMessage {
            message: message(),
            hook: hook(),
        },
    ];
    assert!(matches!(
        ctx.emit_messages(two),
        Err(core_module::Error::OutOfMessageSlots)
    ));
    assert!(ctx
        .emit_messages(vec![EmittedMessage {
            message: message(),
            hook: hook(),
        }])
        .is_ok());
    assert!(matches!(
        ctx.emit_message(message(), hook()),
        Err(core_module::Error::OutOfMessageSlots)
    ));
    let (tags, messages, _) = ctx.commit();
    assert!(tags.is_empty());
    assert_eq!(messages.len(), 2);
}

#[test]
fn weights_are_merged_with_the_later_value() {
    let mut first = Weights::new();
    first.insert(TransactionWeight::ConsensusMessages, 1);
    first.insert(TransactionWeight::SizeBytes, 2);
    let mut second = Weights::new();
    second.insert(TransactionWeight::SizeBytes, 3);
    first.extend(&second);
    assert_eq!(first.get(TransactionWeight::ConsensusMessages), Some(1));
    assert_eq!(first.get(TransactionWeight::SizeBytes), Some(3));
}

#[test]
fn events_become_tags() {
    let event = consensus_accounts::Event::Deposit {
        from: Address([1; 21]),
        nonce: 2,
        to: Address([3; 21]),
        amount: units(4),
        error: Some(ConsensusError::from_event(MessageEvent {
            module: "staking".to_string(),
            code: 9,
            index: 0,
        })),
    };
    assert_eq!(event.code(), 1);
    assert_eq!(<consensus_accounts::Event as Event>::module_name(), "consensus_accounts");
    let tag = event.into_tag().unwrap();
    let mut key = b"consensus_accounts".to_vec();
    key.extend_from_slice(&[0, 0, 0, 1]);
    assert_eq!(tag.key, key);
    let withdraw = consensus_accounts::Event::Withdraw {
        from: Address([1; 21]),
        nonce: 2,
        to: Address([3; 21]),
        amount: units(4),
        error: None,
    };
    assert_eq!(withdraw.code(), 2);
    let mut ctx = batch(Mode::ExecuteTx);
    assert!(emit_event(&mut ctx, withdraw));
    let (tags, _, _) = ctx.commit();
    assert_eq!(tags.len(), 1);
    assert_eq!(tags[0].key[tags[0].key.len() - 4..], [0, 0, 0, 2]);
}

#[test]
fn message_result_that_no_context_fits_is_left_alone() {
    let mut ctx = batch(Mode::ExecuteTx);
    let result = MessageResult {
        event: MessageEvent {
            module: String::new(),
            code: 0,
            index: 0,
        },
        context: Item::Unsigned(1),
    };
    assert!(matches!(
        <ConsensusAccounts as MethodHandler>::dispatch_message_result(
            &mut ctx,
            "consensus.TransferFromRuntime",
            result
        ),
        DispatchResult::Handled(())
    ));
    let (tags, _, _) = ctx.commit();
    assert!(tags.is_empty());
}

#[test]
fn transactions_are_validated() {
    let tx = |version: u16, signers: usize| Transaction {
        version,
        call: Call {
            format: CallFormat::Plain,
            method: "m".to_string(),
            body: Item::null(),
        },
        auth_info: AuthInfo {
            signer_info: (0..signers)
                .map(|_| oasis_sdk::types::transaction::SignerInfo {
                    address_spec: oasis_sdk::types::transaction::AddressSpec {
                        kind: oasis_sdk::types::transaction::SignerKind::Ed25519,
                        address: Address([0; 21]),
                    },
                    nonce: 0,
                })
                .collect(),
            fee: Fee {
                amount: units(0),
                gas: 0,
                consensus_messages: 0,
            },
        },
    };
    assert_eq!(tx(1, 1).validate_basic(), Ok(()));
    assert_eq!(
        tx(2, 1).validate_basic(),
        Err(TransactionError::UnsupportedVersion)
    );
    assert_eq!(
        tx(1, 0).validate_basic(),
        Err(TransactionError::MalformedTransaction)
    );
}

#[test]
fn invalid_argument_carries_the_decoding_error() {
    match module::invalid_argument(oasis_sdk::cbor::DecodeError::MissingField) {
        core_module::Error::InvalidArgument(text) => assert_eq!(text, "missing field"),
        _ => panic!("not an invalid argument"),
    }
}

#[test]
fn instance_stores_live_under_the_prefix_of_the_instance() {
    let mut state = MemoryStore::new();
    let instance = Instance {
        id: InstanceId(0x0102),
    };
    assert_eq!(instance.id.to_storage_key(), [0, 0, 0, 0, 0, 0, 1, 2]);
    match for_instance(&mut state, &instance, StoreKind::Public, None).ok().unwrap() {
        InstanceStore::Public(mut store) => store.insert(b"", b"value"),
        InstanceStore::Confidential(_) => panic!("not public"),
    }
    let mut key = b"contracts".to_vec();
    key.push(0x04);
    key.extend_from_slice(&[0, 0, 0, 0, 0, 0, 1, 2]);
    key.push(0x00);
    key.extend_from_slice(&oasis_sdk::hash::digest_bytes(b""));
    assert_eq!(state.get(&key), Some(b"value".to_vec()));

    match for_instance(&mut state, &instance, StoreKind::Confidential, Some(Ok(keypair())))
        .ok()
        .unwrap()
    {
        InstanceStore::Confidential(mut store) => {
            assert_eq!(store.cipher_key(), &[5u8; 32]);
            store.insert(b"k", b"sealed key", b"sealed value");
        }
        InstanceStore::Public(_) => panic!("not confidential"),
    }
    let mut key = b"contracts".to_vec();
    key.push(0x04);
    key.extend_from_slice(&[0, 0, 0, 0, 0, 0, 1, 2]);
    key.push(0x01);
    key.extend_from_slice(&oasis_sdk::hash::digest_bytes(b"k")[..15]);
    key.extend_from_slice(b"sealed key");
    assert_eq!(state.get(&key), Some(b"sealed value".to_vec()));
}

#[test]
fn confidential_instance_store_needs_keys() {
    let instance = Instance { id: InstanceId(1) };
    let missing = for_instance(MemoryStore::new(), &instance, StoreKind::Confidential, None);
    assert!(matches!(
        missing,
        Err(oasis_sdk::modules::contracts::store::Error::Unsupported)
    ));
    let failed = for_instance(
        MemoryStore::new(),
        &instance,
        StoreKind::Confidential,
        Some(Err(KeyManagerError {
            message: "down".to_string(),
        })),
    );
    match failed {
        Err(oasis_sdk::modules::contracts::store::Error::ExecutionFailed(cause)) => {
            assert_eq!(cause.message, "down")
        }
        _ => panic!("no failure"),
    }
    let public = for_instance(
        MemoryStore::new(),
        &instance,
        StoreKind::Public,
        Some(Err(KeyManagerError {
            message: "down".to_string(),
        })),
    );
    assert!(matches!(public, Ok(InstanceStore::Public(_))));
}

#[test]
fn confidential_store_in_a_context_needs_a_key_manager() {
    let without = RuntimeBatchContext::new(
        Mode::ExecuteTx,
        host(),
        MemoryStore::new(),
        false,
        0,
        0,
    );
    assert!(matches!(
        ConfidentialStore::new_with_id(&without, MemoryStore::new(), Ok(keypair())),
        Err(StoreError::NotAvailable)
    ));
    let with = batch(Mode::ExecuteTx);
    assert!(ConfidentialStore::new_with_id(&with, MemoryStore::new(), Ok(keypair())).is_ok());
    assert!(matches!(
        ConfidentialStore::new_with_id(
            &with,
            MemoryStore::new(),
            Err(KeyManagerError {
                message: "down".to_string()
            })
        ),
        Err(StoreError::KeyManager)
    ));
    assert_eq!(
        StoreError::NotAvailable.message(),
        "confidential transactions not available"
    );
}

#[test]
fn host_store_and_regions() {
    let store = HostStore::new(StoreKind::Confidential);
    assert_eq!(store.kind(), StoreKind::Confidential);
    assert_eq!(StoreKind::Public.number(), 0);
    assert_eq!(StoreKind::Confidential.number(), 1);
    assert_eq!(StoreKind::Public.prefix(), [0x00]);
    assert_eq!(StoreKind::Confidential.prefix(), [0x01]);
    let region = HostRegion {
        offset: 8,
        length: 4,
    };
    assert!(region_of(0, region).is_none());
    let found = region_of(16, region).unwrap();
    assert_eq!(found.offset, 8);
    assert_eq!(found.length, 4);
}
