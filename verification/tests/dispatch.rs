use oasis_sdk::callformat;
use oasis_sdk::cbor;
use oasis_sdk::cbor::{DecodeError, Encode, Item};
use oasis_sdk::context::{
    ConsensusAccount, Context, HostInfo, Mode, RuntimeBatchContext, TxContext,
};
use oasis_sdk::dispatcher;
use oasis_sdk::dispatcher::{
    authentication_failed, check_tx_result, execute_tx_result, query_result, tx_size_of,
    BatchEntry, DispatchResult, Dispatcher,
};
use oasis_sdk::error::Error;
use oasis_sdk::module;
use oasis_sdk::module::{InvariantHandler, MethodHandler};
use oasis_sdk::modules::accounts;
use oasis_sdk::modules::accounts::API;
use oasis_sdk::modules::consensus;
use oasis_sdk::modules::consensus_accounts;
use oasis_sdk::modules::consensus_accounts::types::{Deposit, Withdraw};
use oasis_sdk::modules::consensus_accounts::{GasCosts, Genesis, Parameters};
use oasis_sdk::modules::core_module;
use oasis_sdk::runtime::Runtime;
use oasis_sdk::storage::overlay::{MemoryStore, OverlayStore};
use oasis_sdk::storage::Store;
use oasis_sdk::types::address::Address;
use oasis_sdk::types::message::{Message, MessageEvent, StakingMessage};
use oasis_sdk::types::token::{BaseUnits, Denomination};
use oasis_sdk::types::transaction::{
    AddressSpec, AuthInfo, AuthProof, Call, CallFormat, Fee, SignerInfo, SignerKind, Transaction,
    TransactionWeight, UnverifiedTransaction,
};

type Ledger = accounts::Module;
type Consensus = consensus::Module<consensus::TestParameters>;
type ConsensusAccounts = consensus_accounts::Module<Ledger, Consensus>;

struct TestRuntime;

impl Runtime for TestRuntime {
    type Modules = (ConsensusAccounts, ());

    fn prefetch_limit() -> u16 {
        0
    }

    fn genesis_state() -> (Genesis, ()) {
        (
            Genesis {
                parameters: Parameters {
                    gas_costs: GasCosts {
                        tx_deposit: 10,
                        tx_withdraw: 20,
                    },
                },
            },
            (),
        )
    }
}

struct PrefetchingRuntime;

impl Runtime for PrefetchingRuntime {
    type Modules = (ConsensusAccounts, ());

    fn prefetch_limit() -> u16 {
        16
    }

    fn genesis_state() -> (Genesis, ()) {
        TestRuntime::genesis_state()
    }
}

fn address(fill: u8) -> Address {
    Address([fill; 21])
}

fn test_units(amount: u128) -> BaseUnits {
    BaseUnits::new(amount, Denomination(b"TEST".to_vec()))
}

fn host(runtime_balance: u128) -> HostInfo {
    HostInfo {
        runtime_address: address(0xaa),
        consensus_accounts: vec![ConsensusAccount {
            address: address(0xaa),
            general_balance: runtime_balance,
        }],
    }
}

fn transaction(method: &str, body: Item, signer: Address, nonce: u64, gas: u64) -> Transaction {
    Transaction {
        version: 1,
        call: Call {
            format: CallFormat::Plain,
            method: method.to_string(),
            body,
        },
        auth_info: AuthInfo {
            signer_info: vec![SignerInfo {
                address_spec: AddressSpec {
                    kind: SignerKind::Ed25519,
                    address: signer,
                },
                nonce,
            }],
            fee: Fee {
                amount: BaseUnits::new(0, Denomination(Vec::new())),
                gas,
                consensus_messages: 1,
            },
        },
    }
}

fn entry(tx: Transaction) -> BatchEntry {
    BatchEntry {
        size: 100,
        unverified: Ok(UnverifiedTransaction(
            vec![1, 2, 3],
            vec![AuthProof::Signature(vec![0; 64])],
        )),
        verified: Ok(tx),
        opened: None,
    }
}

fn deposit(to: Option<Address>, amount: u128, signer: Address, nonce: u64) -> BatchEntry {
    let body = Deposit {
        to,
        amount: test_units(amount),
    }
    .into_cbor_value();
    entry(transaction("consensus.Deposit", body, signer, nonce, 1000))
}

fn withdraw(to: Option<Address>, amount: u128, signer: Address, nonce: u64) -> BatchEntry {
    let body = Withdraw {
        to,
        amount: test_units(amount),
    }
    .into_cbor_value();
    entry(transaction("consensus.Withdraw", body, signer, nonce, 1000))
}

fn dispatcher() -> Dispatcher<TestRuntime> {
    Dispatcher::new(false, 32, 1_000_000)
}

fn balance(state: &MemoryStore, account: Address) -> u128 {
    let ctx =
        RuntimeBatchContext::new(Mode::CheckTx, host(0), OverlayStore::new(state), false, 0, 0);
    Ledger::get_balance(&ctx, account, &Denomination(b"TEST".to_vec()))
}

fn minted(state: MemoryStore, to: Address, amount: u128) -> MemoryStore {
    let mut ctx = RuntimeBatchContext::new(Mode::ExecuteTx, host(0), state, false, 0, 0);
    Ledger::mint(&mut ctx, to, &test_units(amount)).unwrap();
    ctx.commit().2
}

fn text_of(item: &Item) -> String {
    format!("{:?}", item)
}

fn output(bytes: &[u8]) -> String {
    text_of(&cbor::from_slice(bytes).unwrap())
}

const OK_NULL: &str = "Mapping([(TextString(\"ok\"), Simple(NullValue))])";

fn failure(module: &str, code: u32, message: &str) -> String {
    format!(
        "Mapping([(TextString(\"fail\"), Mapping([(TextString(\"code\"), Unsigned({})), \
         (TextString(\"module\"), TextString({:?})), (TextString(\"message\"), \
         TextString({:?}))]))])",
        code, module, message
    )
}

fn event_key(code: u8) -> Vec<u8> {
    let mut key = b"consensus_accounts".to_vec();
    key.extend_from_slice(&[0, 0, 0, code]);
    key
}

#[test]
fn deposit_round_trip() {
    let signer = address(1);
    let receiver = address(2);
    let (result, state) = dispatcher()
        .execute_batch(
            host(1000),
            MemoryStore::new(),
            Vec::new(),
            vec![deposit(Some(receiver), 100, signer, 7)],
        )
        .unwrap();
    assert_eq!(result.results.len(), 1);
    assert_eq!(output(&result.results[0].output), OK_NULL);
    assert_eq!(result.results[0].messages_emitted, 1);
    assert_eq!(result.messages.len(), 1);
    match result.messages[0] {
        Message::Staking(StakingMessage::Withdraw { from, amount }) => {
            assert_eq!(from.0, signer.0);
            assert_eq!(amount, 100);
        }
        _ => panic!("not a withdrawal"),
    }
    assert!(result.batch_weight_limits.is_some());
    assert_eq!(balance(&state, receiver), 0);

    let events = vec![MessageEvent {
        module: String::new(),
        code: 0,
        index: 0,
    }];
    let (result, state) = dispatcher()
        .execute_batch(host(1000), state, events, Vec::new())
        .unwrap();
    assert_eq!(balance(&state, receiver), 100);
    assert_eq!(balance(&state, signer), 0);
    assert_eq!(result.block_tags.len(), 1);
    assert_eq!(result.block_tags[0].key, event_key(1));
    let event = output(&result.block_tags[0].value);
    assert!(event.contains("(TextString(\"nonce\"), Unsigned(7))"));
    assert!(!event.contains("error"));
    assert!(result.messages.is_empty());
}

#[test]
fn deposit_that_the_consensus_layer_turns_down_changes_nothing() {
    let signer = address(1);
    let (_, state) = dispatcher()
        .execute_batch(
            host(1000),
            MemoryStore::new(),
            Vec::new(),
            vec![deposit(None, 100, signer, 7)],
        )
        .unwrap();
    let events = vec![MessageEvent {
        module: "staking".to_string(),
        code: 5,
        index: 0,
    }];
    let (result, state) = dispatcher()
        .execute_batch(host(1000), state, events, Vec::new())
        .unwrap();
    assert_eq!(balance(&state, signer), 0);
    assert_eq!(result.block_tags.len(), 1);
    assert_eq!(result.block_tags[0].key, event_key(1));
    let event = output(&result.block_tags[0].value);
    assert!(event.contains("(TextString(\"error\"), Mapping([(TextString(\"code\"), Unsigned(5)), (TextString(\"module\"), TextString(\"staking\"))]))"));
}

#[test]
fn withdraw_failure_refund() {
    let signer = address(1);
    let escrow = consensus_accounts::address_pending_withdrawal();
    let state = minted(MemoryStore::new(), signer, 100);
    let (result, state) = dispatcher()
        .execute_batch(
            host(1000),
            state,
            Vec::new(),
            vec![withdraw(None, 40, signer, 3)],
        )
        .unwrap();
    assert_eq!(output(&result.results[0].output), OK_NULL);
    assert_eq!(balance(&state, signer), 60);
    assert_eq!(balance(&state, escrow), 40);
    match result.messages[0] {
        Message::Staking(StakingMessage::Transfer { to, amount }) => {
            assert_eq!(to.0, signer.0);
            assert_eq!(amount, 40);
        }
        _ => panic!("not a transfer"),
    }
    let events = vec![MessageEvent {
        module: "staking".to_string(),
        code: 1,
        index: 0,
    }];
    let (result, state) = dispatcher()
        .execute_batch(host(1000), state, events, Vec::new())
        .unwrap();
    assert_eq!(balance(&state, signer), 100);
    assert_eq!(balance(&state, escrow), 0);
    assert_eq!(result.block_tags.len(), 1);
    assert_eq!(result.block_tags[0].key, event_key(2));
    assert!(output(&result.block_tags[0].value).contains("error"));
}

#[test]
fn withdraw_success_burns_the_escrow() {
    let signer = address(1);
    let escrow = consensus_accounts::address_pending_withdrawal();
    let state = minted(MemoryStore::new(), signer, 100);
    let (_, state) = dispatcher()
        .execute_batch(
            host(1000),
            state,
            Vec::new(),
            vec![withdraw(Some(address(9)), 40, signer, 3)],
        )
        .unwrap();
    let events = vec![MessageEvent {
        module: String::new(),
        code: 0,
        index: 0,
    }];
    let (result, state) = dispatcher()
        .execute_batch(host(1000), state, events, Vec::new())
        .unwrap();
    assert_eq!(balance(&state, signer), 60);
    assert_eq!(balance(&state, escrow), 0);
    assert_eq!(balance(&state, address(9)), 0);
    let ctx =
        RuntimeBatchContext::new(Mode::CheckTx, host(0), OverlayStore::new(&state), false, 0, 0);
    assert_eq!(
        Ledger::get_total_supply(&ctx, &Denomination(b"TEST".to_vec())),
        Some(60)
    );
    assert!(!output(&result.block_tags[0].value).contains("error"));
}

#[test]
fn withdraw_without_balance_fails_and_leaves_no_trace() {
    let signer = address(1);
    let state = minted(MemoryStore::new(), signer, 10);
    let (result, state) = dispatcher()
        .execute_batch(
            host(1000),
            state,
            Vec::new(),
            vec![withdraw(None, 40, signer, 3)],
        )
        .unwrap();
    assert_eq!(
        output(&result.results[0].output),
        failure(
            "consensus_accounts",
            3,
            "withdraw: insufficient runtime balance"
        )
    );
    assert_eq!(result.results[0].messages_emitted, 0);
    assert!(result.results[0].tags.is_empty());
    assert!(result.messages.is_empty());
    assert_eq!(balance(&state, signer), 10);
}

#[test]
fn unknown_method_fails_the_call_and_not_the_batch() {
    let tx = transaction("unknown.Method", Item::null(), address(1), 0, 1000);
    let (result, _) = dispatcher()
        .execute_batch(host(0), MemoryStore::new(), Vec::new(), vec![entry(tx)])
        .unwrap();
    assert_eq!(
        output(&result.results[0].output),
        failure("core", 3, "invalid method: unknown.Method")
    );
}

#[test]
fn method_matching_is_case_sensitive() {
    let body = Deposit {
        to: None,
        amount: test_units(1),
    }
    .into_cbor_value();
    let tx = transaction("Consensus.deposit", body, address(1), 0, 1000);
    let (result, _) = dispatcher()
        .execute_batch(host(0), MemoryStore::new(), Vec::new(), vec![entry(tx)])
        .unwrap();
    assert_eq!(
        output(&result.results[0].output),
        failure("core", 3, "invalid method: Consensus.deposit")
    );
    let mut ctx = RuntimeBatchContext::new(Mode::CheckTx, host(0), MemoryStore::new(), false, 0, 0);
    let unhandled = <ConsensusAccounts as MethodHandler>::dispatch_query(
        &mut ctx,
        "consensus.balance",
        Item::null(),
    );
    assert!(matches!(unhandled, module::DispatchResult::Unhandled(_)));
}

#[test]
fn call_that_runs_out_of_gas_fails() {
    let body = Deposit {
        to: None,
        amount: test_units(1),
    }
    .into_cbor_value();
    let tx = transaction("consensus.Deposit", body, address(1), 0, 9);
    let (result, _) = dispatcher()
        .execute_batch(host(0), MemoryStore::new(), Vec::new(), vec![entry(tx)])
        .unwrap();
    assert_eq!(
        output(&result.results[0].output),
        failure("core", 12, "core: out of gas")
    );
    assert!(result.messages.is_empty());
}

#[test]
fn call_with_an_argument_that_does_not_decode_fails() {
    let tx = transaction("consensus.Deposit", Item::Unsigned(5), address(1), 0, 1000);
    let (result, _) = dispatcher()
        .execute_batch(host(0), MemoryStore::new(), Vec::new(), vec![entry(tx)])
        .unwrap();
    assert_eq!(
        output(&result.results[0].output),
        failure("core", 10, "invalid argument: unexpected type")
    );
}

#[test]
fn deposit_in_another_denomination_is_turned_down() {
    let body = Deposit {
        to: None,
        amount: BaseUnits::new(5, Denomination(b"OTHER".to_vec())),
    }
    .into_cbor_value();
    let tx = transaction("consensus.Deposit", body, address(1), 0, 1000);
    let (result, _) = dispatcher()
        .execute_batch(host(0), MemoryStore::new(), Vec::new(), vec![entry(tx)])
        .unwrap();
    assert_eq!(
        output(&result.results[0].output),
        failure("consensus", 2, "consensus: invalid denomination")
    );
}

#[test]
fn deposit_needs_a_signer_that_the_consensus_layer_knows() {
    let body = Deposit {
        to: None,
        amount: test_units(5),
    }
    .into_cbor_value();
    let mut tx = transaction("consensus.Deposit", body, address(1), 0, 1000);
    tx.auth_info.signer_info[0].address_spec.kind = SignerKind::Secp256k1Eth;
    let (result, _) = dispatcher()
        .execute_batch(host(0), MemoryStore::new(), Vec::new(), vec![entry(tx)])
        .unwrap();
    assert_eq!(
        output(&result.results[0].output),
        failure("consensus", 4, "consensus: consensus incompatible signer")
    );
}

#[test]
fn malformed_transaction_fails_the_batch() {
    let mut malformed = deposit(None, 1, address(1), 0);
    malformed.unverified = Err(DecodeError::ParsingFailed);
    let failed = dispatcher().execute_batch(
        host(0),
        MemoryStore::new(),
        Vec::new(),
        vec![deposit(None, 1, address(1), 0), malformed],
    );
    let e = failed.err().unwrap();
    assert_eq!(e.module, "dispatcher");
    assert_eq!(e.code, 2);
    assert_eq!(
        e.message,
        "malformed transaction in batch: malformed transaction: parsing failed"
    );
}

#[test]
fn transaction_with_bad_signature_fails_the_batch() {
    let mut forged = deposit(None, 1, address(1), 0);
    forged.verified = Err("signature verification failed".to_string());
    let e = dispatcher()
        .execute_batch(host(0), MemoryStore::new(), Vec::new(), vec![forged])
        .err()
        .unwrap();
    assert_eq!(e.code, 2);
    assert_eq!(
        e.message,
        "malformed transaction in batch: malformed transaction: signature verification failed"
    );
}

#[test]
fn module_controlled_transaction_without_module_is_malformed() {
    let mut special = deposit(None, 1, address(1), 0);
    special.unverified = Ok(UnverifiedTransaction(
        vec![1],
        vec![AuthProof::Module("keyvalue.special-greeting.v0".to_string())],
    ));
    let e = dispatcher()
        .execute_batch(host(0), MemoryStore::new(), Vec::new(), vec![special])
        .err()
        .unwrap();
    assert_eq!(
        e.message,
        "malformed transaction in batch: malformed transaction: module-controlled transaction \
         decoding scheme keyvalue.special-greeting.v0 not supported"
    );
}

#[test]
fn transaction_too_large_is_malformed() {
    assert_eq!(tx_size_of(0).unwrap(), 0);
    assert_eq!(tx_size_of(u32::MAX as usize).unwrap(), u32::MAX);
    let e = tx_size_of(u32::MAX as usize + 1).err().unwrap();
    assert_eq!(e.code(), 2);
    assert_eq!(
        e.message(),
        "malformed transaction in batch: transaction too large"
    );
    let mut large = deposit(None, 1, address(1), 0);
    large.size = u32::MAX as usize + 1;
    let failed = dispatcher()
        .execute_batch(host(0), MemoryStore::new(), Vec::new(), vec![large])
        .err()
        .unwrap();
    assert_eq!(failed.module, "dispatcher");
    assert_eq!(failed.code, 2);
    let mut large = deposit(None, 1, address(1), 0);
    large.size = u32::MAX as usize + 1;
    assert!(dispatcher()
        .check_batch(host(0), MemoryStore::new(), vec![large])
        .is_err());
}

#[test]
fn check_batch_reports_each_transaction() {
    let mut malformed = deposit(None, 1, address(1), 0);
    malformed.unverified = Err(DecodeError::UnexpectedType);
    let results = dispatcher()
        .check_batch(
            host(0),
            MemoryStore::new(),
            vec![
                deposit(None, 5, address(1), 0),
                malformed,
                entry(transaction("unknown.Method", Item::null(), address(1), 0, 1000)),
            ],
        )
        .unwrap();
    assert_eq!(results.len(), 3);
    assert_eq!(results[0].error.code, 0);
    let meta = results[0].meta.as_ref().unwrap();
    assert_eq!(meta.priority, 0);
    assert_eq!(
        meta.weights.unwrap().get(TransactionWeight::ConsensusMessages),
        Some(1)
    );
    assert_eq!(results[1].error.module, "core");
    assert_eq!(results[1].error.code, 1);
    assert!(results[1].meta.is_none());
    assert_eq!(results[2].error.code, 3);
    assert!(results[2].meta.is_none());
}

#[test]
fn check_and_execute_agree_on_the_outcome() {
    let batch = || {
        vec![
            deposit(None, 5, address(1), 0),
            entry(transaction("unknown.Method", Item::null(), address(1), 0, 1000)),
            deposit(None, 5, address(1), 1),
        ]
    };
    let checked = dispatcher()
        .check_batch(host(0), MemoryStore::new(), batch())
        .unwrap();
    let (executed, _) = dispatcher()
        .execute_batch(host(0), MemoryStore::new(), Vec::new(), batch())
        .unwrap();
    for (check, execute) in checked.iter().zip(executed.results.iter()) {
        let ok = output(&execute.output) == OK_NULL;
        assert_eq!(check.meta.is_some(), ok);
    }
}

#[test]
fn messages_are_counted_and_their_handlers_recorded() {
    let dispatcher: Dispatcher<TestRuntime> = Dispatcher::new(false, 32, 1_000_000);
    let (result, state) = dispatcher
        .execute_batch(
            host(0),
            MemoryStore::new(),
            Vec::new(),
            vec![
                deposit(None, 5, address(1), 0),
                entry(transaction("unknown.Method", Item::null(), address(1), 0, 1000)),
                deposit(None, 6, address(2), 0),
            ],
        )
        .unwrap();
    let emitted: usize = result.results.iter().map(|r| r.messages_emitted).sum();
    assert_eq!(emitted, 2);
    assert_eq!(result.messages.len(), emitted);
    let mut key = b"core".to_vec();
    key.push(0x02);
    let record = output(&state.get(&key).unwrap());
    assert!(record.starts_with("Mapping([(Unsigned(0), Mapping([(TextString(\"payload\")"));
    assert!(record.contains("(Unsigned(1), Mapping([(TextString(\"payload\")"));
    assert_eq!(record.matches("consensus.WithdrawIntoRuntime").count(), 2);
}

#[test]
fn message_slots_are_limited() {
    let dispatcher: Dispatcher<TestRuntime> = Dispatcher::new(false, 1, 1_000_000);
    let (result, _) = dispatcher
        .execute_batch(
            host(0),
            MemoryStore::new(),
            Vec::new(),
            vec![
                deposit(None, 5, address(1), 0),
                deposit(None, 6, address(2), 0),
            ],
        )
        .unwrap();
    assert_eq!(output(&result.results[0].output), OK_NULL);
    assert_eq!(
        output(&result.results[1].output),
        failure("core", 6, "consensus: core: out of message slots")
    );
    assert_eq!(result.messages.len(), 1);
}

#[test]
fn event_without_handler_fails_the_batch() {
    let events = vec![MessageEvent {
        module: String::new(),
        code: 0,
        index: 3,
    }];
    let e = dispatcher()
        .execute_batch(host(0), MemoryStore::new(), events, Vec::new())
        .err()
        .unwrap();
    assert_eq!(e.module, "core");
    assert_eq!(e.code, 9);
    assert_eq!(e.message, "missing message handler for message 3");
}

#[test]
fn handler_without_event_fails_the_batch() {
    let (_, state) = dispatcher()
        .execute_batch(
            host(0),
            MemoryStore::new(),
            Vec::new(),
            vec![deposit(None, 5, address(1), 0)],
        )
        .unwrap();
    let e = dispatcher()
        .execute_batch(host(0), state, Vec::new(), Vec::new())
        .err()
        .unwrap();
    assert_eq!(e.module, "core");
    assert_eq!(e.code, 8);
    assert_eq!(e.message, "message handler not invoked");
}

#[test]
fn genesis_parameters_are_stored_once() {
    let (_, state) = dispatcher()
        .execute_batch(host(0), MemoryStore::new(), Vec::new(), Vec::new())
        .unwrap();
    let mut key = b"consensus_accounts".to_vec();
    key.push(0x00);
    let stored = output(&state.get(&key).unwrap());
    assert_eq!(
        stored,
        "Mapping([(TextString(\"gas_costs\"), Mapping([(TextString(\"tx_deposit\"), \
         Unsigned(10)), (TextString(\"tx_withdraw\"), Unsigned(20))]))])"
    );
    let mut metadata_key = b"core".to_vec();
    metadata_key.push(0x01);
    assert_eq!(
        output(&state.get(&metadata_key).unwrap()),
        "Mapping([(TextString(\"consensus_accounts\"), Unsigned(1))])"
    );
}

#[test]
fn prefetch_names_the_balances_of_the_withdrawing_account() {
    let signer = address(1);
    let state = minted(MemoryStore::new(), signer, 100);
    let dispatcher: Dispatcher<PrefetchingRuntime> = Dispatcher::new(false, 32, 1_000_000);
    let (result, state) = dispatcher
        .execute_batch(
            host(0),
            state,
            Vec::new(),
            vec![withdraw(None, 40, signer, 3)],
        )
        .unwrap();
    assert_eq!(output(&result.results[0].output), OK_NULL);
    assert_eq!(balance(&state, signer), 60);
    let tx = transaction("consensus.Withdraw", Item::null(), signer, 0, 0);
    let mut prefixes = Vec::new();
    Dispatcher::<PrefetchingRuntime>::prefetch_tx(&mut prefixes, &tx).unwrap();
    Dispatcher::<PrefetchingRuntime>::prefetch_tx(&mut prefixes, &tx).unwrap();
    let mut expected = b"accounts".to_vec();
    expected.push(0x02);
    expected.extend_from_slice(&signer.0);
    assert_eq!(prefixes, vec![expected]);
    let other = transaction("consensus.Deposit", Item::null(), signer, 0, 0);
    Dispatcher::<PrefetchingRuntime>::prefetch_tx(&mut prefixes, &other).unwrap();
    assert_eq!(prefixes.len(), 1);
}

#[test]
fn query_answers_balance_and_leaves_the_state_alone() {
    let signer = address(1);
    let state = minted(MemoryStore::new(), signer, 100);
    let args = cbor::to_vec(
        &consensus_accounts::types::BalanceQuery { address: signer }.into_cbor_value(),
    )
    .unwrap();
    let answer = dispatcher()
        .query(host(0), &state, "consensus.Balance", args)
        .unwrap();
    let mut expected = vec![0u8; 16];
    expected[0] = 100;
    assert_eq!(
        output(&answer),
        format!("Mapping([(TextString(\"balance\"), ByteString({:?}))])", expected)
    );
    let mut key = b"core".to_vec();
    key.push(0x01);
    assert_eq!(state.get(&key), None);
}

#[test]
fn query_for_unknown_method_is_invalid() {
    let state = MemoryStore::new();
    let args = cbor::to_vec(&Item::null()).unwrap();
    let e = dispatcher()
        .query(host(0), &state, "unknown.Query", args)
        .err()
        .unwrap();
    assert_eq!(e.module, "core");
    assert_eq!(e.code, 3);
    assert_eq!(e.message, "invalid method: unknown.Query");
    let e = dispatcher()
        .query(host(0), &state, "consensus.Balance", vec![0xff])
        .err()
        .unwrap();
    assert_eq!(e.code, 10);
    let limits = dispatcher()
        .query(
            host(0),
            &state,
            dispatcher::BATCH_WEIGHT_LIMIT_QUERY_METHOD,
            cbor::to_vec(&Item::null()).unwrap(),
        )
        .unwrap();
    assert_eq!(output(&limits), "Mapping([])");
}

#[test]
fn query_for_consensus_account_reads_what_the_host_reported() {
    let state = MemoryStore::new();
    let known = cbor::to_vec(
        &consensus_accounts::types::ConsensusAccountQuery {
            address: address(0xaa),
        }
        .into_cbor_value(),
    )
    .unwrap();
    assert!(dispatcher()
        .query(host(77), &state, "consensus.Account", known)
        .is_ok());
    let unknown = cbor::to_vec(
        &consensus_accounts::types::ConsensusAccountQuery {
            address: address(0xbb),
        }
        .into_cbor_value(),
    )
    .unwrap();
    let e = dispatcher()
        .query(host(77), &state, "consensus.Account", unknown)
        .err()
        .unwrap();
    assert_eq!(e.module, "consensus_accounts");
    assert_eq!(e.code, 1);
}

#[test]
fn invariant_violation() {
    let state = minted(MemoryStore::new(), address(1), 101);
    let mut ctx = RuntimeBatchContext::new(Mode::ExecuteTx, host(100), state, false, 0, 0);
    match <ConsensusAccounts as InvariantHandler>::check_invariants(&mut ctx) {
        Err(core_module::Error::InvariantViolation(cause)) => assert_eq!(
            cause,
            "total supply is greater than runtime's general account balance"
        ),
        _ => panic!("no violation"),
    }
    let state = minted(MemoryStore::new(), address(1), 100);
    let mut ctx = RuntimeBatchContext::new(Mode::ExecuteTx, host(100), state, false, 0, 0);
    assert!(<ConsensusAccounts as InvariantHandler>::check_invariants(&mut ctx).is_ok());
    let mut ctx =
        RuntimeBatchContext::new(Mode::ExecuteTx, host(0), MemoryStore::new(), false, 0, 0);
    assert!(<ConsensusAccounts as InvariantHandler>::check_invariants(&mut ctx).is_ok());
    type Both = (ConsensusAccounts, ());
    let state = minted(MemoryStore::new(), address(1), 101);
    let mut ctx = RuntimeBatchContext::new(Mode::ExecuteTx, host(100), state, false, 0, 0);
    assert!(<Both as InvariantHandler>::check_invariants(&mut ctx).is_err());
}

#[test]
fn aborted_call_ends_the_batch() {
    let abort = core_module::Error::Abort(dispatcher::Error::KeyManagerFailure(
        oasis_sdk::keymanager::KeyManagerError {
            message: "no keys".to_string(),
        },
    ));
    assert_eq!(abort.module_name(), "dispatcher");
    assert_eq!(abort.code(), 4);
    let result = abort.into_call_result();
    assert!(matches!(result, module::CallResult::Aborted(_)));
    let e = check_tx_result(DispatchResult::from_call_result(result))
        .err()
        .unwrap();
    assert_eq!(e.message(), "key manager failure: no keys");
    let aborted = module::CallResult::Aborted(dispatcher::Error::Aborted);
    let executed = execute_tx_result(DispatchResult::from_call_result(aborted)).unwrap();
    assert_eq!(
        output(&executed.output),
        failure("dispatcher", 1, "dispatch aborted")
    );
}

#[test]
fn sealed_call_needs_a_key_manager() {
    let mut tx = transaction("consensus.Deposit", Item::null(), address(1), 0, 1000);
    tx.call.format = CallFormat::EncryptedX25519DeoxysII;
    let (result, _) = dispatcher()
        .execute_batch(host(0), MemoryStore::new(), Vec::new(), vec![entry(tx)])
        .unwrap();
    assert_eq!(
        output(&result.results[0].output),
        failure(
            "core",
            18,
            "invalid call format: confidential transactions not available"
        )
    );
}

#[test]
fn sealed_call_runs_as_the_host_opened_it() {
    let with_keys: Dispatcher<TestRuntime> = Dispatcher::new(true, 32, 1_000_000);
    let mut tx = transaction("consensus.Deposit", Item::null(), address(1), 0, 1000);
    tx.call.format = CallFormat::EncryptedX25519DeoxysII;
    let body = Deposit {
        to: None,
        amount: test_units(5),
    }
    .into_cbor_value();
    let mut sealed = entry(tx);
    sealed.opened = Some(Ok(Call {
        format: CallFormat::Plain,
        method: "consensus.Deposit".to_string(),
        body,
    }));
    let (result, _) = with_keys
        .execute_batch(host(0), MemoryStore::new(), Vec::new(), vec![sealed])
        .unwrap();
    assert_eq!(output(&result.results[0].output), OK_NULL);
    assert_eq!(
        result.results[0].call_format_metadata,
        callformat::Metadata::EncryptedX25519DeoxysII
    );
    assert_eq!(result.messages.len(), 1);

    let mut tx = transaction("consensus.Deposit", Item::null(), address(1), 0, 1000);
    tx.call.format = CallFormat::EncryptedX25519DeoxysII;
    let checked = with_keys
        .check_batch(host(0), MemoryStore::new(), vec![entry(tx)])
        .unwrap();
    assert!(checked[0].meta.is_some());
}

#[test]
fn transaction_context_keeps_gas_and_weights() {
    let state = MemoryStore::new();
    let batch = RuntimeBatchContext::new(Mode::ExecuteTx, host(0), state, false, 4, 50);
    let tx = transaction("m", Item::null(), address(1), 0, 30);
    let (mut ctx, call) = batch.start_tx(10, tx, 2);
    assert_eq!(call.method, "m");
    assert_eq!(ctx.tx_index(), 2);
    assert_eq!(ctx.tx_size(), 10);
    assert!(!ctx.is_check_only());
    assert!(core_module::Module::use_tx_gas(&mut ctx, 20).is_ok());
    assert!(matches!(
        core_module::Module::use_tx_gas(&mut ctx, 11),
        Err(core_module::Error::OutOfGas)
    ));
    assert!(matches!(
        core_module::Module::use_tx_gas(&mut ctx, u64::MAX),
        Err(core_module::Error::GasOverflow)
    ));
    assert_eq!(ctx.tx_gas_used(), 20);
    assert!(core_module::Module::use_tx_gas(&mut ctx, 10).is_ok());
    assert_eq!(ctx.tx_gas_used(), 30);
    assert_eq!(ctx.batch_gas_used(), 30);
    core_module::Module::add_weight(&mut ctx, TransactionWeight::SizeBytes, u64::MAX).unwrap();
    core_module::Module::add_weight(&mut ctx, TransactionWeight::SizeBytes, 5).unwrap();
    let weights = core_module::Module::take_weights(&mut ctx);
    assert_eq!(weights.get(TransactionWeight::SizeBytes), Some(u64::MAX));
    assert_eq!(weights.get(TransactionWeight::ConsensusMessages), None);
    assert_eq!(
        core_module::Module::take_weights(&mut ctx).get(TransactionWeight::SizeBytes),
        None
    );
    ctx.set_priority(9);
    assert_eq!(core_module::Module::take_priority(&mut ctx), 9);
    assert_eq!(core_module::Module::take_priority(&mut ctx), 0);
}

#[test]
fn batch_gas_limit_holds_across_the_transaction() {
    let state = MemoryStore::new();
    let batch = RuntimeBatchContext::new(Mode::ExecuteTx, host(0), state, false, 4, 25);
    let tx = transaction("m", Item::null(), address(1), 0, 100);
    let (mut ctx, _) = batch.start_tx(10, tx, 0);
    assert!(core_module::Module::use_tx_gas(&mut ctx, 20).is_ok());
    assert!(matches!(
        core_module::Module::use_tx_gas(&mut ctx, 6),
        Err(core_module::Error::BatchOutOfGas)
    ));
    assert_eq!(ctx.tx_gas_used(), 20);
}

#[test]
fn failed_authentication_fails_the_call_with_the_error_of_the_modules() {
    let turned_down = core_module::Error::MalformedTransaction("bad nonce".to_string());
    let dispatch = authentication_failed(turned_down).unwrap();
    match dispatch.result {
        module::CallResult::Failed {
            module,
            code,
            message,
        } => {
            assert_eq!(module, "core");
            assert_eq!(code, 1);
            assert_eq!(message, "malformed transaction: bad nonce");
        }
        _ => panic!("the call has not failed"),
    }
    assert!(dispatch.tags.is_empty());
    assert_eq!(dispatch.priority, 0);
    assert_eq!(dispatch.messages_emitted, 0);
    let abort = core_module::Error::Abort(dispatcher::Error::Aborted);
    let e = authentication_failed(abort).err().unwrap();
    assert_eq!(e.code(), 1);
    assert_eq!(e.message(), "dispatch aborted");
}

#[test]
fn prefetch_of_a_withdrawal_without_signer_is_turned_down() {
    let mut tx = transaction("consensus.Withdraw", Item::null(), address(1), 0, 0);
    tx.auth_info.signer_info.clear();
    let mut prefixes = vec![vec![7u8]];
    let e = Dispatcher::<PrefetchingRuntime>::prefetch_tx(&mut prefixes, &tx)
        .err()
        .unwrap();
    assert_eq!(e.module, "consensus_accounts");
    assert_eq!(e.code, 1);
    assert_eq!(prefixes, vec![vec![7u8]]);
    let unknown = transaction("other.Method", Item::null(), address(1), 0, 0);
    Dispatcher::<PrefetchingRuntime>::prefetch_tx(&mut prefixes, &unknown).unwrap();
    assert_eq!(prefixes, vec![vec![7u8]]);
}

#[test]
fn empty_batch_is_checked_and_executed_without_results() {
    let checked = dispatcher()
        .check_batch(host(0), MemoryStore::new(), Vec::new())
        .unwrap();
    assert!(checked.is_empty());
    let (result, _state) = dispatcher()
        .execute_batch(host(0), MemoryStore::new(), Vec::new(), Vec::new())
        .unwrap();
    assert!(result.results.is_empty());
    assert!(result.messages.is_empty());
    assert!(result.batch_weight_limits.is_some());
}

#[test]
fn check_of_a_batch_stops_at_a_transaction_that_is_too_large() {
    let signer = address(1);
    let mut large = deposit(None, 5, signer, 0);
    large.size = u32::MAX as usize + 1;
    let e = dispatcher()
        .check_batch(
            host(0),
            MemoryStore::new(),
            vec![deposit(None, 5, signer, 0), large],
        )
        .err()
        .unwrap();
    assert_eq!(e.module, "dispatcher");
    assert_eq!(e.code, 2);
    assert_eq!(
        e.message,
        "malformed transaction in batch: transaction too large"
    );
}

#[test]
fn result_of_a_call_is_made_of_what_the_method_returns() {
    let returned: Result<u64, core_module::Error> = Ok(7);
    match module::call_result_of(returned) {
        module::CallResult::Success(item) => assert!(matches!(item, Item::Unsigned(7))),
        _ => panic!("the call has not succeeded"),
    }
    let failed: Result<u64, core_module::Error> =
        Err(core_module::Error::InvalidArgument("no amount".to_string()));
    match module::call_result_of(failed) {
        module::CallResult::Failed {
            module,
            code,
            message,
        } => {
            assert_eq!(module, "core");
            assert_eq!(code, 10);
            assert_eq!(message, "invalid argument: no amount");
        }
        _ => panic!("the call has not failed"),
    }
    let aborted: Result<u64, core_module::Error> =
        Err(core_module::Error::Abort(dispatcher::Error::Aborted));
    assert!(matches!(
        module::call_result_of(aborted),
        module::CallResult::Aborted(dispatcher::Error::Aborted)
    ));
}

#[test]
fn answer_to_a_query_is_encoded_and_its_error_handed_on() {
    let returned: Result<u64, core_module::Error> = Ok(500);
    let answer = module::answer_of(returned);
    assert!(matches!(answer, Ok(Item::Unsigned(500))));
    assert_eq!(query_result(answer).unwrap(), vec![0x19, 0x01, 0xf4]);
    let failed: Result<u64, core_module::Error> =
        Err(core_module::Error::InvalidArgument("no address".to_string()));
    let e = query_result(module::answer_of(failed)).err().unwrap();
    assert_eq!(e.module, "core");
    assert_eq!(e.code, 10);
    assert_eq!(e.message, "invalid argument: no address");
}

#[test]
fn failed_authentication_leaves_no_weights() {
    let turned_down = core_module::Error::MalformedTransaction("bad nonce".to_string());
    let dispatch = authentication_failed(turned_down).unwrap();
    assert_eq!(dispatch.weights.get(TransactionWeight::ConsensusMessages), None);
    assert_eq!(dispatch.weights.get(TransactionWeight::SizeBytes), None);
    let bare = DispatchResult::from_call_result(module::CallResult::Success(Item::null()));
    assert_eq!(bare.weights.get(TransactionWeight::ConsensusMessages), None);
    assert_eq!(bare.priority, 0);
}
