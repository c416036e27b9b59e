//! Execution contexts.
//!
//! A batch is processed in a [`RuntimeBatchContext`]. It owns the runtime
//! state and collects the tags of the block and the messages that go to
//! the consensus layer. Each transaction runs in a [`RuntimeTxContext`]
//! of its own, which reads the batch state and keeps its writes, tags and
//! messages to itself until it is committed. A transaction context that
//! is dropped leaves no trace in the batch.
//!
//! Handlers see a context through [`Context`] and [`TxContext`].

use vstd::prelude::*;
use crate::cbor::{from_entries, text, Encode, Item, ItemView};
use crate::modules::core_module::Error;
use crate::storage::overlay::OverlayStore;
use crate::storage::{apply_writes, commit_writes, writes_view, Store, Write};
use crate::types::address::Address;
use crate::types::message::{Message, MessageEvent, MessageEventHookInvocation};
use crate::types::transaction::{AuthInfo, Call, Transaction, TransactionWeight};

verus! {

/// What a batch is processed for.
#[derive(PartialEq, Eq, Structural, Clone, Copy, Debug)]
pub enum Mode {
    /// The transactions are executed and the state is kept.
    ExecuteTx,
    /// The transactions are checked for admission.
    CheckTx,
    /// A transaction is run to estimate its cost.
    SimulateTx,
}

/// A key-value pair attached to a transaction or a block, by which a
/// client finds it. Events are emitted as tags.
#[derive(Debug)]
pub struct Tag {
    pub key: Vec<u8>,
    pub value: Vec<u8>,
}

/// A message for the consensus layer with the handler of its result.
#[derive(Debug)]
pub struct EmittedMessage {
    pub message: Message,
    pub hook: MessageEventHookInvocation,
}

/// The values that the resource accounting of a batch adds up, one for
/// each kind of weight.
#[derive(Clone, Copy, Debug)]
pub struct Weights {
    pub consensus_messages: Option<u64>,
    pub size_bytes: Option<u64>,
}

impl View for Weights {
    type V = Map<TransactionWeight, u64>;

    open spec fn view(&self) -> Map<TransactionWeight, u64> {
        Map::new(
            |w: TransactionWeight| self.entry(w) is Some,
            |w: TransactionWeight| self.entry(w)->Some_0,
        )
    }
}

impl Weights {
    /// The value recorded for a weight, if any.
    pub open spec fn entry(&self, weight: TransactionWeight) -> Option<u64> {
        match weight {
            TransactionWeight::ConsensusMessages => self.consensus_messages,
            TransactionWeight::SizeBytes => self.size_bytes,
        }
    }

    /// No weights.
    pub fn new() -> (weights: Weights)
        ensures
            weights@ == Map::<TransactionWeight, u64>::empty(),
    {
        let weights = Weights { consensus_messages: None, size_bytes: None };
        assert(weights@ =~= Map::empty());
        weights
    }

    /// The value recorded for a weight.
    pub fn get(&self, weight: TransactionWeight) -> (value: Option<u64>)
        ensures
            value == self.entry(weight),
            value is Some <==> self@.contains_key(weight),
            value is Some ==> self@[weight] == value->Some_0,
    {
        match weight {
            TransactionWeight::ConsensusMessages => self.consensus_messages,
            TransactionWeight::SizeBytes => self.size_bytes,
        }
    }

    /// Records a value for a weight, in place of any earlier one.
    pub fn insert(&mut self, weight: TransactionWeight, value: u64)
        ensures
            final(self)@ == old(self)@.insert(weight, value),
    {
        match weight {
            TransactionWeight::ConsensusMessages => {
                self.consensus_messages = Some(value);
            },
            TransactionWeight::SizeBytes => {
                self.size_bytes = Some(value);
            },
        }
        assert(self@ =~= old(self)@.insert(weight, value));
    }

    /// Takes over every value of `other`, in place of its own value for
    /// the same weight.
    pub fn extend(&mut self, other: &Weights)
        ensures
            final(self)@ == old(self)@.union_prefer_right(other@),
    {
        if other.consensus_messages.is_some() {
            self.consensus_messages = other.consensus_messages;
        }
        if other.size_bytes.is_some() {
            self.size_bytes = other.size_bytes;
        }
        assert(self@ =~= old(self)@.union_prefer_right(other@));
    }
}

impl Encode for Weights {
    open spec fn encoded(&self) -> ItemView {
        let messages = match self.consensus_messages {
            Some(n) => seq![(ItemView::TextString("consensus_messages"@), ItemView::Unsigned(n))],
            None => seq![],
        };
        let size = match self.size_bytes {
            Some(n) => seq![(ItemView::TextString("size_bytes"@), ItemView::Unsigned(n))],
            None => seq![],
        };
        ItemView::Mapping(size + messages)
    }

    fn into_cbor_value(self) -> (item: Item) {
        let mut entries: Vec<(Item, Item)> = Vec::new();
        match self.size_bytes {
            Some(n) => {
                entries.push((text("size_bytes"), Item::Unsigned(n)));
            },
            None => {},
        }
        match self.consensus_messages {
            Some(n) => {
                entries.push((text("consensus_messages"), Item::Unsigned(n)));
            },
            None => {},
        }
        let item = from_entries(entries);
        assert(item@->Mapping_0 =~= self.encoded()->Mapping_0);
        item
    }
}

/// What the host reports of an account at the consensus layer.
#[derive(Clone, Copy, Debug)]
pub struct ConsensusAccount {
    pub address: Address,
    /// The general balance of the account, in consensus base units.
    pub general_balance: u128,
}

/// What the host tells the runtime of itself and of the consensus layer
/// as the round begins.
#[derive(Debug)]
pub struct HostInfo {
    /// The address of the runtime at the consensus layer.
    pub runtime_address: Address,
    /// The accounts at the consensus layer that the runtime may look at.
    pub consensus_accounts: Vec<ConsensusAccount>,
}

/// The first account with the given address among those that the host
/// reported.
pub open spec fn reported_account(accounts: Seq<ConsensusAccount>, address: Address) -> Option<
    ConsensusAccount,
>
    decreases accounts.len(),
{
    if accounts.len() == 0 {
        None
    } else if accounts[0].address.0@ == address.0@ {
        Some(accounts[0])
    } else {
        reported_account(accounts.drop_first(), address)
    }
}

/// What can be observed of a context.
pub struct ContextView {
    pub mode: Mode,
    /// What the host reported as the round began.
    pub host: HostInfo,
    /// Whether the runtime has a key manager.
    pub key_manager: bool,
    /// The runtime state as the context reads it.
    pub state: Map<Seq<u8>, Seq<u8>>,
    /// The tags emitted in the context, in order.
    pub tags: Seq<Tag>,
    /// The messages emitted in the context, in order.
    pub messages: Seq<EmittedMessage>,
    /// The most messages that the context takes.
    pub max_messages: nat,
    /// Gas used by the batch, as the context counts it.
    pub batch_gas_used: u64,
    /// The gas limit of the batch.
    pub max_batch_gas: u64,
    /// The transaction that the context runs, if it runs one.
    pub tx: Option<TxView>,
}

impl ContextView {
    /// The transaction that the context runs.
    pub open spec fn transaction(self) -> TxView {
        self.tx->Some_0
    }

    /// The same context over another state.
    pub open spec fn with_state(self, state: Map<Seq<u8>, Seq<u8>>) -> ContextView {
        ContextView { state, ..self }
    }

    /// The context holds no more messages than it has slots for.
    pub open spec fn has_room(self) -> bool {
        self.messages.len() <= self.max_messages
    }

    /// What a handler keeps of the context that it is given: the number
    /// of its slots for messages, and that it holds no more messages
    /// than it has slots for.
    pub open spec fn keeps_slots(self, after: ContextView) -> bool {
        &&& after.max_messages == self.max_messages
        &&& self.has_room() ==> after.has_room()
    }
}

/// What can be observed of the transaction that a context runs.
pub struct TxView {
    /// Position of the transaction in its batch.
    pub index: usize,
    /// Size of the encoded transaction in bytes.
    pub size: u32,
    /// The gas limit of the transaction.
    pub gas_limit: u64,
    /// Gas used by the transaction.
    pub gas_used: u64,
    /// Gas used by the batch, this transaction included.
    pub batch_gas_used: u64,
    /// The gas limit of the batch.
    pub max_batch_gas: u64,
    pub priority: u64,
    pub weights: Map<TransactionWeight, u64>,
    /// The signers and the fee of the transaction.
    pub auth_info: AuthInfo,
}

/// A context in which handlers run.
pub trait Context {
    /// What can be observed of the context.
    spec fn snapshot(&self) -> ContextView;

    fn mode(&self) -> (mode: Mode)
        ensures
            mode == self.snapshot().mode,
    ;

    /// Whether the runtime has a key manager.
    fn has_key_manager(&self) -> (has: bool)
        ensures
            has == self.snapshot().key_manager,
    ;

    /// The address of the runtime at the consensus layer.
    fn runtime_address(&self) -> (address: Address)
        ensures
            address == self.snapshot().host.runtime_address,
    ;

    /// What the host reported of an account at the consensus layer.
    fn consensus_account(&self, address: &Address) -> (account: Option<ConsensusAccount>)
        ensures
            account == reported_account(self.snapshot().host.consensus_accounts@, *address),
    ;

    /// Reads the runtime state.
    fn state_get(&self, key: &[u8]) -> (value: Option<Vec<u8>>)
        ensures
            match value {
                Some(v) => self.snapshot().state.contains_key(key@) && self.snapshot().state[key@]
                    == v@,
                None => !self.snapshot().state.contains_key(key@),
            },
    ;

    /// Writes the runtime state.
    fn state_insert(&mut self, key: &[u8], value: &[u8])
        ensures
            final(self).snapshot() == (ContextView {
                state: old(self).snapshot().state.insert(key@, value@),
                ..old(self).snapshot()
            }),
    ;

    /// Removes a key from the runtime state.
    fn state_remove(&mut self, key: &[u8])
        ensures
            final(self).snapshot() == (ContextView {
                state: old(self).snapshot().state.remove(key@),
                ..old(self).snapshot()
            }),
    ;

    /// Emits a tag.
    fn emit_tag(&mut self, tag: Tag)
        ensures
            final(self).snapshot() == (ContextView {
                tags: old(self).snapshot().tags.push(tag),
                ..old(self).snapshot()
            }),
    ;

    /// Emits a message for the consensus layer, with the handler of its
    /// result. The message is refused where no slot is left.
    fn emit_message(&mut self, message: Message, hook: MessageEventHookInvocation) -> (r: Result<
        (),
        Error,
    >)
        ensures
            match r {
                Ok(()) => old(self).snapshot().messages.len() < old(self).snapshot().max_messages
                    && final(self).snapshot() == (ContextView {
                    messages: old(self).snapshot().messages.push(EmittedMessage { message, hook }),
                    ..old(self).snapshot()
                }),
                Err(e) => {
                    &&& old(self).snapshot().messages.len() >= old(self).snapshot().max_messages
                    &&& e == Error::OutOfMessageSlots
                    &&& final(self).snapshot() == old(self).snapshot()
                },
            },
    ;

    /// Whether the batch is only checked.
    fn is_check_only(&self) -> (check: bool)
        ensures
            check == (self.snapshot().mode == Mode::CheckTx),
    {
        match self.mode() {
            Mode::CheckTx => true,
            _ => false,
        }
    }

    /// Whether a transaction is only simulated.
    fn is_simulation(&self) -> (simulation: bool)
        ensures
            simulation == (self.snapshot().mode == Mode::SimulateTx),
    {
        match self.mode() {
            Mode::SimulateTx => true,
            _ => false,
        }
    }
}

/// A context in which one transaction runs.
pub trait TxContext: Context {
    fn tx_index(&self) -> (index: usize)
        ensures
            index == self.snapshot().transaction().index,
    ;

    fn tx_size(&self) -> (size: u32)
        ensures
            size == self.snapshot().transaction().size,
    ;

    fn tx_auth_info(&self) -> (auth_info: &AuthInfo)
        ensures
            *auth_info == self.snapshot().transaction().auth_info,
            auth_info.fee.gas == self.snapshot().transaction().gas_limit,
    ;

    fn tx_gas_used(&self) -> (gas: u64)
        ensures
            gas == self.snapshot().transaction().gas_used,
    ;

    fn batch_gas_used(&self) -> (gas: u64)
        ensures
            gas == self.snapshot().transaction().batch_gas_used,
    ;

    fn max_batch_gas(&self) -> (gas: u64)
        ensures
            gas == self.snapshot().transaction().max_batch_gas,
    ;

    /// Records gas used by the transaction and by the batch.
    fn set_gas_used(&mut self, tx_gas: u64, batch_gas: u64)
        ensures
            final(self).snapshot() == (ContextView {
                batch_gas_used: batch_gas,
                tx: Some(
                    TxView {
                        gas_used: tx_gas,
                        batch_gas_used: batch_gas,
                        ..old(self).snapshot().transaction()
                    },
                ),
                ..old(self).snapshot()
            }),
    ;

    fn priority(&self) -> (priority: u64)
        ensures
            priority == self.snapshot().transaction().priority,
    ;

    fn set_priority(&mut self, priority: u64)
        ensures
            final(self).snapshot() == (ContextView {
                tx: Some(TxView { priority, ..old(self).snapshot().transaction() }),
                ..old(self).snapshot()
            }),
    ;

    fn weights(&self) -> (weights: Weights)
        ensures
            weights@ == self.snapshot().transaction().weights,
    ;

    fn set_weights(&mut self, weights: Weights)
        ensures
            final(self).snapshot() == (ContextView {
                tx: Some(TxView { weights: weights@, ..old(self).snapshot().transaction() }),
                ..old(self).snapshot()
            }),
    ;
}

/// The first account with the given address among those that the host
/// reported.
pub fn find_account(accounts: &Vec<ConsensusAccount>, address: &Address) -> (r: Option<
    ConsensusAccount,
>)
    ensures
        r == reported_account(accounts@, *address),
{
    let mut i: usize = 0;
    assert(accounts@.skip(0) =~= accounts@);
    while i < accounts.len()
        invariant
            i <= accounts.len(),
            reported_account(accounts@, *address) == reported_account(
                accounts@.skip(i as int),
                *address,
            ),
        decreases accounts.len() - i,
    {
        assert(accounts@.skip(i as int).drop_first() =~= accounts@.skip(i + 1));
        if accounts[i].address.equals(address) {
            return Some(accounts[i]);
        }
        i += 1;
    }
    None
}

/// What a committed transaction leaves behind.
pub struct TxOutcome {
    /// The tags of the transaction.
    pub tags: Vec<Tag>,
    /// The messages of the transaction.
    pub messages: Vec<EmittedMessage>,
    /// The writes of the transaction to the runtime state, in order.
    pub writes: Vec<Write>,
    /// Gas used by the batch, the transaction included.
    pub batch_gas_used: u64,
}

/// The context of a batch.
pub struct RuntimeBatchContext<S: Store> {
    mode: Mode,
    host: HostInfo,
    key_manager: bool,
    state: S,
    max_messages: u32,
    block_tags: Vec<Tag>,
    messages: Vec<EmittedMessage>,
    batch_gas_used: u64,
    max_batch_gas: u64,
}

/// The slots for messages that a transaction gets: those that the batch
/// has left, and no more than the fee of the transaction pays for.
pub open spec fn tx_message_slots(max_messages: nat, emitted: nat, paid: u32) -> nat {
    let remaining = if emitted <= max_messages {
        (max_messages - emitted) as nat
    } else {
        0
    };
    if remaining <= paid {
        remaining
    } else {
        paid as nat
    }
}

impl<S: Store> RuntimeBatchContext<S> {
    /// A context for a batch over the given state, with nothing emitted
    /// and no gas used.
    pub fn new(
        mode: Mode,
        host: HostInfo,
        state: S,
        key_manager: bool,
        max_messages: u32,
        max_batch_gas: u64,
    ) -> (ctx: Self)
        ensures
            ctx.snapshot() == (ContextView {
                mode,
                host,
                key_manager,
                state: state.contents(),
                tags: Seq::empty(),
                messages: Seq::empty(),
                max_messages: max_messages as nat,
                batch_gas_used: 0,
                max_batch_gas,
                tx: None,
            }),
    {
        RuntimeBatchContext {
            mode,
            host,
            key_manager,
            state,
            max_messages,
            block_tags: Vec::new(),
            messages: Vec::new(),
            batch_gas_used: 0,
            max_batch_gas,
        }
    }

    /// Opens a context for a transaction. It reads the state of the batch
    /// as it is now and starts without tags, messages or gas used.
    pub fn start_tx(&self, tx_size: u32, tx: Transaction, index: usize) -> (r: (
        RuntimeTxContext<'_, S>,
        Call,
    ))
        ensures
            r.1 == tx.call,
            r.0.base() == self.snapshot().state,
            r.0.snapshot() == (ContextView {
                tags: Seq::empty(),
                messages: Seq::empty(),
                max_messages: tx_message_slots(
                    self.snapshot().max_messages,
                    self.snapshot().messages.len(),
                    tx.auth_info.fee.consensus_messages,
                ),
                tx: Some(
                    TxView {
                        index,
                        size: tx_size,
                        gas_limit: tx.auth_info.fee.gas,
                        gas_used: 0,
                        batch_gas_used: self.snapshot().batch_gas_used,
                        max_batch_gas: self.snapshot().max_batch_gas,
                        priority: 0,
                        weights: Map::empty(),
                        auth_info: tx.auth_info,
                    },
                ),
                ..self.snapshot()
            }),
    {
        let emitted = self.messages.len();
        let remaining: u32 = if emitted <= self.max_messages as usize {
            (self.max_messages as usize - emitted) as u32
        } else {
            0
        };
        let paid = tx.auth_info.fee.consensus_messages;
        let max_messages = if remaining <= paid {
            remaining
        } else {
            paid
        };
        let ctx = RuntimeTxContext {
            mode: self.mode,
            host: &self.host,
            key_manager: self.key_manager,
            store: OverlayStore::new(&self.state),
            index,
            size: tx_size,
            auth_info: tx.auth_info,
            tags: Vec::new(),
            messages: Vec::new(),
            max_messages,
            gas_used: 0,
            batch_gas_used: self.batch_gas_used,
            max_batch_gas: self.max_batch_gas,
            priority: 0,
            weights: Weights::new(),
        };
        (ctx, tx.call)
    }

    /// Applies the writes of a transaction to the state of the batch.
    pub fn apply(&mut self, writes: &Vec<Write>)
        ensures
            final(self).snapshot() == (ContextView {
                state: apply_writes(old(self).snapshot().state, writes_view(writes@)),
                ..old(self).snapshot()
            }),
    {
        commit_writes(writes, &mut self.state);
    }

    /// Takes over the messages of a transaction, all of them or, where
    /// the batch has not enough slots left, none.
    pub fn emit_messages(&mut self, messages: Vec<EmittedMessage>) -> (r: Result<(), Error>)
        ensures
            match r {
                Ok(()) => {
                    let before = old(self).snapshot();
                    &&& before.messages.len() + messages@.len() <= before.max_messages
                    &&& final(self).snapshot() == (ContextView {
                        messages: before.messages + messages@,
                        ..before
                    })
                },
                Err(e) => {
                    let before = old(self).snapshot();
                    &&& before.messages.len() + messages@.len() > before.max_messages
                    &&& e == Error::OutOfMessageSlots
                    &&& final(self).snapshot() == before
                },
            },
    {
        let max = self.max_messages as usize;
        if self.messages.len() > max || messages.len() > max - self.messages.len() {
            return Err(Error::OutOfMessageSlots);
        }
        let mut messages = messages;
        self.messages.append(&mut messages);
        Ok(())
    }

    /// Tells the state which prefixes are about to be read.
    pub fn prefetch_prefixes(&mut self, prefixes: &Vec<Vec<u8>>, limit: u16)
        ensures
            final(self).snapshot() == old(self).snapshot(),
    {
        self.state.prefetch_prefixes(prefixes, limit);
    }

    /// Records the gas used by the batch.
    pub fn set_gas_used(&mut self, gas: u64)
        ensures
            final(self).snapshot() == (ContextView { batch_gas_used: gas, ..old(self).snapshot() }),
    {
        self.batch_gas_used = gas;
    }

    /// Ends the batch: hands out the tags of the block, the messages and
    /// the state.
    pub fn commit(self) -> (r: (Vec<Tag>, Vec<EmittedMessage>, S))
        ensures
            r.0@ == self.snapshot().tags,
            r.1@ == self.snapshot().messages,
            r.2.contents() == self.snapshot().state,
    {
        (self.block_tags, self.messages, self.state)
    }
}

impl<S: Store> Context for RuntimeBatchContext<S> {
    closed spec fn snapshot(&self) -> ContextView {
        ContextView {
            mode: self.mode,
            host: self.host,
            key_manager: self.key_manager,
            state: self.state.contents(),
            tags: self.block_tags@,
            messages: self.messages@,
            max_messages: self.max_messages as nat,
            batch_gas_used: self.batch_gas_used,
            max_batch_gas: self.max_batch_gas,
            tx: None,
        }
    }

    fn mode(&self) -> (mode: Mode) {
        self.mode
    }

    fn has_key_manager(&self) -> (has: bool) {
        self.key_manager
    }

    fn runtime_address(&self) -> (address: Address) {
        self.host.runtime_address
    }

    fn consensus_account(&self, address: &Address) -> (account: Option<ConsensusAccount>) {
        find_account(&self.host.consensus_accounts, address)
    }

    fn state_get(&self, key: &[u8]) -> (value: Option<Vec<u8>>) {
        self.state.get(key)
    }

    fn state_insert(&mut self, key: &[u8], value: &[u8])
    {
        self.state.insert(key, value)
    }

    fn state_remove(&mut self, key: &[u8])
    {
        self.state.remove(key)
    }

    fn emit_tag(&mut self, tag: Tag)
    {
        self.block_tags.push(tag);
    }

    fn emit_message(&mut self, message: Message, hook: MessageEventHookInvocation) -> (r: Result<
        (),
        Error,
    >)
    {
        if self.messages.len() >= self.max_messages as usize {
            return Err(Error::OutOfMessageSlots);
        }
        self.messages.push(EmittedMessage { message, hook });
        Ok(())
    }
}

/// The context of one transaction.
pub struct RuntimeTxContext<'a, S: Store> {
    mode: Mode,
    host: &'a HostInfo,
    key_manager: bool,
    store: OverlayStore<'a, S>,
    index: usize,
    size: u32,
    auth_info: AuthInfo,
    tags: Vec<Tag>,
    messages: Vec<EmittedMessage>,
    max_messages: u32,
    gas_used: u64,
    batch_gas_used: u64,
    max_batch_gas: u64,
    priority: u64,
    weights: Weights,
}

impl<'a, S: Store> RuntimeTxContext<'a, S> {
    /// The state of the batch below the transaction.
    pub closed spec fn base(&self) -> Map<Seq<u8>, Seq<u8>> {
        self.store.parent().contents()
    }

    /// Ends the transaction and hands out what it leaves behind: its
    /// tags, its messages, and the writes that turn the state below it
    /// into the state as the transaction saw it last.
    pub fn commit(self) -> (outcome: TxOutcome)
        ensures
            outcome.tags@ == self.snapshot().tags,
            outcome.messages@ == self.snapshot().messages,
            outcome.batch_gas_used == self.snapshot().transaction().batch_gas_used,
            apply_writes(self.base(), writes_view(outcome.writes@)) == self.snapshot().state,
    {
        TxOutcome {
            tags: self.tags,
            messages: self.messages,
            writes: self.store.into_writes(),
            batch_gas_used: self.batch_gas_used,
        }
    }
}

impl<'a, S: Store> Context for RuntimeTxContext<'a, S> {
    closed spec fn snapshot(&self) -> ContextView {
        ContextView {
            mode: self.mode,
            host: *self.host,
            key_manager: self.key_manager,
            state: self.store.contents(),
            tags: self.tags@,
            messages: self.messages@,
            max_messages: self.max_messages as nat,
            batch_gas_used: self.batch_gas_used,
            max_batch_gas: self.max_batch_gas,
            tx: Some(
                TxView {
                    index: self.index,
                    size: self.size,
                    gas_limit: self.auth_info.fee.gas,
                    gas_used: self.gas_used,
                    batch_gas_used: self.batch_gas_used,
                    max_batch_gas: self.max_batch_gas,
                    priority: self.priority,
                    weights: self.weights@,
                    auth_info: self.auth_info,
                },
            ),
        }
    }

    fn mode(&self) -> (mode: Mode) {
        self.mode
    }

    fn has_key_manager(&self) -> (has: bool) {
        self.key_manager
    }

    fn runtime_address(&self) -> (address: Address) {
        self.host.runtime_address
    }

    fn consensus_account(&self, address: &Address) -> (account: Option<ConsensusAccount>) {
        find_account(&self.host.consensus_accounts, address)
    }

    fn state_get(&self, key: &[u8]) -> (value: Option<Vec<u8>>) {
        self.store.get(key)
    }

    fn state_insert(&mut self, key: &[u8], value: &[u8])
        ensures
            final(self).base() == old(self).base(),
    {
        self.store.insert(key, value)
    }

    fn state_remove(&mut self, key: &[u8])
        ensures
            final(self).base() == old(self).base(),
    {
        self.store.remove(key)
    }

    fn emit_tag(&mut self, tag: Tag)
        ensures
            final(self).base() == old(self).base(),
    {
        self.tags.push(tag);
    }

    fn emit_message(&mut self, message: Message, hook: MessageEventHookInvocation) -> (r: Result<
        (),
        Error,
    >)
        ensures
            final(self).base() == old(self).base(),
    {
        if self.messages.len() >= self.max_messages as usize {
            return Err(Error::OutOfMessageSlots);
        }
        self.messages.push(EmittedMessage { message, hook });
        Ok(())
    }
}

impl<'a, S: Store> TxContext for RuntimeTxContext<'a, S> {
    fn tx_index(&self) -> (index: usize) {
        self.index
    }

    fn tx_size(&self) -> (size: u32) {
        self.size
    }

    fn tx_auth_info(&self) -> (auth_info: &AuthInfo) {
        &self.auth_info
    }

    fn tx_gas_used(&self) -> (gas: u64) {
        self.gas_used
    }

    fn batch_gas_used(&self) -> (gas: u64) {
        self.batch_gas_used
    }

    fn max_batch_gas(&self) -> (gas: u64) {
        self.max_batch_gas
    }

    fn set_gas_used(&mut self, tx_gas: u64, batch_gas: u64)
        ensures
            final(self).base() == old(self).base(),
    {
        self.gas_used = tx_gas;
        self.batch_gas_used = batch_gas;
    }

    fn priority(&self) -> (priority: u64) {
        self.priority
    }

    fn set_priority(&mut self, priority: u64)
        ensures
            final(self).base() == old(self).base(),
    {
        self.priority = priority;
    }

    fn weights(&self) -> (weights: Weights) {
        self.weights
    }

    fn set_weights(&mut self, weights: Weights)
        ensures
            final(self).base() == old(self).base(),
    {
        self.weights = weights;
    }
}

} // verus!
