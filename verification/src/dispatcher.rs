//! Transaction dispatcher.

use vstd::prelude::*;
use crate::callformat;
use crate::callformat::Opened;
use crate::cbor::{
    cbor_decoding, decode_error_text, from_slice, reversed, to_vec, DecodeError, Encode, Item,
    ItemView, Simple, MAX_NESTING_LEVEL,
};
use crate::text::str_eq;
use crate::context::{
    Context, ContextView, EmittedMessage, HostInfo, Mode, RuntimeBatchContext, Tag, TxContext,
    Weights,
};
use crate::error;
use crate::error::{Error as _, RuntimeError};
use crate::keymanager::KeyManagerError;
use crate::module;
use crate::module::{AuthHandler, BlockHandler, MethodHandler, MigrationHandler};
use crate::modules::core_module;
use crate::runtime::{is_migrated, Runtime};
use crate::storage::overlay::OverlayStore;
use crate::storage::typed::{get_typed, is_typed_read, stored_form};
use crate::storage::{apply_writes, concat, writes_view, Store};
use crate::types::message::{
    Message, MessageEvent, MessageEventHookInvocation, MessageHandlers, MessageResult,
};
use crate::text::{join, owned};
use crate::types::transaction::{AuthProof, Call, Transaction, UnverifiedTransaction};

verus! {

/// Unique module name.
pub const MODULE_NAME: &'static str = "dispatcher";

/// Error emitted by the dispatch process. It says that dispatch itself
/// went wrong and the batch cannot go on; it is not used for what goes
/// wrong within a transaction.
#[derive(Debug)]
pub enum Error {
    Aborted,
    MalformedTransactionInBatch(String),
    QueryAborted(String),
    KeyManagerFailure(KeyManagerError),
}

impl error::Error for Error {
    open spec fn module_name_spec(&self) -> Seq<char> {
        MODULE_NAME@
    }

    open spec fn code_spec(&self) -> u32 {
        match self {
            Error::Aborted => 1,
            Error::MalformedTransactionInBatch(_) => 2,
            Error::QueryAborted(_) => 3,
            Error::KeyManagerFailure(_) => 4,
        }
    }

    open spec fn message_spec(&self) -> Seq<char> {
        match self {
            Error::Aborted => "dispatch aborted"@,
            Error::MalformedTransactionInBatch(cause) => "malformed transaction in batch: "@
                + cause@,
            Error::QueryAborted(cause) => "query aborted: "@ + cause@,
            Error::KeyManagerFailure(cause) => "key manager failure: "@ + cause.message@,
        }
    }

    open spec fn abort_spec(&self) -> Option<Error> {
        None
    }

    fn module_name(&self) -> (name: &str) {
        MODULE_NAME
    }

    fn code(&self) -> (code: u32) {
        match self {
            Error::Aborted => 1,
            Error::MalformedTransactionInBatch(_) => 2,
            Error::QueryAborted(_) => 3,
            Error::KeyManagerFailure(_) => 4,
        }
    }

    fn message(&self) -> (message: String) {
        match self {
            Error::Aborted => owned("dispatch aborted"),
            Error::MalformedTransactionInBatch(cause) => join(
                "malformed transaction in batch: ",
                cause.as_str(),
            ),
            Error::QueryAborted(cause) => join("query aborted: ", cause.as_str()),
            Error::KeyManagerFailure(cause) => join(
                "key manager failure: ",
                cause.message.as_str(),
            ),
        }
    }

    fn into_abort(self) -> (r: Result<Error, Self>) {
        Err(self)
    }
}

/// Result of dispatching a transaction.
pub struct DispatchResult {
    /// Transaction call result.
    pub result: module::CallResult,
    /// Transaction tags.
    pub tags: Vec<Tag>,
    /// Transaction priority.
    pub priority: u64,
    /// Transaction weights.
    pub weights: Weights,
    /// Call format metadata.
    pub call_format_metadata: callformat::Metadata,
    /// The number of messages that the transaction has put into the
    /// batch.
    pub messages_emitted: usize,
}

impl DispatchResult {
    /// The result of a transaction that has left nothing but the result
    /// of its call.
    pub fn new(result: module::CallResult, call_format_metadata: callformat::Metadata) -> (r: Self)
        ensures
            r.result == result,
            r.tags@.len() == 0,
            r.priority == 0,
            r.weights@ == Map::<crate::types::transaction::TransactionWeight, u64>::empty(),
            r.call_format_metadata == call_format_metadata,
            r.messages_emitted == 0,
    {
        DispatchResult {
            result,
            tags: Vec::new(),
            priority: 0,
            weights: Weights::new(),
            call_format_metadata,
            messages_emitted: 0,
        }
    }

    /// The result of a transaction that was given up before its call
    /// format was looked at.
    pub fn from_call_result(result: module::CallResult) -> (r: Self)
        ensures
            r.result == result,
            r.tags@.len() == 0,
            r.priority == 0,
            r.weights@ == Map::<crate::types::transaction::TransactionWeight, u64>::empty(),
            r.call_format_metadata == callformat::Metadata::Empty,
            r.messages_emitted == 0,
    {
        Self::new(result, callformat::Metadata::Empty)
    }
}

/// What checking a transaction says of its place in a batch.
pub struct CheckTxMetadata {
    pub priority: u64,
    pub weights: Option<Weights>,
}

/// The result of checking a transaction: the error for which it is
/// turned down, with code 0 where it is not, and then its priority and
/// weights.
pub struct CheckTxResult {
    pub error: RuntimeError,
    pub meta: Option<CheckTxMetadata>,
}

/// The result of executing a transaction.
pub struct ExecuteTxResult {
    /// The encoded result of the call.
    pub output: Vec<u8>,
    /// The tags of the transaction.
    pub tags: Vec<Tag>,
    /// The format in which the call arrived; where it was sealed, the
    /// output is to be sealed to the caller.
    pub call_format_metadata: callformat::Metadata,
    /// The number of messages that the transaction has put into the
    /// batch.
    pub messages_emitted: usize,
}

/// A transaction of a batch, as the host hands it to the dispatcher:
/// what came of decoding its bytes and of checking its signatures, and,
/// where its call is sealed and the host opened it, what came of that.
pub struct BatchEntry {
    /// Length of the encoded transaction in bytes.
    pub size: usize,
    /// What decoding the bytes gave.
    pub unverified: Result<UnverifiedTransaction, DecodeError>,
    /// What verifying the signatures over the body gave.
    pub verified: Result<Transaction, String>,
    /// What opening the sealed call gave.
    pub opened: Opened,
}

impl BatchEntry {
    /// The entry of a transaction that arrived as the given bytes: its
    /// size is their number and the transaction is what they decode to.
    /// What verifying the signatures and opening the call gave is taken
    /// as it is.
    pub fn from_raw(raw: &[u8], verified: Result<Transaction, String>, opened: Opened) -> (entry:
        Self)
        ensures
            entry.size == raw@.len(),
            crate::types::proofs::is_unverified(raw@, entry.unverified),
            entry.verified == verified,
            entry.opened == opened,
    {
        BatchEntry {
            size: raw.len(),
            unverified: crate::types::proofs::decode_unverified(raw),
            verified,
            opened,
        }
    }
}

/// The result of executing a batch.
pub struct ExecuteBatchResult {
    /// The result of each transaction, in the order of the batch.
    pub results: Vec<ExecuteTxResult>,
    /// The messages for the consensus layer, in the order in which they
    /// were emitted.
    pub messages: Vec<Message>,
    /// The tags of the block.
    pub block_tags: Vec<Tag>,
    /// The weight limits of the next batch.
    pub batch_weight_limits: Option<Weights>,
}

/// The name of the query for the weight limits of a batch.
pub const BATCH_WEIGHT_LIMIT_QUERY_METHOD: &'static str = "runtime.BatchWeightLimits";

/// The scheme of a transaction that is decoded by a module: the
/// transaction carries one proof, and that proof names the scheme.
pub open spec fn module_scheme(utx: UnverifiedTransaction) -> Option<Seq<char>> {
    if utx.1@.len() == 1 {
        match utx.1@[0] {
            AuthProof::Module(scheme) => Some(scheme@),
            _ => None,
        }
    } else {
        None
    }
}

/// The result of a call to a method that no module handles.
pub open spec fn is_unhandled(method: Seq<char>, r: module::CallResult) -> bool {
    r matches module::CallResult::Failed { module, code, message } && module@
        == core_module::MODULE_NAME@ && code == 3 && message@ == "invalid method: "@ + method
}

/// The result of a call to a method that no module handles.
pub fn unhandled_call(method: String) -> (r: module::CallResult)
    ensures
        is_unhandled(method@, r),
{
    core_module::Error::InvalidMethod(method).into_call_result()
}

/// The runtime dispatcher.
pub struct Dispatcher<R: Runtime> {
    /// Whether the runtime has a key manager.
    key_manager: bool,
    /// The most messages that a batch may send.
    max_messages: u32,
    /// The most gas that a batch may use.
    max_batch_gas: u64,
    _runtime: core::marker::PhantomData<R>,
}

impl<R: Runtime> Dispatcher<R> {
    /// Create a new instance of the dispatcher for the given runtime.
    pub fn new(key_manager: bool, max_messages: u32, max_batch_gas: u64) -> (dispatcher: Self)
        ensures
            dispatcher.has_key_manager() == key_manager,
            dispatcher.message_limit() == max_messages,
            dispatcher.gas_limit() == max_batch_gas,
    {
        Dispatcher { key_manager, max_messages, max_batch_gas, _runtime: core::marker::PhantomData }
    }

    /// Whether the runtime has a key manager.
    pub closed spec fn has_key_manager(&self) -> bool {
        self.key_manager
    }

    /// The most messages that a batch may send.
    pub closed spec fn message_limit(&self) -> u32 {
        self.max_messages
    }

    /// The most gas that a batch may use.
    pub closed spec fn gas_limit(&self) -> u64 {
        self.max_batch_gas
    }

    /// Decode a runtime transaction.
    ///
    /// `unverified` is what decoding the bytes of the transaction gave,
    /// `verified` what verifying its signatures gave. A transaction with
    /// the single proof `Module(scheme)` is decoded and authenticated by
    /// the module in charge of the scheme, and `verified` is not looked
    /// at; any other transaction is taken from `verified`. The modules
    /// may turn a transaction down before either.
    pub fn decode_tx<C: Context>(
        ctx: &mut C,
        unverified: Result<UnverifiedTransaction, DecodeError>,
        verified: Result<Transaction, String>,
    ) -> (r: Result<Transaction, core_module::Error>)
        ensures
            is_decode_outcome::<R::Modules>(
                old(ctx).snapshot(),
                unverified,
                verified,
                final(ctx).snapshot(),
                r,
            ),
            old(ctx).snapshot().keeps_slots(final(ctx).snapshot()),
    {
        // Deserialize transaction.
        let utx = match unverified {
            Ok(utx) => utx,
            Err(cause) => {
                return Err(core_module::Error::MalformedTransaction(owned(cause.message())));
            },
        };
        // Perform any checks before signature verification.
        let verdict = <R::Modules as AuthHandler>::approve_unverified_tx(ctx, &utx);
        let ghost mid = ctx.snapshot();
        let ghost judged = verdict;
        let ghost mut answered: Result<Option<Transaction>, core_module::Error> = Ok(None);
        let r = match verdict {
            Err(e) => Err(e),
            Ok(()) => {
                if utx.1.len() == 1 {
                    match &utx.1[0] {
                        AuthProof::Module(scheme) => {
                            let answer = <R::Modules as AuthHandler>::decode_tx(
                                ctx,
                                scheme.as_str(),
                                utx.0.as_slice(),
                            );
                            proof {
                                answered = answer;
                            }
                            match answer {
                                Err(e) => Err(e),
                                Ok(Some(tx)) => Ok(tx),
                                Ok(None) => {
                                    let head = join(
                                        "module-controlled transaction decoding scheme ",
                                        scheme.as_str(),
                                    );
                                    Err(
                                        core_module::Error::MalformedTransaction(
                                            join(head.as_str(), " not supported"),
                                        ),
                                    )
                                },
                            }
                        },
                        _ => match verified {
                            Ok(tx) => Ok(tx),
                            Err(cause) => Err(core_module::Error::MalformedTransaction(cause)),
                        },
                    }
                } else {
                    match verified {
                        Ok(tx) => Ok(tx),
                        Err(cause) => Err(core_module::Error::MalformedTransaction(cause)),
                    }
                }
            },
        };
        proof {
            if judged is Ok && module_scheme(utx) is Some {
                lemma_module_decoded::<R::Modules>(
                    mid,
                    module_scheme(utx)->Some_0,
                    utx.0@,
                    ctx.snapshot(),
                    answered,
                    r,
                );
            }
            lemma_decoded::<R::Modules>(
                old(ctx).snapshot(),
                utx,
                verified,
                mid,
                judged,
                ctx.snapshot(),
                r,
            );
        }
        r
    }

    /// Run the dispatch steps inside a transaction context. This includes
    /// the before call hooks and the call itself. A call to a method that
    /// no module handles does not succeed.
    pub fn dispatch_tx_call<C: TxContext>(ctx: &mut C, call: Call) -> (r: module::CallResult)
        ensures
            is_call_outcome::<R::Modules>(old(ctx).snapshot(), call, final(ctx).snapshot(), r),
            old(ctx).snapshot().keeps_slots(final(ctx).snapshot()),
            !<R::Modules as MethodHandler>::handles_call(call.method@) ==> !(r is Success),
    {
        let verdict = <R::Modules as AuthHandler>::before_handle_call(ctx, &call);
        let ghost mid = ctx.snapshot();
        let ghost judged = verdict;
        let r = match verdict {
            Err(e) => e.into_call_result(),
            Ok(()) => match <R::Modules as MethodHandler>::dispatch_call(
                ctx,
                call.method.as_str(),
                call.body,
            ) {
                module::DispatchResult::Handled(result) => result,
                module::DispatchResult::Unhandled(_) => unhandled_call(call.method),
            },
        };
        proof {
            lemma_called::<R::Modules>(old(ctx).snapshot(), call, mid, judged, ctx.snapshot(), r);
        }
        r
    }

    /// Runs a transaction that has been authenticated, in a scope of its
    /// own: the call format is resolved, the hooks and the call run in a
    /// transaction context, and the context is committed where the call
    /// succeeded and dropped where it did not.
    ///
    /// A call that does not succeed leaves no trace in the batch: no
    /// write, no tag, no message. A call that succeeds leaves its writes
    /// in the state and its messages, in order, after those that the
    /// batch already holds. An abort is returned as an error.
    ///
    /// The batch holds no more messages than it has slots for, as a
    /// batch context does from the start. The transaction gets no more
    /// slots than are left, so that its messages always fit.
    pub fn dispatch_tx_scope<S: Store>(
        ctx: &mut RuntimeBatchContext<S>,
        tx_size: u32,
        tx: Transaction,
        index: usize,
        opened: Opened,
    ) -> (r: Result<DispatchResult, Error>)
        requires
            old(ctx).snapshot().has_room(),
        ensures
            is_scope_outcome::<R::Modules>(
                old(ctx).snapshot(),
                tx_size,
                tx,
                index,
                opened,
                final(ctx).snapshot(),
                r,
            ),
            old(ctx).snapshot().keeps_slots(final(ctx).snapshot()),
    {
        let ghost before = ctx.snapshot();
        let (mut tx_ctx, call) = ctx.start_tx(tx_size, tx, index);
        // Decode call based on specified call format.
        let (call, call_format_metadata) = match callformat::decode_call(&tx_ctx, call, opened) {
            Ok(Some(result)) => result,
            Ok(None) => {
                proof {
                    assert(apply_writes(before.state, Seq::empty()) == before.state);
                    assert(before.messages + Seq::<EmittedMessage>::empty() =~= before.messages);
                    assert(is_committed(
                        before,
                        before,
                        Seq::empty(),
                        Seq::empty(),
                        before.batch_gas_used,
                    ));
                }
                return Ok(
                    DispatchResult::from_call_result(module::CallResult::Success(Item::null())),
                );
            },
            Err(err) => {
                let failed = err.into_call_result();
                return Ok(DispatchResult::from_call_result(failed));
            },
        };
        let result = Self::dispatch_tx_call(&mut tx_ctx, call);
        let ghost closing = tx_ctx.snapshot();
        let ghost called = result;
        if !result.is_success() {
            let r = match result {
                module::CallResult::Aborted(err) => Err(err),
                other => Ok(DispatchResult::new(other, call_format_metadata)),
            };
            assert(is_scope_steps::<R::Modules>(
                before,
                tx_size,
                tx,
                index,
                opened,
                closing,
                called,
                Seq::empty(),
                ctx.snapshot(),
                r,
            ));
            return r;
        }
        // Load priority, weights.
        let priority = core_module::Module::take_priority(&mut tx_ctx);
        let weights = core_module::Module::take_weights(&mut tx_ctx);
        // Commit store and return emitted tags and messages.
        let outcome = tx_ctx.commit();
        let messages_emitted = outcome.messages.len();
        let ghost emitted = outcome.messages@;
        // Forward any emitted messages. This cannot fail: the transaction
        // got no more slots than the batch had left, and no handler has
        // changed that.
        match ctx.emit_messages(outcome.messages) {
            Ok(()) => {},
            Err(_) => {
                assert(false);
            },
        }
        ctx.apply(&outcome.writes);
        ctx.set_gas_used(outcome.batch_gas_used);
        proof {
            assert(is_committed(
                before,
                ctx.snapshot(),
                writes_view(outcome.writes@),
                emitted,
                outcome.batch_gas_used,
            ));
        }
        let r = Ok(
            DispatchResult {
                result,
                tags: outcome.tags,
                priority,
                weights,
                call_format_metadata,
                messages_emitted,
            },
        );
        assert(is_scope_steps::<R::Modules>(
            before,
            tx_size,
            tx,
            index,
            opened,
            closing,
            called,
            writes_view(outcome.writes@),
            ctx.snapshot(),
            r,
        ));
        r
    }

    /// Dispatch a runtime transaction in the given context: the modules
    /// authenticate it, and where they accept it, it runs in a scope of
    /// its own. A transaction that the modules do not accept fails with
    /// their error.
    pub fn dispatch_tx<S: Store>(
        ctx: &mut RuntimeBatchContext<S>,
        tx_size: u32,
        tx: Transaction,
        index: usize,
        opened: Opened,
    ) -> (r: Result<DispatchResult, Error>)
        requires
            old(ctx).snapshot().has_room(),
        ensures
            old(ctx).snapshot().keeps_slots(final(ctx).snapshot()),
            is_dispatch_outcome::<R::Modules>(
                old(ctx).snapshot(),
                tx_size,
                tx,
                index,
                opened,
                final(ctx).snapshot(),
                r,
            ),
            match r {
                Err(_) => true,
                Ok(d) => {
                    &&& !(d.result is Aborted)
                    &&& !(d.result is Success) ==> is_bare(d)
                    &&& tx.call.format == crate::types::transaction::CallFormat::Plain && !<
                        R::Modules as MethodHandler
                    >::handles_call(tx.call.method@) ==> !(d.result is Success)
                },
            },
    {
        // Run pre-processing hooks.
        let verdict = <R::Modules as AuthHandler>::authenticate_tx(ctx, &tx);
        let ghost mid = ctx.snapshot();
        let ghost judged = verdict;
        let r = match verdict {
            Ok(()) => Self::dispatch_tx_scope(ctx, tx_size, tx, index, opened),
            Err(err) => authentication_failed(err),
        };
        proof {
            lemma_dispatched::<R::Modules>(
                old(ctx).snapshot(),
                tx_size,
                tx,
                index,
                opened,
                mid,
                judged,
                ctx.snapshot(),
                r,
            );
        }
        r
    }

    /// Check whether the given transaction is valid.
    pub fn check_tx<S: Store>(
        ctx: &mut RuntimeBatchContext<S>,
        tx_size: u32,
        tx: Transaction,
        opened: Opened,
    ) -> (r: Result<CheckTxResult, Error>)
        requires
            old(ctx).snapshot().has_room(),
        ensures
            old(ctx).snapshot().keeps_slots(final(ctx).snapshot()),
            is_check_outcome::<R::Modules>(
                old(ctx).snapshot(),
                tx_size,
                tx,
                opened,
                final(ctx).snapshot(),
                r,
            ),
            r matches Ok(checked) ==> (checked.meta is Some ==> checked.error.code == 0
                && checked.error.module@.len() == 0),
            tx.call.format == crate::types::transaction::CallFormat::Plain && !<
                R::Modules as MethodHandler
            >::handles_call(tx.call.method@) ==> !(r matches Ok(checked) && checked.meta is Some),
    {
        let dispatched = Self::dispatch_tx(ctx, tx_size, tx, usize::MAX, opened);
        let ghost outcome = dispatched;
        let r = match dispatched {
            Ok(dispatch) => check_tx_result(dispatch),
            Err(e) => Err(e),
        };
        assert(is_dispatch_outcome::<R::Modules>(
            old(ctx).snapshot(),
            tx_size,
            tx,
            usize::MAX,
            opened,
            ctx.snapshot(),
            outcome,
        ) && match outcome {
            Ok(dispatch) => is_check_result(dispatch, r),
            Err(e) => r == Err::<CheckTxResult, Error>(e),
        });
        r
    }

    /// Execute the given transaction.
    pub fn execute_tx<S: Store>(
        ctx: &mut RuntimeBatchContext<S>,
        tx_size: u32,
        tx: Transaction,
        index: usize,
        opened: Opened,
    ) -> (r: Result<ExecuteTxResult, Error>)
        requires
            old(ctx).snapshot().has_room(),
        ensures
            old(ctx).snapshot().keeps_slots(final(ctx).snapshot()),
            is_execute_outcome::<R::Modules>(
                old(ctx).snapshot(),
                tx_size,
                tx,
                index,
                opened,
                final(ctx).snapshot(),
                r,
            ),
            r matches Ok(executed) ==> exists|wire: crate::types::transaction::CallResult| #[trigger]
                stored_form(wire.encoded()) == Some(executed.output@) && (tx.call.format
                    == crate::types::transaction::CallFormat::Plain && !<
                    R::Modules as MethodHandler
                >::handles_call(tx.call.method@) ==> wire is Failed && executed.messages_emitted
                    == 0 && executed.tags@.len() == 0),
    {
        let outcome = Self::dispatch_tx(ctx, tx_size, tx, index, opened);
        let ghost dispatched = outcome;
        let r = match outcome {
            Ok(dispatch) => {
                let r = execute_tx_result(dispatch);
                proof {
                    if r is Ok {
                        let wire = choose|wire: crate::types::transaction::CallResult| #[trigger]
                            module::wire_result_of(dispatched->Ok_0.result, wire) && stored_form(
                                wire.encoded(),
                            ) == Some(r->Ok_0.output@);
                        assert(stored_form(wire.encoded()) == Some(r->Ok_0.output@));
                    }
                }
                r
            },
            Err(e) => Err(e),
        };
        assert(is_dispatch_outcome::<R::Modules>(
            old(ctx).snapshot(),
            tx_size,
            tx,
            index,
            opened,
            ctx.snapshot(),
            dispatched,
        ) && match dispatched {
            Ok(dispatch) => is_execute_result(dispatch, r),
            Err(e) => r == Err::<ExecuteTxResult, Error>(e),
        });
        r
    }

    /// Prefetch prefixes for the given transaction. A method for which
    /// no module has anything to fetch ahead is fine.
    pub fn prefetch_tx(prefixes: &mut Vec<Vec<u8>>, tx: &Transaction) -> (r: Result<
        (),
        RuntimeError,
    >)
        ensures
            is_prefetch_outcome::<R::Modules>(*tx, *old(prefixes), *final(prefixes), r),
            module::are_distinct_prefixes(old(prefixes)@) ==> module::are_distinct_prefixes(
                final(prefixes)@,
            ),
    {
        match <R::Modules as MethodHandler>::prefetch(
            prefixes,
            tx.call.method.as_str(),
            tx.call.body.duplicate(),
            &tx.auth_info,
        ) {
            module::DispatchResult::Handled(r) => r,
            module::DispatchResult::Unhandled(_) => Ok(()),
        }
    }

    /// Calls the handlers of the messages that the last batch sent, each
    /// with what the consensus layer reports of its message.
    ///
    /// The handlers were recorded with the position of their message when
    /// the last batch ended. The events are taken in order: each takes its
    /// handler out of the record, and the handler is called with the event
    /// and with the payload that was recorded, in the context that the
    /// one before has left. An event without a recorded handler, a
    /// handler that no module knows, and a recorded handler that is left
    /// without an event are errors; after the first error no handler is
    /// called.
    pub fn handle_last_round_messages<C: Context>(
        ctx: &mut C,
        message_events: Vec<MessageEvent>,
    ) -> (r: Result<(), core_module::Error>)
        ensures
            is_messages_handled::<R::Modules>(
                old(ctx).snapshot(),
                message_events@,
                final(ctx).snapshot(),
                r,
            ),
            old(ctx).snapshot().keeps_slots(final(ctx).snapshot()),
    {
        let key = concat(
            core_module::MODULE_NAME.as_bytes(),
            core_module::MESSAGE_HANDLERS.as_slice(),
        );
        let stored: Option<MessageHandlers> = get_typed(&*ctx, key.as_slice());
        let ghost table = stored;
        let ghost at_start = old(ctx).snapshot();
        assert(is_typed_read(
            at_start.state,
            core_module::state_key(core_module::MESSAGE_HANDLERS@),
            table,
        ));
        let mut handlers: Vec<(u32, MessageEventHookInvocation)> = match stored {
            Some(table) => table.entries,
            None => Vec::new(),
        };
        let ghost all = message_events@;
        let ghost mut run = MessagesRun { steps: seq![at_start], left: seq![handlers@] };
        let mut rest = reversed(message_events);
        assert(all.subrange(0, all.len() as int) =~= all);
        while rest.len() > 0
            invariant
                rest@.len() <= all.len(),
                rest@ == all.reverse().subrange(0, rest@.len() as int),
                is_typed_read(
                    at_start.state,
                    core_module::state_key(core_module::MESSAGE_HANDLERS@),
                    table,
                ),
                at_start == old(ctx).snapshot(),
                all == message_events@,
                messages_outcome::<R::Modules>(recorded_handlers(table), all) == messages_outcome::<
                    R::Modules,
                >(handlers@, all.subrange(all.len() - rest@.len(), all.len() as int)),
                run.steps.len() == all.len() - rest@.len() + 1,
                run.left.len() == run.steps.len(),
                run.steps[0] == at_start,
                run.left[0] == recorded_handlers(table),
                run.steps.last() == ctx.snapshot(),
                run.left.last() == handlers@,
                are_message_steps::<R::Modules>(all, run),
                at_start.keeps_slots(ctx.snapshot()),
            decreases rest.len(),
        {
            let ghost pending = all.subrange(all.len() - rest@.len(), all.len() as int);
            let ghost done = all.len() - rest@.len();
            let event = rest.pop().unwrap();
            assert(event == pending[0]);
            assert(event == all[done]);
            assert(pending.drop_first() =~= all.subrange(
                all.len() - rest@.len(),
                all.len() as int,
            ));
            let at = match find_handler(&handlers, event.index) {
                Some(at) => at,
                None => {
                    let r = Err(core_module::Error::MessageHandlerMissing(event.index));
                    assert(is_messages_trace::<R::Modules>(
                        at_start,
                        all,
                        table,
                        run,
                        ctx.snapshot(),
                        r,
                    ));
                    return r;
                },
            };
            let ghost before = ctx.snapshot();
            let ghost left = handlers@;
            let (_, handler) = handlers.remove(at);
            let hook_name = handler.hook_name.clone();
            match <R::Modules as MethodHandler>::dispatch_message_result(
                ctx,
                hook_name.as_str(),
                MessageResult { event, context: handler.payload },
            ) {
                module::DispatchResult::Handled(()) => {
                    proof {
                        assert(is_message_step::<R::Modules>(
                            left,
                            all[done],
                            before,
                            handlers@,
                            ctx.snapshot(),
                        ));
                        run.steps = run.steps.push(ctx.snapshot());
                        run.left = run.left.push(handlers@);
                    }
                },
                module::DispatchResult::Unhandled(_) => {
                    let r = Err(core_module::Error::InvalidMethod(hook_name));
                    assert(is_messages_trace::<R::Modules>(
                        at_start,
                        all,
                        table,
                        run,
                        ctx.snapshot(),
                        r,
                    ));
                    return r;
                },
            }
        }
        assert(all.subrange(all.len() as int, all.len() as int) =~= Seq::empty());
        let r = if handlers.len() > 0 {
            Err(core_module::Error::MessageHandlerNotInvoked)
        } else {
            Ok(())
        };
        assert(is_messages_outcome(
            messages_outcome::<R::Modules>(recorded_handlers(table), all),
            r,
        ));
        assert(is_messages_trace::<R::Modules>(at_start, all, table, run, ctx.snapshot(), r));
        r
    }

    /// Records the handlers of the messages that a batch sends, each
    /// under the position of its message, for the next batch to find.
    /// Returns whether the record was written: it is not where a handler
    /// carries a payload that has no encoding.
    pub fn save_emitted_message_handlers<S: Store>(
        store: &mut S,
        handlers: Vec<MessageEventHookInvocation>,
    ) -> (saved: bool)
        ensures
            match handlers_record(handlers@) {
                Some(bytes) => saved && (*final(store)).contents() == (*old(
                    store,
                )).contents().insert(core_module::state_key(core_module::MESSAGE_HANDLERS@), bytes),
                None => !saved && (*final(store)).contents() == (*old(store)).contents(),
            },
    {
        if handlers.len() > u32::MAX as usize {
            return false;
        }
        let ghost all = handlers@;
        let mut rest = reversed(handlers);
        let mut entries: Vec<(u32, MessageEventHookInvocation)> = Vec::new();
        while rest.len() > 0
            invariant
                all.len() <= u32::MAX,
                rest@.len() + entries@.len() == all.len(),
                rest@ == all.reverse().subrange(0, rest@.len() as int),
                forall|j: int|
                    0 <= j < entries@.len() ==> (#[trigger] entries@[j]) == (j as u32, all[j]),
            decreases rest.len(),
        {
            let handler = rest.pop().unwrap();
            let index = entries.len() as u32;
            entries.push((index, handler));
        }
        assert(entries@ =~= indexed(all));
        let table = MessageHandlers { entries };
        proof {
            lemma_indexed_distinct(all);
            assert(table.is_well_formed());
        }
        let item = table.into_cbor_value();
        match to_vec(&item) {
            Some(bytes) => {
                let key = concat(
                    core_module::MODULE_NAME.as_bytes(),
                    core_module::MESSAGE_HANDLERS.as_slice(),
                );
                store.insert(key.as_slice(), bytes.as_slice());
                true
            },
            None => false,
        }
    }

    /// Process the given runtime query. The state is brought up to the
    /// versions of the modules first. The weight limits of a batch are
    /// answered by the dispatcher itself; every other query goes to the
    /// module that handles it. The answer is returned in its encoding.
    pub fn dispatch_query<S: Store>(
        ctx: &mut RuntimeBatchContext<S>,
        method: &str,
        args: Vec<u8>,
    ) -> (r: Result<Vec<u8>, RuntimeError>)
        ensures
            is_query_outcome::<R::Modules>(
                old(ctx).snapshot(),
                method@,
                args@,
                final(ctx).snapshot(),
                r,
            ),
            cbor_decoding(args@, MAX_NESTING_LEVEL) is None ==> {
                &&& r matches Err(e)
                &&& e.module@ == core_module::MODULE_NAME@
                &&& e.code == 10
                &&& final(ctx).snapshot() == old(ctx).snapshot()
            },
            cbor_decoding(args@, MAX_NESTING_LEVEL) is Some && method@
                != BATCH_WEIGHT_LIMIT_QUERY_METHOD@ && !<R::Modules as MethodHandler>::handles_query(
                method@,
            ) ==> {
                &&& r matches Err(e)
                &&& e.module@ == core_module::MODULE_NAME@
                &&& e.code == 3
                &&& e.message@ == "invalid method: "@ + method@
            },
    {
        let args = match from_slice(args.as_slice()) {
            Some(args) => args,
            None => {
                return Err(
                    core_module::Error::InvalidArgument(
                        owned(DecodeError::ParsingFailed.message()),
                    ).into_runtime_error(),
                );
            },
        };
        let ghost asked = args@;
        // Perform state migrations if required.
        R::migrate(ctx);
        let ghost mid = ctx.snapshot();
        // Execute the query.
        let ghost mut limits = Weights { consensus_messages: None, size_bytes: None };
        let answered = if str_eq(method, BATCH_WEIGHT_LIMIT_QUERY_METHOD) {
            // Internal methods.
            let block_weight_limits = <R::Modules as BlockHandler>::get_block_weight_limits(ctx);
            proof {
                limits = block_weight_limits;
            }
            Ok(block_weight_limits.into_cbor_value())
        } else {
            // Runtime methods.
            match <R::Modules as MethodHandler>::dispatch_query(ctx, method, args) {
                module::DispatchResult::Handled(answer) => answer,
                module::DispatchResult::Unhandled(_) => Err(
                    core_module::Error::InvalidMethod(owned(method)).into_runtime_error(),
                ),
            }
        };
        let ghost answer = answered;
        let r = query_result(answered);
        assert(is_query_steps::<R::Modules>(
            old(ctx).snapshot(),
            method@,
            asked,
            mid,
            limits,
            answer,
            ctx.snapshot(),
            r,
        ));
        r
    }

    /// Executes a batch of transactions over the given state.
    ///
    /// The state is brought up to the versions of the modules. Every
    /// transaction is decoded; one that is malformed or too large fails
    /// the whole batch, because a batch is made of transactions that have
    /// passed the check. The results of the messages of the last round
    /// are handled, the block begins, the transactions run in order, and
    /// the block ends. The handlers of the messages that the batch sends
    /// are recorded in the state, each under the position of its message.
    pub fn execute_batch<S: Store>(
        &self,
        host: HostInfo,
        state: S,
        round_results: Vec<MessageEvent>,
        batch: Vec<BatchEntry>,
    ) -> (r: Result<(ExecuteBatchResult, S), RuntimeError>)
        ensures
            exists|run: BatchRun| #[trigger]
                is_batch_run::<R::Modules, S>(
                    batch_start(
                        Mode::ExecuteTx,
                        host,
                        state.contents(),
                        self.has_key_manager(),
                        self.message_limit(),
                        self.gas_limit(),
                    ),
                    round_results@,
                    batch@,
                    run,
                    r,
                ),
            (exists|i: int| 0 <= i < batch@.len() && #[trigger] batch@[i].size > u32::MAX) ==> r is Err,
            (exists|i: int|
                0 <= i < batch@.len() && is_undecodable::<R::Modules>(#[trigger] batch@[i])) ==> r is Err,
            r matches Ok(done) ==> {
                &&& done.0.results@.len() == batch@.len()
                &&& done.0.batch_weight_limits is Some
                &&& exists|emitted: Seq<EmittedMessage>| #[trigger]
                    is_sent(emitted, done.0.messages@, done.1.contents())
            },
    {
        // If prefetch limit is set enable prefetch.
        let prefetch_limit = R::prefetch_limit();
        let prefetch_enabled = prefetch_limit > 0;
        // Prepare dispatch context.
        let mut ctx = RuntimeBatchContext::new(
            Mode::ExecuteTx,
            host,
            state,
            self.key_manager,
            self.max_messages,
            self.max_batch_gas,
        );
        let ghost start = ctx.snapshot();
        // Perform state migrations if required.
        R::migrate(&mut ctx);
        let ghost all = batch@;
        let ghost events = round_results@;
        let ghost mut run = BatchRun {
            fetch: prefetch_enabled,
            reading: seq![ctx.snapshot()],
            ready: Seq::empty(),
            answered: Ok(()),
            handled: start,
            running: Seq::empty(),
            results: Seq::empty(),
            stopped: start,
            abort: Error::Aborted,
            ended: start,
            limited: start,
        };
        let mut txs: Vec<(u32, Transaction, Opened)> = Vec::new();
        let mut prefixes: Vec<Vec<u8>> = Vec::new();
        let mut rest = reversed(batch);
        while rest.len() > 0
            invariant
                rest@.len() <= all.len(),
                rest@ == all.reverse().subrange(0, rest@.len() as int),
                txs@.len() + rest@.len() == all.len(),
                forall|j: int| 0 <= j < txs@.len() ==> (#[trigger] all[j]).size <= u32::MAX,
                forall|j: int|
                    0 <= j < txs@.len() ==> !is_undecodable::<R::Modules>(#[trigger] all[j]),
                all == batch@,
                events == round_results@,
                start == batch_start(
                    Mode::ExecuteTx,
                    host,
                    state.contents(),
                    self.has_key_manager(),
                    self.message_limit(),
                    self.gas_limit(),
                ),
                run.fetch == prefetch_enabled,
                run.ready == txs@,
                run.reading.last() == ctx.snapshot(),
                ctx.snapshot().has_room(),
                is_migrated::<R::Modules>(start, run.reading[0]),
                is_read_up_to::<R::Modules>(all, run.fetch, run.reading, run.ready),
            decreases rest.len(),
        {
            let entry = rest.pop().unwrap();
            let ghost taken = entry;
            let ghost at = txs@.len() as int;
            assert(entry == all[at]);
            let tx_size = match tx_size_of(entry.size) {
                Ok(size) => size,
                Err(e) => {
                    let failed = e.into_runtime_error();
                    let r = Err(failed);
                    assert(is_batch_run::<R::Modules, S>(start, events, all, run, r));
                    return r;
                },
            };
            let ghost reached = ctx.snapshot();
            let ghost hints = prefixes;
            let decoded = Self::decode_tx(&mut ctx, entry.unverified, entry.verified);
            let ghost outcome = decoded;
            let ghost left = ctx.snapshot();
            // It is an error to include a malformed transaction in a
            // batch. So instead of only reporting a failed execution
            // result, we fail the whole batch.
            let tx = match decoded {
                Ok(tx) => tx,
                Err(err) => {
                    let failed = Error::MalformedTransactionInBatch(
                        err.message(),
                    ).into_runtime_error();
                    let r = Err(failed);
                    proof {
                        assert(is_admission::<R::Modules>(
                            taken,
                            prefetch_enabled,
                            reached,
                            left,
                            outcome,
                            hints,
                            prefixes,
                            Ok(()),
                            Err(failed),
                        ));
                        run.stopped = left;
                        assert(is_batch_run::<R::Modules, S>(start, events, all, run, r));
                    }
                    return r;
                },
            };
            let ghost mut hinted: Result<(), RuntimeError> = Ok(());
            if prefetch_enabled {
                let fetched = Self::prefetch_tx(&mut prefixes, &tx);
                proof {
                    hinted = fetched;
                }
                match fetched {
                    Ok(_) => {},
                    Err(e) => {
                        let r = Err(e);
                        proof {
                            assert(is_admission::<R::Modules>(
                                taken,
                                prefetch_enabled,
                                reached,
                                left,
                                outcome,
                                hints,
                                prefixes,
                                hinted,
                                Err(e),
                            ));
                            run.stopped = left;
                            assert(is_batch_run::<R::Modules, S>(start, events, all, run, r));
                        }
                        return r;
                    },
                }
            }
            let ready = (tx_size, tx, entry.opened);
            proof {
                assert(is_admission::<R::Modules>(
                    taken,
                    prefetch_enabled,
                    reached,
                    left,
                    outcome,
                    hints,
                    prefixes,
                    hinted,
                    Ok(ready),
                ));
                run.reading = run.reading.push(left);
                run.ready = run.ready.push(ready);
            }
            txs.push(ready);
        }
        if prefetch_enabled {
            ctx.prefetch_prefixes(&prefixes, prefetch_limit);
        }
        // Handle last round message results.
        let answered = Self::handle_last_round_messages(&mut ctx, round_results);
        proof {
            run.answered = answered;
            run.handled = ctx.snapshot();
            assert(is_messages_handled::<R::Modules>(
                run.reading.last(),
                events,
                run.handled,
                answered,
            ));
        }
        match answered {
            Ok(()) => {},
            Err(e) => {
                let failed = e.into_runtime_error();
                let r = Err(failed);
                assert(is_batch_run::<R::Modules, S>(start, events, all, run, r));
                return r;
            },
        }
        // Run begin block hooks.
        <R::Modules as BlockHandler>::begin_block(&mut ctx);
        proof {
            run.running = seq![ctx.snapshot()];
            run.results = Seq::empty();
        }
        // Execute the batch.
        let ghost admitted = txs@;
        let mut results: Vec<ExecuteTxResult> = Vec::new();
        let mut pending = reversed(txs);
        assert(run.results =~= results@);
        while pending.len() > 0
            invariant
                pending@.len() <= all.len(),
                admitted.len() == all.len(),
                pending@ == admitted.reverse().subrange(0, pending@.len() as int),
                results@.len() + pending@.len() == all.len(),
                all == batch@,
                events == round_results@,
                start == batch_start(
                    Mode::ExecuteTx,
                    host,
                    state.contents(),
                    self.has_key_manager(),
                    self.message_limit(),
                    self.gas_limit(),
                ),
                run.ready == admitted,
                run.results == results@,
                run.answered is Ok,
                run.running.len() == results@.len() + 1,
                run.running.last() == ctx.snapshot(),
                ctx.snapshot().has_room(),
                <R::Modules as BlockHandler>::begins(run.handled, run.running[0]),
                is_migrated::<R::Modules>(start, run.reading[0]),
                is_read_up_to::<R::Modules>(all, run.fetch, run.reading, run.ready),
                is_messages_handled::<R::Modules>(
                    run.reading.last(),
                    events,
                    run.handled,
                    run.answered,
                ),
                is_run_up_to::<R::Modules>(run.ready, run.running, run.results),
            decreases pending.len(),
        {
            let (tx_size, tx, opened) = pending.pop().unwrap();
            let ghost at = results@.len() as int;
            assert((tx_size, tx, opened) == admitted[at]);
            let index = results.len();
            let executed = Self::execute_tx(&mut ctx, tx_size, tx, index, opened);
            match executed {
                Ok(result) => {
                    proof {
                        run.running = run.running.push(ctx.snapshot());
                        run.results = run.results.push(result);
                    }
                    results.push(result);
                },
                Err(e) => {
                    let ghost abort = e;
                    let failed = e.into_runtime_error();
                    let r = Err(failed);
                    proof {
                        run.stopped = ctx.snapshot();
                        run.abort = abort;
                        assert(is_batch_body::<R::Modules, S>(events, run, r));
                        assert(is_batch_run::<R::Modules, S>(start, events, all, run, r));
                    }
                    return r;
                },
            }
        }
        // Run end block hooks.
        <R::Modules as BlockHandler>::end_block(&mut ctx);
        proof {
            run.ended = ctx.snapshot();
        }
        // Query block weight limits for next round.
        let block_weight_limits = <R::Modules as BlockHandler>::get_block_weight_limits(&mut ctx);
        proof {
            run.limited = ctx.snapshot();
        }
        // Commit the context and retrieve the emitted messages.
        let (block_tags, emitted, mut state) = ctx.commit();
        let ghost sent = emitted@;
        let (messages, handlers) = unzip_messages(emitted);
        if !Self::save_emitted_message_handlers(&mut state, handlers) {
            let failed = Error::Aborted.into_runtime_error();
            let r = Err(failed);
            proof {
                assert(is_batch_end::<R::Modules, S>(run, r));
                assert(is_batch_body::<R::Modules, S>(events, run, r));
                assert(is_batch_run::<R::Modules, S>(start, events, all, run, r));
            }
            return r;
        }
        let result = ExecuteBatchResult {
            results,
            messages,
            block_tags,
            batch_weight_limits: Some(block_weight_limits),
        };
        let done = (result, state);
        let r = Ok(done);
        proof {
            assert(is_sent(sent, done.0.messages@, done.1.contents()));
            assert(is_batch_end::<R::Modules, S>(run, r));
            assert(is_batch_body::<R::Modules, S>(events, run, r));
            assert(is_batch_run::<R::Modules, S>(start, events, all, run, r));
        }
        r
    }

    /// Checks a batch of transactions over the given state, for the
    /// admission of the transactions to a batch.
    ///
    /// A transaction that is malformed is reported as such in its place;
    /// only one that is too large fails the whole check. The messages of
    /// the last round are not handled, and there is no block to begin or
    /// end. Nothing is kept of the state.
    pub fn check_batch<S: Store>(&self, host: HostInfo, state: S, batch: Vec<BatchEntry>) -> (r:
        Result<Vec<CheckTxResult>, RuntimeError>)
        ensures
            exists|run: CheckRun| #[trigger]
                is_check_run::<R::Modules>(
                    batch_start(
                        Mode::CheckTx,
                        host,
                        state.contents(),
                        self.has_key_manager(),
                        self.message_limit(),
                        self.gas_limit(),
                    ),
                    batch@,
                    run,
                    r,
                ),
            (exists|i: int| 0 <= i < batch@.len() && #[trigger] batch@[i].size > u32::MAX) ==> r is Err,
            r matches Ok(results) ==> {
                &&& results@.len() == batch@.len()
                &&& forall|i: int|
                    0 <= i < batch@.len() && (#[trigger] batch@[i]).unverified is Err
                        ==> results@[i].meta is None && results@[i].error.code == 1
                        && results@[i].error.module@ == core_module::MODULE_NAME@
                &&& forall|i: int|
                    0 <= i < batch@.len() && is_undecodable::<R::Modules>(#[trigger] batch@[i])
                        ==> results@[i].meta is None
            },
    {
        // If prefetch limit is set enable prefetch.
        let prefetch_limit = R::prefetch_limit();
        let prefetch_enabled = prefetch_limit > 0;
        // Prepare dispatch context.
        let mut ctx = RuntimeBatchContext::new(
            Mode::CheckTx,
            host,
            state,
            self.key_manager,
            self.max_messages,
            self.max_batch_gas,
        );
        let ghost start = ctx.snapshot();
        // Perform state migrations if required.
        R::migrate(&mut ctx);
        // Prefetch.
        let ghost all = batch@;
        let ghost mut run = CheckRun {
            fetch: prefetch_enabled,
            reading: seq![ctx.snapshot()],
            prepared: Seq::empty(),
            running: Seq::empty(),
            results: Seq::empty(),
            stopped: start,
            abort: Error::Aborted,
        };
        let mut txs: Vec<Result<(u32, Transaction, Opened), RuntimeError>> = Vec::new();
        let mut prefixes: Vec<Vec<u8>> = Vec::new();
        let mut rest = reversed(batch);
        while rest.len() > 0
            invariant
                rest@.len() <= all.len(),
                rest@ == all.reverse().subrange(0, rest@.len() as int),
                txs@.len() + rest@.len() == all.len(),
                forall|j: int| 0 <= j < txs@.len() ==> (#[trigger] all[j]).size <= u32::MAX,
                forall|j: int|
                    0 <= j < txs@.len() && (#[trigger] all[j]).unverified is Err ==> is_malformed(
                        txs@[j],
                    ),
                forall|j: int|
                    0 <= j < txs@.len() && is_undecodable::<R::Modules>(#[trigger] all[j])
                        ==> txs@[j] is Err,
                all == batch@,
                start == batch_start(
                    Mode::CheckTx,
                    host,
                    state.contents(),
                    self.has_key_manager(),
                    self.message_limit(),
                    self.gas_limit(),
                ),
                run.fetch == prefetch_enabled,
                run.prepared == txs@,
                run.reading.last() == ctx.snapshot(),
                ctx.snapshot().has_room(),
                is_migrated::<R::Modules>(start, run.reading[0]),
                is_prepared_up_to::<R::Modules>(all, run.fetch, run.reading, run.prepared),
            decreases rest.len(),
        {
            let entry = rest.pop().unwrap();
            let ghost taken = entry;
            assert(entry == all[txs@.len() as int]);
            let tx_size = match tx_size_of(entry.size) {
                Ok(size) => size,
                Err(e) => {
                    let failed = e.into_runtime_error();
                    let r = Err(failed);
                    assert(is_check_run::<R::Modules>(start, all, run, r));
                    return r;
                },
            };
            let ghost reached = ctx.snapshot();
            let ghost hints = prefixes;
            let decoded = Self::decode_tx(&mut ctx, entry.unverified, entry.verified);
            let ghost outcome = decoded;
            let ghost left = ctx.snapshot();
            let ghost mut hinted: Result<(), RuntimeError> = Ok(());
            let res = match decoded {
                Ok(tx) => {
                    if prefetch_enabled {
                        let fetched = Self::prefetch_tx(&mut prefixes, &tx);
                        proof {
                            hinted = fetched;
                        }
                        match fetched {
                            Ok(_) => Ok((tx_size, tx, entry.opened)),
                            Err(e) => Err(e),
                        }
                    } else {
                        Ok((tx_size, tx, entry.opened))
                    }
                },
                Err(err) => Err(err.into_runtime_error()),
            };
            proof {
                assert(is_preparation::<R::Modules>(
                    taken,
                    prefetch_enabled,
                    reached,
                    left,
                    outcome,
                    hints,
                    prefixes,
                    hinted,
                    res,
                ));
                run.reading = run.reading.push(left);
                run.prepared = run.prepared.push(res);
            }
            txs.push(res);
        }
        if prefetch_enabled {
            ctx.prefetch_prefixes(&prefixes, prefetch_limit);
        }
        proof {
            run.running = seq![ctx.snapshot()];
            run.results = Seq::empty();
        }
        // Check the batch.
        let ghost decoded = txs@;
        let mut results: Vec<CheckTxResult> = Vec::new();
        let mut pending = reversed(txs);
        assert(run.results =~= results@);
        while pending.len() > 0
            invariant
                pending@.len() <= all.len(),
                decoded.len() == all.len(),
                pending@ == decoded.reverse().subrange(0, pending@.len() as int),
                results@.len() + pending@.len() == all.len(),
                forall|j: int|
                    0 <= j < decoded.len() && (#[trigger] all[j]).unverified is Err
                        ==> is_malformed(decoded[j]),
                forall|j: int|
                    0 <= j < decoded.len() && is_undecodable::<R::Modules>(#[trigger] all[j])
                        ==> decoded[j] is Err,
                forall|j: int|
                    0 <= j < results@.len() && is_undecodable::<R::Modules>(#[trigger] all[j])
                        ==> results@[j].meta is None,
                forall|j: int|
                    0 <= j < results@.len() && (#[trigger] all[j]).unverified is Err
                        ==> results@[j].meta is None && results@[j].error.code == 1
                        && results@[j].error.module@ == core_module::MODULE_NAME@,
                all == batch@,
                start == batch_start(
                    Mode::CheckTx,
                    host,
                    state.contents(),
                    self.has_key_manager(),
                    self.message_limit(),
                    self.gas_limit(),
                ),
                run.prepared == decoded,
                run.results == results@,
                run.running.len() == results@.len() + 1,
                run.running.last() == ctx.snapshot(),
                ctx.snapshot().has_room(),
                run.running[0] == run.reading.last(),
                is_migrated::<R::Modules>(start, run.reading[0]),
                is_prepared_up_to::<R::Modules>(all, run.fetch, run.reading, run.prepared),
                is_checked_up_to::<R::Modules>(run.prepared, run.running, run.results),
            decreases pending.len(),
        {
            let tx = pending.pop().unwrap();
            let ghost at = results@.len() as int;
            assert(tx == decoded[at]);
            let checked = match tx {
                Ok((tx_size, tx, opened)) => Self::check_tx(&mut ctx, tx_size, tx, opened),
                Err(err) => Ok(CheckTxResult { error: err, meta: None }),
            };
            match checked {
                Ok(result) => {
                    proof {
                        run.running = run.running.push(ctx.snapshot());
                        run.results = run.results.push(result);
                    }
                    results.push(result);
                },
                Err(e) => {
                    let ghost abort = e;
                    let failed = e.into_runtime_error();
                    let r = Err(failed);
                    proof {
                        run.stopped = ctx.snapshot();
                        run.abort = abort;
                        assert(is_check_run::<R::Modules>(start, all, run, r));
                    }
                    return r;
                },
            }
        }
        let r = Ok(results);
        assert(is_check_run::<R::Modules>(start, all, run, r));
        r
    }

    /// Answers a query over the given state. Whatever a module writes
    /// while it answers goes to an overlay that is dropped with the
    /// answer: a query does not change the state and sends no message.
    pub fn query<S: Store>(&self, host: HostInfo, state: &S, method: &str, args: Vec<u8>) -> (r:
        Result<Vec<u8>, RuntimeError>)
        ensures
            exists|after: ContextView| #[trigger]
                is_query_outcome::<R::Modules>(
                    batch_start(
                        Mode::CheckTx,
                        host,
                        state.contents(),
                        self.has_key_manager(),
                        self.message_limit(),
                        self.gas_limit(),
                    ),
                    method@,
                    args@,
                    after,
                    r,
                ),
            cbor_decoding(args@, MAX_NESTING_LEVEL) is None ==> {
                &&& r matches Err(e)
                &&& e.module@ == core_module::MODULE_NAME@
                &&& e.code == 10
            },
            cbor_decoding(args@, MAX_NESTING_LEVEL) is Some && method@
                != BATCH_WEIGHT_LIMIT_QUERY_METHOD@ && !<R::Modules as MethodHandler>::handles_query(
                method@,
            ) ==> {
                &&& r matches Err(e)
                &&& e.module@ == core_module::MODULE_NAME@
                &&& e.code == 3
                &&& e.message@ == "invalid method: "@ + method@
            },
    {
        // Prepare dispatch context.
        let mut ctx = RuntimeBatchContext::new(
            Mode::CheckTx,
            host,
            OverlayStore::new(state),
            self.key_manager,
            self.max_messages,
            self.max_batch_gas,
        );
        let ghost start = ctx.snapshot();
        let r = Self::dispatch_query(&mut ctx, method, args);
        assert(is_query_outcome::<R::Modules>(start, method@, args@, ctx.snapshot(), r));
        r
    }
}

/// The batch holds what a committed transaction has left: the writes are
/// applied to the state, the messages follow those that were there, and
/// the gas used by the batch is what the transaction counted.
/// The tags of the block are as they were; the tags of a transaction go
/// into its result.
pub open spec fn is_committed(
    before: ContextView,
    after: ContextView,
    writes: Seq<(Seq<u8>, Option<Seq<u8>>)>,
    emitted: Seq<EmittedMessage>,
    gas: u64,
) -> bool {
    after == (ContextView {
        state: apply_writes(before.state, writes),
        messages: before.messages + emitted,
        batch_gas_used: gas,
        ..before
    })
}

/// What an authenticated transaction leaves when it has run in a scope
/// of its own.
///
/// An abort leaves the batch as it was. So does a call that does not
/// succeed, which has no tags and no messages either. A call that
/// succeeds leaves its writes in the state and its messages, in order,
/// after those that the batch already holds. A call in plain format to a
/// method that no module handles does not succeed. A call that its format
/// settles is not run: its result is the settled one and the batch is as
/// it was.
pub open spec fn is_scope_outcome<M: AuthHandler + MethodHandler>(
    before: ContextView,
    tx_size: u32,
    tx: Transaction,
    index: usize,
    opened: Opened,
    after: ContextView,
    r: Result<DispatchResult, Error>,
) -> bool {
    &&& match r {
        Err(_) => after == before,
        Ok(d) => {
            &&& !(d.result is Aborted)
            &&& !(d.result is Success) ==> after == before && is_bare(d)
            &&& d.result is Success ==> exists|
                writes: Seq<(Seq<u8>, Option<Seq<u8>>)>,
                emitted: Seq<EmittedMessage>,
                gas: u64,
            |
                emitted.len() == d.messages_emitted && #[trigger] is_committed(
                    before,
                    after,
                    writes,
                    emitted,
                    gas,
                )
            &&& tx.call.format == crate::types::transaction::CallFormat::Plain
                && !M::handles_call(tx.call.method@) ==> !(d.result is Success)
        },
    }
    &&& match settled_by_format(before, tx.call.format, opened) {
        Some(settled) => {
            &&& r matches Ok(d)
            &&& is_settled_result(settled, d)
            &&& after == before
        },
        None => is_scope_run::<M>(before, tx_size, tx, index, opened, after, r),
    }
}

/// Nothing but the result of the call is left of the transaction: no
/// tags, no priority, no weights and no messages.
pub open spec fn is_bare(d: DispatchResult) -> bool {
    &&& d.tags@.len() == 0
    &&& d.priority == 0
    &&& d.weights@ == Map::<crate::types::transaction::TransactionWeight, u64>::empty()
    &&& d.messages_emitted == 0
}

/// What running a call in the context of its transaction gives. The
/// modules prepare for the call, and leave the context as `mid`: where
/// one of them fails, the call fails with its error. Else the call goes
/// to the module that handles the method, and the result is what that
/// module says; where there is none, it fails as a call to an invalid
/// method and nothing more is done.
pub open spec fn is_call_outcome<M: AuthHandler + MethodHandler>(
    before: ContextView,
    call: Call,
    after: ContextView,
    r: module::CallResult,
) -> bool {
    exists|mid: ContextView, verdict: Result<(), core_module::Error>|
        #[trigger] M::prepares(before, call, mid, verdict) && match verdict {
            Err(e) => after == mid && error::is_call_result_of(e, r),
            Ok(()) => if M::handles_call(call.method@) {
                M::called(mid, call.method@, call.body@, after, r)
            } else {
                after == mid && is_unhandled(call.method@, r)
            },
        }
}

/// The preparation of a call and what follows it are a run of the call.
proof fn lemma_called<M: AuthHandler + MethodHandler>(
    before: ContextView,
    call: Call,
    mid: ContextView,
    verdict: Result<(), core_module::Error>,
    after: ContextView,
    r: module::CallResult,
)
    requires
        M::prepares(before, call, mid, verdict),
        match verdict {
            Err(e) => after == mid && error::is_call_result_of(e, r),
            Ok(()) => if M::handles_call(call.method@) {
                M::called(mid, call.method@, call.body@, after, r)
            } else {
                after == mid && is_unhandled(call.method@, r)
            },
        },
    ensures
        is_call_outcome::<M>(before, call, after, r),
{
}

/// The context in which a transaction starts: over the state of the
/// batch as it is, without tags or messages, with the message slots that
/// it gets, with its place in the batch and its size, and with no gas
/// used but what the batch has used before it.
pub open spec fn tx_start(
    before: ContextView,
    tx_size: u32,
    tx: Transaction,
    index: usize,
) -> ContextView {
    ContextView {
        tags: Seq::empty(),
        messages: Seq::empty(),
        max_messages: crate::context::tx_message_slots(
            before.max_messages,
            before.messages.len(),
            tx.auth_info.fee.consensus_messages,
        ),
        tx: Some(
            crate::context::TxView {
                index,
                size: tx_size,
                gas_limit: tx.auth_info.fee.gas,
                gas_used: 0,
                batch_gas_used: before.batch_gas_used,
                max_batch_gas: before.max_batch_gas,
                priority: 0,
                weights: Map::empty(),
                auth_info: tx.auth_info,
            },
        ),
        ..before
    }
}

/// The call that runs, with the format in which it arrived: a plain
/// call as it is, a sealed call as the host opened it.
pub open spec fn run_call(tx: Transaction, opened: Opened) -> (Call, callformat::Metadata) {
    match tx.call.format {
        crate::types::transaction::CallFormat::Plain => (tx.call, callformat::Metadata::Empty),
        crate::types::transaction::CallFormat::EncryptedX25519DeoxysII => (
            opened->Some_0->Ok_0,
            callformat::Metadata::EncryptedX25519DeoxysII,
        ),
    }
}

/// How a call that its format does not settle runs in a scope of its
/// own. The transaction starts in its own context, and the call leaves
/// that as `closing`, with `result`. An abort ends the batch. A call
/// that fails leaves the batch as it was. A call that succeeds hands out
/// its tags, its priority and its weights, and leaves its writes, its
/// messages and its count of the gas in the batch.
pub open spec fn is_scope_steps<M: AuthHandler + MethodHandler>(
    before: ContextView,
    tx_size: u32,
    tx: Transaction,
    index: usize,
    opened: Opened,
    closing: ContextView,
    result: module::CallResult,
    writes: Seq<(Seq<u8>, Option<Seq<u8>>)>,
    after: ContextView,
    r: Result<DispatchResult, Error>,
) -> bool {
    let (call, metadata) = run_call(tx, opened);
    &&& is_call_outcome::<M>(tx_start(before, tx_size, tx, index), call, closing, result)
    &&& match result {
        module::CallResult::Aborted(err) => after == before && r == Err::<DispatchResult, Error>(
            err,
        ),
        module::CallResult::Failed { .. } => {
            &&& after == before
            &&& r matches Ok(d)
            &&& d.result == result
            &&& d.tags@.len() == 0
            &&& d.priority == 0
            &&& d.weights@ == Map::<crate::types::transaction::TransactionWeight, u64>::empty()
            &&& d.call_format_metadata == metadata
            &&& d.messages_emitted == 0
        },
        module::CallResult::Success(_) => {
            &&& r matches Ok(d)
            &&& d.result == result
            &&& d.tags@ == closing.tags
            &&& d.priority == closing.transaction().priority
            &&& d.weights@ == closing.transaction().weights
            &&& d.call_format_metadata == metadata
            &&& d.messages_emitted == closing.messages.len()
            &&& is_committed(
                before,
                after,
                writes,
                closing.messages,
                closing.transaction().batch_gas_used,
            )
        },
    }
}

/// A call that its format does not settle runs in a scope of its own.
pub open spec fn is_scope_run<M: AuthHandler + MethodHandler>(
    before: ContextView,
    tx_size: u32,
    tx: Transaction,
    index: usize,
    opened: Opened,
    after: ContextView,
    r: Result<DispatchResult, Error>,
) -> bool {
    exists|
        closing: ContextView,
        result: module::CallResult,
        writes: Seq<(Seq<u8>, Option<Seq<u8>>)>,
    | #[trigger]
        is_scope_steps::<M>(before, tx_size, tx, index, opened, closing, result, writes, after, r)
}

/// The result of a transaction that the modules do not authenticate: the
/// call fails with their error, and nothing is left of the transaction;
/// an abort ends the batch.
pub open spec fn is_authentication_failure(
    err: core_module::Error,
    r: Result<DispatchResult, Error>,
) -> bool {
    match err.abort_spec() {
        Some(abort) => r == Err::<DispatchResult, Error>(abort),
        None => {
            &&& r matches Ok(d)
            &&& d.result matches module::CallResult::Failed { module, code, message }
            &&& module@ == err.module_name_spec()
            &&& code == err.code_spec()
            &&& message@ == err.message_spec()
            &&& d.tags@.len() == 0
            &&& d.priority == 0
            &&& d.weights@ == Map::<crate::types::transaction::TransactionWeight, u64>::empty()
            &&& d.messages_emitted == 0
            &&& d.call_format_metadata == callformat::Metadata::Empty
        },
    }
}

/// What dispatching a transaction gives: the modules authenticate it,
/// and leave the batch as `mid`. Where they turn it down, that is what is
/// left, and the result is their error. Where they accept it, the
/// transaction runs in a scope of its own.
pub open spec fn is_dispatch_outcome<M: AuthHandler + MethodHandler>(
    before: ContextView,
    tx_size: u32,
    tx: Transaction,
    index: usize,
    opened: Opened,
    after: ContextView,
    r: Result<DispatchResult, Error>,
) -> bool {
    exists|mid: ContextView, verdict: Result<(), core_module::Error>|
        #[trigger] M::authenticates(before, tx, mid, verdict) && match verdict {
            Ok(()) => is_scope_outcome::<M>(mid, tx_size, tx, index, opened, after, r),
            Err(err) => after == mid && is_authentication_failure(err, r),
        }
}

/// An authentication and what follows it are a dispatch.
proof fn lemma_dispatched<M: AuthHandler + MethodHandler>(
    before: ContextView,
    tx_size: u32,
    tx: Transaction,
    index: usize,
    opened: Opened,
    mid: ContextView,
    verdict: Result<(), core_module::Error>,
    after: ContextView,
    r: Result<DispatchResult, Error>,
)
    requires
        M::authenticates(before, tx, mid, verdict),
        match verdict {
            Ok(()) => is_scope_outcome::<M>(mid, tx_size, tx, index, opened, after, r),
            Err(err) => after == mid && is_authentication_failure(err, r),
        },
    ensures
        is_dispatch_outcome::<M>(before, tx_size, tx, index, opened, after, r),
{
}

/// Without modules nothing handles a call: a transaction with a plain
/// call is dispatched to a failure for an invalid method, and the batch
/// is left as it was.
pub proof fn lemma_dispatch_without_modules(
    before: ContextView,
    tx_size: u32,
    tx: Transaction,
    index: usize,
    opened: Opened,
    after: ContextView,
    r: Result<DispatchResult, Error>,
)
    requires
        tx.call.format == crate::types::transaction::CallFormat::Plain,
        is_dispatch_outcome::<()>(before, tx_size, tx, index, opened, after, r),
    ensures
        after == before,
        r matches Ok(d) && is_unhandled(tx.call.method@, d.result) && d.messages_emitted == 0
            && d.tags@.len() == 0,
{
}

/// A transaction whose call does not succeed leaves nothing but what
/// its authentication left: the batch is as the modules left it when
/// they authenticated the transaction, and the result has no tags, no
/// priority, no weights and no messages. Where authentication writes
/// nothing, the batch is as it was before.
pub proof fn lemma_failed_dispatch_leaves_no_trace<M: AuthHandler + MethodHandler>(
    before: ContextView,
    tx_size: u32,
    tx: Transaction,
    index: usize,
    opened: Opened,
    after: ContextView,
    d: DispatchResult,
)
    requires
        is_dispatch_outcome::<M>(before, tx_size, tx, index, opened, after, Ok(d)),
        !(d.result is Success),
    ensures
        is_bare(d),
        exists|verdict: Result<(), core_module::Error>| #[trigger]
            M::authenticates(before, tx, after, verdict),
        (forall|mid: ContextView, verdict: Result<(), core_module::Error>| #[trigger]
            M::authenticates(before, tx, mid, verdict) ==> mid == before) ==> after == before,
{
}

/// A transaction that the modules do not authenticate fails with their
/// error: the result is the failure of that error, or its abort, and
/// nothing else is left of the transaction. The call is not run.
pub proof fn lemma_refused_dispatch<M: AuthHandler + MethodHandler>(
    before: ContextView,
    tx_size: u32,
    tx: Transaction,
    index: usize,
    opened: Opened,
    after: ContextView,
    r: Result<DispatchResult, Error>,
)
    requires
        is_dispatch_outcome::<M>(before, tx_size, tx, index, opened, after, r),
        forall|mid: ContextView, verdict: Result<(), core_module::Error>| #[trigger]
            M::authenticates(before, tx, mid, verdict) ==> verdict is Err,
    ensures
        exists|err: core_module::Error| #[trigger]
            M::authenticates(before, tx, after, Err(err)) && is_authentication_failure(err, r),
{
}

/// The modules have authenticated the transaction in the context
/// `before`, and have left it as `mid`.
pub open spec fn is_left_by_authentication<M: AuthHandler>(
    before: ContextView,
    tx: Transaction,
    mid: ContextView,
) -> bool {
    exists|verdict: Result<(), core_module::Error>| #[trigger]
        M::authenticates(before, tx, mid, verdict)
}

/// A transaction adds to the messages that its authentication has left
/// as many as it has emitted.
pub open spec fn is_authenticated_step<M: AuthHandler>(
    before: ContextView,
    tx: Transaction,
    mid: ContextView,
    after: ContextView,
    emitted: usize,
) -> bool {
    &&& is_left_by_authentication::<M>(before, tx, mid)
    &&& after.messages.len() == mid.messages.len() + emitted
}

/// A transaction that is executed adds to the messages that its
/// authentication has left as many as its result says.
pub proof fn lemma_executed_messages<M: AuthHandler + MethodHandler>(
    before: ContextView,
    tx_size: u32,
    tx: Transaction,
    index: usize,
    opened: Opened,
    after: ContextView,
    executed: ExecuteTxResult,
)
    requires
        is_execute_outcome::<M>(before, tx_size, tx, index, opened, after, Ok(executed)),
    ensures
        exists|mid: ContextView| #[trigger]
            is_authenticated_step::<M>(before, tx, mid, after, executed.messages_emitted),
{
    let dispatched = choose|dispatched: Result<DispatchResult, Error>| #[trigger]
        is_dispatch_outcome::<M>(before, tx_size, tx, index, opened, after, dispatched)
            && match dispatched {
            Ok(dispatch) => is_execute_result(dispatch, Ok(executed)),
            Err(e) => Ok::<ExecuteTxResult, Error>(executed) == Err::<ExecuteTxResult, Error>(e),
        };
    let (mid, verdict) = choose|mid: ContextView, verdict: Result<(), core_module::Error>|
        #[trigger] M::authenticates(before, tx, mid, verdict) && match verdict {
            Ok(()) => is_scope_outcome::<M>(mid, tx_size, tx, index, opened, after, dispatched),
            Err(err) => after == mid && is_authentication_failure(err, dispatched),
        };
    assert(is_left_by_authentication::<M>(before, tx, mid));
    assert(is_authenticated_step::<M>(before, tx, mid, after, executed.messages_emitted));
}

/// The number of messages that the first `k` transactions have emitted,
/// by their results.
pub open spec fn emitted_up_to(results: Seq<ExecuteTxResult>, k: nat) -> nat
    decreases k,
{
    if k == 0 {
        0
    } else {
        emitted_up_to(results, (k - 1) as nat) + results[k - 1].messages_emitted as nat
    }
}

/// The number of messages that the transactions have emitted, by their
/// results.
pub open spec fn emitted_sum(results: Seq<ExecuteTxResult>) -> nat {
    emitted_up_to(results, results.len())
}

/// The number of messages that the modules have added while they
/// authenticated the first `k` transactions: for each, what its
/// authentication left more than there was.
pub open spec fn added_up_to(
    running: Seq<ContextView>,
    authenticated: Seq<ContextView>,
    k: nat,
) -> int
    decreases k,
{
    if k == 0 {
        0
    } else {
        added_up_to(running, authenticated, (k - 1) as nat) + authenticated[k
            - 1].messages.len() - running[k - 1].messages.len()
    }
}

/// The messages of a batch after `k` transactions are those that it
/// held when the first ran, those that the modules added while they
/// authenticated, and those that the transactions emitted.
pub proof fn lemma_run_messages(
    running: Seq<ContextView>,
    authenticated: Seq<ContextView>,
    results: Seq<ExecuteTxResult>,
    k: nat,
)
    requires
        k <= results.len(),
        running.len() == results.len() + 1,
        authenticated.len() == results.len(),
        forall|i: int|
            0 <= i < results.len() ==> running[i + 1].messages.len() == (
            #[trigger] authenticated[i]).messages.len() + results[i].messages_emitted,
    ensures
        running[k as int].messages.len() == running[0].messages.len() + added_up_to(
            running,
            authenticated,
            k,
        ) + emitted_up_to(results, k),
    decreases k,
{
    if k > 0 {
        lemma_run_messages(running, authenticated, results, (k - 1) as nat);
        assert(running[k as int].messages.len() == authenticated[k - 1].messages.len()
            + results[k - 1].messages_emitted);
    }
}

/// How the messages that a batch returns are counted: those that the
/// batch held when its first transaction ran, those that the modules
/// added while they authenticated the transactions, which left the
/// contexts `authenticated`, those that the transactions emitted, as
/// their results count them, and those that the modules added when the
/// block ended and when they gave their limits.
pub open spec fn is_message_count<M: AuthHandler>(
    run: BatchRun,
    authenticated: Seq<ContextView>,
    total: nat,
) -> bool {
    &&& authenticated.len() == run.results.len()
    &&& forall|i: int|
        0 <= i < run.results.len() ==> is_left_by_authentication::<M>(
            run.running[i],
            run.ready[i].1,
            #[trigger] authenticated[i],
        )
    &&& total == run.running[0].messages.len() + added_up_to(
        run.running,
        authenticated,
        run.results.len(),
    ) + emitted_sum(run.results) + run.limited.messages.len()
        - run.running.last().messages.len()
}

/// A batch that is executed returns one result for each transaction,
/// and its messages are counted: a transaction whose call succeeds adds
/// as many as its result says, a transaction that fails adds none, and
/// the rest are those that the modules added in their hooks.
pub proof fn lemma_batch_messages<
    M: AuthHandler + MigrationHandler + MethodHandler + BlockHandler,
    S: Store,
>(
    start: ContextView,
    events: Seq<MessageEvent>,
    entries: Seq<BatchEntry>,
    run: BatchRun,
    done: (ExecuteBatchResult, S),
)
    requires
        is_batch_run::<M, S>(start, events, entries, run, Ok(done)),
    ensures
        done.0.results@.len() == entries.len(),
        done.0.results@ == run.results,
        exists|authenticated: Seq<ContextView>| #[trigger]
            is_message_count::<M>(run, authenticated, done.0.messages@.len()),
{
    let n = run.results.len();
    let authenticated = Seq::new(
        n,
        |i: int|
            choose|mid: ContextView| #[trigger]
                is_authenticated_step::<M>(
                    run.running[i],
                    run.ready[i].1,
                    mid,
                    run.running[i + 1],
                    run.results[i].messages_emitted,
                ),
    );
    assert forall|i: int| 0 <= i < n implies is_authenticated_step::<M>(
        run.running[i],
        run.ready[i].1,
        #[trigger] authenticated[i],
        run.running[i + 1],
        run.results[i].messages_emitted,
    ) by {
        assert(is_execute_outcome::<M>(
            run.running[i],
            run.ready[i].0,
            run.ready[i].1,
            i as usize,
            run.ready[i].2,
            run.running[i + 1],
            Ok(run.results[i]),
        ));
        lemma_executed_messages::<M>(
            run.running[i],
            run.ready[i].0,
            run.ready[i].1,
            i as usize,
            run.ready[i].2,
            run.running[i + 1],
            run.results[i],
        );
    }
    lemma_run_messages(run.running, authenticated, run.results, n);
    assert(is_message_count::<M>(run, authenticated, done.0.messages@.len()));
}

/// The error as it goes on the wire.
pub open spec fn is_wire_form<E: error::Error>(err: E, e: RuntimeError) -> bool {
    &&& e.module@ == err.module_name_spec()
    &&& e.code == err.code_spec()
    &&& e.message@ == err.message_spec()
}

/// How a transaction of a batch is read: it is not too large, it is
/// decoded in the context `before`, which leaves `after`, and where
/// prefixes are fetched ahead for it the modules add theirs to `hints`,
/// which leaves `more`, and answer `fetched`.
pub open spec fn is_reading<M: AuthHandler + MethodHandler>(
    entry: BatchEntry,
    fetch: bool,
    before: ContextView,
    after: ContextView,
    decoded: Result<Transaction, core_module::Error>,
    hints: Vec<Vec<u8>>,
    more: Vec<Vec<u8>>,
    fetched: Result<(), RuntimeError>,
) -> bool {
    &&& entry.size <= u32::MAX
    &&& is_decode_outcome::<M>(before, entry.unverified, entry.verified, after, decoded)
    &&& match decoded {
        Err(_) => true,
        Ok(tx) => if fetch {
            is_prefetch_outcome::<M>(tx, hints, more, fetched)
        } else {
            fetched is Ok
        },
    }
}

/// What a transaction that was read is ready to run as, where the modules
/// have answered the question of what to fetch ahead.
pub open spec fn made_ready(
    entry: BatchEntry,
    tx: Transaction,
    fetched: Result<(), RuntimeError>,
) -> Result<(u32, Transaction, Opened), RuntimeError> {
    match fetched {
        Ok(_) => Ok((entry.size as u32, tx, entry.opened)),
        Err(e) => Err(e),
    }
}

/// How a transaction of a batch is made ready for its check. One that
/// cannot be decoded is ready as the error on the wire.
pub open spec fn is_preparation<M: AuthHandler + MethodHandler>(
    entry: BatchEntry,
    fetch: bool,
    before: ContextView,
    after: ContextView,
    decoded: Result<Transaction, core_module::Error>,
    hints: Vec<Vec<u8>>,
    more: Vec<Vec<u8>>,
    fetched: Result<(), RuntimeError>,
    prepared: Result<(u32, Transaction, Opened), RuntimeError>,
) -> bool {
    &&& is_reading::<M>(entry, fetch, before, after, decoded, hints, more, fetched)
    &&& match decoded {
        Err(err) => prepared matches Err(e) && is_wire_form(err, e),
        Ok(tx) => prepared == made_ready(entry, tx, fetched),
    }
}

/// The transaction of a batch is made ready for its check as `prepared`,
/// from the context `before` to the context `after`.
pub open spec fn is_prepared_in<M: AuthHandler + MethodHandler>(
    entry: BatchEntry,
    fetch: bool,
    before: ContextView,
    after: ContextView,
    prepared: Result<(u32, Transaction, Opened), RuntimeError>,
) -> bool {
    exists|
        decoded: Result<Transaction, core_module::Error>,
        hints: Vec<Vec<u8>>,
        more: Vec<Vec<u8>>,
        fetched: Result<(), RuntimeError>,
    | #[trigger]
        is_preparation::<M>(entry, fetch, before, after, decoded, hints, more, fetched, prepared)
}

/// The error of a batch with a transaction that cannot be decoded.
pub open spec fn is_malformed_in_batch(err: core_module::Error, e: RuntimeError) -> bool {
    &&& e.module@ == MODULE_NAME@
    &&& e.code == 2
    &&& e.message@ == "malformed transaction in batch: "@ + err.message_spec()
}

/// How a transaction of a batch is admitted to its execution. One that
/// cannot be decoded is the error of the batch.
pub open spec fn is_admission<M: AuthHandler + MethodHandler>(
    entry: BatchEntry,
    fetch: bool,
    before: ContextView,
    after: ContextView,
    decoded: Result<Transaction, core_module::Error>,
    hints: Vec<Vec<u8>>,
    more: Vec<Vec<u8>>,
    fetched: Result<(), RuntimeError>,
    admitted: Result<(u32, Transaction, Opened), RuntimeError>,
) -> bool {
    &&& is_reading::<M>(entry, fetch, before, after, decoded, hints, more, fetched)
    &&& match decoded {
        Err(err) => admitted matches Err(e) && is_malformed_in_batch(err, e),
        Ok(tx) => admitted == made_ready(entry, tx, fetched),
    }
}

/// The transaction of a batch is admitted to its execution as
/// `admitted`, from the context `before` to the context `after`.
pub open spec fn is_admitted_in<M: AuthHandler + MethodHandler>(
    entry: BatchEntry,
    fetch: bool,
    before: ContextView,
    after: ContextView,
    admitted: Result<(u32, Transaction, Opened), RuntimeError>,
) -> bool {
    exists|
        decoded: Result<Transaction, core_module::Error>,
        hints: Vec<Vec<u8>>,
        more: Vec<Vec<u8>>,
        fetched: Result<(), RuntimeError>,
    | #[trigger]
        is_admission::<M>(entry, fetch, before, after, decoded, hints, more, fetched, admitted)
}

/// The error of a transaction that is too large for a batch.
pub open spec fn is_too_large(e: RuntimeError) -> bool {
    &&& e.module@ == MODULE_NAME@
    &&& e.code == 2
    &&& e.message@ == "malformed transaction in batch: "@ + "transaction too large"@
}

/// The context in which a batch starts: over the given state, with
/// nothing emitted.
pub open spec fn batch_start(
    mode: Mode,
    host: HostInfo,
    state: Map<Seq<u8>, Seq<u8>>,
    key_manager: bool,
    max_messages: u32,
    max_batch_gas: u64,
) -> ContextView {
    ContextView {
        mode,
        host,
        key_manager,
        state,
        tags: Seq::empty(),
        messages: Seq::empty(),
        max_messages: max_messages as nat,
        batch_gas_used: 0,
        max_batch_gas,
        tx: None,
    }
}

/// The bytes of the answer to a query: the encoding of the answer, or
/// its error. An answer that has no encoding is an abort.
pub open spec fn is_query_result(
    answer: Result<Item, RuntimeError>,
    r: Result<Vec<u8>, RuntimeError>,
) -> bool {
    match answer {
        Ok(item) => match stored_form(item@) {
            Some(bytes) => r matches Ok(output) && output@ == bytes,
            None => r matches Err(e) && is_wire_form(Error::Aborted, e),
        },
        Err(e) => r == Err::<Vec<u8>, RuntimeError>(e),
    }
}

/// The bytes of the answer to a query.
pub fn query_result(answer: Result<Item, RuntimeError>) -> (r: Result<Vec<u8>, RuntimeError>)
    ensures
        is_query_result(answer, r),
{
    match answer {
        Ok(item) => match to_vec(&item) {
            Some(bytes) => Ok(bytes),
            None => Err(Error::Aborted.into_runtime_error()),
        },
        Err(e) => Err(e),
    }
}

/// How a query whose arguments decode to `args` is answered. The state
/// is brought up to the versions of the modules, which leaves the
/// context as `mid`. The query for the weight limits of a batch is
/// answered with the limits that the modules give. Any other query is
/// answered by the module that handles it; where there is none, the
/// method is invalid and nothing more is done.
pub open spec fn is_query_steps<M: MigrationHandler + MethodHandler + BlockHandler>(
    before: ContextView,
    method: Seq<char>,
    args: ItemView,
    mid: ContextView,
    limits: Weights,
    answer: Result<Item, RuntimeError>,
    after: ContextView,
    r: Result<Vec<u8>, RuntimeError>,
) -> bool {
    &&& is_migrated::<M>(before, mid)
    &&& if method == BATCH_WEIGHT_LIMIT_QUERY_METHOD@ {
        &&& M::limits(mid, after, limits@)
        &&& answer matches Ok(item)
        &&& item@ == limits.encoded()
    } else if M::handles_query(method) {
        M::answered(mid, method, args, after, answer)
    } else {
        &&& after == mid
        &&& answer matches Err(e)
        &&& e.module@ == core_module::MODULE_NAME@
        &&& e.code == 3
        &&& e.message@ == "invalid method: "@ + method
    }
    &&& is_query_result(answer, r)
}

/// What a query gives. Arguments that do not decode are invalid, and
/// nothing is done. Else the query is answered with what they decode to.
pub open spec fn is_query_outcome<M: MigrationHandler + MethodHandler + BlockHandler>(
    before: ContextView,
    method: Seq<char>,
    args: Seq<u8>,
    after: ContextView,
    r: Result<Vec<u8>, RuntimeError>,
) -> bool {
    match cbor_decoding(args, MAX_NESTING_LEVEL) {
        None => {
            &&& after == before
            &&& r matches Err(e)
            &&& e.module@ == core_module::MODULE_NAME@
            &&& e.code == 10
        },
        Some(decoded) => is_query_answered::<M>(before, method, decoded, after, r),
    }
}

/// A query whose arguments decode to `args` is answered.
pub open spec fn is_query_answered<M: MigrationHandler + MethodHandler + BlockHandler>(
    before: ContextView,
    method: Seq<char>,
    args: ItemView,
    after: ContextView,
    r: Result<Vec<u8>, RuntimeError>,
) -> bool {
    exists|mid: ContextView, limits: Weights, answer: Result<Item, RuntimeError>| #[trigger]
        is_query_steps::<M>(before, method, args, mid, limits, answer, after, r)
}

/// What handling the results of the messages of the last round goes
/// through: the context before each event that is handled and after the
/// last of them, and with each context the handlers that are left in the
/// record.
pub struct MessagesRun {
    pub steps: Seq<ContextView>,
    pub left: Seq<Seq<(u32, MessageEventHookInvocation)>>,
}

/// One event is handled: the first handler recorded for its message is
/// taken out of the record, a module knows it, and it is called with the
/// event and with the payload that was recorded.
pub open spec fn is_message_step<M: MethodHandler>(
    left: Seq<(u32, MessageEventHookInvocation)>,
    event: MessageEvent,
    before: ContextView,
    rest: Seq<(u32, MessageEventHookInvocation)>,
    after: ContextView,
) -> bool {
    match handler_position(left, event.index) {
        None => false,
        Some(at) => {
            let hook = left[at].1;
            &&& M::handles_message_result(hook.hook_name@)
            &&& M::message_handled(
                before,
                hook.hook_name@,
                MessageResult { event, context: hook.payload },
                after,
            )
            &&& rest == left.remove(at)
        },
    }
}

/// The events that are handled are handled in order, each in the
/// context and with the record that the one before has left.
pub open spec fn are_message_steps<M: MethodHandler>(
    events: Seq<MessageEvent>,
    run: MessagesRun,
) -> bool {
    forall|i: int|
        0 <= i < run.steps.len() - 1 ==> is_message_step::<M>(
            run.left[i],
            events[i],
            #[trigger] run.steps[i],
            run.left[i + 1],
            run.steps[i + 1],
        )
}

/// How the results of the messages of the last round are handled, from
/// the recorded handlers on. The events are handled in order, up to the
/// first that has no recorded handler or whose handler no module knows:
/// that one gives the error, and no handler is called for it or after
/// it. Where all events are handled, a handler that is left in the
/// record is an error.
pub open spec fn is_messages_run<M: MethodHandler>(
    before: ContextView,
    events: Seq<MessageEvent>,
    handlers: Seq<(u32, MessageEventHookInvocation)>,
    run: MessagesRun,
    after: ContextView,
    r: Result<(), core_module::Error>,
) -> bool {
    let done = run.steps.len() - 1;
    &&& run.steps.len() >= 1
    &&& run.left.len() == run.steps.len()
    &&& done <= events.len()
    &&& run.steps[0] == before
    &&& run.left[0] == handlers
    &&& run.steps.last() == after
    &&& are_message_steps::<M>(events, run)
    &&& if done < events.len() {
        match handler_position(run.left.last(), events[done].index) {
            None => r matches Err(core_module::Error::MessageHandlerMissing(index)) && index
                == events[done].index,
            Some(at) => {
                let name = run.left.last()[at].1.hook_name@;
                &&& !M::handles_message_result(name)
                &&& r matches Err(core_module::Error::InvalidMethod(hook_name))
                &&& hook_name@ == name
            },
        }
    } else if run.left.last().len() > 0 {
        r matches Err(core_module::Error::MessageHandlerNotInvoked)
    } else {
        r is Ok
    }
}

/// The results of the messages of the last round are handled with the
/// handlers that the state of the context records, none where there is
/// no record.
pub open spec fn is_messages_trace<M: MethodHandler>(
    before: ContextView,
    events: Seq<MessageEvent>,
    table: Option<MessageHandlers>,
    run: MessagesRun,
    after: ContextView,
    r: Result<(), core_module::Error>,
) -> bool {
    &&& is_typed_read(
        before.state,
        core_module::state_key(core_module::MESSAGE_HANDLERS@),
        table,
    )
    &&& is_messages_outcome(messages_outcome::<M>(recorded_handlers(table), events), r)
    &&& is_messages_run::<M>(before, events, recorded_handlers(table), run, after, r)
}

/// What handling the results of the messages of the last round gives,
/// and the context that it leaves.
pub open spec fn is_messages_handled<M: MethodHandler>(
    before: ContextView,
    events: Seq<MessageEvent>,
    after: ContextView,
    r: Result<(), core_module::Error>,
) -> bool {
    exists|table: Option<MessageHandlers>, run: MessagesRun| #[trigger]
        is_messages_trace::<M>(before, events, table, run, after, r)
}

/// What a batch goes through while it is executed: the contexts between
/// its steps, and what the steps give.
pub struct BatchRun {
    /// Whether prefixes are fetched ahead.
    pub fetch: bool,
    /// The context before each transaction that is read, and after the
    /// last of them.
    pub reading: Seq<ContextView>,
    /// The transactions that are admitted, in order.
    pub ready: Seq<(u32, Transaction, Opened)>,
    /// What handling the results of the messages of the last round gives.
    pub answered: Result<(), core_module::Error>,
    /// The context that handling these results leaves.
    pub handled: ContextView,
    /// The context before each transaction that is executed, and after
    /// the last of them.
    pub running: Seq<ContextView>,
    /// The results of the transactions that are executed, in order.
    pub results: Seq<ExecuteTxResult>,
    /// The context that the step which ends the batch early leaves.
    pub stopped: ContextView,
    /// The abort that ends the batch early.
    pub abort: Error,
    /// The context when the block has ended.
    pub ended: ContextView,
    /// The context when the modules have given their limits.
    pub limited: ContextView,
}

/// The transactions of a batch are read in order, each in the context
/// that the one before it has left, and all of them are admitted.
pub open spec fn is_read_up_to<M: AuthHandler + MethodHandler>(
    entries: Seq<BatchEntry>,
    fetch: bool,
    reading: Seq<ContextView>,
    ready: Seq<(u32, Transaction, Opened)>,
) -> bool {
    &&& ready.len() <= entries.len()
    &&& reading.len() == ready.len() + 1
    &&& forall|i: int|
        0 <= i < ready.len() ==> is_admitted_in::<M>(
            entries[i],
            fetch,
            reading[i],
            reading[i + 1],
            Ok(#[trigger] ready[i]),
        )
}

/// The transactions of a batch are executed in order, each in the
/// context that the one before it has left, and none is aborted.
pub open spec fn is_run_up_to<M: AuthHandler + MethodHandler>(
    ready: Seq<(u32, Transaction, Opened)>,
    running: Seq<ContextView>,
    results: Seq<ExecuteTxResult>,
) -> bool {
    &&& results.len() <= ready.len()
    &&& running.len() == results.len() + 1
    &&& forall|i: int|
        0 <= i < results.len() ==> is_execute_outcome::<M>(
            running[i],
            ready[i].0,
            ready[i].1,
            i as usize,
            ready[i].2,
            running[i + 1],
            Ok(#[trigger] results[i]),
        )
}

/// How a batch ends when all its transactions have run: the block ends,
/// the modules give the limits of the next batch, and the handlers of
/// the messages that the batch sends are recorded in the state, each
/// under the position of its message. Where they cannot be recorded the
/// batch is aborted.
pub open spec fn is_batch_end<M: BlockHandler, S: Store>(
    run: BatchRun,
    r: Result<(ExecuteBatchResult, S), RuntimeError>,
) -> bool {
    let closing = run.running.last();
    let sent = run.limited.messages;
    &&& M::ends(closing, run.ended)
    &&& match handlers_record(sent.map_values(|m: EmittedMessage| m.hook)) {
        None => r matches Err(e) && is_wire_form(Error::Aborted, e),
        Some(record) => {
            &&& r matches Ok(done)
            &&& done.0.results@ == run.results
            &&& done.0.messages@ == sent.map_values(|m: EmittedMessage| m.message)
            &&& done.0.block_tags@ == run.limited.tags
            &&& done.0.batch_weight_limits matches Some(weights)
            &&& M::limits(run.ended, run.limited, weights@)
            &&& done.1.contents() == run.limited.state.insert(
                core_module::state_key(core_module::MESSAGE_HANDLERS@),
                record,
            )
        },
    }
}

/// How the transactions of a batch run when all of them are admitted:
/// the results of the messages of the last round are handled, the block
/// begins, and the transactions are executed in order. An error of the
/// handling, and an abort of a transaction, end the batch.
pub open spec fn is_batch_body<M: AuthHandler + MethodHandler + BlockHandler, S: Store>(
    events: Seq<MessageEvent>,
    run: BatchRun,
    r: Result<(ExecuteBatchResult, S), RuntimeError>,
) -> bool {
    &&& is_messages_handled::<M>(run.reading.last(), events, run.handled, run.answered)
    &&& match run.answered {
        Err(cause) => r matches Err(e) && is_wire_form(cause, e),
        Ok(_) => {
            &&& M::begins(run.handled, run.running[0])
            &&& is_run_up_to::<M>(run.ready, run.running, run.results)
            &&& if run.results.len() < run.ready.len() {
                let next = run.ready[run.results.len() as int];
                &&& is_execute_outcome::<M>(
                    run.running.last(),
                    next.0,
                    next.1,
                    run.results.len() as usize,
                    next.2,
                    run.stopped,
                    Err(run.abort),
                )
                &&& r matches Err(e) && is_wire_form(run.abort, e)
            } else {
                is_batch_end::<M, S>(run, r)
            }
        },
    }
}

/// What executing a batch gives. The state is brought up to the
/// versions of the modules, and the transactions are read in order. The
/// first that is too large or is not admitted ends the batch with its
/// error. Where all are admitted, they run.
pub open spec fn is_batch_run<
    M: AuthHandler + MigrationHandler + MethodHandler + BlockHandler,
    S: Store,
>(
    start: ContextView,
    events: Seq<MessageEvent>,
    entries: Seq<BatchEntry>,
    run: BatchRun,
    r: Result<(ExecuteBatchResult, S), RuntimeError>,
) -> bool {
    &&& is_migrated::<M>(start, run.reading[0])
    &&& is_read_up_to::<M>(entries, run.fetch, run.reading, run.ready)
    &&& if run.ready.len() < entries.len() {
        let next = entries[run.ready.len() as int];
        &&& r matches Err(e)
        &&& if next.size > u32::MAX {
            is_too_large(e)
        } else {
            is_admitted_in::<M>(next, run.fetch, run.reading.last(), run.stopped, Err(e))
        }
    } else {
        is_batch_body::<M, S>(events, run, r)
    }
}

/// What a batch goes through while it is checked: the contexts between
/// its steps, and what the steps give.
pub struct CheckRun {
    /// Whether prefixes are fetched ahead.
    pub fetch: bool,
    /// The context before each transaction that is read, and after the
    /// last of them.
    pub reading: Seq<ContextView>,
    /// What the transactions are ready for their check as, in order.
    pub prepared: Seq<Result<(u32, Transaction, Opened), RuntimeError>>,
    /// The context before each transaction that is checked, and after
    /// the last of them.
    pub running: Seq<ContextView>,
    /// The results of the transactions that are checked, in order.
    pub results: Seq<CheckTxResult>,
    /// The context that the check which is aborted leaves.
    pub stopped: ContextView,
    /// The abort that ends the check early.
    pub abort: Error,
}

/// The transactions of a batch are made ready for their check in order,
/// each in the context that the one before it has left.
pub open spec fn is_prepared_up_to<M: AuthHandler + MethodHandler>(
    entries: Seq<BatchEntry>,
    fetch: bool,
    reading: Seq<ContextView>,
    prepared: Seq<Result<(u32, Transaction, Opened), RuntimeError>>,
) -> bool {
    &&& prepared.len() <= entries.len()
    &&& reading.len() == prepared.len() + 1
    &&& forall|i: int|
        0 <= i < prepared.len() ==> is_prepared_in::<M>(
            entries[i],
            fetch,
            reading[i],
            reading[i + 1],
            #[trigger] prepared[i],
        )
}

/// How a transaction of a batch is checked: one that is ready to run is
/// checked in the context `before`, which leaves `after`; one that is
/// not is reported with its error, and nothing is done.
pub open spec fn is_checking_in<M: AuthHandler + MethodHandler>(
    prepared: Result<(u32, Transaction, Opened), RuntimeError>,
    before: ContextView,
    after: ContextView,
    result: CheckTxResult,
) -> bool {
    match prepared {
        Ok(ready) => is_check_outcome::<M>(before, ready.0, ready.1, ready.2, after, Ok(result)),
        Err(e) => {
            &&& after == before
            &&& result.error == e
            &&& result.meta is None
        },
    }
}

/// The transactions of a batch are checked in order, each in the
/// context that the one before it has left, and no check is aborted.
pub open spec fn is_checked_up_to<M: AuthHandler + MethodHandler>(
    prepared: Seq<Result<(u32, Transaction, Opened), RuntimeError>>,
    running: Seq<ContextView>,
    results: Seq<CheckTxResult>,
) -> bool {
    &&& results.len() <= prepared.len()
    &&& running.len() == results.len() + 1
    &&& forall|i: int|
        0 <= i < results.len() ==> is_checking_in::<M>(
            prepared[i],
            running[i],
            running[i + 1],
            #[trigger] results[i],
        )
}

/// What checking a batch gives. The state is brought up to the versions
/// of the modules, and the transactions are made ready in order; one
/// that is too large ends the check with its error. Then they are
/// checked in order, from the context that the last of them has left,
/// and each is reported in its place; an abort ends the check.
pub open spec fn is_check_run<M: AuthHandler + MigrationHandler + MethodHandler>(
    start: ContextView,
    entries: Seq<BatchEntry>,
    run: CheckRun,
    r: Result<Vec<CheckTxResult>, RuntimeError>,
) -> bool {
    &&& is_migrated::<M>(start, run.reading[0])
    &&& is_prepared_up_to::<M>(entries, run.fetch, run.reading, run.prepared)
    &&& if run.prepared.len() < entries.len() {
        &&& entries[run.prepared.len() as int].size > u32::MAX
        &&& r matches Err(e) && is_too_large(e)
    } else {
        &&& run.running[0] == run.reading.last()
        &&& is_checked_up_to::<M>(run.prepared, run.running, run.results)
        &&& if run.results.len() < run.prepared.len() {
            &&& run.prepared[run.results.len() as int] matches Ok(next)
            &&& is_check_outcome::<M>(
                run.running.last(),
                next.0,
                next.1,
                next.2,
                run.stopped,
                Err(run.abort),
            )
            &&& r matches Err(e) && is_wire_form(run.abort, e)
        } else {
            r matches Ok(results) && results@ == run.results
        }
    }
}

/// What checking a transaction gives: the transaction is dispatched in
/// the last place that a batch has, which stands for none, and the
/// result of the check is made of the result of the dispatch. An
/// abort of the dispatch is the error.
pub open spec fn is_check_outcome<M: AuthHandler + MethodHandler>(
    before: ContextView,
    tx_size: u32,
    tx: Transaction,
    opened: Opened,
    after: ContextView,
    r: Result<CheckTxResult, Error>,
) -> bool {
    exists|dispatched: Result<DispatchResult, Error>| #[trigger]
        is_dispatch_outcome::<M>(before, tx_size, tx, usize::MAX, opened, after, dispatched)
            && match dispatched {
            Ok(dispatch) => is_check_result(dispatch, r),
            Err(e) => r == Err::<CheckTxResult, Error>(e),
        }
}

/// What executing a transaction gives: the transaction is dispatched,
/// and the result of the execution is made of the result of the
/// dispatch. An abort of the dispatch is the error.
pub open spec fn is_execute_outcome<M: AuthHandler + MethodHandler>(
    before: ContextView,
    tx_size: u32,
    tx: Transaction,
    index: usize,
    opened: Opened,
    after: ContextView,
    r: Result<ExecuteTxResult, Error>,
) -> bool {
    exists|dispatched: Result<DispatchResult, Error>| #[trigger]
        is_dispatch_outcome::<M>(before, tx_size, tx, index, opened, after, dispatched)
            && match dispatched {
            Ok(dispatch) => is_execute_result(dispatch, r),
            Err(e) => r == Err::<ExecuteTxResult, Error>(e),
        }
}

/// What the modules say of the prefixes to fetch ahead for a
/// transaction. A method for which no module has anything to fetch ahead
/// is fine, and leaves the list as it was.
pub open spec fn is_prefetch_outcome<M: MethodHandler>(
    tx: Transaction,
    before: Vec<Vec<u8>>,
    after: Vec<Vec<u8>>,
    r: Result<(), RuntimeError>,
) -> bool {
    if M::prefetches(tx.call.method@) {
        M::prefetched(tx.call.method@, tx.call.body@, tx.auth_info, before, after, r)
    } else {
        r is Ok && after == before
    }
}

/// What comes of a transaction that is decoded by a module: the
/// transaction that the module in charge of the scheme returns, which has
/// passed the basic validation, or the error of that module. Where no
/// module is in charge, and only there, the transaction is malformed
/// because its scheme is not supported.
pub open spec fn is_module_outcome<M: AuthHandler>(
    mid: ContextView,
    scheme: Seq<char>,
    body: Seq<u8>,
    after: ContextView,
    r: Result<Transaction, core_module::Error>,
) -> bool {
    exists|answer: Result<Option<Transaction>, core_module::Error>| #[trigger]
        M::decoded(mid, scheme, body, after, answer) && match answer {
            Err(e) => {
                &&& r == Err::<Transaction, core_module::Error>(e)
                &&& M::decodes_scheme(scheme)
            },
            Ok(Some(tx)) => {
                &&& r == Ok::<Transaction, core_module::Error>(tx)
                &&& tx.is_valid_basic()
                &&& M::decodes_scheme(scheme)
            },
            Ok(None) => {
                &&& !M::decodes_scheme(scheme)
                &&& r matches Err(core_module::Error::MalformedTransaction(text))
                &&& text@ == "module-controlled transaction decoding scheme "@ + scheme
                    + " not supported"@
            },
        }
}

/// What follows the approval of a transaction that was decoded from its
/// bytes. One with the single proof `Module(scheme)` is decoded by the
/// module in charge of the scheme, and is malformed where there is none;
/// a transaction that a module returns has passed the basic validation.
/// Any other transaction is the one whose signatures were verified, and
/// is malformed where they do not verify.
pub open spec fn is_approved_outcome<M: AuthHandler>(
    mid: ContextView,
    utx: UnverifiedTransaction,
    verified: Result<Transaction, String>,
    after: ContextView,
    r: Result<Transaction, core_module::Error>,
) -> bool {
    match module_scheme(utx) {
        Some(scheme) => is_module_outcome::<M>(mid, scheme, utx.0@, after, r),
        None => {
            &&& after == mid
            &&& match verified {
                Ok(tx) => r == Ok::<Transaction, core_module::Error>(tx),
                Err(cause) => r == Err::<Transaction, core_module::Error>(
                    core_module::Error::MalformedTransaction(cause),
                ),
            }
        },
    }
}

/// What comes of a transaction that was decoded from its bytes: the
/// modules approve of it, and leave the context as `mid`. Where they
/// turn it down, their error is the error, and where they accept it, it
/// is decoded.
pub open spec fn is_unverified_outcome<M: AuthHandler>(
    before: ContextView,
    utx: UnverifiedTransaction,
    verified: Result<Transaction, String>,
    after: ContextView,
    r: Result<Transaction, core_module::Error>,
) -> bool {
    exists|mid: ContextView, verdict: Result<(), core_module::Error>|
        #[trigger] M::approves(before, utx, mid, verdict) && match verdict {
            Ok(()) => is_approved_outcome::<M>(mid, utx, verified, after, r),
            Err(e) => after == mid && r == Err::<Transaction, core_module::Error>(e),
        }
}

/// What decoding a transaction gives. Bytes that are no transaction are
/// malformed, and nothing is done with them.
pub open spec fn is_decode_outcome<M: AuthHandler>(
    before: ContextView,
    unverified: Result<UnverifiedTransaction, DecodeError>,
    verified: Result<Transaction, String>,
    after: ContextView,
    r: Result<Transaction, core_module::Error>,
) -> bool {
    match unverified {
        Err(cause) => {
            &&& r matches Err(core_module::Error::MalformedTransaction(text))
            &&& text@ == decode_error_text(cause)
            &&& after == before
        },
        Ok(utx) => is_unverified_outcome::<M>(before, utx, verified, after, r),
    }
}

/// The answer of the modules and what is made of it are a decoding by a
/// module.
proof fn lemma_module_decoded<M: AuthHandler>(
    mid: ContextView,
    scheme: Seq<char>,
    body: Seq<u8>,
    after: ContextView,
    answer: Result<Option<Transaction>, core_module::Error>,
    r: Result<Transaction, core_module::Error>,
)
    requires
        M::decoded(mid, scheme, body, after, answer),
        match answer {
            Err(e) => {
                &&& r == Err::<Transaction, core_module::Error>(e)
                &&& M::decodes_scheme(scheme)
            },
            Ok(Some(tx)) => {
                &&& r == Ok::<Transaction, core_module::Error>(tx)
                &&& tx.is_valid_basic()
                &&& M::decodes_scheme(scheme)
            },
            Ok(None) => {
                &&& !M::decodes_scheme(scheme)
                &&& r matches Err(core_module::Error::MalformedTransaction(text))
                &&& text@ == "module-controlled transaction decoding scheme "@ + scheme
                    + " not supported"@
            },
        },
    ensures
        is_module_outcome::<M>(mid, scheme, body, after, r),
{
}

/// An approval and what follows it are a decoding.
proof fn lemma_decoded<M: AuthHandler>(
    before: ContextView,
    utx: UnverifiedTransaction,
    verified: Result<Transaction, String>,
    mid: ContextView,
    verdict: Result<(), core_module::Error>,
    after: ContextView,
    r: Result<Transaction, core_module::Error>,
)
    requires
        M::approves(before, utx, mid, verdict),
        match verdict {
            Ok(()) => is_approved_outcome::<M>(mid, utx, verified, after, r),
            Err(e) => after == mid && r == Err::<Transaction, core_module::Error>(e),
        },
    ensures
        is_unverified_outcome::<M>(before, utx, verified, after, r),
{
}

/// The result of checking a transaction, from the result of its
/// dispatch: a call that succeeded is reported with its priority and
/// weights, a call that failed with its error, and an abort ends the
/// batch.
pub open spec fn is_check_result(dispatch: DispatchResult, r: Result<CheckTxResult, Error>) -> bool {
    match dispatch.result {
        module::CallResult::Success(_) => {
            &&& r matches Ok(checked)
            &&& checked.error.module@.len() == 0
            &&& checked.error.code == 0
            &&& checked.error.message@.len() == 0
            &&& checked.meta matches Some(meta)
            &&& meta.priority == dispatch.priority
            &&& meta.weights == Some(dispatch.weights)
        },
        module::CallResult::Failed { module, code, message } => {
            &&& r matches Ok(checked)
            &&& checked.error == (RuntimeError { module, code, message })
            &&& checked.meta is None
        },
        module::CallResult::Aborted(err) => r == Err::<CheckTxResult, Error>(err),
    }
}

/// The result of executing a transaction, from the result of its
/// dispatch: the result of the call in its wire form, encoded, with the
/// tags. A result that has no encoding ends the batch.
pub open spec fn is_execute_result(
    dispatch: DispatchResult,
    r: Result<ExecuteTxResult, Error>,
) -> bool {
    exists|wire: crate::types::transaction::CallResult| #[trigger]
        module::wire_result_of(dispatch.result, wire) && match stored_form(wire.encoded()) {
            Some(bytes) => {
                &&& r matches Ok(executed)
                &&& executed.output@ == bytes
                &&& executed.tags == dispatch.tags
                &&& executed.call_format_metadata == dispatch.call_format_metadata
                &&& executed.messages_emitted == dispatch.messages_emitted
            },
            None => r matches Err(Error::Aborted),
        }
}

/// The result of checking a transaction, from the result of its
/// dispatch.
pub fn check_tx_result(dispatch: DispatchResult) -> (r: Result<CheckTxResult, Error>)
    ensures
        is_check_result(dispatch, r),
{
    match dispatch.result {
        module::CallResult::Success(_) => Ok(
            CheckTxResult {
                error: RuntimeError { module: String::new(), code: 0, message: String::new() },
                meta: Some(
                    CheckTxMetadata {
                        priority: dispatch.priority,
                        weights: Some(dispatch.weights),
                    },
                ),
            },
        ),
        module::CallResult::Failed { module, code, message } => Ok(
            CheckTxResult { error: RuntimeError { module, code, message }, meta: None },
        ),
        module::CallResult::Aborted(err) => Err(err),
    }
}

/// The result of executing a transaction, from the result of its
/// dispatch.
pub fn execute_tx_result(dispatch: DispatchResult) -> (r: Result<ExecuteTxResult, Error>)
    ensures
        is_execute_result(dispatch, r),
{
    let wire = callformat::encode_result(dispatch.result, dispatch.call_format_metadata);
    let ghost witness = wire;
    let item = wire.into_cbor_value();
    match to_vec(&item) {
        Some(output) => Ok(
            ExecuteTxResult {
                output,
                tags: dispatch.tags,
                call_format_metadata: dispatch.call_format_metadata,
                messages_emitted: dispatch.messages_emitted,
            },
        ),
        None => Err(Error::Aborted),
    }
}

/// Why the results of the messages of the last round cannot be handled.
pub enum MessagesFailure {
    /// An event names a message for which no handler was recorded.
    Missing(u32),
    /// No module knows the recorded handler of this name.
    Unknown(Seq<char>),
    /// A recorded handler is left without an event.
    NotInvoked,
}

/// The recorded handlers, none where there is no record.
pub open spec fn recorded_handlers(table: Option<MessageHandlers>) -> Seq<
    (u32, MessageEventHookInvocation),
> {
    match table {
        Some(t) => t.entries@,
        None => Seq::empty(),
    }
}

/// The position of the first handler recorded for a message.
pub open spec fn handler_position(
    handlers: Seq<(u32, MessageEventHookInvocation)>,
    index: u32,
) -> Option<int>
    decreases handlers.len(),
{
    if handlers.len() == 0 {
        None
    } else {
        match handler_position(handlers.drop_last(), index) {
            Some(at) => Some(at),
            None => if handlers.last().0 == index {
                Some(handlers.len() - 1)
            } else {
                None
            },
        }
    }
}

/// How handling the events goes, given the recorded handlers: each event
/// in turn takes its handler out of the record, and at the end the record
/// must be empty.
pub open spec fn messages_outcome<M: MethodHandler>(
    handlers: Seq<(u32, MessageEventHookInvocation)>,
    events: Seq<MessageEvent>,
) -> Option<MessagesFailure>
    decreases events.len(),
{
    if events.len() == 0 {
        if handlers.len() == 0 {
            None
        } else {
            Some(MessagesFailure::NotInvoked)
        }
    } else {
        match handler_position(handlers, events[0].index) {
            None => Some(MessagesFailure::Missing(events[0].index)),
            Some(at) => if M::handles_message_result(handlers[at].1.hook_name@) {
                messages_outcome::<M>(handlers.remove(at), events.drop_first())
            } else {
                Some(MessagesFailure::Unknown(handlers[at].1.hook_name@))
            },
        }
    }
}

/// The result that stands for an outcome of handling the events.
pub open spec fn is_messages_outcome(
    outcome: Option<MessagesFailure>,
    r: Result<(), core_module::Error>,
) -> bool {
    match outcome {
        None => r is Ok,
        Some(MessagesFailure::Missing(index)) => r matches Err(
            core_module::Error::MessageHandlerMissing(i),
        ) && i == index,
        Some(MessagesFailure::Unknown(name)) => r matches Err(
            core_module::Error::InvalidMethod(hook_name),
        ) && hook_name@ == name,
        Some(MessagesFailure::NotInvoked) => r matches Err(
            core_module::Error::MessageHandlerNotInvoked,
        ),
    }
}

/// The position of the first handler recorded for a message.
pub fn find_handler(handlers: &Vec<(u32, MessageEventHookInvocation)>, index: u32) -> (r: Option<
    usize,
>)
    ensures
        match r {
            Some(at) => handler_position(handlers@, index) == Some(at as int) && at
                < handlers@.len(),
            None => handler_position(handlers@, index) is None,
        },
{
    let mut i: usize = 0;
    assert(handlers@.subrange(0, 0) =~= Seq::empty());
    while i < handlers.len()
        invariant
            i <= handlers.len(),
            handler_position(handlers@.subrange(0, i as int), index) is None,
        decreases handlers.len() - i,
    {
        let ghost next = handlers@.subrange(0, i + 1);
        assert(next.drop_last() =~= handlers@.subrange(0, i as int));
        if handlers[i].0 == index {
            proof {
                lemma_position_extends(handlers@, index, i + 1);
            }
            return Some(i);
        }
        i += 1;
    }
    assert(handlers@.subrange(0, i as int) =~= handlers@);
    None
}

/// A handler found among the first `n` is the handler found among all.
pub proof fn lemma_position_extends(
    handlers: Seq<(u32, MessageEventHookInvocation)>,
    index: u32,
    n: int,
)
    requires
        0 <= n <= handlers.len(),
        handler_position(handlers.subrange(0, n), index) is Some,
    ensures
        handler_position(handlers, index) == handler_position(handlers.subrange(0, n), index),
    decreases handlers.len() - n,
{
    if n < handlers.len() {
        let longer = handlers.subrange(0, n + 1);
        assert(longer.drop_last() =~= handlers.subrange(0, n));
        lemma_position_extends(handlers, index, n + 1);
    } else {
        assert(handlers.subrange(0, n) =~= handlers);
    }
}

/// The handlers, each with its position.
pub open spec fn indexed(handlers: Seq<MessageEventHookInvocation>) -> Seq<
    (u32, MessageEventHookInvocation),
> {
    Seq::new(handlers.len(), |i: int| (i as u32, handlers[i]))
}

/// Handlers that can be numbered make a table in which no position
/// stands twice.
pub proof fn lemma_indexed_distinct(handlers: Seq<MessageEventHookInvocation>)
    requires
        handlers.len() <= u32::MAX,
    ensures
        crate::types::message::has_distinct_positions(indexed(handlers)),
{
}

/// A table in which no position stands twice stays one when a handler is
/// taken out.
pub proof fn lemma_taken_distinct(handlers: Seq<(u32, MessageEventHookInvocation)>, at: int)
    requires
        0 <= at < handlers.len(),
        crate::types::message::has_distinct_positions(handlers),
    ensures
        crate::types::message::has_distinct_positions(handlers.remove(at)),
{
    let rest = handlers.remove(at);
    assert forall|i: int, j: int| 0 <= i < j < rest.len() implies (#[trigger] rest[i]).0 != (
    #[trigger] rest[j]).0 by {
        let a = if i < at { i } else { i + 1 };
        let b = if j < at { j } else { j + 1 };
        assert(rest[i] == handlers[a]);
        assert(rest[j] == handlers[b]);
    }
}

/// The bytes that record the handlers, where there are no more than can
/// be numbered and all of them have an encoding.
pub open spec fn handlers_record(handlers: Seq<MessageEventHookInvocation>) -> Option<Seq<u8>> {
    if handlers.len() > u32::MAX {
        None
    } else {
        stored_form(ItemView::Mapping(crate::types::message::handler_entries(indexed(handlers))))
    }
}

/// A transaction that was turned down as malformed.
pub open spec fn is_malformed(tx: Result<(u32, Transaction, Opened), RuntimeError>) -> bool {
    tx matches Err(e) && e.code == 1 && e.module@ == core_module::MODULE_NAME@
}

/// The size of a transaction as the dispatcher counts it. A transaction
/// of more bytes than a 32-bit number can count is malformed.
pub fn tx_size_of(size: usize) -> (r: Result<u32, Error>)
    ensures
        match r {
            Ok(n) => size <= u32::MAX && n == size,
            Err(e) => {
                &&& size > u32::MAX
                &&& e matches Error::MalformedTransactionInBatch(cause)
                &&& cause@ == "transaction too large"@
            },
        },
{
    if size > u32::MAX as usize {
        Err(Error::MalformedTransactionInBatch(owned("transaction too large")))
    } else {
        Ok(size as u32)
    }
}

/// The messages that a batch sends and the record of their handlers in
/// the state: each message stands at its position, and the handler
/// recorded under that position is the one it was emitted with.
pub open spec fn is_sent(
    emitted: Seq<EmittedMessage>,
    messages: Seq<Message>,
    state: Map<Seq<u8>, Seq<u8>>,
) -> bool {
    let key = core_module::state_key(core_module::MESSAGE_HANDLERS@);
    &&& messages == emitted.map_values(|m: EmittedMessage| m.message)
    &&& state.contains_key(key)
    &&& handlers_record(emitted.map_values(|m: EmittedMessage| m.hook)) == Some(state[key])
}

/// Parts the emitted messages from the handlers of their results.
pub fn unzip_messages(emitted: Vec<EmittedMessage>) -> (r: (
    Vec<Message>,
    Vec<MessageEventHookInvocation>,
))
    ensures
        r.0@ == emitted@.map_values(|m: EmittedMessage| m.message),
        r.1@ == emitted@.map_values(|m: EmittedMessage| m.hook),
{
    let ghost all = emitted@;
    let mut rest = reversed(emitted);
    let mut messages: Vec<Message> = Vec::new();
    let mut handlers: Vec<MessageEventHookInvocation> = Vec::new();
    while rest.len() > 0
        invariant
            rest@.len() <= all.len(),
            rest@ == all.reverse().subrange(0, rest@.len() as int),
            messages@.len() + rest@.len() == all.len(),
            handlers@.len() == messages@.len(),
            forall|j: int| 0 <= j < messages@.len() ==> messages@[j] == all[j].message,
            forall|j: int| 0 <= j < handlers@.len() ==> handlers@[j] == all[j].hook,
        decreases rest.len(),
    {
        let next = rest.pop().unwrap();
        messages.push(next.message);
        handlers.push(next.hook);
    }
    assert(messages@ =~= all.map_values(|m: EmittedMessage| m.message));
    assert(handlers@ =~= all.map_values(|m: EmittedMessage| m.hook));
    (messages, handlers)
}

/// What comes of a call whose format settles it before any module is
/// asked: `Some(None)` for a sealed call that is only checked, which
/// passes unopened; `Some(Some(cause))` for a sealed call that cannot be
/// opened; `None` for a call that runs.
pub open spec fn settled_by_format(
    view: ContextView,
    format: crate::types::transaction::CallFormat,
    opened: Opened,
) -> Option<Option<Seq<char>>> {
    match format {
        crate::types::transaction::CallFormat::Plain => None,
        crate::types::transaction::CallFormat::EncryptedX25519DeoxysII => if !view.key_manager {
            Some(Some("confidential transactions not available"@))
        } else if view.mode == Mode::CheckTx {
            Some(None)
        } else {
            match opened {
                Some(Ok(_)) => None,
                Some(Err(cause)) => Some(Some(cause@)),
                None => Some(Some("call data was not opened"@)),
            }
        },
    }
}

/// The result of a call that its format has settled: a success without
/// a value, or a failure for an invalid call format; nothing else is
/// left of the transaction.
pub open spec fn is_settled_result(settled: Option<Seq<char>>, d: DispatchResult) -> bool {
    &&& d.tags@.len() == 0
    &&& d.priority == 0
    &&& d.weights@ == Map::<crate::types::transaction::TransactionWeight, u64>::empty()
    &&& d.messages_emitted == 0
    &&& d.call_format_metadata == callformat::Metadata::Empty
    &&& match settled {
        None => d.result matches module::CallResult::Success(item) && item@ == ItemView::Simple(
            Simple::NullValue,
        ),
        Some(cause) => d.result matches module::CallResult::Failed { module, code, message }
            && module@ == core_module::MODULE_NAME@ && code == 18 && message@
            == "invalid call format: "@ + cause,
    }
}

/// The transaction cannot be decoded: its bytes are no transaction, or
/// it names a decoding scheme that no module is in charge of, or its
/// signatures do not verify.
pub open spec fn is_undecodable<M: AuthHandler>(entry: BatchEntry) -> bool {
    match entry.unverified {
        Err(_) => true,
        Ok(utx) => match module_scheme(utx) {
            Some(scheme) => !M::decodes_scheme(scheme),
            None => entry.verified is Err,
        },
    }
}

/// The result of a transaction that the modules do not authenticate: the
/// call fails with their error, and nothing is left of the transaction;
/// an abort ends the batch.
pub fn authentication_failed(err: core_module::Error) -> (r: Result<DispatchResult, Error>)
    ensures
        is_authentication_failure(err, r),
{
    match err.into_call_result() {
        module::CallResult::Aborted(abort) => Err(abort),
        failed => Ok(DispatchResult::from_call_result(failed)),
    }
}

} // verus!
