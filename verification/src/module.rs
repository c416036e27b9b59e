//! Runtime modules.

use vstd::prelude::*;
use vstd::string::StringSliceAdditionalSpecFns;
use crate::cbor::{decode_error_text, Decode, Encode, Item, ItemView};
use crate::context::{Context, ContextView, TxContext, Weights};
use crate::dispatcher;
use crate::error::{Error, RuntimeError};
use crate::modules::core_module;
use crate::modules::core_module::types::Metadata;
use crate::storage::concat;
use crate::storage::typed::{get_typed, insert_typed, is_typed_read, stored_form};
use crate::text::owned;
use crate::types::message::MessageResult;
use crate::types::transaction;
use crate::types::transaction::{AuthInfo, Call, Transaction, UnverifiedTransaction};

verus! {

/// Result of invoking the method handler.
pub enum DispatchResult<B, R> {
    Handled(R),
    Unhandled(B),
}

impl<B, R> DispatchResult<B, R> {
    /// Transforms `DispatchResult<B, R>` into `Result<R, E>`, mapping
    /// `Handled(r)` to `Ok(r)` and `Unhandled(_)` to `Err(err)`.
    pub fn ok_or<E>(self, err: E) -> (r: Result<R, E>)
        ensures
            r == match self {
                DispatchResult::Handled(result) => Ok::<R, E>(result),
                DispatchResult::Unhandled(_) => Err::<R, E>(err),
            },
    {
        match self {
            DispatchResult::Handled(result) => Ok(result),
            DispatchResult::Unhandled(_) => Err(err),
        }
    }

    /// Transforms `DispatchResult<B, R>` into `Result<R, E>`, mapping
    /// `Handled(r)` to `Ok(r)` and `Unhandled(_)` to `Err(err)` using the
    /// provided function.
    pub fn ok_or_else<E, F: FnOnce() -> E>(self, errf: F) -> (r: Result<R, E>)
        requires
            self is Unhandled ==> errf.requires(()),
        ensures
            match self {
                DispatchResult::Handled(result) => r == Ok::<R, E>(result),
                DispatchResult::Unhandled(_) => r matches Err(e) && errf.ensures((), e),
            },
    {
        match self {
            DispatchResult::Handled(result) => Ok(result),
            DispatchResult::Unhandled(_) => Err(errf()),
        }
    }
}

/// The result of a call while it is dispatched. Unlike the result on the
/// wire it can say that the batch must be aborted.
#[derive(Debug)]
pub enum CallResult {
    /// Call has completed successfully.
    Success(Item),
    /// Call has completed with failure.
    Failed { module: String, code: u32, message: String },
    /// A fatal error has occurred and the batch must be aborted.
    Aborted(dispatcher::Error),
}

impl CallResult {
    /// Check whether the call result indicates a successful operation or
    /// not.
    pub fn is_success(&self) -> (ok: bool)
        ensures
            ok == (self is Success),
    {
        matches!(self, CallResult::Success(_))
    }
}

/// The result on the wire that stands for a result of dispatch.
pub open spec fn wire_result_of(v: CallResult, r: transaction::CallResult) -> bool {
    match v {
        CallResult::Success(data) => r == transaction::CallResult::Success(data),
        CallResult::Failed { module, code, message } => r == (transaction::CallResult::Failed {
            module,
            code,
            message,
        }),
        CallResult::Aborted(err) => r matches transaction::CallResult::Failed {
            module,
            code,
            message,
        } && module@ == err.module_name_spec() && code == err.code_spec() && message@
            == err.message_spec(),
    }
}

impl CallResult {
    /// The result as it is reported on the wire. An abort is reported as
    /// a failure with the module, code and message of its cause.
    pub fn into_wire(self) -> (r: transaction::CallResult)
        ensures
            wire_result_of(self, r),
    {
        match self {
            CallResult::Success(data) => transaction::CallResult::Success(data),
            CallResult::Failed { module, code, message } => transaction::CallResult::Failed {
                module,
                code,
                message,
            },
            CallResult::Aborted(err) => {
                let module = owned(err.module_name());
                let code = err.code();
                let message = err.message();
                transaction::CallResult::Failed { module, code, message }
            },
        }
    }
}

/// The argument of a call did not decode.
pub fn invalid_argument(cause: crate::cbor::DecodeError) -> (e: core_module::Error)
    ensures
        e matches core_module::Error::InvalidArgument(text) && text@ == decode_error_text(cause),
{
    core_module::Error::InvalidArgument(owned(cause.message()))
}

/// A convenience function for dispatching method calls: decodes the
/// argument, calls the method, and turns what it returns into the result
/// of the call. An argument that does not decode fails the call as an
/// invalid argument, and the method is not called.
pub fn dispatch_call<C, B, R, E, F>(ctx: &mut C, body: Item, f: F) -> (r: DispatchResult<
    Item,
    CallResult,
>) where C: TxContext, B: Decode, R: Encode, E: Error, F: FnOnce(&mut C, B) -> Result<R, E>
    requires
        forall|c: &mut C, args: B| f.requires((c, args)),
    ensures
        r is Handled,
        (forall|args: B| args.encoded() != body@) ==> {
            &&& final(ctx).snapshot() == old(ctx).snapshot()
            &&& r matches DispatchResult::Handled(CallResult::Failed { module, code, message })
            &&& module@ == core_module::MODULE_NAME@
            &&& code == 10
        },
        (exists|args: B| args.encoded() == body@) ==> exists|out: Result<R, E>| #[trigger]
            is_outcome_of(out, r->Handled_0),
{
    let args = match B::try_from_cbor_value(body) {
        Ok(args) => args,
        Err(err) => {
            let failed = invalid_argument(err).into_call_result();
            return DispatchResult::Handled(failed);
        },
    };
    let out = f(ctx, args);
    let ghost witness = out;
    let result = call_result_of(out);
    assert(is_outcome_of(witness, result));
    DispatchResult::Handled(result)
}

/// The result of a call whose method returned `out`: what it returned
/// in its CBOR form, or its error.
pub fn call_result_of<R: Encode, E: Error>(out: Result<R, E>) -> (r: CallResult)
    ensures
        is_outcome_of(out, r),
{
    match out {
        Ok(value) => CallResult::Success(value.into_cbor_value()),
        Err(err) => err.into_call_result(),
    }
}

/// The result of a call whose argument does not decode: the call fails
/// as one with an invalid argument.
pub open spec fn is_undecoded_call(r: CallResult) -> bool {
    r matches CallResult::Failed { module, code, message } && module@
        == core_module::MODULE_NAME@ && code == 10
}

/// The result of a call whose method returned `out`.
pub open spec fn is_outcome_of<R: Encode, E: Error>(out: Result<R, E>, r: CallResult) -> bool {
    match out {
        Ok(value) => r matches CallResult::Success(item) && item@ == value.encoded(),
        Err(err) => match err.abort_spec() {
            Some(abort) => r == CallResult::Aborted(abort),
            None => r matches CallResult::Failed { module, code, message } && module@
                == err.module_name_spec() && code == err.code_spec() && message@
                == err.message_spec(),
        },
    }
}

/// The answer to a query whose method returned `out`: what it returned
/// in its CBOR form, or its error as it goes on the wire.
pub fn answer_of<R: Encode, E: Error>(out: Result<R, E>) -> (r: Result<Item, RuntimeError>)
    ensures
        is_answer_of(out, r),
{
    match out {
        Ok(value) => Ok(value.into_cbor_value()),
        Err(err) => Err(err.into_runtime_error()),
    }
}

/// The answer to a query whose argument does not decode: the query is
/// turned down as one with an invalid argument.
pub open spec fn is_undecoded_query(r: Result<Item, RuntimeError>) -> bool {
    r matches Err(e) && e.module@ == core_module::MODULE_NAME@ && e.code == 10
}

/// The result of a query whose method returned `out`.
pub open spec fn is_answer_of<R: Encode, E: Error>(
    out: Result<R, E>,
    r: Result<Item, RuntimeError>,
) -> bool {
    match (out, r) {
        (Ok(value), Ok(item)) => item@ == value.encoded(),
        (Err(err), Err(e)) => e.module@ == err.module_name_spec() && e.code == err.code_spec()
            && e.message@ == err.message_spec(),
        _ => false,
    }
}

/// A convenience function for dispatching queries: decodes the argument,
/// calls the method, and encodes what it returns. An argument that does
/// not decode is reported as an invalid argument, and the method is not
/// called.
pub fn dispatch_query<C, B, R, E, F>(ctx: &mut C, body: Item, f: F) -> (r: DispatchResult<
    Item,
    Result<Item, RuntimeError>,
>) where C: Context, B: Decode, R: Encode, E: Error, F: FnOnce(&mut C, B) -> Result<R, E>
    requires
        forall|c: &mut C, args: B| f.requires((c, args)),
    ensures
        r is Handled,
        (forall|args: B| args.encoded() != body@) ==> {
            &&& final(ctx).snapshot() == old(ctx).snapshot()
            &&& r matches DispatchResult::Handled(Err(e))
            &&& e.module@ == core_module::MODULE_NAME@
            &&& e.code == 10
        },
        (exists|args: B| args.encoded() == body@) ==> exists|out: Result<R, E>| #[trigger]
            is_answer_of(out, r->Handled_0),
{
    let args = match B::try_from_cbor_value(body) {
        Ok(args) => args,
        Err(err) => {
            let failed = invalid_argument(err).into_runtime_error();
            return DispatchResult::Handled(Err(failed));
        },
    };
    let out = f(ctx, args);
    let ghost witness = out;
    let result = answer_of(out);
    assert(is_answer_of(witness, result));
    DispatchResult::Handled(result)
}

/// No prefix stands twice in the list.
pub open spec fn are_distinct_prefixes(prefixes: Seq<Vec<u8>>) -> bool {
    forall|i: int, j: int|
        0 <= i < j < prefixes.len() ==> (#[trigger] prefixes[i])@ != (#[trigger] prefixes[j])@
}

/// The set of storage prefixes that a list stands for.
pub open spec fn prefix_set(prefixes: Seq<Vec<u8>>) -> Set<Seq<u8>> {
    Set::new(|p: Seq<u8>| exists|i: int| 0 <= i < prefixes.len() && prefixes[i]@ == p)
}

/// Method handler.
///
/// A module answers to the methods, queries and message handlers that it
/// names, whatever the arguments are. What it does not answer to it hands
/// back untouched, and leaves the context as it was, so that the next
/// module can be asked.
pub trait MethodHandler {
    /// The methods for which the module says what to prefetch.
    spec fn prefetches(method: Seq<char>) -> bool;

    /// The methods that the module handles.
    spec fn handles_call(method: Seq<char>) -> bool;

    /// The queries that the module answers.
    spec fn handles_query(method: Seq<char>) -> bool;

    /// The message results that the module handles.
    spec fn handles_message_result(handler_name: Seq<char>) -> bool;

    /// What the module does to the list of prefixes for a method for
    /// which it says what to prefetch, and what it answers.
    spec fn prefetched(
        method: Seq<char>,
        body: ItemView,
        auth_info: AuthInfo,
        before: Vec<Vec<u8>>,
        after: Vec<Vec<u8>>,
        r: Result<(), RuntimeError>,
    ) -> bool;

    /// Add storage prefixes to prefetch.
    fn prefetch(prefixes: &mut Vec<Vec<u8>>, method: &str, body: Item, auth_info: &AuthInfo) -> (r:
        DispatchResult<Item, Result<(), RuntimeError>>)
        ensures
            r is Handled <==> Self::prefetches(method@),
            r matches DispatchResult::Handled(answer) ==> Self::prefetched(
                method@,
                body@,
                *auth_info,
                *old(prefixes),
                *final(prefixes),
                answer,
            ),
            r matches DispatchResult::Unhandled(b) ==> b == body && *final(prefixes) == *old(prefixes),
            are_distinct_prefixes(old(prefixes)@) ==> are_distinct_prefixes(final(prefixes)@),
    ;

    /// What the module does with a call to a method that it handles, and
    /// the result of the call.
    spec fn called(
        before: ContextView,
        method: Seq<char>,
        body: ItemView,
        after: ContextView,
        r: CallResult,
    ) -> bool;

    /// Dispatch a call.
    fn dispatch_call<C: TxContext>(ctx: &mut C, method: &str, body: Item) -> (r: DispatchResult<
        Item,
        CallResult,
    >)
        ensures
            r is Handled <==> Self::handles_call(method@),
            r matches DispatchResult::Handled(result) ==> Self::called(
                old(ctx).snapshot(),
                method@,
                body@,
                final(ctx).snapshot(),
                result,
            ),
            old(ctx).snapshot().keeps_slots(final(ctx).snapshot()),
            r matches DispatchResult::Unhandled(b) ==> {
                &&& b == body
                &&& final(ctx).snapshot() == old(ctx).snapshot()
            },
    ;

    /// What the module does with a query that it answers, and its
    /// answer.
    spec fn answered(
        before: ContextView,
        method: Seq<char>,
        args: ItemView,
        after: ContextView,
        r: Result<Item, RuntimeError>,
    ) -> bool;

    /// Dispatch a query.
    fn dispatch_query<C: Context>(ctx: &mut C, method: &str, args: Item) -> (r: DispatchResult<
        Item,
        Result<Item, RuntimeError>,
    >)
        ensures
            r is Handled <==> Self::handles_query(method@),
            r matches DispatchResult::Handled(answer) ==> Self::answered(
                old(ctx).snapshot(),
                method@,
                args@,
                final(ctx).snapshot(),
                answer,
            ),
            old(ctx).snapshot().keeps_slots(final(ctx).snapshot()),
            r matches DispatchResult::Unhandled(b) ==> {
                &&& b == args
                &&& final(ctx).snapshot() == old(ctx).snapshot()
            },
    ;

    /// What the module does with the result of a message whose handler
    /// it knows.
    spec fn message_handled(
        before: ContextView,
        handler_name: Seq<char>,
        result: MessageResult,
        after: ContextView,
    ) -> bool;

    /// Dispatch a message result.
    fn dispatch_message_result<C: Context>(
        ctx: &mut C,
        handler_name: &str,
        result: MessageResult,
    ) -> (r: DispatchResult<MessageResult, ()>)
        ensures
            r is Handled <==> Self::handles_message_result(handler_name@),
            r is Handled ==> Self::message_handled(
                old(ctx).snapshot(),
                handler_name@,
                result,
                final(ctx).snapshot(),
            ),
            old(ctx).snapshot().keeps_slots(final(ctx).snapshot()),
            r matches DispatchResult::Unhandled(b) ==> {
                &&& b == result
                &&& final(ctx).snapshot() == old(ctx).snapshot()
            },
    ;
}

impl MethodHandler for () {
    open spec fn prefetches(method: Seq<char>) -> bool {
        false
    }

    open spec fn handles_call(method: Seq<char>) -> bool {
        false
    }

    open spec fn handles_query(method: Seq<char>) -> bool {
        false
    }

    open spec fn handles_message_result(handler_name: Seq<char>) -> bool {
        false
    }

    open spec fn prefetched(
        method: Seq<char>,
        body: ItemView,
        auth_info: AuthInfo,
        before: Vec<Vec<u8>>,
        after: Vec<Vec<u8>>,
        r: Result<(), RuntimeError>,
    ) -> bool {
        false
    }

    open spec fn called(
        before: ContextView,
        method: Seq<char>,
        body: ItemView,
        after: ContextView,
        r: CallResult,
    ) -> bool {
        false
    }

    open spec fn answered(
        before: ContextView,
        method: Seq<char>,
        args: ItemView,
        after: ContextView,
        r: Result<Item, RuntimeError>,
    ) -> bool {
        false
    }

    open spec fn message_handled(
        before: ContextView,
        handler_name: Seq<char>,
        result: MessageResult,
        after: ContextView,
    ) -> bool {
        false
    }

    fn prefetch(prefixes: &mut Vec<Vec<u8>>, method: &str, body: Item, auth_info: &AuthInfo) -> (r:
        DispatchResult<Item, Result<(), RuntimeError>>) {
        DispatchResult::Unhandled(body)
    }

    fn dispatch_call<C: TxContext>(ctx: &mut C, method: &str, body: Item) -> (r: DispatchResult<
        Item,
        CallResult,
    >) {
        DispatchResult::Unhandled(body)
    }

    fn dispatch_query<C: Context>(ctx: &mut C, method: &str, args: Item) -> (r: DispatchResult<
        Item,
        Result<Item, RuntimeError>,
    >) {
        DispatchResult::Unhandled(args)
    }

    fn dispatch_message_result<C: Context>(
        ctx: &mut C,
        handler_name: &str,
        result: MessageResult,
    ) -> (r: DispatchResult<MessageResult, ()>) {
        DispatchResult::Unhandled(result)
    }
}

/// Two handlers in a row: the first that handles a method answers, and
/// the second is asked only for what the first hands back. Longer rows
/// are pairs of pairs.
impl<A: MethodHandler, B: MethodHandler> MethodHandler for (A, B) {
    open spec fn prefetches(method: Seq<char>) -> bool {
        A::prefetches(method) || B::prefetches(method)
    }

    open spec fn handles_call(method: Seq<char>) -> bool {
        A::handles_call(method) || B::handles_call(method)
    }

    open spec fn handles_query(method: Seq<char>) -> bool {
        A::handles_query(method) || B::handles_query(method)
    }

    open spec fn handles_message_result(handler_name: Seq<char>) -> bool {
        A::handles_message_result(handler_name) || B::handles_message_result(handler_name)
    }

    open spec fn prefetched(
        method: Seq<char>,
        body: ItemView,
        auth_info: AuthInfo,
        before: Vec<Vec<u8>>,
        after: Vec<Vec<u8>>,
        r: Result<(), RuntimeError>,
    ) -> bool {
        if A::prefetches(method) {
            A::prefetched(method, body, auth_info, before, after, r)
        } else {
            B::prefetched(method, body, auth_info, before, after, r)
        }
    }

    open spec fn called(
        before: ContextView,
        method: Seq<char>,
        body: ItemView,
        after: ContextView,
        r: CallResult,
    ) -> bool {
        if A::handles_call(method) {
            A::called(before, method, body, after, r)
        } else {
            B::called(before, method, body, after, r)
        }
    }

    open spec fn answered(
        before: ContextView,
        method: Seq<char>,
        args: ItemView,
        after: ContextView,
        r: Result<Item, RuntimeError>,
    ) -> bool {
        if A::handles_query(method) {
            A::answered(before, method, args, after, r)
        } else {
            B::answered(before, method, args, after, r)
        }
    }

    open spec fn message_handled(
        before: ContextView,
        handler_name: Seq<char>,
        result: MessageResult,
        after: ContextView,
    ) -> bool {
        if A::handles_message_result(handler_name) {
            A::message_handled(before, handler_name, result, after)
        } else {
            B::message_handled(before, handler_name, result, after)
        }
    }

    fn prefetch(prefixes: &mut Vec<Vec<u8>>, method: &str, body: Item, auth_info: &AuthInfo) -> (r:
        DispatchResult<Item, Result<(), RuntimeError>>) {
        // Return on first handler that can handle the method.
        let body = match A::prefetch(prefixes, method, body, auth_info) {
            DispatchResult::Handled(result) => {
                return DispatchResult::Handled(result);
            },
            DispatchResult::Unhandled(body) => body,
        };
        B::prefetch(prefixes, method, body, auth_info)
    }

    fn dispatch_call<C: TxContext>(ctx: &mut C, method: &str, body: Item) -> (r: DispatchResult<
        Item,
        CallResult,
    >) {
        // Return on first handler that can handle the method.
        let body = match A::dispatch_call::<C>(ctx, method, body) {
            DispatchResult::Handled(result) => {
                return DispatchResult::Handled(result);
            },
            DispatchResult::Unhandled(body) => body,
        };
        B::dispatch_call::<C>(ctx, method, body)
    }

    fn dispatch_query<C: Context>(ctx: &mut C, method: &str, args: Item) -> (r: DispatchResult<
        Item,
        Result<Item, RuntimeError>,
    >) {
        // Return on first handler that can handle the method.
        let args = match A::dispatch_query::<C>(ctx, method, args) {
            DispatchResult::Handled(result) => {
                return DispatchResult::Handled(result);
            },
            DispatchResult::Unhandled(args) => args,
        };
        B::dispatch_query::<C>(ctx, method, args)
    }

    fn dispatch_message_result<C: Context>(
        ctx: &mut C,
        handler_name: &str,
        result: MessageResult,
    ) -> (r: DispatchResult<MessageResult, ()>) {
        // Return on first handler that can handle the method.
        let result = match A::dispatch_message_result::<C>(ctx, handler_name, result) {
            DispatchResult::Handled(result) => {
                return DispatchResult::Handled(result);
            },
            DispatchResult::Unhandled(result) => result,
        };
        B::dispatch_message_result::<C>(ctx, handler_name, result)
    }
}

/// Authentication handler.
///
/// For each hook a module says, in a spec function, what the hook does
/// to the context and what it returns. Where a module does not say it,
/// the hook accepts and changes nothing. Whatever a hook does, it leaves
/// the context with the slots for messages that it had, and with no more
/// messages than slots.
pub trait AuthHandler {
    /// The schemes of module-controlled decoding that the module is in
    /// charge of.
    spec fn decodes_scheme(scheme: Seq<char>) -> bool;

    /// What `decode_tx` of the module does.
    spec fn decoded(
        before: ContextView,
        scheme: Seq<char>,
        body: Seq<u8>,
        after: ContextView,
        r: Result<Option<Transaction>, core_module::Error>,
    ) -> bool;

    /// What `approve_unverified_tx` of the module does.
    open spec fn approves(
        before: ContextView,
        utx: UnverifiedTransaction,
        after: ContextView,
        r: Result<(), core_module::Error>,
    ) -> bool {
        is_accepted(before, after, r)
    }

    /// What `authenticate_tx` of the module does.
    open spec fn authenticates(
        before: ContextView,
        tx: Transaction,
        after: ContextView,
        r: Result<(), core_module::Error>,
    ) -> bool {
        is_accepted(before, after, r)
    }

    /// What `before_handle_call` of the module does.
    open spec fn prepares(
        before: ContextView,
        call: Call,
        after: ContextView,
        r: Result<(), core_module::Error>,
    ) -> bool {
        is_accepted(before, after, r)
    }

    /// Judge if an unverified transaction is good enough to undergo
    /// verification. This takes place before even verifying signatures.
    fn approve_unverified_tx<C: Context>(ctx: &mut C, utx: &UnverifiedTransaction) -> (r: Result<
        (),
        core_module::Error,
    >)
        ensures
            Self::approves(old(ctx).snapshot(), *utx, final(ctx).snapshot(), r),
            old(ctx).snapshot().keeps_slots(final(ctx).snapshot()),
    ;

    /// Decode a transaction that was sent with module-controlled decoding
    /// and verify any signatures.
    ///
    /// Returns `Ok(None)` where, and only where, the module is not in
    /// charge of the scheme. A transaction that is returned passes the
    /// basic validation.
    fn decode_tx<C: Context>(ctx: &mut C, scheme: &str, body: &[u8]) -> (r: Result<
        Option<Transaction>,
        core_module::Error,
    >)
        ensures
            Self::decoded(old(ctx).snapshot(), scheme@, body@, final(ctx).snapshot(), r),
            old(ctx).snapshot().keeps_slots(final(ctx).snapshot()),
            r matches Ok(None) <==> !Self::decodes_scheme(scheme@),
            r matches Ok(Some(tx)) ==> tx.is_valid_basic(),
    ;

    /// Authenticate a transaction.
    ///
    /// Note that any signatures have already been verified.
    fn authenticate_tx<C: Context>(ctx: &mut C, tx: &Transaction) -> (r: Result<
        (),
        core_module::Error,
    >)
        ensures
            Self::authenticates(old(ctx).snapshot(), *tx, final(ctx).snapshot(), r),
            old(ctx).snapshot().keeps_slots(final(ctx).snapshot()),
    ;

    /// Perform any action after authentication, within the transaction
    /// context.
    fn before_handle_call<C: TxContext>(ctx: &mut C, call: &Call) -> (r: Result<
        (),
        core_module::Error,
    >)
        ensures
            Self::prepares(old(ctx).snapshot(), *call, final(ctx).snapshot(), r),
            old(ctx).snapshot().keeps_slots(final(ctx).snapshot()),
    ;
}

impl AuthHandler for () {
    open spec fn decodes_scheme(scheme: Seq<char>) -> bool {
        false
    }

    open spec fn decoded(
        before: ContextView,
        scheme: Seq<char>,
        body: Seq<u8>,
        after: ContextView,
        r: Result<Option<Transaction>, core_module::Error>,
    ) -> bool {
        after == before && r matches Ok(None)
    }

    fn approve_unverified_tx<C: Context>(ctx: &mut C, utx: &UnverifiedTransaction) -> (r: Result<
        (),
        core_module::Error,
    >) {
        Ok(())
    }

    fn decode_tx<C: Context>(ctx: &mut C, scheme: &str, body: &[u8]) -> (r: Result<
        Option<Transaction>,
        core_module::Error,
    >) {
        Ok(None)
    }

    fn authenticate_tx<C: Context>(ctx: &mut C, tx: &Transaction) -> (r: Result<
        (),
        core_module::Error,
    >) {
        Ok(())
    }

    fn before_handle_call<C: TxContext>(ctx: &mut C, call: &Call) -> (r: Result<
        (),
        core_module::Error,
    >) {
        Ok(())
    }
}

/// What a hook leaves that has nothing to say: the context as it was,
/// and success.
pub open spec fn is_accepted(
    before: ContextView,
    after: ContextView,
    r: Result<(), core_module::Error>,
) -> bool {
    after == before && r is Ok
}

/// How two hooks that must both succeed make one: the second runs on
/// what the first has left, unless the first fails, and then its error
/// is the error.
pub open spec fn is_second_step(
    mid: ContextView,
    first: Result<(), core_module::Error>,
    second: bool,
    after: ContextView,
    r: Result<(), core_module::Error>,
) -> bool {
    match first {
        Ok(()) => second,
        Err(_) => after == mid && r == first,
    }
}

/// Two handlers in a row: a transaction passes where it passes both, the
/// first error is the error, and the first handler in charge of a scheme
/// decodes it.
impl<A: AuthHandler, B: AuthHandler> AuthHandler for (A, B) {
    open spec fn decodes_scheme(scheme: Seq<char>) -> bool {
        A::decodes_scheme(scheme) || B::decodes_scheme(scheme)
    }

    open spec fn decoded(
        before: ContextView,
        scheme: Seq<char>,
        body: Seq<u8>,
        after: ContextView,
        r: Result<Option<Transaction>, core_module::Error>,
    ) -> bool {
        exists|mid: ContextView, first: Result<Option<Transaction>, core_module::Error>| #[trigger]
            A::decoded(before, scheme, body, mid, first) && match first {
                Ok(None) => B::decoded(mid, scheme, body, after, r),
                _ => after == mid && r == first,
            }
    }

    open spec fn approves(
        before: ContextView,
        utx: UnverifiedTransaction,
        after: ContextView,
        r: Result<(), core_module::Error>,
    ) -> bool {
        exists|mid: ContextView, first: Result<(), core_module::Error>| #[trigger]
            A::approves(before, utx, mid, first) && is_second_step(
                mid,
                first,
                B::approves(mid, utx, after, r),
                after,
                r,
            )
    }

    open spec fn authenticates(
        before: ContextView,
        tx: Transaction,
        after: ContextView,
        r: Result<(), core_module::Error>,
    ) -> bool {
        exists|mid: ContextView, first: Result<(), core_module::Error>| #[trigger]
            A::authenticates(before, tx, mid, first) && is_second_step(
                mid,
                first,
                B::authenticates(mid, tx, after, r),
                after,
                r,
            )
    }

    open spec fn prepares(
        before: ContextView,
        call: Call,
        after: ContextView,
        r: Result<(), core_module::Error>,
    ) -> bool {
        exists|mid: ContextView, first: Result<(), core_module::Error>| #[trigger]
            A::prepares(before, call, mid, first) && is_second_step(
                mid,
                first,
                B::prepares(mid, call, after, r),
                after,
                r,
            )
    }

    fn approve_unverified_tx<C: Context>(ctx: &mut C, utx: &UnverifiedTransaction) -> (r: Result<
        (),
        core_module::Error,
    >) {
        let first = A::approve_unverified_tx(ctx, utx);
        let ghost mid = ctx.snapshot();
        let ghost done = first;
        let r = match first {
            Ok(()) => B::approve_unverified_tx(ctx, utx),
            Err(e) => Err(e),
        };
        assert(A::approves(old(ctx).snapshot(), *utx, mid, done) && is_second_step(
            mid,
            done,
            B::approves(mid, *utx, ctx.snapshot(), r),
            ctx.snapshot(),
            r,
        ));
        r
    }

    fn decode_tx<C: Context>(ctx: &mut C, scheme: &str, body: &[u8]) -> (r: Result<
        Option<Transaction>,
        core_module::Error,
    >) {
        let first = A::decode_tx(ctx, scheme, body);
        let ghost mid = ctx.snapshot();
        let ghost done = first;
        let r = match first {
            Err(e) => Err(e),
            Ok(Some(tx)) => Ok(Some(tx)),
            Ok(None) => B::decode_tx(ctx, scheme, body),
        };
        proof {
            lemma_both_decode::<A, B>(
                old(ctx).snapshot(),
                scheme@,
                body@,
                mid,
                done,
                ctx.snapshot(),
                r,
            );
        }
        r
    }

    fn authenticate_tx<C: Context>(ctx: &mut C, tx: &Transaction) -> (r: Result<
        (),
        core_module::Error,
    >) {
        let first = A::authenticate_tx(ctx, tx);
        let ghost mid = ctx.snapshot();
        let ghost done = first;
        let r = match first {
            Ok(()) => B::authenticate_tx(ctx, tx),
            Err(e) => Err(e),
        };
        assert(A::authenticates(old(ctx).snapshot(), *tx, mid, done) && is_second_step(
            mid,
            done,
            B::authenticates(mid, *tx, ctx.snapshot(), r),
            ctx.snapshot(),
            r,
        ));
        r
    }

    fn before_handle_call<C: TxContext>(ctx: &mut C, call: &Call) -> (r: Result<
        (),
        core_module::Error,
    >) {
        let first = A::before_handle_call(ctx, call);
        let ghost mid = ctx.snapshot();
        let ghost done = first;
        let r = match first {
            Ok(()) => B::before_handle_call(ctx, call),
            Err(e) => Err(e),
        };
        assert(A::prepares(old(ctx).snapshot(), *call, mid, done) && is_second_step(
            mid,
            done,
            B::prepares(mid, *call, ctx.snapshot(), r),
            ctx.snapshot(),
            r,
        ));
        r
    }
}

/// Two decodings in a row, the second where the first is not in charge,
/// are a decoding of the pair.
proof fn lemma_both_decode<A: AuthHandler, B: AuthHandler>(
    before: ContextView,
    scheme: Seq<char>,
    body: Seq<u8>,
    mid: ContextView,
    first: Result<Option<Transaction>, core_module::Error>,
    after: ContextView,
    r: Result<Option<Transaction>, core_module::Error>,
)
    requires
        A::decoded(before, scheme, body, mid, first),
        match first {
            Ok(None) => B::decoded(mid, scheme, body, after, r),
            _ => after == mid && r == first,
        },
    ensures
        <(A, B) as AuthHandler>::decoded(before, scheme, body, after, r),
{
}

/// Migration handler.
pub trait MigrationHandler {
    /// Genesis state type.
    type Genesis;

    /// What `init_or_migrate` of the module does to the context and to
    /// the metadata, and whether it says that the metadata has changed.
    /// Where a module does not say it, nothing is migrated.
    open spec fn migrates(
        before: ContextView,
        meta: Metadata,
        genesis: Self::Genesis,
        after: ContextView,
        meta_after: Metadata,
        changed: bool,
    ) -> bool {
        is_not_migrated(before, meta, after, meta_after, changed)
    }

    /// Initialize state from genesis or perform a migration.
    ///
    /// Should return true in case metadata has been changed.
    fn init_or_migrate<C: Context>(ctx: &mut C, meta: &mut Metadata, genesis: Self::Genesis) -> (changed:
        bool)
        ensures
            Self::migrates(
                old(ctx).snapshot(),
                *old(meta),
                genesis,
                final(ctx).snapshot(),
                *final(meta),
                changed,
            ),
            old(ctx).snapshot().keeps_slots(final(ctx).snapshot()),
    ;
}

/// Nothing is migrated: the context and the metadata are as they were.
pub open spec fn is_not_migrated(
    before: ContextView,
    meta: Metadata,
    after: ContextView,
    meta_after: Metadata,
    changed: bool,
) -> bool {
    after == before && meta_after == meta && !changed
}

impl MigrationHandler for () {
    type Genesis = ();

    fn init_or_migrate<C: Context>(ctx: &mut C, meta: &mut Metadata, genesis: Self::Genesis) -> (changed:
        bool) {
        false
    }
}

/// Two handlers in a row: both run, each on its part of the genesis, and
/// the metadata has changed where either says so.
impl<A: MigrationHandler, B: MigrationHandler> MigrationHandler for (A, B) {
    type Genesis = (A::Genesis, B::Genesis);

    open spec fn migrates(
        before: ContextView,
        meta: Metadata,
        genesis: Self::Genesis,
        after: ContextView,
        meta_after: Metadata,
        changed: bool,
    ) -> bool {
        exists|mid: ContextView, meta_mid: Metadata, first: bool, second: bool|
            #[trigger] A::migrates(before, meta, genesis.0, mid, meta_mid, first)
                && #[trigger] B::migrates(mid, meta_mid, genesis.1, after, meta_after, second)
                && changed == (first || second)
    }

    fn init_or_migrate<C: Context>(ctx: &mut C, meta: &mut Metadata, genesis: Self::Genesis) -> (changed:
        bool) {
        let first = A::init_or_migrate(ctx, meta, genesis.0);
        let ghost mid = ctx.snapshot();
        let ghost meta_mid = *meta;
        let second = B::init_or_migrate(ctx, meta, genesis.1);
        proof {
            lemma_both_migrate::<A, B>(
                old(ctx).snapshot(),
                *old(meta),
                genesis,
                mid,
                meta_mid,
                first,
                ctx.snapshot(),
                *meta,
                second,
            );
        }
        first || second
    }
}

/// Two migrations in a row are a migration of the pair.
proof fn lemma_both_migrate<A: MigrationHandler, B: MigrationHandler>(
    before: ContextView,
    meta: Metadata,
    genesis: (A::Genesis, B::Genesis),
    mid: ContextView,
    meta_mid: Metadata,
    first: bool,
    after: ContextView,
    meta_after: Metadata,
    second: bool,
)
    requires
        A::migrates(before, meta, genesis.0, mid, meta_mid, first),
        B::migrates(mid, meta_mid, genesis.1, after, meta_after, second),
    ensures
        <(A, B) as MigrationHandler>::migrates(
            before,
            meta,
            genesis,
            after,
            meta_after,
            first || second,
        ),
{
}

/// Block handler.
pub trait BlockHandler {
    /// What `begin_block` of the module does to the context. Where a
    /// module does not say it, nothing.
    open spec fn begins(before: ContextView, after: ContextView) -> bool {
        after == before
    }

    /// What `end_block` of the module does to the context. Where a
    /// module does not say it, nothing.
    open spec fn ends(before: ContextView, after: ContextView) -> bool {
        after == before
    }

    /// What `get_block_weight_limits` of the module does to the context,
    /// and the limits that it returns. Where a module does not say it,
    /// there are no limits.
    open spec fn limits(
        before: ContextView,
        after: ContextView,
        weights: Map<transaction::TransactionWeight, u64>,
    ) -> bool {
        is_unlimited(before, after, weights)
    }

    /// Perform any common actions at the start of the block (before any
    /// transactions have been executed).
    fn begin_block<C: Context>(ctx: &mut C)
        ensures
            Self::begins(old(ctx).snapshot(), final(ctx).snapshot()),
            old(ctx).snapshot().keeps_slots(final(ctx).snapshot()),
    ;

    /// Perform any common actions at the end of the block (after all
    /// transactions have been executed).
    fn end_block<C: Context>(ctx: &mut C)
        ensures
            Self::ends(old(ctx).snapshot(), final(ctx).snapshot()),
            old(ctx).snapshot().keeps_slots(final(ctx).snapshot()),
    ;

    /// Returns module per-batch weight limits.
    fn get_block_weight_limits<C: Context>(ctx: &mut C) -> (weights: Weights)
        ensures
            Self::limits(old(ctx).snapshot(), final(ctx).snapshot(), weights@),
            old(ctx).snapshot().keeps_slots(final(ctx).snapshot()),
    ;
}

/// No limits are given, and the context is as it was.
pub open spec fn is_unlimited(
    before: ContextView,
    after: ContextView,
    weights: Map<transaction::TransactionWeight, u64>,
) -> bool {
    after == before && weights == Map::<transaction::TransactionWeight, u64>::empty()
}

impl BlockHandler for () {
    fn begin_block<C: Context>(ctx: &mut C) {
    }

    fn end_block<C: Context>(ctx: &mut C) {
    }

    fn get_block_weight_limits<C: Context>(ctx: &mut C) -> (weights: Weights) {
        Weights::new()
    }
}

/// Two handlers in a row: both run in order, and the limits of the second
/// take the place of those of the first for the same weight.
impl<A: BlockHandler, B: BlockHandler> BlockHandler for (A, B) {
    open spec fn begins(before: ContextView, after: ContextView) -> bool {
        exists|mid: ContextView| #[trigger] A::begins(before, mid) && B::begins(mid, after)
    }

    open spec fn ends(before: ContextView, after: ContextView) -> bool {
        exists|mid: ContextView| #[trigger] A::ends(before, mid) && B::ends(mid, after)
    }

    open spec fn limits(
        before: ContextView,
        after: ContextView,
        weights: Map<transaction::TransactionWeight, u64>,
    ) -> bool {
        exists|
            mid: ContextView,
            first: Map<transaction::TransactionWeight, u64>,
            second: Map<transaction::TransactionWeight, u64>,
        |
            #[trigger] A::limits(before, mid, first) && #[trigger] B::limits(mid, after, second)
                && weights == first.union_prefer_right(second)
    }

    fn begin_block<C: Context>(ctx: &mut C) {
        A::begin_block(ctx);
        let ghost mid = ctx.snapshot();
        B::begin_block(ctx);
        proof {
            lemma_both_begin::<A, B>(old(ctx).snapshot(), mid, ctx.snapshot());
        }
    }

    fn end_block<C: Context>(ctx: &mut C) {
        A::end_block(ctx);
        let ghost mid = ctx.snapshot();
        B::end_block(ctx);
        proof {
            lemma_both_end::<A, B>(old(ctx).snapshot(), mid, ctx.snapshot());
        }
    }

    fn get_block_weight_limits<C: Context>(ctx: &mut C) -> (weights: Weights) {
        let mut result = Weights::new();
        let first = A::get_block_weight_limits(ctx);
        let ghost mid = ctx.snapshot();
        result.extend(&first);
        let second = B::get_block_weight_limits(ctx);
        result.extend(&second);
        assert(result@ =~= first@.union_prefer_right(second@));
        proof {
            lemma_both_limit::<A, B>(old(ctx).snapshot(), mid, first@, ctx.snapshot(), second@);
        }
        result
    }
}

/// Two beginnings in a row are a beginning of the pair.
proof fn lemma_both_begin<A: BlockHandler, B: BlockHandler>(
    before: ContextView,
    mid: ContextView,
    after: ContextView,
)
    requires
        A::begins(before, mid),
        B::begins(mid, after),
    ensures
        <(A, B) as BlockHandler>::begins(before, after),
{
}

/// Two endings in a row are an ending of the pair.
proof fn lemma_both_end<A: BlockHandler, B: BlockHandler>(
    before: ContextView,
    mid: ContextView,
    after: ContextView,
)
    requires
        A::ends(before, mid),
        B::ends(mid, after),
    ensures
        <(A, B) as BlockHandler>::ends(before, after),
{
}

/// The limits of two handlers in a row are limits of the pair.
proof fn lemma_both_limit<A: BlockHandler, B: BlockHandler>(
    before: ContextView,
    mid: ContextView,
    first: Map<transaction::TransactionWeight, u64>,
    after: ContextView,
    second: Map<transaction::TransactionWeight, u64>,
)
    requires
        A::limits(before, mid, first),
        B::limits(mid, after, second),
    ensures
        <(A, B) as BlockHandler>::limits(before, after, first.union_prefer_right(second)),
{
}

/// Invariant handler.
pub trait InvariantHandler {
    /// What `check_invariants` of the module does. Where a module does
    /// not say it, nothing is checked.
    open spec fn checks(
        before: ContextView,
        after: ContextView,
        r: Result<(), core_module::Error>,
    ) -> bool {
        is_accepted(before, after, r)
    }

    /// Check invariants.
    fn check_invariants<C: Context>(ctx: &mut C) -> (r: Result<(), core_module::Error>)
        ensures
            Self::checks(old(ctx).snapshot(), final(ctx).snapshot(), r),
            old(ctx).snapshot().keeps_slots(final(ctx).snapshot()),
    ;
}

impl InvariantHandler for () {
    fn check_invariants<C: Context>(ctx: &mut C) -> (r: Result<(), core_module::Error>) {
        Ok(())
    }
}

/// Check the invariants in both handlers; the first violation is
/// reported.
impl<A: InvariantHandler, B: InvariantHandler> InvariantHandler for (A, B) {
    open spec fn checks(
        before: ContextView,
        after: ContextView,
        r: Result<(), core_module::Error>,
    ) -> bool {
        exists|mid: ContextView, first: Result<(), core_module::Error>| #[trigger]
            A::checks(before, mid, first) && is_second_step(
                mid,
                first,
                B::checks(mid, after, r),
                after,
                r,
            )
    }

    fn check_invariants<C: Context>(ctx: &mut C) -> (r: Result<(), core_module::Error>) {
        let first = A::check_invariants(ctx);
        let ghost mid = ctx.snapshot();
        let ghost done = first;
        let r = match first {
            Ok(()) => B::check_invariants(ctx),
            Err(e) => Err(e),
        };
        assert(A::checks(old(ctx).snapshot(), mid, done) && is_second_step(
            mid,
            done,
            B::checks(mid, ctx.snapshot(), r),
            ctx.snapshot(),
            r,
        ));
        r
    }
}

/// Store key used for storing parameters, below the name of the module.
pub const PARAMETERS_STORE_KEY: [u8; 1] = [0x00];

/// The state key of the parameters of a module.
pub open spec fn parameters_key(module: Seq<u8>) -> Seq<u8> {
    module + PARAMETERS_STORE_KEY@
}

/// Parameters for a runtime module.
pub trait Parameters: Decode {
    type Error;

    /// These are the parameters of a module that has stored none.
    spec fn is_default(&self) -> bool;

    /// The parameters pass the basic validation.
    spec fn is_valid(&self) -> bool;

    /// The parameters of a module that has stored none.
    fn default_value() -> (params: Self)
        ensures
            params.is_default(),
    ;

    /// Perform basic parameter validation.
    fn validate_basic(&self) -> (r: Result<(), Self::Error>)
        ensures
            r is Ok <==> self.is_valid(),
    ;
}

/// A runtime module.
pub trait Module {
    /// Module parameters.
    type Parameters: Parameters;

    /// Module name.
    spec fn name_spec() -> Seq<u8>;

    /// Module name.
    fn name() -> (name: &'static str)
        ensures
            name.spec_bytes() == Self::name_spec(),
    ;

    /// Module version.
    spec fn version_spec() -> u32;

    /// Module version.
    fn version() -> (version: u32)
        ensures
            version == Self::version_spec(),
    ;

    /// Return the module's parameters: those that the state holds under
    /// the module's name, or else the default ones.
    fn params<C: Context>(ctx: &C) -> (params: Self::Parameters)
        ensures
            exists|stored: Option<Self::Parameters>| #[trigger]
                is_typed_read(ctx.snapshot().state, parameters_key(Self::name_spec()), stored)
                    && match stored {
                    Some(p) => p == params,
                    None => params.is_default(),
                },
    {
        let key = concat(Self::name().as_bytes(), PARAMETERS_STORE_KEY.as_slice());
        let stored: Option<Self::Parameters> = get_typed(ctx, key.as_slice());
        let ghost witness = stored;
        let params = match stored {
            Some(params) => params,
            None => Self::Parameters::default_value(),
        };
        assert(is_typed_read(ctx.snapshot().state, parameters_key(Self::name_spec()), witness));
        params
    }

    /// Set the module's parameters. Returns whether they were stored:
    /// they are not where they have no encoding.
    fn set_params<C: Context>(ctx: &mut C, params: Self::Parameters) -> (stored: bool)
        ensures
            match stored_form(params.encoded()) {
                Some(bytes) => stored && final(ctx).snapshot() == (ContextView {
                    state: old(ctx).snapshot().state.insert(
                        parameters_key(Self::name_spec()),
                        bytes,
                    ),
                    ..old(ctx).snapshot()
                }),
                None => !stored && final(ctx).snapshot() == old(ctx).snapshot(),
            },
    {
        let key = concat(Self::name().as_bytes(), PARAMETERS_STORE_KEY.as_slice());
        insert_typed(ctx, key.as_slice(), params)
    }
}

} // verus!
