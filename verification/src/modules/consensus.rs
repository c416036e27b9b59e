//! The consensus module: what the runtime knows of the consensus layer
//! and how it sends messages to it.

use vstd::prelude::*;
use crate::context::{ConsensusAccount, Context, ContextView, EmittedMessage, Mode, TxContext, TxView};
use crate::dispatcher;
use crate::error;
use crate::modules::core_module;
use crate::modules::core_module::weighed;
use crate::storage::{bytes_eq, to_vec};
use crate::text::owned;
use crate::types::address::Address;
use crate::types::message::{Message, MessageEventHookInvocation, StakingMessage};
use crate::types::token::{BaseUnits, Denomination};
use crate::types::transaction::{AuthInfo, SignerKind, TransactionWeight};

verus! {

/// Unique module name.
pub const MODULE_NAME: &'static str = "consensus";

/// Errors emitted by the consensus module.
#[derive(Debug)]
pub enum Error {
    InvalidArgument,
    InvalidDenomination,
    InternalStateError,
    Core(core_module::Error),
    ConsensusIncompatibleSigner,
    AmountNotRepresentable,
}

impl error::Error for Error {
    open spec fn module_name_spec(&self) -> Seq<char> {
        match self {
            Error::Core(source) => source.module_name_spec(),
            _ => MODULE_NAME@,
        }
    }

    open spec fn code_spec(&self) -> u32 {
        match self {
            Error::InvalidArgument => 1,
            Error::InvalidDenomination => 2,
            Error::InternalStateError => 3,
            Error::Core(source) => source.code_spec(),
            Error::ConsensusIncompatibleSigner => 4,
            Error::AmountNotRepresentable => 5,
        }
    }

    open spec fn message_spec(&self) -> Seq<char> {
        match self {
            Error::InvalidArgument => "invalid argument"@,
            Error::InvalidDenomination => "invalid denomination"@,
            Error::InternalStateError => "internal state"@,
            Error::Core(source) => "core: "@ + source.message_spec(),
            Error::ConsensusIncompatibleSigner => "consensus incompatible signer"@,
            Error::AmountNotRepresentable => "amount not representable"@,
        }
    }

    open spec fn abort_spec(&self) -> Option<dispatcher::Error> {
        None
    }

    fn module_name(&self) -> (name: &str) {
        match self {
            Error::Core(source) => source.module_name(),
            _ => MODULE_NAME,
        }
    }

    fn code(&self) -> (code: u32) {
        match self {
            Error::InvalidArgument => 1,
            Error::InvalidDenomination => 2,
            Error::InternalStateError => 3,
            Error::Core(source) => source.code(),
            Error::ConsensusIncompatibleSigner => 4,
            Error::AmountNotRepresentable => 5,
        }
    }

    fn message(&self) -> (message: String) {
        match self {
            Error::InvalidArgument => owned("invalid argument"),
            Error::InvalidDenomination => owned("invalid denomination"),
            Error::InternalStateError => owned("internal state"),
            Error::Core(source) => {
                let inner = source.message();
                crate::text::join("core: ", inner.as_str())
            },
            Error::ConsensusIncompatibleSigner => owned("consensus incompatible signer"),
            Error::AmountNotRepresentable => owned("amount not representable"),
        }
    }

    fn into_abort(self) -> (r: Result<dispatcher::Error, Self>) {
        Err(self)
    }
}

/// The first signer of the transaction signs with a single Ed25519 key,
/// which is the kind of key that the consensus layer knows.
pub open spec fn has_compatible_signer(auth_info: AuthInfo) -> bool {
    auth_info.signer_info@.len() > 0 && auth_info.signer_info@[0].address_spec.kind
        == SignerKind::Ed25519
}

/// An amount of the runtime in consensus base units: the amount divided
/// by the scaling factor, where that leaves no remainder.
pub open spec fn to_consensus(amount: u128, factor: u64) -> Option<u128> {
    if factor == 0 || amount % (factor as u128) != 0 {
        None
    } else {
        Some(amount / (factor as u128))
    }
}

/// An amount of the consensus layer in base units of the runtime: the
/// amount times the scaling factor, where that is not more than can be
/// held.
pub open spec fn from_consensus(amount: u128, factor: u64) -> Option<u128> {
    if amount * factor > u128::MAX {
        None
    } else {
        Some((amount * factor) as u128)
    }
}

/// What the consensus layer is asked to do with an amount.
#[derive(Clone, Copy, Debug)]
pub enum Request {
    /// To move the amount from the runtime's account to an account.
    Transfer { to: Address },
    /// To move the amount from an account to the runtime's account.
    Withdraw { from: Address },
}

/// The message that asks for an amount of consensus base units.
pub open spec fn request_message(request: Request, amount: u128) -> Message {
    match request {
        Request::Transfer { to } => Message::Staking(StakingMessage::Transfer { to, amount }),
        Request::Withdraw { from } => Message::Staking(StakingMessage::Withdraw { from, amount }),
    }
}

/// What sending a message for an amount does in a transaction.
///
/// The amount must be in the consensus denomination and must convert to
/// consensus base units. The message then counts towards the weight of
/// the transaction. While a batch is only checked nothing is sent;
/// otherwise the message is emitted with its hook, if a slot is left.
pub open spec fn is_sending(
    before: ContextView,
    after: ContextView,
    denomination: Seq<u8>,
    factor: u64,
    amount: (u128, Seq<u8>),
    request: Request,
    hook: MessageEventHookInvocation,
    r: Result<(), Error>,
) -> bool {
    let counted = ContextView {
        tx: Some(weighed(before.transaction(), TransactionWeight::ConsensusMessages, 1)),
        ..before
    };
    if amount.1 != denomination {
        r matches Err(Error::InvalidDenomination) && after == before
    } else {
        match to_consensus(amount.0, factor) {
            None => r matches Err(Error::AmountNotRepresentable) && after == before,
            Some(converted) => if before.mode == Mode::CheckTx {
                r is Ok && after == counted
            } else if before.messages.len() >= before.max_messages {
                r matches Err(Error::Core(core_module::Error::OutOfMessageSlots)) && after
                    == counted
            } else {
                r is Ok && after == (ContextView {
                    messages: before.messages.push(
                        EmittedMessage { message: request_message(request, converted), hook },
                    ),
                    ..counted
                })
            },
        }
    }
}

/// Interface that can be called from other modules.
pub trait API {
    /// The denomination of the consensus layer.
    spec fn denomination() -> Seq<u8>;

    /// The number of base units of the runtime that make one base unit
    /// of the consensus layer.
    spec fn scaling_factor() -> u64;

    /// Transfer an amount from the runtime account.
    fn transfer<C: TxContext>(
        ctx: &mut C,
        to: Address,
        amount: &BaseUnits,
        hook: MessageEventHookInvocation,
    ) -> (r: Result<(), Error>)
        ensures
            is_sending(
                old(ctx).snapshot(),
                final(ctx).snapshot(),
                Self::denomination(),
                Self::scaling_factor(),
                amount@,
                Request::Transfer { to },
                hook,
                r,
            ),
    ;

    /// Withdraw an amount into the runtime account.
    fn withdraw<C: TxContext>(
        ctx: &mut C,
        from: Address,
        amount: &BaseUnits,
        hook: MessageEventHookInvocation,
    ) -> (r: Result<(), Error>)
        ensures
            is_sending(
                old(ctx).snapshot(),
                final(ctx).snapshot(),
                Self::denomination(),
                Self::scaling_factor(),
                amount@,
                Request::Withdraw { from },
                hook,
                r,
            ),
    ;

    /// Returns consensus token denomination.
    fn consensus_denomination<C: Context>(ctx: &C) -> (r: Result<Denomination, Error>)
        ensures
            r matches Ok(d) && d.0@ == Self::denomination(),
    ;

    /// Ensures transaction signer is consensus compatible.
    fn ensure_compatible_tx_signer<C: TxContext>(ctx: &C) -> (r: Result<(), Error>)
        ensures
            if has_compatible_signer(ctx.snapshot().transaction().auth_info) {
                r is Ok
            } else {
                r matches Err(Error::ConsensusIncompatibleSigner)
            },
    ;

    /// Query consensus account info.
    fn account<C: Context>(ctx: &C, address: Address) -> (r: Result<ConsensusAccount, Error>)
        ensures
            match crate::context::reported_account(
                ctx.snapshot().host.consensus_accounts@,
                address,
            ) {
                Some(account) => r == Ok::<ConsensusAccount, Error>(account),
                None => r matches Err(Error::InternalStateError),
            },
    ;

    /// Convert runtime amount to consensus amount, scaling as needed.
    fn amount_to_consensus<C: Context>(ctx: &C, amount: u128) -> (r: Result<u128, Error>)
        ensures
            match to_consensus(amount, Self::scaling_factor()) {
                Some(converted) => r == Ok::<u128, Error>(converted),
                None => r matches Err(Error::AmountNotRepresentable),
            },
    ;

    /// Convert consensus amount to runtime amount, scaling as needed.
    fn amount_from_consensus<C: Context>(ctx: &C, amount: u128) -> (r: Result<u128, Error>)
        ensures
            match from_consensus(amount, Self::scaling_factor()) {
                Some(converted) => r == Ok::<u128, Error>(converted),
                None => r matches Err(Error::AmountNotRepresentable),
            },
    ;
}

/// The parameters of the consensus module.
pub trait Parameters {
    /// The denomination of the consensus layer.
    spec fn denomination() -> Seq<u8>;

    /// The scaling factor, which is not 0.
    spec fn scaling_factor() -> u64;

    fn consensus_denomination() -> (denomination: Denomination)
        ensures
            denomination.0@ == Self::denomination(),
    ;

    fn consensus_scaling_factor() -> (factor: u64)
        ensures
            factor == Self::scaling_factor(),
            factor > 0,
    ;
}

/// Parameters for a consensus layer whose base unit is that of the
/// runtime and whose denomination is `TEST`.
pub struct TestParameters;

impl Parameters for TestParameters {
    open spec fn denomination() -> Seq<u8> {
        seq![0x54u8, 0x45u8, 0x53u8, 0x54u8]
    }

    open spec fn scaling_factor() -> u64 {
        1
    }

    fn consensus_denomination() -> (denomination: Denomination) {
        let name: [u8; 4] = [0x54u8, 0x45u8, 0x53u8, 0x54u8];
        let bytes = to_vec(name.as_slice());
        assert(bytes@ =~= Self::denomination());
        Denomination(bytes)
    }

    fn consensus_scaling_factor() -> (factor: u64) {
        1
    }
}

/// The consensus module with the given parameters.
pub struct Module<P: Parameters> {
    _parameters: core::marker::PhantomData<P>,
}

impl<P: Parameters> Module<P> {
    /// Sends a message for an amount.
    fn send<C: TxContext>(
        ctx: &mut C,
        amount: &BaseUnits,
        request: Request,
        hook: MessageEventHookInvocation,
    ) -> (r: Result<(), Error>)
        ensures
            is_sending(
                old(ctx).snapshot(),
                final(ctx).snapshot(),
                P::denomination(),
                P::scaling_factor(),
                amount@,
                request,
                hook,
                r,
            ),
    {
        let denomination = P::consensus_denomination();
        if !bytes_eq(amount.1.0.as_slice(), denomination.0.as_slice()) {
            return Err(Error::InvalidDenomination);
        }
        let factor = P::consensus_scaling_factor() as u128;
        if amount.0 % factor != 0 {
            return Err(Error::AmountNotRepresentable);
        }
        let converted = amount.0 / factor;
        let _ = core_module::Module::add_weight(ctx, TransactionWeight::ConsensusMessages, 1);
        if ctx.is_check_only() {
            return Ok(());
        }
        let message = match request {
            Request::Transfer { to } => Message::Staking(
                StakingMessage::Transfer { to, amount: converted },
            ),
            Request::Withdraw { from } => Message::Staking(
                StakingMessage::Withdraw { from, amount: converted },
            ),
        };
        match ctx.emit_message(message, hook) {
            Ok(()) => Ok(()),
            Err(e) => Err(Error::Core(e)),
        }
    }
}

impl<P: Parameters> API for Module<P> {
    open spec fn denomination() -> Seq<u8> {
        P::denomination()
    }

    open spec fn scaling_factor() -> u64 {
        P::scaling_factor()
    }

    fn transfer<C: TxContext>(
        ctx: &mut C,
        to: Address,
        amount: &BaseUnits,
        hook: MessageEventHookInvocation,
    ) -> (r: Result<(), Error>) {
        Self::send(ctx, amount, Request::Transfer { to }, hook)
    }

    fn withdraw<C: TxContext>(
        ctx: &mut C,
        from: Address,
        amount: &BaseUnits,
        hook: MessageEventHookInvocation,
    ) -> (r: Result<(), Error>) {
        Self::send(ctx, amount, Request::Withdraw { from }, hook)
    }

    fn consensus_denomination<C: Context>(ctx: &C) -> (r: Result<Denomination, Error>) {
        Ok(P::consensus_denomination())
    }

    fn ensure_compatible_tx_signer<C: TxContext>(ctx: &C) -> (r: Result<(), Error>) {
        let auth_info = ctx.tx_auth_info();
        if auth_info.signer_info.len() == 0 {
            return Err(Error::ConsensusIncompatibleSigner);
        }
        match auth_info.signer_info[0].address_spec.kind {
            SignerKind::Ed25519 => Ok(()),
            _ => Err(Error::ConsensusIncompatibleSigner),
        }
    }

    fn account<C: Context>(ctx: &C, address: Address) -> (r: Result<ConsensusAccount, Error>) {
        match ctx.consensus_account(&address) {
            Some(account) => Ok(account),
            None => Err(Error::InternalStateError),
        }
    }

    fn amount_to_consensus<C: Context>(ctx: &C, amount: u128) -> (r: Result<u128, Error>) {
        let factor = P::consensus_scaling_factor() as u128;
        if amount % factor != 0 {
            return Err(Error::AmountNotRepresentable);
        }
        Ok(amount / factor)
    }

    fn amount_from_consensus<C: Context>(ctx: &C, amount: u128) -> (r: Result<u128, Error>) {
        match amount.checked_mul(P::consensus_scaling_factor() as u128) {
            Some(converted) => Ok(converted),
            None => Err(Error::AmountNotRepresentable),
        }
    }
}

} // verus!
