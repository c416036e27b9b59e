//! The core module: the errors of the framework itself, gas, priority and
//! weights.

use vstd::prelude::*;
use vstd::string::StringSliceAdditionalSpecFns;
use crate::context::{Context, ContextView, TxContext, TxView, Weights};
use crate::dispatcher;
use crate::error;
use crate::text::{decimal, decimal_digits, join, owned};
use crate::types::transaction::TransactionWeight;

pub mod types;

verus! {

/// Unique module name.
pub const MODULE_NAME: &'static str = "core";

/// Errors emitted by the core module.
#[derive(Debug)]
pub enum Error {
    MalformedTransaction(String),
    InvalidTransaction(String),
    InvalidMethod(String),
    InvalidNonce,
    InsufficientFeeBalance,
    OutOfMessageSlots,
    MessageHandlerNotInvoked,
    MessageHandlerMissing(u32),
    InvalidArgument(String),
    GasOverflow,
    OutOfGas,
    BatchGasOverflow,
    BatchOutOfGas,
    InvariantViolation(String),
    InvalidCallFormat(String),
    NotAuthenticated,
    /// The batch is to be aborted for the reason given.
    Abort(dispatcher::Error),
}

impl error::Error for Error {
    open spec fn module_name_spec(&self) -> Seq<char> {
        match self {
            Error::Abort(cause) => cause.module_name_spec(),
            _ => MODULE_NAME@,
        }
    }

    open spec fn code_spec(&self) -> u32 {
        match self {
            Error::MalformedTransaction(_) => 1,
            Error::InvalidTransaction(_) => 2,
            Error::InvalidMethod(_) => 3,
            Error::InvalidNonce => 4,
            Error::InsufficientFeeBalance => 5,
            Error::OutOfMessageSlots => 6,
            Error::MessageHandlerNotInvoked => 8,
            Error::MessageHandlerMissing(_) => 9,
            Error::InvalidArgument(_) => 10,
            Error::GasOverflow => 11,
            Error::OutOfGas => 12,
            Error::BatchGasOverflow => 13,
            Error::BatchOutOfGas => 14,
            Error::InvariantViolation(_) => 17,
            Error::InvalidCallFormat(_) => 18,
            Error::NotAuthenticated => 19,
            Error::Abort(cause) => cause.code_spec(),
        }
    }

    open spec fn message_spec(&self) -> Seq<char> {
        match self {
            Error::MalformedTransaction(cause) => "malformed transaction: "@ + cause@,
            Error::InvalidTransaction(cause) => "invalid transaction: "@ + cause@,
            Error::InvalidMethod(method) => "invalid method: "@ + method@,
            Error::InvalidNonce => "invalid nonce"@,
            Error::InsufficientFeeBalance => "insufficient balance to pay fees"@,
            Error::OutOfMessageSlots => "out of message slots"@,
            Error::MessageHandlerNotInvoked => "message handler not invoked"@,
            Error::MessageHandlerMissing(index) => "missing message handler for message "@
                + decimal_digits(*index),
            Error::InvalidArgument(cause) => "invalid argument: "@ + cause@,
            Error::GasOverflow => "gas overflow"@,
            Error::OutOfGas => "out of gas"@,
            Error::BatchGasOverflow => "batch gas overflow"@,
            Error::BatchOutOfGas => "batch out of gas"@,
            Error::InvariantViolation(cause) => "invariant violation: "@ + cause@,
            Error::InvalidCallFormat(cause) => "invalid call format: "@ + cause@,
            Error::NotAuthenticated => "not authenticated"@,
            Error::Abort(cause) => cause.message_spec(),
        }
    }

    open spec fn abort_spec(&self) -> Option<dispatcher::Error> {
        match self {
            Error::Abort(cause) => Some(*cause),
            _ => None,
        }
    }

    fn module_name(&self) -> (name: &str) {
        match self {
            Error::Abort(cause) => cause.module_name(),
            _ => MODULE_NAME,
        }
    }

    fn code(&self) -> (code: u32) {
        match self {
            Error::MalformedTransaction(_) => 1,
            Error::InvalidTransaction(_) => 2,
            Error::InvalidMethod(_) => 3,
            Error::InvalidNonce => 4,
            Error::InsufficientFeeBalance => 5,
            Error::OutOfMessageSlots => 6,
            Error::MessageHandlerNotInvoked => 8,
            Error::MessageHandlerMissing(_) => 9,
            Error::InvalidArgument(_) => 10,
            Error::GasOverflow => 11,
            Error::OutOfGas => 12,
            Error::BatchGasOverflow => 13,
            Error::BatchOutOfGas => 14,
            Error::InvariantViolation(_) => 17,
            Error::InvalidCallFormat(_) => 18,
            Error::NotAuthenticated => 19,
            Error::Abort(cause) => cause.code(),
        }
    }

    fn message(&self) -> (message: String) {
        match self {
            Error::MalformedTransaction(cause) => join("malformed transaction: ", cause.as_str()),
            Error::InvalidTransaction(cause) => join("invalid transaction: ", cause.as_str()),
            Error::InvalidMethod(method) => join("invalid method: ", method.as_str()),
            Error::InvalidNonce => owned("invalid nonce"),
            Error::InsufficientFeeBalance => owned("insufficient balance to pay fees"),
            Error::OutOfMessageSlots => owned("out of message slots"),
            Error::MessageHandlerNotInvoked => owned("message handler not invoked"),
            Error::MessageHandlerMissing(index) => {
                let digits = decimal(*index);
                join("missing message handler for message ", digits.as_str())
            },
            Error::InvalidArgument(cause) => join("invalid argument: ", cause.as_str()),
            Error::GasOverflow => owned("gas overflow"),
            Error::OutOfGas => owned("out of gas"),
            Error::BatchGasOverflow => owned("batch gas overflow"),
            Error::BatchOutOfGas => owned("batch out of gas"),
            Error::InvariantViolation(cause) => join("invariant violation: ", cause.as_str()),
            Error::InvalidCallFormat(cause) => join("invalid call format: ", cause.as_str()),
            Error::NotAuthenticated => owned("not authenticated"),
            Error::Abort(cause) => cause.message(),
        }
    }

    fn into_abort(self) -> (r: Result<dispatcher::Error, Self>) {
        match self {
            Error::Abort(cause) => Ok(cause),
            other => Err(other),
        }
    }
}

/// State key of the module metadata, below the module's name.
pub const METADATA: [u8; 1] = [0x01];

/// State key of the handlers of the messages that the last batch sent,
/// below the module's name.
pub const MESSAGE_HANDLERS: [u8; 1] = [0x02];

/// A state key of the core module: the module's name, then the key.
pub open spec fn state_key(key: Seq<u8>) -> Seq<u8> {
    MODULE_NAME.spec_bytes() + key
}

/// The core module.
pub struct Module;

/// What using `gas` does to the gas counts of a transaction: the new
/// counts of the transaction and of the batch, or the limit that stands
/// in the way. The limits of the transaction are looked at first.
pub open spec fn gas_outcome(tx: TxView, gas: u64) -> Result<(u64, u64), Error> {
    if tx.gas_used + gas > u64::MAX {
        Err(Error::GasOverflow)
    } else if tx.gas_used + gas > tx.gas_limit {
        Err(Error::OutOfGas)
    } else if tx.batch_gas_used + gas > u64::MAX {
        Err(Error::BatchGasOverflow)
    } else if tx.batch_gas_used + gas > tx.max_batch_gas {
        Err(Error::BatchOutOfGas)
    } else {
        Ok(((tx.gas_used + gas) as u64, (tx.batch_gas_used + gas) as u64))
    }
}

/// The value recorded for a weight, 0 where none is.
pub open spec fn weight_of(weights: Map<TransactionWeight, u64>, weight: TransactionWeight) -> u64 {
    if weights.contains_key(weight) {
        weights[weight]
    } else {
        0
    }
}

/// The sum of two weights, held at the greatest value there is.
pub open spec fn saturating_sum(a: u64, b: u64) -> u64 {
    if a + b > u64::MAX {
        u64::MAX
    } else {
        (a + b) as u64
    }
}

/// The transaction after `val` is added to one of its weights.
pub open spec fn weighed(tx: TxView, weight: TransactionWeight, val: u64) -> TxView {
    TxView {
        weights: tx.weights.insert(weight, saturating_sum(weight_of(tx.weights, weight), val)),
        ..tx
    }
}

impl Module {
    /// Attempts to use the given amount of gas in the transaction. Gas is
    /// used only where neither the limit of the transaction nor that of
    /// the batch is passed; otherwise nothing changes.
    pub fn use_tx_gas<C: TxContext>(ctx: &mut C, gas: u64) -> (r: Result<(), Error>)
        ensures
            match gas_outcome(old(ctx).snapshot().transaction(), gas) {
                Ok((tx_gas, batch_gas)) => r is Ok && final(ctx).snapshot() == (ContextView {
                    batch_gas_used: batch_gas,
                    tx: Some(
                        TxView {
                            gas_used: tx_gas,
                            batch_gas_used: batch_gas,
                            ..old(ctx).snapshot().transaction()
                        },
                    ),
                    ..old(ctx).snapshot()
                }),
                Err(e) => r == Err::<(), Error>(e) && final(ctx).snapshot() == old(ctx).snapshot(),
            },
    {
        let gas_limit = ctx.tx_auth_info().fee.gas;
        let gas_used = ctx.tx_gas_used();
        let new_gas_used = match gas_used.checked_add(gas) {
            None => {
                return Err(Error::GasOverflow);
            },
            Some(sum) => {
                if sum > gas_limit {
                    return Err(Error::OutOfGas);
                }
                sum
            },
        };
        let batch_gas_used = ctx.batch_gas_used();
        let new_batch_gas_used = match batch_gas_used.checked_add(gas) {
            None => {
                return Err(Error::BatchGasOverflow);
            },
            Some(sum) => {
                if sum > ctx.max_batch_gas() {
                    return Err(Error::BatchOutOfGas);
                }
                sum
            },
        };
        ctx.set_gas_used(new_gas_used, new_batch_gas_used);
        Ok(())
    }

    /// Adds to a weight of the transaction. A weight does not grow past
    /// the greatest value there is.
    pub fn add_weight<C: TxContext>(ctx: &mut C, weight: TransactionWeight, val: u64) -> (r: Result<
        (),
        Error,
    >)
        ensures
            r is Ok,
            final(ctx).snapshot() == (ContextView {
                tx: Some(weighed(old(ctx).snapshot().transaction(), weight, val)),
                ..old(ctx).snapshot()
            }),
    {
        let mut weights = ctx.weights();
        let current = match weights.get(weight) {
            Some(w) => w,
            None => 0,
        };
        let sum = match current.checked_add(val) {
            Some(sum) => sum,
            None => u64::MAX,
        };
        weights.insert(weight, sum);
        ctx.set_weights(weights);
        Ok(())
    }

    /// Takes the priority of the transaction out of the context, where 0
    /// is left.
    pub fn take_priority<C: TxContext>(ctx: &mut C) -> (priority: u64)
        ensures
            priority == old(ctx).snapshot().transaction().priority,
            final(ctx).snapshot() == (ContextView {
                tx: Some(TxView { priority: 0, ..old(ctx).snapshot().transaction() }),
                ..old(ctx).snapshot()
            }),
    {
        let priority = ctx.priority();
        ctx.set_priority(0);
        priority
    }

    /// Takes the weights of the transaction out of the context, where
    /// none are left.
    pub fn take_weights<C: TxContext>(ctx: &mut C) -> (weights: Weights)
        ensures
            weights@ == old(ctx).snapshot().transaction().weights,
            final(ctx).snapshot() == (ContextView {
                tx: Some(TxView { weights: Map::empty(), ..old(ctx).snapshot().transaction() }),
                ..old(ctx).snapshot()
            }),
    {
        let weights = ctx.weights();
        ctx.set_weights(Weights::new());
        weights
    }
}

} // verus!
