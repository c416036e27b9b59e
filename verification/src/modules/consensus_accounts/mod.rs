//! Consensus accounts module.
//!
//! This module allows consensus transfers in and out of the runtime
//! account, while keeping track of amount deposited per account.
//!
//! A deposit asks the consensus layer to move tokens into the runtime;
//! nothing changes in the runtime until the consensus layer reports, in
//! the next round, what came of it. A withdrawal sets the tokens aside in
//! the runtime at once and asks the consensus layer to move them out;
//! when the consensus layer reports, the tokens are burnt or handed back.

use vstd::prelude::*;
use vstd::string::StringSliceAdditionalSpecFns;
use crate::cbor::{
    entry_count, from_record, into_record, items_view, record_view, text, Decode, DecodeError,
    Encode, Item, ItemView,
};
use crate::context::{Context, ContextView, Mode, TxContext, TxView, Weights};
use crate::dispatcher;
use crate::error;
use crate::error::{Error as _, RuntimeError};
use crate::event;
use crate::event::tag_key;
use crate::module;
use crate::module::{CallResult, DispatchResult, Module as _};
use crate::modules::accounts;
use crate::modules::consensus;
use crate::modules::core_module;
use crate::modules::core_module::types::Metadata;
use crate::modules::core_module::{gas_outcome, weighed};
use crate::storage::typed::stored_form;
use crate::storage::{bytes_eq, concat};
use crate::text::{join, owned, str_eq};
use crate::types::address::{address_bytes, module_address_seed, Address, ADDRESS_MODULE_VERSION};
use crate::types::message::{
    Message, MessageEvent, MessageEventHookInvocation, MessageResult, StakingMessage,
};
use crate::types::token::BaseUnits;
use crate::types::transaction::{AuthInfo, Call, Transaction, TransactionWeight, UnverifiedTransaction};

pub mod types;

verus! {

/// Unique module name.
pub const MODULE_NAME: &'static str = "consensus_accounts";

/// Errors emitted by the consensus accounts module.
#[derive(Debug)]
pub enum Error {
    InvalidArgument,
    InvalidDenomination,
    InsufficientWithdrawBalance,
    Consensus(consensus::Error),
    Core(core_module::Error),
}

impl error::Error for Error {
    open spec fn module_name_spec(&self) -> Seq<char> {
        match self {
            Error::Consensus(source) => source.module_name_spec(),
            Error::Core(source) => source.module_name_spec(),
            _ => MODULE_NAME@,
        }
    }

    open spec fn code_spec(&self) -> u32 {
        match self {
            Error::InvalidArgument => 1,
            Error::InvalidDenomination => 2,
            Error::InsufficientWithdrawBalance => 3,
            Error::Consensus(source) => source.code_spec(),
            Error::Core(source) => source.code_spec(),
        }
    }

    open spec fn message_spec(&self) -> Seq<char> {
        match self {
            Error::InvalidArgument => "invalid argument"@,
            Error::InvalidDenomination => "invalid denomination"@,
            Error::InsufficientWithdrawBalance => "withdraw: insufficient runtime balance"@,
            Error::Consensus(source) => "consensus: "@ + source.message_spec(),
            Error::Core(source) => "core: "@ + source.message_spec(),
        }
    }

    open spec fn abort_spec(&self) -> Option<dispatcher::Error> {
        None
    }

    fn module_name(&self) -> (name: &str) {
        match self {
            Error::Consensus(source) => source.module_name(),
            Error::Core(source) => source.module_name(),
            _ => MODULE_NAME,
        }
    }

    fn code(&self) -> (code: u32) {
        match self {
            Error::InvalidArgument => 1,
            Error::InvalidDenomination => 2,
            Error::InsufficientWithdrawBalance => 3,
            Error::Consensus(source) => source.code(),
            Error::Core(source) => source.code(),
        }
    }

    fn message(&self) -> (message: String) {
        match self {
            Error::InvalidArgument => owned("invalid argument"),
            Error::InvalidDenomination => owned("invalid denomination"),
            Error::InsufficientWithdrawBalance => owned("withdraw: insufficient runtime balance"),
            Error::Consensus(source) => {
                let inner = source.message();
                join("consensus: ", inner.as_str())
            },
            Error::Core(source) => {
                let inner = source.message();
                join("core: ", inner.as_str())
            },
        }
    }

    fn into_abort(self) -> (r: Result<dispatcher::Error, Self>) {
        Err(self)
    }
}

/// Gas costs.
#[derive(Clone, Copy, Debug)]
pub struct GasCosts {
    pub tx_deposit: u64,
    pub tx_withdraw: u64,
}

impl Default for GasCosts {
    fn default() -> (costs: Self)
        ensures
            costs.tx_deposit == 0,
            costs.tx_withdraw == 0,
    {
        GasCosts { tx_deposit: 0, tx_withdraw: 0 }
    }
}

impl Encode for GasCosts {
    open spec fn encoded(&self) -> ItemView {
        record_view(
            seq!["tx_deposit", "tx_withdraw"],
            seq![self.tx_deposit.encoded(), self.tx_withdraw.encoded()],
        )
    }

    fn into_cbor_value(self) -> (item: Item) {
        let mut values: Vec<Item> = Vec::new();
        values.push(self.tx_deposit.into_cbor_value());
        values.push(self.tx_withdraw.into_cbor_value());
        let keys: [&'static str; 2] = ["tx_deposit", "tx_withdraw"];
        assert(keys@ =~= seq!["tx_deposit", "tx_withdraw"]);
        assert(items_view(values@) =~= seq![self.tx_deposit.encoded(), self.tx_withdraw.encoded()]);
        from_record(keys.as_slice(), values)
    }
}

impl Decode for GasCosts {
    fn try_from_cbor_value(item: Item) -> (r: Result<Self, DecodeError>) {
        let keys: [&'static str; 2] = ["tx_deposit", "tx_withdraw"];
        assert(keys@ =~= seq!["tx_deposit", "tx_withdraw"]);
        let mut values = match into_record(item, keys.as_slice()) {
            Some(values) => values,
            None => {
                return Err(DecodeError::UnknownField);
            },
        };
        let ghost all = values@;
        let withdraw_item = values.pop().unwrap();
        let deposit_item = values.pop().unwrap();
        assert(items_view(all)[0] == deposit_item@ && items_view(all)[1] == withdraw_item@);
        assert forall|value: Self| value.encoded() == item@ implies value.tx_deposit.encoded()
            == deposit_item@ && value.tx_withdraw.encoded() == withdraw_item@ by {
            let fields = seq![value.tx_deposit.encoded(), value.tx_withdraw.encoded()];
            let given = record_view(keys@, items_view(all))->Mapping_0;
            assert(record_view(keys@, fields)->Mapping_0[0] == given[0]);
            assert(record_view(keys@, fields)->Mapping_0[1] == given[1]);
        }
        let tx_deposit = match <u64 as Decode>::try_from_cbor_value(deposit_item) {
            Ok(n) => n,
            Err(e) => {
                return Err(e);
            },
        };
        let tx_withdraw = match <u64 as Decode>::try_from_cbor_value(withdraw_item) {
            Ok(n) => n,
            Err(e) => {
                return Err(e);
            },
        };
        assert(items_view(all) =~= seq![tx_deposit.encoded(), tx_withdraw.encoded()]);
        Ok(GasCosts { tx_deposit, tx_withdraw })
    }
}

/// Parameters for the consensus module.
#[derive(Clone, Copy, Debug)]
pub struct Parameters {
    pub gas_costs: GasCosts,
}

impl Default for Parameters {
    fn default() -> (params: Self)
        ensures
            params.gas_costs.tx_deposit == 0,
            params.gas_costs.tx_withdraw == 0,
    {
        Parameters { gas_costs: GasCosts { tx_deposit: 0, tx_withdraw: 0 } }
    }
}

impl Encode for Parameters {
    open spec fn encoded(&self) -> ItemView {
        record_view(seq!["gas_costs"], seq![self.gas_costs.encoded()])
    }

    fn into_cbor_value(self) -> (item: Item) {
        let mut values: Vec<Item> = Vec::new();
        values.push(self.gas_costs.into_cbor_value());
        let keys: [&'static str; 1] = ["gas_costs"];
        assert(keys@ =~= seq!["gas_costs"]);
        assert(items_view(values@) =~= seq![self.gas_costs.encoded()]);
        from_record(keys.as_slice(), values)
    }
}

impl Decode for Parameters {
    fn try_from_cbor_value(item: Item) -> (r: Result<Self, DecodeError>) {
        let keys: [&'static str; 1] = ["gas_costs"];
        assert(keys@ =~= seq!["gas_costs"]);
        let mut values = match into_record(item, keys.as_slice()) {
            Some(values) => values,
            None => {
                return Err(DecodeError::UnknownField);
            },
        };
        let ghost all = values@;
        let costs_item = values.pop().unwrap();
        assert(items_view(all)[0] == costs_item@);
        assert forall|value: Self| value.encoded() == item@ implies value.gas_costs.encoded()
            == costs_item@ by {
            let fields = seq![value.gas_costs.encoded()];
            let given = record_view(keys@, items_view(all))->Mapping_0;
            assert(record_view(keys@, fields)->Mapping_0[0] == given[0]);
        }
        match GasCosts::try_from_cbor_value(costs_item) {
            Ok(gas_costs) => {
                assert(items_view(all) =~= seq![gas_costs.encoded()]);
                Ok(Parameters { gas_costs })
            },
            Err(e) => Err(e),
        }
    }
}

impl module::Parameters for Parameters {
    type Error = ();

    /// No gas is charged.
    open spec fn is_default(&self) -> bool {
        self.gas_costs.tx_deposit == 0 && self.gas_costs.tx_withdraw == 0
    }

    /// All gas costs are fine.
    open spec fn is_valid(&self) -> bool {
        true
    }

    fn default_value() -> (params: Self) {
        Parameters { gas_costs: GasCosts { tx_deposit: 0, tx_withdraw: 0 } }
    }

    fn validate_basic(&self) -> (r: Result<(), ()>) {
        Ok(())
    }
}

/// Genesis state for the consensus module.
#[derive(Clone, Copy, Debug)]
pub struct Genesis {
    pub parameters: Parameters,
}

impl Encode for types::ConsensusError {
    open spec fn encoded(&self) -> ItemView {
        record_view(
            seq!["code", "module"],
            seq![ItemView::Unsigned(self.code as u64), ItemView::TextString(self.module@)],
        )
    }

    fn into_cbor_value(self) -> (item: Item) {
        let mut values: Vec<Item> = Vec::new();
        values.push(Item::Unsigned(self.code as u64));
        values.push(Item::TextString(self.module));
        let keys: [&'static str; 2] = ["code", "module"];
        assert(keys@ =~= seq!["code", "module"]);
        assert(items_view(values@) =~= seq![
            ItemView::Unsigned(self.code as u64),
            ItemView::TextString(self.module@),
        ]);
        from_record(keys.as_slice(), values)
    }
}

/// Events emitted by the consensus accounts module.
#[derive(Debug)]
pub enum Event {
    /// What came of a deposit: the tokens are in the runtime, or the
    /// consensus layer turned the deposit down.
    Deposit {
        from: Address,
        nonce: u64,
        to: Address,
        amount: BaseUnits,
        error: Option<types::ConsensusError>,
    },
    /// What came of a withdrawal: the tokens have left the runtime, or
    /// the consensus layer turned the withdrawal down and they are back.
    Withdraw {
        from: Address,
        nonce: u64,
        to: Address,
        amount: BaseUnits,
        error: Option<types::ConsensusError>,
    },
}

/// The CBOR form of the body of an event.
pub open spec fn event_view(
    from: Address,
    nonce: u64,
    to: Address,
    amount: BaseUnits,
    error: Option<types::ConsensusError>,
) -> ItemView {
    match error {
        Some(e) => record_view(
            seq!["to", "from", "error", "nonce", "amount"],
            seq![to.encoded(), from.encoded(), e.encoded(), nonce.encoded(), amount.encoded()],
        ),
        None => record_view(
            seq!["to", "from", "nonce", "amount"],
            seq![to.encoded(), from.encoded(), nonce.encoded(), amount.encoded()],
        ),
    }
}

/// Encodes the body of an event.
fn encode_event(
    from: Address,
    nonce: u64,
    to: Address,
    amount: BaseUnits,
    error: Option<types::ConsensusError>,
) -> (item: Item)
    ensures
        item@ == event_view(from, nonce, to, amount, error),
{
    let mut values: Vec<Item> = Vec::new();
    values.push(to.into_cbor_value());
    values.push(from.into_cbor_value());
    match error {
        Some(e) => {
            values.push(e.into_cbor_value());
            values.push(nonce.into_cbor_value());
            values.push(amount.into_cbor_value());
            let keys: [&'static str; 5] = ["to", "from", "error", "nonce", "amount"];
            assert(keys@ =~= seq!["to", "from", "error", "nonce", "amount"]);
            assert(items_view(values@) =~= seq![
                to.encoded(),
                from.encoded(),
                e.encoded(),
                nonce.encoded(),
                amount.encoded(),
            ]);
            from_record(keys.as_slice(), values)
        },
        None => {
            values.push(nonce.into_cbor_value());
            values.push(amount.into_cbor_value());
            let keys: [&'static str; 4] = ["to", "from", "nonce", "amount"];
            assert(keys@ =~= seq!["to", "from", "nonce", "amount"]);
            assert(items_view(values@) =~= seq![
                to.encoded(),
                from.encoded(),
                nonce.encoded(),
                amount.encoded(),
            ]);
            from_record(keys.as_slice(), values)
        },
    }
}

impl event::Event for Event {
    open spec fn module_name_spec() -> Seq<u8> {
        MODULE_NAME.spec_bytes()
    }

    open spec fn code_spec(&self) -> u32 {
        match self {
            Event::Deposit { .. } => 1,
            Event::Withdraw { .. } => 2,
        }
    }

    open spec fn value_spec(&self) -> ItemView {
        match self {
            Event::Deposit { from, nonce, to, amount, error } => event_view(
                *from,
                *nonce,
                *to,
                *amount,
                *error,
            ),
            Event::Withdraw { from, nonce, to, amount, error } => event_view(
                *from,
                *nonce,
                *to,
                *amount,
                *error,
            ),
        }
    }

    fn module_name() -> (name: &'static str) {
        MODULE_NAME
    }

    fn code(&self) -> (code: u32) {
        match self {
            Event::Deposit { .. } => 1,
            Event::Withdraw { .. } => 2,
        }
    }

    fn value(self) -> (item: Item) {
        match self {
            Event::Deposit { from, nonce, to, amount, error } => encode_event(
                from,
                nonce,
                to,
                amount,
                error,
            ),
            Event::Withdraw { from, nonce, to, amount, error } => encode_event(
                from,
                nonce,
                to,
                amount,
                error,
            ),
        }
    }
}

/// Name of the handler of the result of a transfer out of the runtime.
pub const CONSENSUS_TRANSFER_HANDLER: &'static str = "consensus.TransferFromRuntime";

/// Name of the handler of the result of a withdrawal into the runtime.
pub const CONSENSUS_WITHDRAW_HANDLER: &'static str = "consensus.WithdrawIntoRuntime";

/// Module's address that has the tokens pending withdrawal.
pub fn address_pending_withdrawal() -> (address: Address)
    ensures
        address.0@ == pending_withdrawal(),
{
    Address::from_module(MODULE_NAME, "pending-withdrawal")
}

/// The bytes of the address that has the tokens pending withdrawal.
pub open spec fn pending_withdrawal() -> Seq<u8> {
    address_bytes(
        ADDRESS_MODULE_VERSION,
        module_address_seed(MODULE_NAME.spec_bytes(), "pending-withdrawal".spec_bytes()),
    )
}

/// The result of this module for a result of the consensus module.
pub open spec fn lifted(inner: Result<(), consensus::Error>, r: Result<(), Error>) -> bool {
    match inner {
        Ok(()) => r is Ok,
        Err(e) => r == Err::<(), Error>(Error::Consensus(e)),
    }
}

/// What a deposit or a withdrawal does while a batch is only checked:
/// the message that would be sent is counted, and the amount must
/// convert to consensus base units.
pub open spec fn is_checked(
    before: ContextView,
    after: ContextView,
    factor: u64,
    amount: u128,
    r: Result<(), Error>,
) -> bool {
    &&& after == (ContextView {
        tx: Some(weighed(before.transaction(), TransactionWeight::ConsensusMessages, 1)),
        ..before
    })
    &&& match consensus::to_consensus(amount, factor) {
        Some(_) => r is Ok,
        None => r matches Err(Error::Consensus(consensus::Error::AmountNotRepresentable)),
    }
}

/// A message for an amount was sent with the hook that calls the named
/// handler with the given payload, and `r` is what came of it.
pub open spec fn is_requested(
    before: ContextView,
    after: ContextView,
    denomination: Seq<u8>,
    factor: u64,
    amount: (u128, Seq<u8>),
    request: consensus::Request,
    handler: Seq<char>,
    payload: ItemView,
    r: Result<(), Error>,
    hook: MessageEventHookInvocation,
    inner: Result<(), consensus::Error>,
) -> bool {
    &&& hook.hook_name@ == handler
    &&& hook.payload@ == payload
    &&& consensus::is_sending(before, after, denomination, factor, amount, request, hook, inner)
    &&& lifted(inner, r)
}

/// What a deposit does. While a batch is only checked, the message is
/// counted and the amount must convert. Otherwise the consensus layer is
/// asked to withdraw the amount from `from`, with the hook that hands
/// the receiver and the amount to the handler of the result.
pub open spec fn is_deposit(
    before: ContextView,
    after: ContextView,
    denomination: Seq<u8>,
    factor: u64,
    from: Address,
    nonce: u64,
    to: Address,
    amount: BaseUnits,
    r: Result<(), Error>,
) -> bool {
    if before.mode == Mode::CheckTx {
        is_checked(before, after, factor, amount.0, r)
    } else {
        exists|hook: MessageEventHookInvocation, inner: Result<(), consensus::Error>| #[trigger]
            is_requested(
                before,
                after,
                denomination,
                factor,
                amount@,
                consensus::Request::Withdraw { from },
                CONSENSUS_WITHDRAW_HANDLER@,
                types::context_view("from", from, nonce, amount, to),
                r,
                hook,
                inner,
            )
    }
}

/// What a withdrawal does. While a batch is only checked, the message is
/// counted and the amount must convert. Otherwise the amount is moved
/// from `from` to the account of pending withdrawals, where `from` has
/// it, and the consensus layer is asked to transfer the amount to `to`.
pub open spec fn is_withdrawal(
    before: ContextView,
    after: ContextView,
    denomination: Seq<u8>,
    factor: u64,
    from: Address,
    nonce: u64,
    to: Address,
    amount: BaseUnits,
    r: Result<(), Error>,
) -> bool {
    if before.mode == Mode::CheckTx {
        is_checked(before, after, factor, amount.0, r)
    } else {
        match accounts::transferred(before.state, from.0@, pending_withdrawal(), amount@) {
            Err(_) => r matches Err(Error::InsufficientWithdrawBalance) && after == before,
            Ok(escrowed) => exists|
                hook: MessageEventHookInvocation,
                inner: Result<(), consensus::Error>,
            | #[trigger]
                is_requested(
                    before.with_state(escrowed),
                    after,
                    denomination,
                    factor,
                    amount@,
                    consensus::Request::Transfer { to },
                    CONSENSUS_TRANSFER_HANDLER@,
                    types::context_view("to", to, nonce, amount, from),
                    r,
                    hook,
                    inner,
                ),
        }
    }
}

/// The context after gas was used in its transaction.
pub open spec fn charged(before: ContextView, gas: (u64, u64)) -> ContextView {
    ContextView {
        batch_gas_used: gas.1,
        tx: Some(TxView { gas_used: gas.0, batch_gas_used: gas.1, ..before.transaction() }),
        ..before
    }
}

/// The gas cost that the stored parameters give; nothing where none are
/// stored.
pub open spec fn deposit_cost(stored: Option<Parameters>) -> u64 {
    match stored {
        Some(p) => p.gas_costs.tx_deposit,
        None => 0,
    }
}

/// The gas cost that the stored parameters give; nothing where none are
/// stored.
pub open spec fn withdraw_cost(stored: Option<Parameters>) -> u64 {
    match stored {
        Some(p) => p.gas_costs.tx_withdraw,
        None => 0,
    }
}

/// A call of the deposit method: the argument is what the body decodes
/// to, the gas cost is that of the stored parameters, the deposit returns
/// `out`, and the result of the call is made of that.
pub open spec fn is_deposit_call(
    before: ContextView,
    body: ItemView,
    args: types::Deposit,
    stored: Option<Parameters>,
    out: Result<(), Error>,
    after: ContextView,
    r: CallResult,
    denomination: Seq<u8>,
    factor: u64,
) -> bool {
    &&& args.encoded() == body
    &&& crate::storage::typed::is_typed_read(
        before.state,
        module::parameters_key(MODULE_NAME.spec_bytes()),
        stored,
    )
    &&& is_tx_deposit(before, after, denomination, factor, deposit_cost(stored), args, out)
    &&& module::is_outcome_of(out, r)
}

/// A call of the withdraw method: the argument is what the body decodes
/// to, the gas cost is that of the stored parameters, the withdrawal
/// returns `out`, and the result of the call is made of that.
pub open spec fn is_withdraw_call(
    before: ContextView,
    body: ItemView,
    args: types::Withdraw,
    stored: Option<Parameters>,
    out: Result<(), Error>,
    after: ContextView,
    r: CallResult,
    denomination: Seq<u8>,
    factor: u64,
) -> bool {
    &&& args.encoded() == body
    &&& crate::storage::typed::is_typed_read(
        before.state,
        module::parameters_key(MODULE_NAME.spec_bytes()),
        stored,
    )
    &&& is_tx_withdraw(before, after, denomination, factor, withdraw_cost(stored), args, out)
    &&& module::is_outcome_of(out, r)
}

/// What a deposit transaction does: the gas is used, and a call that has
/// not the gas fails and changes nothing. The first signer must sign
/// with a key that the consensus layer knows. The deposit is then made
/// from the signer, with the signer's nonce, to the account that the
/// call names or else to the signer.
pub open spec fn is_tx_deposit(
    before: ContextView,
    after: ContextView,
    denomination: Seq<u8>,
    factor: u64,
    cost: u64,
    body: types::Deposit,
    r: Result<(), Error>,
) -> bool {
    match gas_outcome(before.transaction(), cost) {
        Err(e) => r == Err::<(), Error>(Error::Core(e)) && after == before,
        Ok(gas) => {
            let signers = before.transaction().auth_info.signer_info@;
            if signers.len() == 0 {
                r matches Err(Error::InvalidArgument) && after == charged(before, gas)
            } else if !consensus::has_compatible_signer(before.transaction().auth_info) {
                r matches Err(Error::Consensus(consensus::Error::ConsensusIncompatibleSigner))
                    && after == charged(before, gas)
            } else {
                is_deposit(
                    charged(before, gas),
                    after,
                    denomination,
                    factor,
                    signers[0].address_spec.address,
                    signers[0].nonce,
                    match body.to {
                        Some(to) => to,
                        None => signers[0].address_spec.address,
                    },
                    body.amount,
                    r,
                )
            }
        },
    }
}

/// What a withdraw transaction does: the gas is used, and a call that
/// has not the gas fails and changes nothing. Where the call names no
/// receiver, the first signer must sign with a key that the consensus
/// layer knows. The withdrawal is then made from the signer, with the
/// signer's nonce, to the account that the call names or else to the
/// signer.
pub open spec fn is_tx_withdraw(
    before: ContextView,
    after: ContextView,
    denomination: Seq<u8>,
    factor: u64,
    cost: u64,
    body: types::Withdraw,
    r: Result<(), Error>,
) -> bool {
    match gas_outcome(before.transaction(), cost) {
        Err(e) => r == Err::<(), Error>(Error::Core(e)) && after == before,
        Ok(gas) => {
            let signers = before.transaction().auth_info.signer_info@;
            if signers.len() == 0 {
                r matches Err(Error::InvalidArgument) && after == charged(before, gas)
            } else if body.to is None && !consensus::has_compatible_signer(
                before.transaction().auth_info,
            ) {
                r matches Err(Error::Consensus(consensus::Error::ConsensusIncompatibleSigner))
                    && after == charged(before, gas)
            } else {
                is_withdrawal(
                    charged(before, gas),
                    after,
                    denomination,
                    factor,
                    signers[0].address_spec.address,
                    signers[0].nonce,
                    match body.to {
                        Some(to) => to,
                        None => signers[0].address_spec.address,
                    },
                    body.amount,
                    r,
                )
            }
        },
    }
}

/// Interface that can be called from other modules.
pub trait API {
    /// The denomination of the consensus layer.
    spec fn consensus_denomination() -> Seq<u8>;

    /// The number of base units of the runtime that make one base unit
    /// of the consensus layer.
    spec fn consensus_scaling_factor() -> u64;

    /// Transfer from consensus staking account to runtime account.
    ///
    /// `nonce` is a caller-provided sequence number that will help
    /// identify the success/fail events. When called from a deposit
    /// transaction, we use the signer nonce.
    ///
    /// The consensus layer is asked to withdraw the amount from `from`
    /// into the runtime; the handler of the result gets the receiver and
    /// the amount. Nothing changes in the ledger yet.
    fn deposit<C: TxContext>(
        ctx: &mut C,
        from: Address,
        nonce: u64,
        to: Address,
        amount: BaseUnits,
    ) -> (r: Result<(), Error>)
        ensures
            is_deposit(
                old(ctx).snapshot(),
                final(ctx).snapshot(),
                Self::consensus_denomination(),
                Self::consensus_scaling_factor(),
                from,
                nonce,
                to,
                amount,
                r,
            ),
    ;

    /// Transfer from runtime account to consensus staking account.
    ///
    /// `nonce` is a caller-provided sequence number that will help
    /// identify the success/fail events. When called from a withdraw
    /// transaction, we use the signer nonce.
    ///
    /// The amount is moved from `from` to the account of pending
    /// withdrawals at once; a sender without the amount is turned down.
    /// The consensus layer is then asked to transfer the amount to `to`.
    fn withdraw<C: TxContext>(
        ctx: &mut C,
        from: Address,
        nonce: u64,
        to: Address,
        amount: BaseUnits,
    ) -> (r: Result<(), Error>)
        ensures
            is_withdrawal(
                old(ctx).snapshot(),
                final(ctx).snapshot(),
                Self::consensus_denomination(),
                Self::consensus_scaling_factor(),
                from,
                nonce,
                to,
                amount,
                r,
            ),
    ;
}

/// The consensus accounts module over a ledger and a consensus module.
pub struct Module<Accounts: accounts::API, Consensus: consensus::API> {
    _accounts: core::marker::PhantomData<Accounts>,
    _consensus: core::marker::PhantomData<Consensus>,
}

impl<Accounts: accounts::API, Consensus: consensus::API> API for Module<Accounts, Consensus> {
    open spec fn consensus_denomination() -> Seq<u8> {
        Consensus::denomination()
    }

    open spec fn consensus_scaling_factor() -> u64 {
        Consensus::scaling_factor()
    }

    fn deposit<C: TxContext>(
        ctx: &mut C,
        from: Address,
        nonce: u64,
        to: Address,
        amount: BaseUnits,
    ) -> (r: Result<(), Error>) {
        if ctx.is_check_only() {
            // In case this is not check only this weight will be emitted
            // from Consensus::withdraw below, same as the amount
            // conversion check.
            let _ = core_module::Module::add_weight(ctx, TransactionWeight::ConsensusMessages, 1);
            return match Consensus::amount_to_consensus(&*ctx, amount.amount()) {
                Ok(_) => Ok(()),
                Err(e) => Err(Error::Consensus(e)),
            };
        }
        // Do withdraw from the consensus account and update the account
        // state if successful.
        let copy = amount.duplicate();
        assert(types::context_view("from", from, nonce, copy, to) == types::context_view(
            "from",
            from,
            nonce,
            amount,
            to,
        ));
        let payload = types::encode_context("from", from, nonce, copy, to);
        let hook = MessageEventHookInvocation::new(owned(CONSENSUS_WITHDRAW_HANDLER), payload);
        let ghost sent = hook;
        let result = Consensus::withdraw(ctx, from, &amount, hook);
        let ghost inner = result;
        let r = match result {
            Ok(()) => Ok(()),
            Err(e) => Err(Error::Consensus(e)),
        };
        assert(is_requested(
            old(ctx).snapshot(),
            ctx.snapshot(),
            Self::consensus_denomination(),
            Self::consensus_scaling_factor(),
            amount@,
            consensus::Request::Withdraw { from },
            CONSENSUS_WITHDRAW_HANDLER@,
            types::context_view("from", from, nonce, amount, to),
            r,
            sent,
            inner,
        ));
        r
    }

    fn withdraw<C: TxContext>(
        ctx: &mut C,
        from: Address,
        nonce: u64,
        to: Address,
        amount: BaseUnits,
    ) -> (r: Result<(), Error>) {
        if ctx.is_check_only() {
            // In case this is not check only this weight will be emitted
            // from Consensus::transfer below, same as the amount
            // conversion check.
            let _ = core_module::Module::add_weight(ctx, TransactionWeight::ConsensusMessages, 1);
            return match Consensus::amount_to_consensus(&*ctx, amount.amount()) {
                Ok(_) => Ok(()),
                Err(e) => Err(Error::Consensus(e)),
            };
        }
        // Transfer the given amount to the module's withdrawal account to
        // make sure the tokens remain available until actually withdrawn.
        match Accounts::transfer(ctx, from, address_pending_withdrawal(), &amount) {
            Ok(()) => {},
            Err(_) => {
                return Err(Error::InsufficientWithdrawBalance);
            },
        }
        let ghost escrowed = ctx.snapshot();
        // Transfer out of runtime account and update the account state if
        // successful.
        let copy = amount.duplicate();
        assert(types::context_view("to", to, nonce, copy, from) == types::context_view(
            "to",
            to,
            nonce,
            amount,
            from,
        ));
        let payload = types::encode_context("to", to, nonce, copy, from);
        let hook = MessageEventHookInvocation::new(owned(CONSENSUS_TRANSFER_HANDLER), payload);
        let ghost sent = hook;
        let result = Consensus::transfer(ctx, to, &amount, hook);
        let ghost inner = result;
        let r = match result {
            Ok(()) => Ok(()),
            Err(e) => Err(Error::Consensus(e)),
        };
        assert(escrowed == old(ctx).snapshot().with_state(escrowed.state));
        assert(is_requested(
            old(ctx).snapshot().with_state(escrowed.state),
            ctx.snapshot(),
            Self::consensus_denomination(),
            Self::consensus_scaling_factor(),
            amount@,
            consensus::Request::Transfer { to },
            CONSENSUS_TRANSFER_HANDLER@,
            types::context_view("to", to, nonce, amount, from),
            r,
            sent,
            inner,
        ));
        r
    }
}

/// What handling the result of a message leaves in the context: where
/// the ledger follows, its new state and the tag of the event, if the
/// event has an encoding; where the ledger does not follow, nothing.
pub open spec fn is_settled(
    before: ContextView,
    after: ContextView,
    change: Result<Map<Seq<u8>, Seq<u8>>, accounts::Error>,
    code: u32,
    event: ItemView,
    settled: bool,
) -> bool {
    match change {
        Err(_) => !settled && after == before,
        Ok(state) => settled && match stored_form(event) {
            Some(bytes) => exists|tag: crate::context::Tag|
                tag.key@ == tag_key(MODULE_NAME.spec_bytes(), code) && tag.value@ == bytes
                    && #[trigger] after.tags == before.tags.push(tag) && after == (ContextView {
                    state,
                    tags: after.tags,
                    ..before
                }),
            None => after == before.with_state(state),
        },
    }
}

/// How the result of a transfer out of the runtime is settled, with the
/// context that the result carries: where the consensus layer carried
/// the transfer out, the tokens that were set aside are burnt; where it
/// did not, they go back to the account that they came from.
pub open spec fn is_transfer_settlement(
    before: ContextView,
    result: MessageResult,
    context: types::ConsensusTransferContext,
    error: Option<types::ConsensusError>,
    settled: bool,
    after: ContextView,
) -> bool {
    &&& context.encoded() == result.context@
    &&& reported_error(result.event, error)
    &&& is_settled(
        before,
        after,
        if result.event.code == 0 {
            accounts::burnt(before.state, pending_withdrawal(), context.amount@)
        } else {
            accounts::transferred(
                before.state,
                pending_withdrawal(),
                context.address.0@,
                context.amount@,
            )
        },
        2,
        event_view(context.address, context.nonce, context.to, context.amount, error),
        settled,
    )
}

/// How the result of a withdrawal into the runtime is settled, with the
/// context that the result carries: where the consensus layer carried
/// the withdrawal out, the tokens are minted to the account that
/// deposits; where it did not, the ledger stays as it is.
pub open spec fn is_withdraw_settlement(
    before: ContextView,
    result: MessageResult,
    context: types::ConsensusWithdrawContext,
    error: Option<types::ConsensusError>,
    settled: bool,
    after: ContextView,
) -> bool {
    &&& context.encoded() == result.context@
    &&& reported_error(result.event, error)
    &&& is_settled(
        before,
        after,
        if result.event.code == 0 {
            accounts::minted(before.state, context.address.0@, context.amount@)
        } else {
            Ok::<Map<Seq<u8>, Seq<u8>>, accounts::Error>(before.state)
        },
        1,
        event_view(context.from, context.nonce, context.address, context.amount, error),
        settled,
    )
}

/// The answer to a query for a balance: the argument is what the query
/// decodes to, and the balance is the one that the ledger holds for the
/// account in the consensus denomination.
pub open spec fn is_balance_answer(
    before: ContextView,
    args: ItemView,
    query: types::BalanceQuery,
    out: Result<types::AccountBalance, Error>,
    r: Result<Item, RuntimeError>,
    denomination: Seq<u8>,
) -> bool {
    &&& query.encoded() == args
    &&& out matches Ok(found)
    &&& found.balance == accounts::balance(before.state, query.address.0@, denomination)
    &&& module::is_answer_of(out, r)
}

/// The answer to a query for an account of the consensus layer: the
/// argument is what the query decodes to, and the account is the one
/// that the host reported, an invalid argument where it reported none.
pub open spec fn is_account_answer(
    before: ContextView,
    args: ItemView,
    query: types::ConsensusAccountQuery,
    out: Result<crate::context::ConsensusAccount, Error>,
    r: Result<Item, RuntimeError>,
) -> bool {
    &&& query.encoded() == args
    &&& match crate::context::reported_account(before.host.consensus_accounts@, query.address) {
        Some(account) => out == Ok::<crate::context::ConsensusAccount, Error>(account),
        None => out matches Err(Error::InvalidArgument),
    }
    &&& module::is_answer_of(out, r)
}

/// The error that an event carries for the result of a message.
pub open spec fn reported_error(me: MessageEvent, error: Option<types::ConsensusError>) -> bool {
    if me.code == 0 {
        error is None
    } else {
        error matches Some(e) && e.module == me.module && e.code == me.code
    }
}

/// What the runtime must hold in the consensus layer: the total supply
/// of the consensus denomination in the runtime is covered by the
/// general balance of the runtime's account. `None` where it does, else
/// what is wrong.
pub open spec fn invariant_violation(
    view: ContextView,
    denomination: Seq<u8>,
    factor: u64,
) -> Option<Seq<char>> {
    let balance = match crate::context::reported_account(
        view.host.consensus_accounts@,
        view.host.runtime_address,
    ) {
        Some(account) => account.general_balance,
        None => 0,
    };
    match consensus::from_consensus(balance, factor) {
        None => Some("runtime's consensus balance is not representable"@),
        Some(covered) => if view.state.contains_key(accounts::supply_key(denomination))
            && accounts::total_supply(view.state, denomination) > covered {
            Some("total supply is greater than runtime's general account balance"@)
        } else {
            None
        },
    }
}

impl<Accounts: accounts::API, Consensus: consensus::API> Module<Accounts, Consensus> {
    /// Deposit in the runtime.
    fn tx_deposit<C: TxContext>(ctx: &mut C, body: types::Deposit) -> (r: Result<(), Error>)
        ensures
            exists|stored: Option<Parameters>| #[trigger]
                crate::storage::typed::is_typed_read(
                    old(ctx).snapshot().state,
                    module::parameters_key(MODULE_NAME.spec_bytes()),
                    stored,
                ) && is_tx_deposit(
                    old(ctx).snapshot(),
                    final(ctx).snapshot(),
                    Consensus::denomination(),
                    Consensus::scaling_factor(),
                    deposit_cost(stored),
                    body,
                    r,
                ),
    {
        let params = Self::params(&*ctx);
        let ghost stored = choose|stored: Option<Parameters>| #[trigger]
            crate::storage::typed::is_typed_read(
                ctx.snapshot().state,
                module::parameters_key(MODULE_NAME.spec_bytes()),
                stored,
            ) && match stored {
                Some(p) => p == params,
                None => module::Parameters::is_default(&params),
            };
        assert(deposit_cost(stored) == params.gas_costs.tx_deposit);
        match core_module::Module::use_tx_gas(ctx, params.gas_costs.tx_deposit) {
            Ok(()) => {},
            Err(e) => {
                return Err(Error::Core(e));
            },
        }
        if ctx.tx_auth_info().signer_info.len() == 0 {
            return Err(Error::InvalidArgument);
        }
        let signer = ctx.tx_auth_info().signer_info[0];
        match Consensus::ensure_compatible_tx_signer(&*ctx) {
            Ok(()) => {},
            Err(e) => {
                return Err(Error::Consensus(e));
            },
        }
        let address = signer.address_spec.address();
        let nonce = signer.nonce;
        let to = match body.to {
            Some(to) => to,
            None => address,
        };
        Self::deposit(ctx, address, nonce, to, body.amount)
    }

    /// Withdraw from the runtime.
    fn tx_withdraw<C: TxContext>(ctx: &mut C, body: types::Withdraw) -> (r: Result<(), Error>)
        ensures
            exists|stored: Option<Parameters>| #[trigger]
                crate::storage::typed::is_typed_read(
                    old(ctx).snapshot().state,
                    module::parameters_key(MODULE_NAME.spec_bytes()),
                    stored,
                ) && is_tx_withdraw(
                    old(ctx).snapshot(),
                    final(ctx).snapshot(),
                    Consensus::denomination(),
                    Consensus::scaling_factor(),
                    withdraw_cost(stored),
                    body,
                    r,
                ),
    {
        let params = Self::params(&*ctx);
        let ghost stored = choose|stored: Option<Parameters>| #[trigger]
            crate::storage::typed::is_typed_read(
                ctx.snapshot().state,
                module::parameters_key(MODULE_NAME.spec_bytes()),
                stored,
            ) && match stored {
                Some(p) => p == params,
                None => module::Parameters::is_default(&params),
            };
        assert(withdraw_cost(stored) == params.gas_costs.tx_withdraw);
        match core_module::Module::use_tx_gas(ctx, params.gas_costs.tx_withdraw) {
            Ok(()) => {},
            Err(e) => {
                return Err(Error::Core(e));
            },
        }
        // Signer.
        if ctx.tx_auth_info().signer_info.len() == 0 {
            return Err(Error::InvalidArgument);
        }
        let signer = ctx.tx_auth_info().signer_info[0];
        if body.to.is_none() {
            // If no `to` field is specified, i.e. withdrawing to the
            // transaction sender's account, only allow the
            // consensus-compatible single-Ed25519-key signer type.
            // Otherwise, the tokens would get stuck in an account that
            // you can't sign for on the consensus layer.
            match Consensus::ensure_compatible_tx_signer(&*ctx) {
                Ok(()) => {},
                Err(e) => {
                    return Err(Error::Consensus(e));
                },
            }
        }
        let address = signer.address_spec.address();
        let nonce = signer.nonce;
        let to = match body.to {
            Some(to) => to,
            None => address,
        };
        Self::withdraw(ctx, address, nonce, to, body.amount)
    }

    /// The balance of an account in the consensus denomination.
    fn query_balance<C: Context>(ctx: &mut C, args: types::BalanceQuery) -> (r: Result<
        types::AccountBalance,
        Error,
    >)
        ensures
            final(ctx).snapshot() == old(ctx).snapshot(),
            r matches Ok(found) && found.balance == accounts::balance(
                old(ctx).snapshot().state,
                args.address.0@,
                Consensus::denomination(),
            ),
    {
        let denomination = match Consensus::consensus_denomination(&*ctx) {
            Ok(denomination) => denomination,
            Err(e) => {
                return Err(Error::Consensus(e));
            },
        };
        let balance = Accounts::get_balance(&*ctx, args.address, &denomination);
        Ok(types::AccountBalance { balance })
    }

    /// What the host reported of an account at the consensus layer.
    fn query_consensus_account<C: Context>(ctx: &mut C, args: types::ConsensusAccountQuery) -> (r:
        Result<crate::context::ConsensusAccount, Error>)
        ensures
            final(ctx).snapshot() == old(ctx).snapshot(),
            match crate::context::reported_account(
                old(ctx).snapshot().host.consensus_accounts@,
                args.address,
            ) {
                Some(account) => r == Ok::<crate::context::ConsensusAccount, Error>(account),
                None => r matches Err(Error::InvalidArgument),
            },
    {
        match Consensus::account(&*ctx, args.address) {
            Ok(account) => Ok(account),
            Err(_) => Err(Error::InvalidArgument),
        }
    }

    /// Handles the result of a transfer out of the runtime. Where the
    /// consensus layer carried the transfer out, the tokens that were set
    /// aside are burnt; where it did not, they go back to the account
    /// that they came from. Either way an event says so. Returns whether
    /// the ledger followed.
    pub fn message_result_transfer<C: Context>(
        ctx: &mut C,
        me: MessageEvent,
        context: types::ConsensusTransferContext,
    ) -> (settled: bool)
        ensures
            exists|error: Option<types::ConsensusError>| #[trigger]
                reported_error(me, error) && is_settled(
                    old(ctx).snapshot(),
                    final(ctx).snapshot(),
                    if me.code == 0 {
                        accounts::burnt(
                            old(ctx).snapshot().state,
                            pending_withdrawal(),
                            context.amount@,
                        )
                    } else {
                        accounts::transferred(
                            old(ctx).snapshot().state,
                            pending_withdrawal(),
                            context.address.0@,
                            context.amount@,
                        )
                    },
                    2,
                    event_view(context.address, context.nonce, context.to, context.amount, error),
                    settled,
                ),
    {
        let ghost before = ctx.snapshot();
        if !me.is_success() {
            // Transfer out failed, refund the balance.
            match Accounts::transfer(
                ctx,
                address_pending_withdrawal(),
                context.address,
                &context.amount,
            ) {
                Ok(()) => {},
                Err(_) => {
                    assert(reported_error(me, Some(types::ConsensusError { module: me.module, code: me.code })));
                    return false;
                },
            }
            // Emit withdraw failed event.
            let error = Some(types::ConsensusError::from_event(me));
            assert(reported_error(me, error));
            let event = Event::Withdraw {
                from: context.address,
                nonce: context.nonce,
                to: context.to,
                amount: context.amount,
                error,
            };
            event::emit_event(ctx, event);
            proof {
                lemma_settled(before, ctx.snapshot());
            }
            return true;
        }
        // Burn the withdrawn tokens.
        match Accounts::burn(ctx, address_pending_withdrawal(), &context.amount) {
            Ok(()) => {},
            Err(_) => {
                assert(reported_error(me, None));
                return false;
            },
        }
        // Emit withdraw successful event.
        assert(reported_error(me, None));
        let event = Event::Withdraw {
            from: context.address,
            nonce: context.nonce,
            to: context.to,
            amount: context.amount,
            error: None,
        };
        event::emit_event(ctx, event);
        proof {
            lemma_settled(before, ctx.snapshot());
        }
        true
    }

    /// Handles the result of a withdrawal into the runtime. Where the
    /// consensus layer carried the withdrawal out, the tokens are minted
    /// to the account that deposits; where it did not, nothing changes.
    /// Either way an event says so. Returns whether the ledger followed.
    pub fn message_result_withdraw<C: Context>(
        ctx: &mut C,
        me: MessageEvent,
        context: types::ConsensusWithdrawContext,
    ) -> (settled: bool)
        ensures
            exists|error: Option<types::ConsensusError>| #[trigger]
                reported_error(me, error) && is_settled(
                    old(ctx).snapshot(),
                    final(ctx).snapshot(),
                    if me.code == 0 {
                        accounts::minted(
                            old(ctx).snapshot().state,
                            context.address.0@,
                            context.amount@,
                        )
                    } else {
                        Ok::<Map<Seq<u8>, Seq<u8>>, accounts::Error>(old(ctx).snapshot().state)
                    },
                    1,
                    event_view(context.from, context.nonce, context.address, context.amount, error),
                    settled,
                ),
    {
        let ghost before = ctx.snapshot();
        if !me.is_success() {
            // Transfer in failed, emit deposit failed event.
            let error = Some(types::ConsensusError::from_event(me));
            assert(reported_error(me, error));
            let event = Event::Deposit {
                from: context.from,
                nonce: context.nonce,
                to: context.address,
                amount: context.amount,
                error,
            };
            event::emit_event(ctx, event);
            proof {
                assert(before.with_state(before.state) == before);
                lemma_settled(before, ctx.snapshot());
            }
            return true;
        }
        // Update runtime state.
        match Accounts::mint(ctx, context.address, &context.amount) {
            Ok(()) => {},
            Err(_) => {
                assert(reported_error(me, None));
                return false;
            },
        }
        // Emit deposit successful event.
        assert(reported_error(me, None));
        let event = Event::Deposit {
            from: context.from,
            nonce: context.nonce,
            to: context.address,
            amount: context.amount,
            error: None,
        };
        event::emit_event(ctx, event);
        proof {
            lemma_settled(before, ctx.snapshot());
        }
        true
    }
}

/// A context that has only gained tags is the context with its tags.
proof fn lemma_settled(before: ContextView, after: ContextView)
    ensures
        after == (ContextView { state: after.state, tags: after.tags, ..before }) <==> after == (
        ContextView { tags: after.tags, ..before.with_state(after.state) }),
{
}

/// The version of the state of the module.
pub const VERSION: u32 = 1;

impl<Accounts: accounts::API, Consensus: consensus::API> module::Module for Module<
    Accounts,
    Consensus,
> {
    type Parameters = Parameters;

    open spec fn name_spec() -> Seq<u8> {
        MODULE_NAME.spec_bytes()
    }

    fn name() -> (name: &'static str) {
        MODULE_NAME
    }

    open spec fn version_spec() -> u32 {
        VERSION
    }

    fn version() -> (version: u32) {
        VERSION
    }
}

/// The storage prefix of the balances of an account.
pub open spec fn balances_prefix(address: Seq<u8>) -> Seq<u8> {
    accounts::MODULE_NAME.spec_bytes() + accounts::BALANCES@ + address
}

/// Adds a prefix to a list of prefixes, unless the list holds it.
pub fn insert_prefix(prefixes: &mut Vec<Vec<u8>>, prefix: Vec<u8>)
    ensures
        module::prefix_set(final(prefixes)@) == module::prefix_set(old(prefixes)@).insert(
            prefix@,
        ),
        module::prefix_set(old(prefixes)@).contains(prefix@) ==> final(prefixes)@ == old(prefixes)@,
        module::are_distinct_prefixes(old(prefixes)@) ==> module::are_distinct_prefixes(
            final(prefixes)@,
        ),
{
    let mut i: usize = 0;
    while i < prefixes.len()
        invariant
            i <= prefixes.len(),
            *prefixes == *old(prefixes),
            forall|j: int| 0 <= j < i ==> prefixes@[j]@ != prefix@,
        decreases prefixes.len() - i,
    {
        if bytes_eq(prefixes[i].as_slice(), prefix.as_slice()) {
            assert(module::prefix_set(prefixes@).contains(prefix@));
            assert(module::prefix_set(prefixes@) =~= module::prefix_set(prefixes@).insert(
                prefix@,
            ));
            return ;
        }
        i += 1;
    }
    let ghost before = prefixes@;
    prefixes.push(prefix);
    assert forall|p: Seq<u8>|
        module::prefix_set(prefixes@).contains(p) <==> module::prefix_set(before).insert(
            prefix@,
        ).contains(p) by {
        if module::prefix_set(prefixes@).contains(p) {
            let j = choose|j: int| 0 <= j < prefixes@.len() && prefixes@[j]@ == p;
            if j < before.len() {
                assert(before[j]@ == p);
            }
        }
        if module::prefix_set(before).contains(p) {
            let j = choose|j: int| 0 <= j < before.len() && before[j]@ == p;
            assert(prefixes@[j]@ == p);
        }
        if p == prefix@ {
            assert(prefixes@[before.len() as int]@ == p);
        }
    }
    assert(module::prefix_set(prefixes@) =~= module::prefix_set(before).insert(prefix@));
}

/// Module methods.
impl<Accounts: accounts::API, Consensus: consensus::API> module::MethodHandler for Module<
    Accounts,
    Consensus,
> {
    open spec fn prefetches(method: Seq<char>) -> bool {
        method == "consensus.Deposit"@ || method == "consensus.Withdraw"@
    }

    open spec fn handles_call(method: Seq<char>) -> bool {
        method == "consensus.Deposit"@ || method == "consensus.Withdraw"@
    }

    open spec fn handles_query(method: Seq<char>) -> bool {
        method == "consensus.Balance"@ || method == "consensus.Account"@
    }

    open spec fn handles_message_result(handler_name: Seq<char>) -> bool {
        handler_name == CONSENSUS_TRANSFER_HANDLER@ || handler_name
            == CONSENSUS_WITHDRAW_HANDLER@
    }

    /// A deposit has nothing to fetch ahead. A withdrawal has the
    /// balances of the account that withdraws, which is the first signer;
    /// without a signer it is turned down, and the list is as it was.
    open spec fn prefetched(
        method: Seq<char>,
        body: ItemView,
        auth_info: AuthInfo,
        before: Vec<Vec<u8>>,
        after: Vec<Vec<u8>>,
        r: Result<(), RuntimeError>,
    ) -> bool {
        if method == "consensus.Deposit"@ {
            r is Ok && after == before
        } else if auth_info.signer_info@.len() > 0 {
            &&& r is Ok
            &&& module::prefix_set(after@) == module::prefix_set(before@).insert(
                balances_prefix(auth_info.signer_info@[0].address_spec.address.0@),
            )
        } else {
            &&& r matches Err(e)
            &&& e.module@ == MODULE_NAME@
            &&& e.code == 1
            &&& after == before
        }
    }

    /// A query leaves the context as it was. One whose argument does not
    /// decode is turned down as one with an invalid argument; else the
    /// answer is what the query returns for the argument.
    open spec fn answered(
        before: ContextView,
        method: Seq<char>,
        args: ItemView,
        after: ContextView,
        r: Result<Item, RuntimeError>,
    ) -> bool {
        &&& after == before
        &&& if method == "consensus.Balance"@ {
            if forall|query: types::BalanceQuery| query.encoded() != args {
                module::is_undecoded_query(r)
            } else {
                exists|query: types::BalanceQuery, out: Result<types::AccountBalance, Error>| #[trigger]
                    is_balance_answer(before, args, query, out, r, Consensus::denomination())
            }
        } else {
            if forall|query: types::ConsensusAccountQuery| query.encoded() != args {
                module::is_undecoded_query(r)
            } else {
                exists|
                    query: types::ConsensusAccountQuery,
                    out: Result<crate::context::ConsensusAccount, Error>,
                | #[trigger] is_account_answer(before, args, query, out, r)
            }
        }
    }

    /// A result whose context is none that this module wrote is left
    /// alone, and nothing changes. Else the ledger follows what the
    /// consensus layer reports of the message; where the ledger cannot
    /// follow, nothing changes either.
    open spec fn message_handled(
        before: ContextView,
        handler_name: Seq<char>,
        result: MessageResult,
        after: ContextView,
    ) -> bool {
        if handler_name == CONSENSUS_TRANSFER_HANDLER@ {
            if forall|context: types::ConsensusTransferContext|
                context.encoded() != result.context@ {
                after == before
            } else {
                exists|
                    context: types::ConsensusTransferContext,
                    error: Option<types::ConsensusError>,
                    settled: bool,
                | #[trigger] is_transfer_settlement(before, result, context, error, settled, after)
            }
        } else {
            if forall|context: types::ConsensusWithdrawContext|
                context.encoded() != result.context@ {
                after == before
            } else {
                exists|
                    context: types::ConsensusWithdrawContext,
                    error: Option<types::ConsensusError>,
                    settled: bool,
                | #[trigger] is_withdraw_settlement(before, result, context, error, settled, after)
            }
        }
    }

    /// A call whose argument does not decode fails as one with an invalid
    /// argument, and nothing is done. Else the deposit or the withdrawal
    /// is made with the argument, and what it returns is the result.
    open spec fn called(
        before: ContextView,
        method: Seq<char>,
        body: ItemView,
        after: ContextView,
        r: CallResult,
    ) -> bool {
        if method == "consensus.Deposit"@ {
            if forall|args: types::Deposit| args.encoded() != body {
                after == before && module::is_undecoded_call(r)
            } else {
                exists|args: types::Deposit, stored: Option<Parameters>, out: Result<(), Error>| #[trigger]
                    is_deposit_call(
                        before,
                        body,
                        args,
                        stored,
                        out,
                        after,
                        r,
                        Consensus::denomination(),
                        Consensus::scaling_factor(),
                    )
            }
        } else {
            if forall|args: types::Withdraw| args.encoded() != body {
                after == before && module::is_undecoded_call(r)
            } else {
                exists|args: types::Withdraw, stored: Option<Parameters>, out: Result<(), Error>| #[trigger]
                    is_withdraw_call(
                        before,
                        body,
                        args,
                        stored,
                        out,
                        after,
                        r,
                        Consensus::denomination(),
                        Consensus::scaling_factor(),
                    )
            }
        }
    }

    fn prefetch(prefixes: &mut Vec<Vec<u8>>, method: &str, body: Item, auth_info: &AuthInfo) -> (r:
        DispatchResult<Item, Result<(), RuntimeError>>)
    {
        proof {
            reveal_strlit("consensus.Deposit");
            reveal_strlit("consensus.Withdraw");
            assert("consensus.Deposit"@.len() == 17);
            assert("consensus.Withdraw"@.len() == 18);
        }
        if str_eq(method, "consensus.Deposit") {
            // Nothing to prefetch.
            DispatchResult::Handled(Ok(()))
        } else if str_eq(method, "consensus.Withdraw") {
            // Prefetch withdrawing account balance.
            if auth_info.signer_info.len() == 0 {
                return DispatchResult::Handled(Err(Error::InvalidArgument.into_runtime_error()));
            }
            let addr = auth_info.signer_info[0].address_spec.address();
            let head = concat(accounts::MODULE_NAME.as_bytes(), accounts::BALANCES.as_slice());
            let prefix = concat(head.as_slice(), addr.0.as_slice());
            assert(prefix@ =~= balances_prefix(addr.0@));
            insert_prefix(prefixes, prefix);
            assert(module::prefix_set(prefixes@) == module::prefix_set(old(prefixes)@).insert(
                balances_prefix(auth_info.signer_info@[0].address_spec.address.0@),
            ));

            DispatchResult::Handled(Ok(()))
        } else {
            DispatchResult::Unhandled(body)
        }
    }

    fn dispatch_call<C: TxContext>(ctx: &mut C, method: &str, body: Item) -> (r: DispatchResult<
        Item,
        CallResult,
    >) {
        proof {
            reveal_strlit("consensus.Deposit");
            reveal_strlit("consensus.Withdraw");
            assert("consensus.Deposit"@.len() == 17);
            assert("consensus.Withdraw"@.len() == 18);
        }
        if str_eq(method, "consensus.Deposit") {
            let ghost sent = body@;
            let args: types::Deposit = match types::Deposit::try_from_cbor_value(body) {
                Ok(args) => args,
                Err(err) => {
                    return DispatchResult::Handled(
                        module::invalid_argument(err).into_call_result(),
                    );
                },
            };
            let out = Self::tx_deposit(ctx, args);
            let r = module::call_result_of(out);
            proof {
                let stored = choose|stored: Option<Parameters>| #[trigger]
                    crate::storage::typed::is_typed_read(
                        old(ctx).snapshot().state,
                        module::parameters_key(MODULE_NAME.spec_bytes()),
                        stored,
                    ) && is_tx_deposit(
                        old(ctx).snapshot(),
                        ctx.snapshot(),
                        Consensus::denomination(),
                        Consensus::scaling_factor(),
                        deposit_cost(stored),
                        args,
                        out,
                    );
                assert(is_deposit_call(
                    old(ctx).snapshot(),
                    sent,
                    args,
                    stored,
                    out,
                    ctx.snapshot(),
                    r,
                    Consensus::denomination(),
                    Consensus::scaling_factor(),
                ));
            }
            DispatchResult::Handled(r)
        } else if str_eq(method, "consensus.Withdraw") {
            let ghost sent = body@;
            let args: types::Withdraw = match types::Withdraw::try_from_cbor_value(body) {
                Ok(args) => args,
                Err(err) => {
                    return DispatchResult::Handled(
                        module::invalid_argument(err).into_call_result(),
                    );
                },
            };
            let out = Self::tx_withdraw(ctx, args);
            let r = module::call_result_of(out);
            proof {
                let stored = choose|stored: Option<Parameters>| #[trigger]
                    crate::storage::typed::is_typed_read(
                        old(ctx).snapshot().state,
                        module::parameters_key(MODULE_NAME.spec_bytes()),
                        stored,
                    ) && is_tx_withdraw(
                        old(ctx).snapshot(),
                        ctx.snapshot(),
                        Consensus::denomination(),
                        Consensus::scaling_factor(),
                        withdraw_cost(stored),
                        args,
                        out,
                    );
                assert(is_withdraw_call(
                    old(ctx).snapshot(),
                    sent,
                    args,
                    stored,
                    out,
                    ctx.snapshot(),
                    r,
                    Consensus::denomination(),
                    Consensus::scaling_factor(),
                ));
            }
            DispatchResult::Handled(r)
        } else {
            DispatchResult::Unhandled(body)
        }
    }

    fn dispatch_query<C: Context>(ctx: &mut C, method: &str, args: Item) -> (r: DispatchResult<
        Item,
        Result<Item, RuntimeError>,
    >) {
        proof {
            reveal_strlit("consensus.Balance");
            reveal_strlit("consensus.Account");
            assert("consensus.Balance"@.len() == 17);
            assert("consensus.Account"@.len() == 17);
            assert("consensus.Balance"@[10] != "consensus.Account"@[10]);
        }
        if str_eq(method, "consensus.Balance") {
            let ghost asked = args@;
            let query: types::BalanceQuery = match types::BalanceQuery::try_from_cbor_value(args) {
                Ok(query) => query,
                Err(err) => {
                    return DispatchResult::Handled(
                        Err(module::invalid_argument(err).into_runtime_error()),
                    );
                },
            };
            let out = Self::query_balance(ctx, query);
            let r = module::answer_of(out);
            assert(is_balance_answer(
                old(ctx).snapshot(),
                asked,
                query,
                out,
                r,
                Consensus::denomination(),
            ));
            DispatchResult::Handled(r)
        } else if str_eq(method, "consensus.Account") {
            let ghost asked = args@;
            let query: types::ConsensusAccountQuery =
                match types::ConsensusAccountQuery::try_from_cbor_value(args) {
                Ok(query) => query,
                Err(err) => {
                    return DispatchResult::Handled(
                        Err(module::invalid_argument(err).into_runtime_error()),
                    );
                },
            };
            let out = Self::query_consensus_account(ctx, query);
            let r = module::answer_of(out);
            assert(is_account_answer(old(ctx).snapshot(), asked, query, out, r));
            DispatchResult::Handled(r)
        } else {
            DispatchResult::Unhandled(args)
        }
    }

    fn dispatch_message_result<C: Context>(
        ctx: &mut C,
        handler_name: &str,
        result: MessageResult,
    ) -> (r: DispatchResult<MessageResult, ()>) {
        proof {
            reveal_strlit("consensus.TransferFromRuntime");
            reveal_strlit("consensus.WithdrawIntoRuntime");
            assert(CONSENSUS_TRANSFER_HANDLER@[10] != CONSENSUS_WITHDRAW_HANDLER@[10]);
        }
        if str_eq(handler_name, CONSENSUS_TRANSFER_HANDLER) {
            // A context that this module did not write is left alone.
            let ghost given = result;
            match types::ConsensusTransferContext::try_from_cbor_value(result.context) {
                Ok(context) => {
                    let settled = Self::message_result_transfer(ctx, result.event, context);
                    proof {
                        let error = choose|error: Option<types::ConsensusError>| #[trigger]
                            reported_error(given.event, error) && is_transfer_settlement(
                                old(ctx).snapshot(),
                                given,
                                context,
                                error,
                                settled,
                                ctx.snapshot(),
                            );
                        assert(is_transfer_settlement(
                            old(ctx).snapshot(),
                            given,
                            context,
                            error,
                            settled,
                            ctx.snapshot(),
                        ));
                    }
                },
                Err(_) => {},
            }
            DispatchResult::Handled(())
        } else if str_eq(handler_name, CONSENSUS_WITHDRAW_HANDLER) {
            let ghost given = result;
            match types::ConsensusWithdrawContext::try_from_cbor_value(result.context) {
                Ok(context) => {
                    let settled = Self::message_result_withdraw(ctx, result.event, context);
                    proof {
                        let error = choose|error: Option<types::ConsensusError>| #[trigger]
                            reported_error(given.event, error) && is_withdraw_settlement(
                                old(ctx).snapshot(),
                                given,
                                context,
                                error,
                                settled,
                                ctx.snapshot(),
                            );
                        assert(is_withdraw_settlement(
                            old(ctx).snapshot(),
                            given,
                            context,
                            error,
                            settled,
                            ctx.snapshot(),
                        ));
                    }
                },
                Err(_) => {},
            }
            DispatchResult::Handled(())
        } else {
            DispatchResult::Unhandled(result)
        }
    }
}

impl<Accounts: accounts::API, Consensus: consensus::API> module::MigrationHandler for Module<
    Accounts,
    Consensus,
> {
    type Genesis = Genesis;

    /// A state without a version of this module is initialised from the
    /// genesis: the parameters are stored, where they have an encoding,
    /// and the version is recorded in the metadata. Any other state is
    /// left as it is: migrations are not supported.
    open spec fn migrates(
        before: ContextView,
        meta: Metadata,
        genesis: Genesis,
        after: ContextView,
        meta_after: Metadata,
        changed: bool,
    ) -> bool {
        &&& changed == (Metadata::recorded(meta.versions@, MODULE_NAME@) is None
            || Metadata::recorded(meta.versions@, MODULE_NAME@) == Some(0u32))
        &&& if changed {
            &&& after == match stored_form(genesis.parameters.encoded()) {
                Some(bytes) => before.with_state(
                    before.state.insert(module::parameters_key(MODULE_NAME.spec_bytes()), bytes),
                ),
                None => before,
            }
            &&& Metadata::is_recorded_in(
                meta.versions@,
                MODULE_NAME@,
                VERSION,
                meta_after.versions@,
            )
            &&& Metadata::recorded(meta_after.versions@, MODULE_NAME@) == Some(VERSION)
            &&& meta.is_well_formed() ==> meta_after.is_well_formed()
        } else {
            after == before && meta_after == meta
        }
    }

    fn init_or_migrate<C: Context>(ctx: &mut C, meta: &mut Metadata, genesis: Self::Genesis) -> (changed:
        bool)
        ensures
            Self::migrates(
                old(ctx).snapshot(),
                *old(meta),
                genesis,
                final(ctx).snapshot(),
                *final(meta),
                changed,
            ),
    {
        let version = match meta.get(MODULE_NAME) {
            Some(version) => version,
            None => 0,
        };
        if version == 0 {
            // Initialize state from genesis.
            // Set genesis parameters.
            Self::set_params(ctx, genesis.parameters);
            meta.insert(owned(MODULE_NAME), VERSION);
            return true;
        }
        // Migrations are not supported.
        false
    }
}

impl<Accounts: accounts::API, Consensus: consensus::API> module::AuthHandler for Module<
    Accounts,
    Consensus,
> {
    open spec fn decodes_scheme(scheme: Seq<char>) -> bool {
        false
    }

    open spec fn decoded(
        before: ContextView,
        scheme: Seq<char>,
        body: Seq<u8>,
        after: ContextView,
        r: Result<Option<Transaction>, core_module::Error>,
    ) -> bool {
        after == before && r matches Ok(None)
    }

    fn approve_unverified_tx<C: Context>(ctx: &mut C, utx: &UnverifiedTransaction) -> (r: Result<
        (),
        core_module::Error,
    >) {
        Ok(())
    }

    fn decode_tx<C: Context>(ctx: &mut C, scheme: &str, body: &[u8]) -> (r: Result<
        Option<Transaction>,
        core_module::Error,
    >) {
        Ok(None)
    }

    fn authenticate_tx<C: Context>(ctx: &mut C, tx: &Transaction) -> (r: Result<
        (),
        core_module::Error,
    >) {
        Ok(())
    }

    fn before_handle_call<C: TxContext>(ctx: &mut C, call: &Call) -> (r: Result<
        (),
        core_module::Error,
    >) {
        Ok(())
    }
}

impl<Accounts: accounts::API, Consensus: consensus::API> module::BlockHandler for Module<
    Accounts,
    Consensus,
> {
    fn begin_block<C: Context>(ctx: &mut C) {
    }

    fn end_block<C: Context>(ctx: &mut C) {
    }

    fn get_block_weight_limits<C: Context>(ctx: &mut C) -> (weights: Weights) {
        Weights::new()
    }
}

impl<Accounts: accounts::API, Consensus: consensus::API> module::InvariantHandler for Module<
    Accounts,
    Consensus,
> {
    /// The context is left as it is, and the result says whether the
    /// total supply is covered.
    open spec fn checks(
        before: ContextView,
        after: ContextView,
        r: Result<(), core_module::Error>,
    ) -> bool {
        &&& after == before
        &&& match invariant_violation(
            before,
            Consensus::denomination(),
            Consensus::scaling_factor(),
        ) {
            None => r is Ok,
            Some(cause) => r matches Err(core_module::Error::InvariantViolation(text)) && text@
                == cause,
        }
    }

    /// Check invariants.
    ///
    /// Total supply of the designated consensus layer token denomination
    /// should be less than or equal to the balance of the runtime's
    /// general account in the consensus layer.
    fn check_invariants<C: Context>(ctx: &mut C) -> (r: Result<(), core_module::Error>)
        ensures
            Self::checks(old(ctx).snapshot(), final(ctx).snapshot(), r),
    {
        let den = match Consensus::consensus_denomination(&*ctx) {
            Ok(den) => den,
            Err(_) => {
                return Ok(());
            },
        };
        let ts = Accounts::get_total_supply(&*ctx, &den);
        let rt_addr = ctx.runtime_address();
        let rt_ga_balance: u128 = match Consensus::account(&*ctx, rt_addr) {
            Ok(account) => account.general_balance,
            Err(_) => 0,
        };
        let rt_ga_balance = match Consensus::amount_from_consensus(&*ctx, rt_ga_balance) {
            Ok(balance) => balance,
            Err(_) => {
                return Err(
                    core_module::Error::InvariantViolation(
                        owned("runtime's consensus balance is not representable"),
                    ),
                );
            },
        };
        match ts {
            Some(total_supply) => {
                if total_supply <= rt_ga_balance {
                    Ok(())
                } else {
                    Err(
                        core_module::Error::InvariantViolation(
                            owned("total supply is greater than runtime's general account balance"),
                        ),
                    )
                }
            },
            // Having no total supply also satisfies above invariant.
            None => Ok(()),
        }
    }
}

} // verus!
