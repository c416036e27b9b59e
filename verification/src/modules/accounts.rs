//! The accounts module: the ledger of the runtime.
//!
//! Balances and total supplies are kept in the runtime state. A balance
//! lives under the module's name, the balances tag, the address and the
//! denomination; a total supply under the module's name, the supplies
//! tag and the denomination. An amount is stored as 16 bytes, least
//! significant first; a key that is absent stands for 0.

use vstd::bytes::{
    lemma_auto_spec_u128_to_from_le_bytes, spec_u128_from_le_bytes, spec_u128_to_le_bytes,
    u128_from_le_bytes, u128_to_le_bytes,
};
use vstd::prelude::*;
use vstd::string::StringSliceAdditionalSpecFns;
use crate::context::{Context, ContextView};
use crate::dispatcher;
use crate::error;
use crate::storage::concat;
use crate::text::owned;
use crate::types::address::Address;
use crate::types::token::{BaseUnits, Denomination};

verus! {

/// Unique module name.
pub const MODULE_NAME: &'static str = "accounts";

/// State tag of the balances.
pub const BALANCES: [u8; 1] = [0x02];

/// State tag of the total supplies.
pub const TOTAL_SUPPLY: [u8; 1] = [0x03];

/// Errors emitted by the accounts module.
#[derive(PartialEq, Eq, Structural, Clone, Copy, Debug)]
pub enum Error {
    InvalidArgument,
    InsufficientBalance,
    Forbidden,
    NotFound,
}

impl error::Error for Error {
    open spec fn module_name_spec(&self) -> Seq<char> {
        MODULE_NAME@
    }

    open spec fn code_spec(&self) -> u32 {
        match self {
            Error::InvalidArgument => 1,
            Error::InsufficientBalance => 2,
            Error::Forbidden => 3,
            Error::NotFound => 4,
        }
    }

    open spec fn message_spec(&self) -> Seq<char> {
        match self {
            Error::InvalidArgument => "invalid argument"@,
            Error::InsufficientBalance => "insufficient balance"@,
            Error::Forbidden => "forbidden by policy"@,
            Error::NotFound => "not found"@,
        }
    }

    open spec fn abort_spec(&self) -> Option<dispatcher::Error> {
        None
    }

    fn module_name(&self) -> (name: &str) {
        MODULE_NAME
    }

    fn code(&self) -> (code: u32) {
        match self {
            Error::InvalidArgument => 1,
            Error::InsufficientBalance => 2,
            Error::Forbidden => 3,
            Error::NotFound => 4,
        }
    }

    fn message(&self) -> (message: String) {
        match self {
            Error::InvalidArgument => owned("invalid argument"),
            Error::InsufficientBalance => owned("insufficient balance"),
            Error::Forbidden => owned("forbidden by policy"),
            Error::NotFound => owned("not found"),
        }
    }

    fn into_abort(self) -> (r: Result<dispatcher::Error, Self>) {
        Err(self)
    }
}

/// The state key of the balance of an address in a denomination.
pub open spec fn balance_key(address: Seq<u8>, denomination: Seq<u8>) -> Seq<u8> {
    MODULE_NAME.spec_bytes() + BALANCES@ + address + denomination
}

/// The state key of the total supply of a denomination.
pub open spec fn supply_key(denomination: Seq<u8>) -> Seq<u8> {
    MODULE_NAME.spec_bytes() + TOTAL_SUPPLY@ + denomination
}

/// The amount that the state holds under a key: 0 where the key is
/// absent or does not hold an amount.
pub open spec fn amount_at(state: Map<Seq<u8>, Seq<u8>>, key: Seq<u8>) -> u128 {
    if state.contains_key(key) && state[key].len() == 16 {
        spec_u128_from_le_bytes(state[key])
    } else {
        0
    }
}

/// The balance of an address in a denomination.
pub open spec fn balance(state: Map<Seq<u8>, Seq<u8>>, address: Seq<u8>, denomination: Seq<u8>) -> u128 {
    amount_at(state, balance_key(address, denomination))
}

/// The total supply of a denomination.
pub open spec fn total_supply(state: Map<Seq<u8>, Seq<u8>>, denomination: Seq<u8>) -> u128 {
    amount_at(state, supply_key(denomination))
}

/// The state after `amount` is added under a key, `None` where the sum
/// is more than can be held.
pub open spec fn credited(state: Map<Seq<u8>, Seq<u8>>, key: Seq<u8>, amount: u128) -> Option<
    Map<Seq<u8>, Seq<u8>>,
> {
    if amount_at(state, key) + amount > u128::MAX {
        None
    } else {
        Some(state.insert(key, spec_u128_to_le_bytes((amount_at(state, key) + amount) as u128)))
    }
}

/// The state after `amount` is taken from under a key, `None` where less
/// is there.
pub open spec fn debited(state: Map<Seq<u8>, Seq<u8>>, key: Seq<u8>, amount: u128) -> Option<
    Map<Seq<u8>, Seq<u8>>,
> {
    if amount_at(state, key) < amount {
        None
    } else {
        Some(state.insert(key, spec_u128_to_le_bytes((amount_at(state, key) - amount) as u128)))
    }
}

/// The state after a transfer: the sender is debited, then the receiver
/// is credited. `Err` says what stands in the way.
pub open spec fn transferred(
    state: Map<Seq<u8>, Seq<u8>>,
    from: Seq<u8>,
    to: Seq<u8>,
    amount: (u128, Seq<u8>),
) -> Result<Map<Seq<u8>, Seq<u8>>, Error> {
    match debited(state, balance_key(from, amount.1), amount.0) {
        None => Err(Error::InsufficientBalance),
        Some(taken) => match credited(taken, balance_key(to, amount.1), amount.0) {
            None => Err(Error::InvalidArgument),
            Some(given) => Ok(given),
        },
    }
}

/// The state after tokens are minted: the receiver and the total supply
/// are credited.
pub open spec fn minted(state: Map<Seq<u8>, Seq<u8>>, to: Seq<u8>, amount: (u128, Seq<u8>)) -> Result<
    Map<Seq<u8>, Seq<u8>>,
    Error,
> {
    match credited(state, balance_key(to, amount.1), amount.0) {
        None => Err(Error::InvalidArgument),
        Some(given) => match credited(given, supply_key(amount.1), amount.0) {
            None => Err(Error::InvalidArgument),
            Some(grown) => Ok(grown),
        },
    }
}

/// The state after tokens are burnt: the holder and the total supply are
/// debited.
pub open spec fn burnt(state: Map<Seq<u8>, Seq<u8>>, from: Seq<u8>, amount: (u128, Seq<u8>)) -> Result<
    Map<Seq<u8>, Seq<u8>>,
    Error,
> {
    match debited(state, balance_key(from, amount.1), amount.0) {
        None => Err(Error::InsufficientBalance),
        Some(taken) => match debited(taken, supply_key(amount.1), amount.0) {
            None => Err(Error::InsufficientBalance),
            Some(shrunk) => Ok(shrunk),
        },
    }
}

/// A change of the ledger in a context: with `Ok`, the state is the new
/// state and nothing else has changed; with `Err`, nothing has changed.
pub open spec fn is_ledger_change(
    before: ContextView,
    after: ContextView,
    change: Result<Map<Seq<u8>, Seq<u8>>, Error>,
    r: Result<(), Error>,
) -> bool {
    match change {
        Ok(state) => r is Ok && after == (ContextView { state, ..before }),
        Err(e) => r == Err::<(), Error>(e) && after == before,
    }
}

/// Interface that can be called from other modules.
pub trait API {
    /// Transfer an amount from one account to the other.
    fn transfer<C: Context>(ctx: &mut C, from: Address, to: Address, amount: &BaseUnits) -> (r:
        Result<(), Error>)
        ensures
            is_ledger_change(
                old(ctx).snapshot(),
                final(ctx).snapshot(),
                transferred(old(ctx).snapshot().state, from.0@, to.0@, amount@),
                r,
            ),
    ;

    /// Mint new tokens, increasing the total supply.
    fn mint<C: Context>(ctx: &mut C, to: Address, amount: &BaseUnits) -> (r: Result<(), Error>)
        ensures
            is_ledger_change(
                old(ctx).snapshot(),
                final(ctx).snapshot(),
                minted(old(ctx).snapshot().state, to.0@, amount@),
                r,
            ),
    ;

    /// Burn existing tokens, decreasing the total supply.
    fn burn<C: Context>(ctx: &mut C, from: Address, amount: &BaseUnits) -> (r: Result<(), Error>)
        ensures
            is_ledger_change(
                old(ctx).snapshot(),
                final(ctx).snapshot(),
                burnt(old(ctx).snapshot().state, from.0@, amount@),
                r,
            ),
    ;

    /// The balance of an address in a denomination.
    fn get_balance<C: Context>(ctx: &C, address: Address, denomination: &Denomination) -> (amount:
        u128)
        ensures
            amount == balance(ctx.snapshot().state, address.0@, denomination.0@),
    ;

    /// The total supply of a denomination, `None` where the state holds
    /// none.
    fn get_total_supply<C: Context>(ctx: &C, denomination: &Denomination) -> (amount: Option<u128>)
        ensures
            match amount {
                Some(n) => ctx.snapshot().state.contains_key(supply_key(denomination.0@)) && n
                    == total_supply(ctx.snapshot().state, denomination.0@),
                None => !ctx.snapshot().state.contains_key(supply_key(denomination.0@)),
            },
    ;
}

/// The state key of a balance.
pub fn make_balance_key(address: &Address, denomination: &[u8]) -> (key: Vec<u8>)
    ensures
        key@ == balance_key(address.0@, denomination@),
{
    let head = concat(MODULE_NAME.as_bytes(), BALANCES.as_slice());
    let mid = concat(head.as_slice(), address.0.as_slice());
    concat(mid.as_slice(), denomination)
}

/// The state key of a total supply.
pub fn make_supply_key(denomination: &[u8]) -> (key: Vec<u8>)
    ensures
        key@ == supply_key(denomination@),
{
    let head = concat(MODULE_NAME.as_bytes(), TOTAL_SUPPLY.as_slice());
    concat(head.as_slice(), denomination)
}

/// Reads the amount that the state holds under a key.
pub fn read_amount<C: Context>(ctx: &C, key: &[u8]) -> (amount: u128)
    ensures
        amount == amount_at(ctx.snapshot().state, key@),
{
    match ctx.state_get(key) {
        Some(bytes) => {
            if bytes.len() == 16 {
                u128_from_le_bytes(bytes.as_slice())
            } else {
                0
            }
        },
        None => 0,
    }
}

/// Stores an amount under a key.
pub fn write_amount<C: Context>(ctx: &mut C, key: &[u8], amount: u128)
    ensures
        final(ctx).snapshot() == (ContextView {
            state: old(ctx).snapshot().state.insert(key@, spec_u128_to_le_bytes(amount)),
            ..old(ctx).snapshot()
        }),
{
    let bytes = u128_to_le_bytes(amount);
    ctx.state_insert(key, bytes.as_slice());
}

/// The accounts module.
pub struct Module;

impl API for Module {
    fn transfer<C: Context>(ctx: &mut C, from: Address, to: Address, amount: &BaseUnits) -> (r:
        Result<(), Error>) {
        let ghost before = ctx.snapshot().state;
        let from_key = make_balance_key(&from, amount.1.0.as_slice());
        let to_key = make_balance_key(&to, amount.1.0.as_slice());
        let from_balance = read_amount(&*ctx, from_key.as_slice());
        if from_balance < amount.0 {
            return Err(Error::InsufficientBalance);
        }
        let left = from_balance - amount.0;
        // The receiver is read as it stands once the sender has paid, so
        // that an account can pay itself.
        let to_balance = if from.equals(&to) {
            proof {
                lemma_auto_spec_u128_to_from_le_bytes();
            }
            left
        } else {
            proof {
                if from_key@ == to_key@ {
                    lemma_balance_key_injective(from.0@, to.0@, amount.1.0@, amount.1.0@);
                }
            }
            read_amount(&*ctx, to_key.as_slice())
        };
        let ghost taken = before.insert(from_key@, spec_u128_to_le_bytes(left));
        assert(amount_at(taken, to_key@) == to_balance) by {
            lemma_auto_spec_u128_to_from_le_bytes();
        }
        let sum = match to_balance.checked_add(amount.0) {
            Some(sum) => sum,
            None => {
                return Err(Error::InvalidArgument);
            },
        };
        write_amount(ctx, from_key.as_slice(), left);
        write_amount(ctx, to_key.as_slice(), sum);
        Ok(())
    }

    fn mint<C: Context>(ctx: &mut C, to: Address, amount: &BaseUnits) -> (r: Result<(), Error>) {
        let ghost before = ctx.snapshot().state;
        let to_key = make_balance_key(&to, amount.1.0.as_slice());
        let total_key = make_supply_key(amount.1.0.as_slice());
        let to_balance = read_amount(&*ctx, to_key.as_slice());
        let sum = match to_balance.checked_add(amount.0) {
            Some(sum) => sum,
            None => {
                return Err(Error::InvalidArgument);
            },
        };
        let supply = read_amount(&*ctx, total_key.as_slice());
        let ghost given = before.insert(to_key@, spec_u128_to_le_bytes(sum));
        assert(amount_at(given, total_key@) == supply) by {
            lemma_keys_apart(to.0@, amount.1.0@, amount.1.0@);
        }
        let grown = match supply.checked_add(amount.0) {
            Some(grown) => grown,
            None => {
                return Err(Error::InvalidArgument);
            },
        };
        write_amount(ctx, to_key.as_slice(), sum);
        write_amount(ctx, total_key.as_slice(), grown);
        Ok(())
    }

    fn burn<C: Context>(ctx: &mut C, from: Address, amount: &BaseUnits) -> (r: Result<(), Error>) {
        let ghost before = ctx.snapshot().state;
        let from_key = make_balance_key(&from, amount.1.0.as_slice());
        let total_key = make_supply_key(amount.1.0.as_slice());
        let from_balance = read_amount(&*ctx, from_key.as_slice());
        if from_balance < amount.0 {
            return Err(Error::InsufficientBalance);
        }
        let supply = read_amount(&*ctx, total_key.as_slice());
        let ghost taken = before.insert(from_key@, spec_u128_to_le_bytes((from_balance - amount.0) as u128));
        assert(amount_at(taken, total_key@) == supply) by {
            lemma_keys_apart(from.0@, amount.1.0@, amount.1.0@);
        }
        if supply < amount.0 {
            return Err(Error::InsufficientBalance);
        }
        write_amount(ctx, from_key.as_slice(), from_balance - amount.0);
        write_amount(ctx, total_key.as_slice(), supply - amount.0);
        Ok(())
    }

    fn get_balance<C: Context>(ctx: &C, address: Address, denomination: &Denomination) -> (amount:
        u128) {
        let key = make_balance_key(&address, denomination.0.as_slice());
        read_amount(ctx, key.as_slice())
    }

    fn get_total_supply<C: Context>(ctx: &C, denomination: &Denomination) -> (amount: Option<u128>) {
        let key = make_supply_key(denomination.0.as_slice());
        match ctx.state_get(key.as_slice()) {
            Some(bytes) => {
                if bytes.len() == 16 {
                    Some(u128_from_le_bytes(bytes.as_slice()))
                } else {
                    Some(0)
                }
            },
            None => None,
        }
    }
}

/// The keys of two balances are the same only for the same address and
/// denomination.
pub proof fn lemma_balance_key_injective(a: Seq<u8>, b: Seq<u8>, da: Seq<u8>, db: Seq<u8>)
    requires
        a.len() == 21,
        b.len() == 21,
        balance_key(a, da) == balance_key(b, db),
    ensures
        a == b,
        da == db,
{
    let n = (MODULE_NAME.spec_bytes() + BALANCES@).len() as int;
    let ka = balance_key(a, da);
    let kb = balance_key(b, db);
    assert(a =~= ka.subrange(n, n + 21));
    assert(b =~= kb.subrange(n, n + 21));
    assert(da =~= ka.subrange(n + 21, ka.len() as int));
    assert(db =~= kb.subrange(n + 21, kb.len() as int));
}

/// The key of a balance is not the key of a total supply.
pub proof fn lemma_keys_apart(a: Seq<u8>, da: Seq<u8>, db: Seq<u8>)
    ensures
        balance_key(a, da) != supply_key(db),
{
    let n = MODULE_NAME.spec_bytes().len() as int;
    assert(balance_key(a, da)[n] == 0x02u8);
    assert(supply_key(db)[n] == 0x03u8);
}

/// After an amount is added under a key, the key holds the sum, and
/// every other key holds what it held.
pub proof fn lemma_credited(state: Map<Seq<u8>, Seq<u8>>, key: Seq<u8>, amount: u128, other: Seq<u8>)
    requires
        credited(state, key, amount) is Some,
    ensures
        amount_at(credited(state, key, amount)->Some_0, key) == amount_at(state, key) + amount,
        other != key ==> amount_at(credited(state, key, amount)->Some_0, other) == amount_at(
            state,
            other,
        ),
{
    lemma_auto_spec_u128_to_from_le_bytes();
}

/// After an amount is taken from under a key, the key holds the
/// difference, and every other key holds what it held.
pub proof fn lemma_debited(state: Map<Seq<u8>, Seq<u8>>, key: Seq<u8>, amount: u128, other: Seq<u8>)
    requires
        debited(state, key, amount) is Some,
    ensures
        amount_at(debited(state, key, amount)->Some_0, key) == amount_at(state, key) - amount,
        other != key ==> amount_at(debited(state, key, amount)->Some_0, other) == amount_at(
            state,
            other,
        ),
{
    lemma_auto_spec_u128_to_from_le_bytes();
}

/// A transfer between two accounts moves the amount from the balance of
/// the one to the balance of the other and leaves the total supply as
/// it was.
pub proof fn lemma_transferred(
    state: Map<Seq<u8>, Seq<u8>>,
    from: Seq<u8>,
    to: Seq<u8>,
    amount: (u128, Seq<u8>),
)
    requires
        from.len() == 21,
        to.len() == 21,
        from != to,
        transferred(state, from, to, amount) is Ok,
    ensures
        balance(transferred(state, from, to, amount)->Ok_0, from, amount.1) == balance(
            state,
            from,
            amount.1,
        ) - amount.0,
        balance(transferred(state, from, to, amount)->Ok_0, to, amount.1) == balance(
            state,
            to,
            amount.1,
        ) + amount.0,
        total_supply(transferred(state, from, to, amount)->Ok_0, amount.1) == total_supply(
            state,
            amount.1,
        ),
{
    let from_key = balance_key(from, amount.1);
    let to_key = balance_key(to, amount.1);
    if from_key == to_key {
        lemma_balance_key_injective(from, to, amount.1, amount.1);
    }
    lemma_keys_apart(from, amount.1, amount.1);
    lemma_keys_apart(to, amount.1, amount.1);
    let taken = debited(state, from_key, amount.0)->Some_0;
    lemma_debited(state, from_key, amount.0, to_key);
    lemma_debited(state, from_key, amount.0, supply_key(amount.1));
    lemma_credited(taken, to_key, amount.0, from_key);
    lemma_credited(taken, to_key, amount.0, supply_key(amount.1));
}

/// Setting tokens aside and handing them back leaves the balances of
/// both accounts as they were.
pub proof fn lemma_refund_restores(
    state: Map<Seq<u8>, Seq<u8>>,
    account: Seq<u8>,
    escrow: Seq<u8>,
    amount: (u128, Seq<u8>),
)
    requires
        account.len() == 21,
        escrow.len() == 21,
        account != escrow,
        transferred(state, account, escrow, amount) is Ok,
    ensures
        transferred(transferred(state, account, escrow, amount)->Ok_0, escrow, account, amount) is Ok,
        balance(
            transferred(
                transferred(state, account, escrow, amount)->Ok_0,
                escrow,
                account,
                amount,
            )->Ok_0,
            account,
            amount.1,
        ) == balance(state, account, amount.1),
        balance(
            transferred(
                transferred(state, account, escrow, amount)->Ok_0,
                escrow,
                account,
                amount,
            )->Ok_0,
            escrow,
            amount.1,
        ) == balance(state, escrow, amount.1),
{
    let set_aside = transferred(state, account, escrow, amount)->Ok_0;
    lemma_transferred(state, account, escrow, amount);
    let account_key = balance_key(account, amount.1);
    let escrow_key = balance_key(escrow, amount.1);
    if account_key == escrow_key {
        lemma_balance_key_injective(account, escrow, amount.1, amount.1);
    }
    let taken = debited(set_aside, escrow_key, amount.0)->Some_0;
    lemma_debited(set_aside, escrow_key, amount.0, account_key);
    assert(credited(taken, account_key, amount.0) is Some);
    lemma_transferred(set_aside, escrow, account, amount);
}

} // verus!
