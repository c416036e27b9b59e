//! Types of the consensus accounts module.

use vstd::prelude::*;
use crate::cbor::{
    entry_count, from_record, into_record, into_text, into_unsigned, items_view, record_view,
    Decode, DecodeError, Encode, Item, ItemView,
};
use crate::context::ConsensusAccount;
use crate::types::address::Address;
use crate::types::message::MessageEvent;
use crate::types::token::BaseUnits;

verus! {

/// Deposit into runtime call.
#[derive(Debug)]
pub struct Deposit {
    /// The account that receives the tokens; the caller where none is
    /// named.
    pub to: Option<Address>,
    pub amount: BaseUnits,
}

/// Withdraw from runtime call.
#[derive(Debug)]
pub struct Withdraw {
    /// The account that receives the tokens; the caller where none is
    /// named.
    pub to: Option<Address>,
    pub amount: BaseUnits,
}

/// Balance query.
#[derive(Clone, Copy, Debug)]
pub struct BalanceQuery {
    pub address: Address,
}

/// Consensus account query.
#[derive(Clone, Copy, Debug)]
pub struct ConsensusAccountQuery {
    pub address: Address,
}

/// The balance of an account in the consensus denomination.
#[derive(Clone, Copy, Debug)]
pub struct AccountBalance {
    pub balance: u128,
}

/// Context for consensus transfer message handler.
#[derive(Debug)]
pub struct ConsensusTransferContext {
    pub to: Address,
    pub nonce: u64,
    pub address: Address,
    pub amount: BaseUnits,
}

/// Context for consensus withdraw message handler.
#[derive(Debug)]
pub struct ConsensusWithdrawContext {
    pub from: Address,
    pub nonce: u64,
    pub address: Address,
    pub amount: BaseUnits,
}

/// The error with which the consensus layer turned a message down.
#[derive(Debug)]
pub struct ConsensusError {
    pub module: String,
    pub code: u32,
}

impl ConsensusError {
    /// The error that a message event reports.
    pub fn from_event(me: MessageEvent) -> (e: ConsensusError)
        ensures
            e.module == me.module,
            e.code == me.code,
    {
        ConsensusError { module: me.module, code: me.code }
    }
}

/// The CBOR form of a transfer of an amount to an account that may be
/// left out.
pub open spec fn transfer_view(to: Option<Address>, amount: BaseUnits) -> ItemView {
    match to {
        Some(address) => record_view(seq!["to", "amount"], seq![address.encoded(), amount.encoded()]),
        None => record_view(seq!["amount"], seq![amount.encoded()]),
    }
}

/// Encodes a transfer of an amount to an account that may be left out.
pub fn encode_transfer(to: Option<Address>, amount: BaseUnits) -> (item: Item)
    ensures
        item@ == transfer_view(to, amount),
{
    let mut values: Vec<Item> = Vec::new();
    match to {
        Some(address) => {
            values.push(address.into_cbor_value());
            values.push(amount.into_cbor_value());
            let keys: [&'static str; 2] = ["to", "amount"];
            assert(keys@ =~= seq!["to", "amount"]);
            assert(items_view(values@) =~= seq![address.encoded(), amount.encoded()]);
            from_record(keys.as_slice(), values)
        },
        None => {
            values.push(amount.into_cbor_value());
            let keys: [&'static str; 1] = ["amount"];
            assert(keys@ =~= seq!["amount"]);
            assert(items_view(values@) =~= seq![amount.encoded()]);
            from_record(keys.as_slice(), values)
        },
    }
}

/// Decodes a transfer of an amount to an account that may be left out.
pub fn decode_transfer(item: Item) -> (r: Result<(Option<Address>, BaseUnits), DecodeError>)
    ensures
        match r {
            Ok((to, amount)) => item@ == transfer_view(to, amount),
            Err(_) => forall|to: Option<Address>, amount: BaseUnits|
                item@ != #[trigger] transfer_view(to, amount),
        },
{
    let count = match entry_count(&item) {
        Some(count) => count,
        None => {
            return Err(DecodeError::UnexpectedType);
        },
    };
    if count == 2 {
        let keys: [&'static str; 2] = ["to", "amount"];
        assert(keys@ =~= seq!["to", "amount"]);
        let mut values = match into_record(item, keys.as_slice()) {
            Some(values) => values,
            None => {
                assert forall|to: Option<Address>, amount: BaseUnits|
                    item@ != #[trigger] transfer_view(to, amount) by {
                    if to is None {
                        assert(transfer_view(to, amount)->Mapping_0.len() == 1);
                    }
                }
                return Err(DecodeError::UnknownField);
            },
        };
        let ghost all = values@;
        let amount_item = values.pop().unwrap();
        let to_item = values.pop().unwrap();
        assert(items_view(all)[0] == to_item@ && items_view(all)[1] == amount_item@);
        assert forall|to: Option<Address>, amount: BaseUnits|
            item@ == #[trigger] transfer_view(to, amount) implies to is Some
            && to->Some_0.encoded() == to_item@ && amount.encoded() == amount_item@ by {
            if to is None {
                assert(transfer_view(to, amount)->Mapping_0.len() == 1);
            } else {
                let fields = seq![to->Some_0.encoded(), amount.encoded()];
                assert(record_view(keys@, fields)->Mapping_0[0] == record_view(
                    keys@,
                    items_view(all),
                )->Mapping_0[0]);
                assert(record_view(keys@, fields)->Mapping_0[1] == record_view(
                    keys@,
                    items_view(all),
                )->Mapping_0[1]);
            }
        }
        let to = match Address::try_from_cbor_value(to_item) {
            Ok(to) => to,
            Err(e) => {
                return Err(e);
            },
        };
        let amount = match BaseUnits::try_from_cbor_value(amount_item) {
            Ok(amount) => amount,
            Err(e) => {
                return Err(e);
            },
        };
        assert(items_view(all) =~= seq![to.encoded(), amount.encoded()]);
        Ok((Some(to), amount))
    } else if count == 1 {
        let keys: [&'static str; 1] = ["amount"];
        assert(keys@ =~= seq!["amount"]);
        let mut values = match into_record(item, keys.as_slice()) {
            Some(values) => values,
            None => {
                assert forall|to: Option<Address>, amount: BaseUnits|
                    item@ != #[trigger] transfer_view(to, amount) by {
                    if to is Some {
                        assert(transfer_view(to, amount)->Mapping_0.len() == 2);
                    }
                }
                return Err(DecodeError::UnknownField);
            },
        };
        let ghost all = values@;
        let amount_item = values.pop().unwrap();
        assert(items_view(all)[0] == amount_item@);
        assert forall|to: Option<Address>, amount: BaseUnits|
            item@ == #[trigger] transfer_view(to, amount) implies to is None && amount.encoded()
            == amount_item@ by {
            if to is Some {
                assert(transfer_view(to, amount)->Mapping_0.len() == 2);
            } else {
                let fields = seq![amount.encoded()];
                assert(record_view(keys@, fields)->Mapping_0[0] == record_view(
                    keys@,
                    items_view(all),
                )->Mapping_0[0]);
            }
        }
        let amount = match BaseUnits::try_from_cbor_value(amount_item) {
            Ok(amount) => amount,
            Err(e) => {
                return Err(e);
            },
        };
        assert(items_view(all) =~= seq![amount.encoded()]);
        Ok((None, amount))
    } else {
        assert forall|to: Option<Address>, amount: BaseUnits|
            item@ != #[trigger] transfer_view(to, amount) by {
            if to is Some {
                assert(transfer_view(to, amount)->Mapping_0.len() == 2);
            } else {
                assert(transfer_view(to, amount)->Mapping_0.len() == 1);
            }
        }
        Err(DecodeError::MissingField)
    }
}

impl Encode for Deposit {
    open spec fn encoded(&self) -> ItemView {
        transfer_view(self.to, self.amount)
    }

    fn into_cbor_value(self) -> (item: Item) {
        encode_transfer(self.to, self.amount)
    }
}

impl Decode for Deposit {
    fn try_from_cbor_value(item: Item) -> (r: Result<Self, DecodeError>) {
        match decode_transfer(item) {
            Ok((to, amount)) => Ok(Deposit { to, amount }),
            Err(e) => {
                assert forall|value: Self| value.encoded() != item@ by {
                    assert(value.encoded() == transfer_view(value.to, value.amount));
                }
                Err(e)
            },
        }
    }
}

impl Encode for Withdraw {
    open spec fn encoded(&self) -> ItemView {
        transfer_view(self.to, self.amount)
    }

    fn into_cbor_value(self) -> (item: Item) {
        encode_transfer(self.to, self.amount)
    }
}

impl Decode for Withdraw {
    fn try_from_cbor_value(item: Item) -> (r: Result<Self, DecodeError>) {
        match decode_transfer(item) {
            Ok((to, amount)) => Ok(Withdraw { to, amount }),
            Err(e) => {
                assert forall|value: Self| value.encoded() != item@ by {
                    assert(value.encoded() == transfer_view(value.to, value.amount));
                }
                Err(e)
            },
        }
    }
}

/// The CBOR form of a record with one address.
pub open spec fn address_record(key: &'static str, address: Address) -> ItemView {
    record_view(seq![key], seq![address.encoded()])
}

/// Encodes a record with one address.
pub fn encode_address_record(key: &'static str, address: Address) -> (item: Item)
    ensures
        item@ == address_record(key, address),
{
    let mut values: Vec<Item> = Vec::new();
    values.push(address.into_cbor_value());
    let keys: [&'static str; 1] = [key];
    assert(keys@ =~= seq![key]);
    assert(items_view(values@) =~= seq![address.encoded()]);
    from_record(keys.as_slice(), values)
}

/// Decodes a record with one address.
pub fn decode_address_record(key: &'static str, item: Item) -> (r: Result<Address, DecodeError>)
    ensures
        match r {
            Ok(address) => item@ == address_record(key, address),
            Err(_) => forall|address: Address| item@ != #[trigger] address_record(key, address),
        },
{
    let keys: [&'static str; 1] = [key];
    assert(keys@ =~= seq![key]);
    let mut values = match into_record(item, keys.as_slice()) {
        Some(values) => values,
        None => {
            return Err(DecodeError::UnknownField);
        },
    };
    let ghost all = values@;
    let address_item = values.pop().unwrap();
    assert(items_view(all)[0] == address_item@);
    assert forall|address: Address|
        item@ == #[trigger] address_record(key, address) implies address.encoded()
        == address_item@ by {
        let fields = seq![address.encoded()];
        assert(record_view(keys@, fields)->Mapping_0[0] == record_view(
            keys@,
            items_view(all),
        )->Mapping_0[0]);
    }
    match Address::try_from_cbor_value(address_item) {
        Ok(address) => {
            assert(items_view(all) =~= seq![address.encoded()]);
            Ok(address)
        },
        Err(e) => Err(e),
    }
}

impl Encode for BalanceQuery {
    open spec fn encoded(&self) -> ItemView {
        address_record("address", self.address)
    }

    fn into_cbor_value(self) -> (item: Item) {
        encode_address_record("address", self.address)
    }
}

impl Decode for BalanceQuery {
    fn try_from_cbor_value(item: Item) -> (r: Result<Self, DecodeError>) {
        match decode_address_record("address", item) {
            Ok(address) => Ok(BalanceQuery { address }),
            Err(e) => {
                assert forall|value: Self| value.encoded() != item@ by {
                    assert(value.encoded() == address_record("address", value.address));
                }
                Err(e)
            },
        }
    }
}

impl Encode for ConsensusAccountQuery {
    open spec fn encoded(&self) -> ItemView {
        address_record("address", self.address)
    }

    fn into_cbor_value(self) -> (item: Item) {
        encode_address_record("address", self.address)
    }
}

impl Decode for ConsensusAccountQuery {
    fn try_from_cbor_value(item: Item) -> (r: Result<Self, DecodeError>) {
        match decode_address_record("address", item) {
            Ok(address) => Ok(ConsensusAccountQuery { address }),
            Err(e) => {
                assert forall|value: Self| value.encoded() != item@ by {
                    assert(value.encoded() == address_record("address", value.address));
                }
                Err(e)
            },
        }
    }
}

impl Encode for AccountBalance {
    open spec fn encoded(&self) -> ItemView {
        record_view(seq!["balance"], seq![self.balance.encoded()])
    }

    fn into_cbor_value(self) -> (item: Item) {
        let mut values: Vec<Item> = Vec::new();
        values.push(self.balance.into_cbor_value());
        let keys: [&'static str; 1] = ["balance"];
        assert(keys@ =~= seq!["balance"]);
        assert(items_view(values@) =~= seq![self.balance.encoded()]);
        from_record(keys.as_slice(), values)
    }
}

impl Encode for ConsensusAccount {
    open spec fn encoded(&self) -> ItemView {
        record_view(
            seq!["address", "general_balance"],
            seq![self.address.encoded(), self.general_balance.encoded()],
        )
    }

    fn into_cbor_value(self) -> (item: Item) {
        let mut values: Vec<Item> = Vec::new();
        values.push(self.address.into_cbor_value());
        values.push(self.general_balance.into_cbor_value());
        let keys: [&'static str; 2] = ["address", "general_balance"];
        assert(keys@ =~= seq!["address", "general_balance"]);
        assert(items_view(values@) =~= seq![
            self.address.encoded(),
            self.general_balance.encoded(),
        ]);
        from_record(keys.as_slice(), values)
    }
}

/// The CBOR form of the context of a message: the account on the other
/// side under the given name, the nonce, the amount, and the account in
/// the runtime.
pub open spec fn context_view(
    key: &'static str,
    other: Address,
    nonce: u64,
    amount: BaseUnits,
    address: Address,
) -> ItemView {
    record_view(
        seq![key, "nonce", "amount", "address"],
        seq![other.encoded(), nonce.encoded(), amount.encoded(), address.encoded()],
    )
}

/// Encodes the context of a message.
pub fn encode_context(
    key: &'static str,
    other: Address,
    nonce: u64,
    amount: BaseUnits,
    address: Address,
) -> (item: Item)
    ensures
        item@ == context_view(key, other, nonce, amount, address),
{
    let mut values: Vec<Item> = Vec::new();
    values.push(other.into_cbor_value());
    values.push(nonce.into_cbor_value());
    values.push(amount.into_cbor_value());
    values.push(address.into_cbor_value());
    let keys: [&'static str; 4] = [key, "nonce", "amount", "address"];
    assert(keys@ =~= seq![key, "nonce", "amount", "address"]);
    assert(items_view(values@) =~= seq![
        other.encoded(),
        nonce.encoded(),
        amount.encoded(),
        address.encoded(),
    ]);
    from_record(keys.as_slice(), values)
}

/// Decodes the context of a message.
pub fn decode_context(key: &'static str, item: Item) -> (r: Result<
    (Address, u64, BaseUnits, Address),
    DecodeError,
>)
    ensures
        match r {
            Ok((other, nonce, amount, address)) => item@ == context_view(
                key,
                other,
                nonce,
                amount,
                address,
            ),
            Err(_) => forall|other: Address, nonce: u64, amount: BaseUnits, address: Address|
                item@ != #[trigger] context_view(key, other, nonce, amount, address),
        },
{
    let keys: [&'static str; 4] = [key, "nonce", "amount", "address"];
    assert(keys@ =~= seq![key, "nonce", "amount", "address"]);
    let mut values = match into_record(item, keys.as_slice()) {
        Some(values) => values,
        None => {
            return Err(DecodeError::UnknownField);
        },
    };
    let ghost all = values@;
    let address_item = values.pop().unwrap();
    let amount_item = values.pop().unwrap();
    let nonce_item = values.pop().unwrap();
    let other_item = values.pop().unwrap();
    assert(items_view(all)[0] == other_item@ && items_view(all)[1] == nonce_item@ && items_view(
        all,
    )[2] == amount_item@ && items_view(all)[3] == address_item@);
    assert forall|other: Address, nonce: u64, amount: BaseUnits, address: Address|
        item@ == #[trigger] context_view(key, other, nonce, amount, address) implies other.encoded()
        == other_item@ && nonce.encoded() == nonce_item@ && amount.encoded() == amount_item@
        && address.encoded() == address_item@ by {
        let fields = seq![other.encoded(), nonce.encoded(), amount.encoded(), address.encoded()];
        let given = record_view(keys@, items_view(all))->Mapping_0;
        assert(record_view(keys@, fields)->Mapping_0[0] == given[0]);
        assert(record_view(keys@, fields)->Mapping_0[1] == given[1]);
        assert(record_view(keys@, fields)->Mapping_0[2] == given[2]);
        assert(record_view(keys@, fields)->Mapping_0[3] == given[3]);
    }
    let other = match Address::try_from_cbor_value(other_item) {
        Ok(other) => other,
        Err(e) => {
            return Err(e);
        },
    };
    let nonce = match <u64 as Decode>::try_from_cbor_value(nonce_item) {
        Ok(nonce) => nonce,
        Err(e) => {
            return Err(e);
        },
    };
    let amount = match BaseUnits::try_from_cbor_value(amount_item) {
        Ok(amount) => amount,
        Err(e) => {
            return Err(e);
        },
    };
    let address = match Address::try_from_cbor_value(address_item) {
        Ok(address) => address,
        Err(e) => {
            return Err(e);
        },
    };
    assert(items_view(all) =~= seq![
        other.encoded(),
        nonce.encoded(),
        amount.encoded(),
        address.encoded(),
    ]);
    Ok((other, nonce, amount, address))
}

impl Encode for ConsensusTransferContext {
    open spec fn encoded(&self) -> ItemView {
        context_view("to", self.to, self.nonce, self.amount, self.address)
    }

    fn into_cbor_value(self) -> (item: Item) {
        encode_context("to", self.to, self.nonce, self.amount, self.address)
    }
}

impl Decode for ConsensusTransferContext {
    fn try_from_cbor_value(item: Item) -> (r: Result<Self, DecodeError>) {
        match decode_context("to", item) {
            Ok((to, nonce, amount, address)) => Ok(
                ConsensusTransferContext { to, nonce, address, amount },
            ),
            Err(e) => {
                assert forall|value: Self| value.encoded() != item@ by {
                    assert(value.encoded() == context_view(
                        "to",
                        value.to,
                        value.nonce,
                        value.amount,
                        value.address,
                    ));
                }
                Err(e)
            },
        }
    }
}

impl Encode for ConsensusWithdrawContext {
    open spec fn encoded(&self) -> ItemView {
        context_view("from", self.from, self.nonce, self.amount, self.address)
    }

    fn into_cbor_value(self) -> (item: Item) {
        encode_context("from", self.from, self.nonce, self.amount, self.address)
    }
}

impl Decode for ConsensusWithdrawContext {
    fn try_from_cbor_value(item: Item) -> (r: Result<Self, DecodeError>) {
        match decode_context("from", item) {
            Ok((from, nonce, amount, address)) => Ok(
                ConsensusWithdrawContext { from, nonce, address, amount },
            ),
            Err(e) => {
                assert forall|value: Self| value.encoded() != item@ by {
                    assert(value.encoded() == context_view(
                        "from",
                        value.from,
                        value.nonce,
                        value.amount,
                        value.address,
                    ));
                }
                Err(e)
            },
        }
    }
}

} // verus!
