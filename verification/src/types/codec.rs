//! The CBOR forms of the basic values.
//!
//! An address is a byte string of its 21 bytes. An amount is a byte
//! string of 16 bytes, least significant first. An amount of a
//! denomination is an array of the amount and the name of the
//! denomination. A record is a mapping from the names of its fields to
//! their values, in a fixed order.

use vstd::bytes::{
    lemma_auto_spec_u128_to_from_le_bytes, spec_u128_from_le_bytes, spec_u128_to_le_bytes,
    u128_from_le_bytes, u128_to_le_bytes,
};
use vstd::prelude::*;
use crate::cbor::{
    from_items, into_bytes, into_items, items_view, Decode, DecodeError, Encode, Item, ItemView,
};
use crate::types::address::Address;
use crate::types::token::{BaseUnits, Denomination};

verus! {

impl Encode for Address {
    open spec fn encoded(&self) -> ItemView {
        ItemView::ByteString(self.0@)
    }

    fn into_cbor_value(self) -> (item: Item) {
        let mut bytes: Vec<u8> = Vec::new();
        bytes.extend_from_slice(self.0.as_slice());
        assert(bytes@ =~= self.0@);
        Item::ByteString(bytes)
    }
}

impl Decode for Address {
    fn try_from_cbor_value(item: Item) -> (r: Result<Self, DecodeError>) {
        let bytes = match into_bytes(item) {
            Some(bytes) => bytes,
            None => {
                return Err(DecodeError::UnexpectedType);
            },
        };
        if bytes.len() != 21 {
            assert forall|value: Self| value.encoded() != item@ by {
                assert(value.0@.len() == 21);
            }
            return Err(DecodeError::UnexpectedType);
        }
        let mut raw: [u8; 21] = [0u8; 21];
        let mut i: usize = 0;
        while i < 21
            invariant
                i <= 21,
                bytes@.len() == 21,
                forall|j: int| 0 <= j < i ==> raw@[j] == bytes@[j],
            decreases 21 - i,
        {
            raw[i] = bytes[i];
            i += 1;
        }
        assert(raw@ =~= bytes@);
        Ok(Address(raw))
    }
}

impl Encode for u128 {
    open spec fn encoded(&self) -> ItemView {
        ItemView::ByteString(spec_u128_to_le_bytes(*self))
    }

    fn into_cbor_value(self) -> (item: Item) {
        Item::ByteString(u128_to_le_bytes(self))
    }
}

impl Decode for u128 {
    fn try_from_cbor_value(item: Item) -> (r: Result<Self, DecodeError>) {
        proof {
            lemma_auto_spec_u128_to_from_le_bytes();
        }
        let bytes = match into_bytes(item) {
            Some(bytes) => bytes,
            None => {
                return Err(DecodeError::UnexpectedType);
            },
        };
        if bytes.len() != 16 {
            assert forall|value: Self| value.encoded() != item@ by {
                assert(spec_u128_to_le_bytes(value).len() == 16);
            }
            return Err(DecodeError::UnexpectedIntegerSize);
        }
        Ok(u128_from_le_bytes(bytes.as_slice()))
    }
}

impl Encode for BaseUnits {
    open spec fn encoded(&self) -> ItemView {
        ItemView::Array(seq![self.0.encoded(), ItemView::ByteString(self.1.0@)])
    }

    fn into_cbor_value(self) -> (item: Item) {
        let mut items: Vec<Item> = Vec::new();
        items.push(self.0.into_cbor_value());
        items.push(Item::ByteString(self.1.0));
        let item = from_items(items);
        assert(item@->Array_0 =~= self.encoded()->Array_0);
        item
    }
}

impl Decode for BaseUnits {
    fn try_from_cbor_value(item: Item) -> (r: Result<Self, DecodeError>) {
        let mut items = match into_items(item) {
            Some(items) => items,
            None => {
                return Err(DecodeError::UnexpectedType);
            },
        };
        if items.len() != 2 {
            assert forall|value: Self| value.encoded() != item@ by {
                assert(value.encoded()->Array_0.len() == 2);
            }
            return Err(DecodeError::UnexpectedType);
        }
        let ghost all = items@;
        let name = items.pop().unwrap();
        let amount = items.pop().unwrap();
        assert(all[0] == amount && all[1] == name);
        assert forall|value: Self| value.encoded() == item@ implies value.0.encoded() == amount@
            && ItemView::ByteString(value.1.0@) == name@ by {
            assert(value.encoded()->Array_0[0] == items_view(all)[0]);
            assert(value.encoded()->Array_0[1] == items_view(all)[1]);
        }
        let amount = match <u128 as Decode>::try_from_cbor_value(amount) {
            Ok(amount) => amount,
            Err(e) => {
                return Err(e);
            },
        };
        match into_bytes(name) {
            Some(name) => {
                let units = BaseUnits(amount, Denomination(name));
                assert(units.encoded()->Array_0 =~= item@->Array_0);
                Ok(units)
            },
            None => Err(DecodeError::UnexpectedType),
        }
    }
}

} // verus!
