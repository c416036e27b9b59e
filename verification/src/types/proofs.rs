//! The CBOR forms of a transaction as it arrives.
//!
//! A proof is a mapping with one entry, from the name of its kind to
//! what it holds: a signature is a byte string, the signatures of a
//! multisig account are an array of byte strings with null for a member
//! that did not sign, and a decoding scheme is a text. A transaction as
//! it arrives is an array of its encoded body and its proofs.

use vstd::prelude::*;
use crate::cbor::{
    from_items, from_slice, into_bytes, into_entries, into_items, into_text, is_text,
    items_view, mapping1, reversed, text, Decode, DecodeError, Encode, Item, ItemView, Simple,
    cbor_decoding, MAX_NESTING_LEVEL,
};
use crate::types::transaction::{AuthProof, UnverifiedTransaction};

verus! {

/// The CBOR form of the signature of one member of a multisig account.
pub open spec fn member_view(signature: Option<Vec<u8>>) -> ItemView {
    match signature {
        Some(bytes) => ItemView::ByteString(bytes@),
        None => ItemView::Simple(Simple::NullValue),
    }
}

/// The CBOR forms of the signatures of the members of a multisig
/// account.
pub open spec fn member_views(signatures: Seq<Option<Vec<u8>>>) -> Seq<ItemView> {
    Seq::new(signatures.len(), |i: int| member_view(signatures[i]))
}

/// The CBOR forms of the proofs.
pub open spec fn proof_views(proofs: Seq<AuthProof>) -> Seq<ItemView> {
    Seq::new(proofs.len(), |i: int| proofs[i].encoded())
}

impl Encode for AuthProof {
    open spec fn encoded(&self) -> ItemView {
        match self {
            AuthProof::Signature(bytes) => ItemView::Mapping(
                seq![(ItemView::TextString("signature"@), ItemView::ByteString(bytes@))],
            ),
            AuthProof::Multisig(signatures) => ItemView::Mapping(
                seq![
                    (
                        ItemView::TextString("multisig"@),
                        ItemView::Array(member_views(signatures@)),
                    ),
                ],
            ),
            AuthProof::Module(scheme) => ItemView::Mapping(
                seq![(ItemView::TextString("module"@), ItemView::TextString(scheme@))],
            ),
        }
    }

    fn into_cbor_value(self) -> (item: Item) {
        match self {
            AuthProof::Signature(bytes) => mapping1(text("signature"), Item::ByteString(bytes)),
            AuthProof::Multisig(signatures) => {
                let ghost all = signatures@;
                let mut rest = reversed(signatures);
                let mut items: Vec<Item> = Vec::new();
                while rest.len() > 0
                    invariant
                        rest@.len() + items@.len() == all.len(),
                        rest@ == all.reverse().subrange(0, rest@.len() as int),
                        forall|j: int|
                            0 <= j < items@.len() ==> (#[trigger] items@[j])@ == member_view(all[j]),
                    decreases rest.len(),
                {
                    let signature = rest.pop().unwrap();
                    let item = match signature {
                        Some(bytes) => Item::ByteString(bytes),
                        None => Item::null(),
                    };
                    items.push(item);
                }
                let members = from_items(items);
                assert(members@->Array_0 =~= member_views(all));
                mapping1(text("multisig"), members)
            },
            AuthProof::Module(scheme) => mapping1(text("module"), Item::TextString(scheme)),
        }
    }
}

/// The names of the kinds of proof differ.
proof fn lemma_kinds_differ()
    ensures
        "signature"@ != "multisig"@,
        "signature"@ != "module"@,
        "multisig"@ != "module"@,
{
    reveal_strlit("signature");
    reveal_strlit("multisig");
    reveal_strlit("module");
    assert("signature"@.len() == 9);
    assert("multisig"@.len() == 8);
    assert("module"@.len() == 6);
}

/// The signatures of the members of a multisig account, from their CBOR
/// forms.
fn members_from_items(items: Vec<Item>) -> (r: Option<Vec<Option<Vec<u8>>>>)
    ensures
        match r {
            Some(signatures) => member_views(signatures@) == items_view(items@),
            None => forall|signatures: Seq<Option<Vec<u8>>>|
                member_views(signatures) != items_view(items@),
        },
{
    let ghost all = items@;
    let mut rest = reversed(items);
    let mut signatures: Vec<Option<Vec<u8>>> = Vec::new();
    while rest.len() > 0
        invariant
            all == items@,
            rest@.len() + signatures@.len() == all.len(),
            rest@ == all.reverse().subrange(0, rest@.len() as int),
            forall|j: int|
                0 <= j < signatures@.len() ==> member_view(#[trigger] signatures@[j]) == all[j]@,
        decreases rest.len(),
    {
        let ghost at = signatures@.len() as int;
        let item = rest.pop().unwrap();
        assert(item == all[at]);
        match item {
            Item::ByteString(bytes) => {
                signatures.push(Some(bytes));
            },
            Item::Simple(Simple::NullValue) => {
                signatures.push(None);
            },
            other => {
                assert(!(other@ is ByteString));
                assert(other@ != ItemView::Simple(Simple::NullValue));
                assert(other == all[at]);
                assert forall|others: Seq<Option<Vec<u8>>>| member_views(others) != items_view(
                    all,
                ) by {
                    if member_views(others) == items_view(all) {
                        assert(member_views(others).len() == all.len());
                        assert(member_views(others)[at] == items_view(all)[at]);
                        assert(member_view(others[at]) == all[at]@);
                    }
                }
                return None;
            },
        }
    }
    assert(member_views(signatures@) =~= items_view(all));
    Some(signatures)
}

impl Decode for AuthProof {
    fn try_from_cbor_value(item: Item) -> (r: Result<Self, DecodeError>) {
        proof {
            lemma_kinds_differ();
        }
        let mut entries = match into_entries(item) {
            Some(entries) => entries,
            None => {
                return Err(DecodeError::UnexpectedType);
            },
        };
        if entries.len() != 1 {
            assert forall|value: Self| value.encoded() != item@ by {
                assert(value.encoded()->Mapping_0.len() == 1);
            }
            return Err(DecodeError::UnexpectedType);
        }
        let ghost given = entries@;
        let (key, value) = entries.pop().unwrap();
        assert((key, value) == given[0]);
        assert(item@->Mapping_0[0] == (key@, value@));
        if is_text(&key, "signature") {
            match into_bytes(value) {
                Some(bytes) => {
                    let proof_of = AuthProof::Signature(bytes);
                    assert(proof_of.encoded()->Mapping_0 =~= item@->Mapping_0);
                    Ok(proof_of)
                },
                None => {
                    assert forall|other: Self| other.encoded() != item@ by {
                        assert(other.encoded()->Mapping_0[0] != (key@, value@));
                    }
                    Err(DecodeError::UnexpectedType)
                },
            }
        } else if is_text(&key, "multisig") {
            let items = match into_items(value) {
                Some(items) => items,
                None => {
                    assert forall|other: Self| other.encoded() != item@ by {
                        assert(other.encoded()->Mapping_0[0] != (key@, value@));
                    }
                    return Err(DecodeError::UnexpectedType);
                },
            };
            match members_from_items(items) {
                Some(signatures) => {
                    let proof_of = AuthProof::Multisig(signatures);
                    assert(proof_of.encoded()->Mapping_0 =~= item@->Mapping_0);
                    Ok(proof_of)
                },
                None => {
                    assert forall|other: Self| other.encoded() != item@ by {
                        assert(other.encoded()->Mapping_0[0] != (key@, value@));
                    }
                    Err(DecodeError::UnexpectedType)
                },
            }
        } else if is_text(&key, "module") {
            match into_text(value) {
                Some(scheme) => {
                    let proof_of = AuthProof::Module(scheme);
                    assert(proof_of.encoded()->Mapping_0 =~= item@->Mapping_0);
                    Ok(proof_of)
                },
                None => {
                    assert forall|other: Self| other.encoded() != item@ by {
                        assert(other.encoded()->Mapping_0[0] != (key@, value@));
                    }
                    Err(DecodeError::UnexpectedType)
                },
            }
        } else {
            assert forall|other: Self| other.encoded() != item@ by {
                assert(other.encoded()->Mapping_0[0] != (key@, value@));
            }
            Err(DecodeError::UnknownField)
        }
    }
}

impl Encode for UnverifiedTransaction {
    open spec fn encoded(&self) -> ItemView {
        ItemView::Array(
            seq![ItemView::ByteString(self.0@), ItemView::Array(proof_views(self.1@))],
        )
    }

    fn into_cbor_value(self) -> (item: Item) {
        let ghost all = self.1@;
        let mut rest = reversed(self.1);
        let mut proofs: Vec<Item> = Vec::new();
        while rest.len() > 0
            invariant
                rest@.len() + proofs@.len() == all.len(),
                rest@ == all.reverse().subrange(0, rest@.len() as int),
                forall|j: int| 0 <= j < proofs@.len() ==> (#[trigger] proofs@[j])@ == all[j].encoded(),
            decreases rest.len(),
        {
            let proof_of = rest.pop().unwrap();
            proofs.push(proof_of.into_cbor_value());
        }
        let listed = from_items(proofs);
        assert(listed@->Array_0 =~= proof_views(all));
        let mut parts: Vec<Item> = Vec::new();
        parts.push(Item::ByteString(self.0));
        parts.push(listed);
        let item = from_items(parts);
        assert(item@->Array_0 =~= seq![ItemView::ByteString(self.0@), listed@]);
        item
    }
}

impl Decode for UnverifiedTransaction {
    fn try_from_cbor_value(item: Item) -> (r: Result<Self, DecodeError>) {
        let mut parts = match into_items(item) {
            Some(parts) => parts,
            None => {
                return Err(DecodeError::UnexpectedType);
            },
        };
        if parts.len() != 2 {
            assert forall|value: Self| value.encoded() != item@ by {
                assert(value.encoded()->Array_0.len() == 2);
            }
            return Err(DecodeError::UnexpectedType);
        }
        let ghost given = parts@;
        let listed = parts.pop().unwrap();
        let first = parts.pop().unwrap();
        assert(first == given[0] && listed == given[1]);
        assert(item@->Array_0[0] == first@ && item@->Array_0[1] == listed@);
        let body = match into_bytes(first) {
            Some(body) => body,
            None => {
                assert forall|value: Self| value.encoded() != item@ by {
                    assert(value.encoded()->Array_0[0] is ByteString);
                }
                return Err(DecodeError::UnexpectedType);
            },
        };
        let items = match into_items(listed) {
            Some(items) => items,
            None => {
                assert forall|value: Self| value.encoded() != item@ by {
                    assert(value.encoded()->Array_0[1] is Array);
                }
                return Err(DecodeError::UnexpectedType);
            },
        };
        let ghost all = items@;
        let mut rest = reversed(items);
        let mut proofs: Vec<AuthProof> = Vec::new();
        while rest.len() > 0
            invariant
                listed@ == ItemView::Array(items_view(all)),
                item@->Array_0[1] == listed@,
                item@ is Array,
                rest@.len() + proofs@.len() == all.len(),
                rest@ == all.reverse().subrange(0, rest@.len() as int),
                forall|j: int| 0 <= j < proofs@.len() ==> (#[trigger] proofs@[j]).encoded() == all[j]@,
            decreases rest.len(),
        {
            let ghost at = proofs@.len() as int;
            let next = rest.pop().unwrap();
            assert(next == all[at]);
            match AuthProof::try_from_cbor_value(next) {
                Ok(proof_of) => {
                    proofs.push(proof_of);
                },
                Err(e) => {
                    assert forall|value: Self| value.encoded() != item@ by {
                        if value.encoded() == item@ {
                            assert(value.encoded()->Array_0[1] == listed@);
                            assert(proof_views(value.1@) == items_view(all));
                            assert(proof_views(value.1@)[at] == items_view(all)[at]);
                            assert(value.1@[at].encoded() == all[at]@);
                        }
                    }
                    return Err(e);
                },
            }
        }
        let utx = UnverifiedTransaction(body, proofs);
        assert(proof_views(utx.1@) =~= items_view(all));
        assert(utx.encoded()->Array_0 =~= item@->Array_0);
        Ok(utx)
    }
}

/// What the bytes of a transaction decode to: the transaction whose CBOR
/// form the bytes hold, or the reason for which they hold none.
pub open spec fn is_unverified(
    raw: Seq<u8>,
    r: Result<UnverifiedTransaction, DecodeError>,
) -> bool {
    match cbor_decoding(raw, MAX_NESTING_LEVEL) {
        None => r == Err::<UnverifiedTransaction, DecodeError>(DecodeError::ParsingFailed),
        Some(item) => match r {
            Ok(utx) => utx.encoded() == item,
            Err(_) => forall|utx: UnverifiedTransaction| utx.encoded() != item,
        },
    }
}

/// Decodes a transaction as it arrives from its bytes.
pub fn decode_unverified(raw: &[u8]) -> (r: Result<UnverifiedTransaction, DecodeError>)
    ensures
        is_unverified(raw@, r),
{
    match from_slice(raw) {
        Some(item) => UnverifiedTransaction::try_from_cbor_value(item),
        None => Err(DecodeError::ParsingFailed),
    }
}

} // verus!
