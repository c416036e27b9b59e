//! CBOR values and their wire encoding.
//!
//! Everything that crosses the wire or is persisted (transactions, call
//! results, events, parameters) is CBOR. The library works on [`Item`],
//! a CBOR data item with its children; the byte encoding itself is done by the
//! `oasis-cbor-value` crate.

use vstd::prelude::*;
use oasis_cbor_value::Value as Outside;

verus! {

/// The simple values of CBOR.
#[derive(PartialEq, Eq, Structural, Clone, Copy, Debug)]
pub enum Simple {
    FalseValue,
    TrueValue,
    NullValue,
    Undefined,
}

/// A CBOR data item.
#[derive(Debug)]
pub enum Item {
    /// Unsigned integer.
    Unsigned(u64),
    /// Negative integer; on the wire from `-2^64` to `-1`.
    Negative(i128),
    /// Byte string.
    ByteString(Vec<u8>),
    /// Text string.
    TextString(String),
    /// Array of items.
    Array(Vec<Item>),
    /// Key-value pairs.
    Mapping(Vec<(Item, Item)>),
    /// Tagged item.
    Tag(u64, Box<Item>),
    /// Simple value.
    Simple(Simple),
}

/// The mathematical content of a [`Item`].
pub enum ItemView {
    Unsigned(u64),
    Negative(i128),
    ByteString(Seq<u8>),
    TextString(Seq<char>),
    Array(Seq<ItemView>),
    Mapping(Seq<(ItemView, ItemView)>),
    Tag(u64, Box<ItemView>),
    Simple(Simple),
}

/// The least negative integer that CBOR carries, `-2^64`.
pub open spec fn negative_min() -> int {
    -0x1_0000_0000_0000_0000
}

impl Item {
    /// The content of the item, children included.
    pub open spec fn model(&self) -> ItemView
        decreases self,
    {
        match self {
            Item::Unsigned(n) => ItemView::Unsigned(*n),
            Item::Negative(n) => ItemView::Negative(*n),
            Item::ByteString(b) => ItemView::ByteString(b@),
            Item::TextString(s) => ItemView::TextString(s@),
            Item::Array(a) => ItemView::Array(
                Seq::new(
                    a@.len(),
                    |i: int|
                        if 0 <= i < a@.len() {
                            a@[i].model()
                        } else {
                            ItemView::Simple(Simple::Undefined)
                        },
                ),
            ),
            Item::Mapping(m) => ItemView::Mapping(
                Seq::new(
                    m@.len(),
                    |i: int|
                        if 0 <= i < m@.len() {
                            (m@[i].0.model(), m@[i].1.model())
                        } else {
                            (
                                ItemView::Simple(Simple::Undefined),
                                ItemView::Simple(Simple::Undefined),
                            )
                        },
                ),
            ),
            Item::Tag(t, inner) => ItemView::Tag(*t, Box::new(inner.model())),
            Item::Simple(s) => ItemView::Simple(*s),
        }
    }

    /// The null value.
    pub fn null() -> (value: Item)
        ensures
            value@ == ItemView::Simple(Simple::NullValue),
    {
        Item::Simple(Simple::NullValue)
    }

    /// A copy of the item, children included.
    pub fn duplicate(&self) -> (copy: Item)
        ensures
            copy@ == self@,
        decreases self,
    {
        match self {
            Item::Unsigned(n) => Item::Unsigned(*n),
            Item::Negative(n) => Item::Negative(*n),
            Item::ByteString(b) => {
                let mut bytes: Vec<u8> = Vec::new();
                bytes.extend_from_slice(b.as_slice());
                assert(bytes@ =~= b@);
                Item::ByteString(bytes)
            },
            Item::TextString(s) => {
                let copy = Item::TextString(s.clone());
                assert(copy@ == self@);
                copy
            },
            Item::Array(a) => {
                let mut items: Vec<Item> = Vec::new();
                let mut i: usize = 0;
                while i < a.len()
                    invariant
                        i <= a.len(),
                        self == Item::Array(*a),
                        items@.len() == i,
                        forall|j: int| 0 <= j < i ==> (#[trigger] items@[j]).model() == a@[j].model(),
                    decreases a.len() - i,
                {
                    let item = &a[i];
                    assert(self is Array && self->Array_0 == *a);
                    items.push(item.duplicate());
                    i += 1;
                }
                let copy = Item::Array(items);
                assert(copy@->Array_0 =~= self@->Array_0);
                copy
            },
            Item::Mapping(m) => {
                let mut entries: Vec<(Item, Item)> = Vec::new();
                let mut i: usize = 0;
                while i < m.len()
                    invariant
                        i <= m.len(),
                        self == Item::Mapping(*m),
                        entries@.len() == i,
                        forall|j: int|
                            0 <= j < i ==> (#[trigger] entries@[j]).0.model() == m@[j].0.model()
                                && entries@[j].1.model() == m@[j].1.model(),
                    decreases m.len() - i,
                {
                    let entry = &m[i];
                    assert(self is Mapping && self->Mapping_0 == *m);
                    entries.push((entry.0.duplicate(), entry.1.duplicate()));
                    i += 1;
                }
                let copy = Item::Mapping(entries);
                assert(copy@->Mapping_0 =~= self@->Mapping_0);
                copy
            },
            Item::Tag(t, inner) => {
                let copy = Item::Tag(*t, Box::new(inner.duplicate()));
                assert(copy@ == self@);
                copy
            },
            Item::Simple(s) => Item::Simple(*s),
        }
    }

    /// Whether every negative integer in the item is one that CBOR can
    /// carry.
    pub fn is_representable(&self) -> (ok: bool)
        ensures
            ok == representable(self@),
        decreases self,
    {
        match self {
            Item::Negative(n) => -0x1_0000_0000_0000_0000 <= *n && *n <= -1,
            Item::Array(a) => {
                let mut i: usize = 0;
                while i < a.len()
                    invariant
                        i <= a.len(),
                        self == Item::Array(*a),
                        forall|j: int| 0 <= j < i ==> representable(#[trigger] a@[j].model()),
                    decreases a.len() - i,
                {
                    if !a[i].is_representable() {
                        assert(self@->Array_0[i as int] == a@[i as int].model());
                        return false;
                    }
                    i += 1;
                }
                assert forall|j: int| 0 <= j < self@->Array_0.len() implies representable(
                    #[trigger] self@->Array_0[j],
                ) by {
                    assert(self@->Array_0[j] == a@[j].model());
                }
                true
            },
            Item::Mapping(m) => {
                let mut i: usize = 0;
                while i < m.len()
                    invariant
                        i <= m.len(),
                        self == Item::Mapping(*m),
                        forall|j: int|
                            0 <= j < i ==> representable(#[trigger] m@[j].0.model())
                                && representable(m@[j].1.model()),
                    decreases m.len() - i,
                {
                    if !m[i].0.is_representable() || !m[i].1.is_representable() {
                        assert(self@->Mapping_0[i as int] == (
                            m@[i as int].0.model(),
                            m@[i as int].1.model(),
                        ));
                        return false;
                    }
                    i += 1;
                }
                assert forall|j: int| 0 <= j < self@->Mapping_0.len() implies representable(
                    (#[trigger] self@->Mapping_0[j]).0,
                ) && representable(self@->Mapping_0[j].1) by {
                    assert(self@->Mapping_0[j] == (m@[j].0.model(), m@[j].1.model()));
                }
                true
            },
            Item::Tag(_, inner) => inner.is_representable(),
            _ => true,
        }
    }
}

impl View for Item {
    type V = ItemView;

    open spec fn view(&self) -> ItemView {
        self.model()
    }
}

/// Every negative integer in the item lies between `-2^64` and `-1`.
pub open spec fn representable(value: ItemView) -> bool
    decreases value,
{
    match value {
        ItemView::Negative(n) => negative_min() <= n <= -1,
        ItemView::Array(a) => forall|i: int| 0 <= i < a.len() ==> representable(#[trigger] a[i]),
        ItemView::Mapping(m) => forall|i: int|
            0 <= i < m.len() ==> representable((#[trigger] m[i]).0) && representable(m[i].1),
        ItemView::Tag(_, inner) => representable(*inner),
        _ => true,
    }
}

/// Why an item has no encoding.
#[derive(PartialEq, Eq, Structural, Clone, Copy, Debug)]
pub enum EncoderError {
    /// The item is nested more deeply than the encoder goes.
    TooMuchNesting,
    /// A mapping holds the same key twice.
    DuplicateMapKey,
}

/// Nesting depth up to which encoded data is read.
pub const MAX_NESTING_LEVEL: i8 = 64;

/// The data items of `oasis-cbor-value`, as its reader and writer take them.
#[verifier::external_type_specification]
#[verifier::external_body]
pub struct ExCborValue(oasis_cbor_value::Value);

/// The simple values of `oasis-cbor-value`.
#[verifier::external_type_specification]
#[verifier::external_body]
pub struct ExCborSimpleValue(oasis_cbor_value::SimpleValue);

/// The bytes that `oasis_cbor_value::writer::write` produces for an item,
/// or the reason for which it refuses the item.
pub uninterp spec fn cbor_encoding(value: ItemView) -> Result<Seq<u8>, EncoderError>;

/// The item that `oasis_cbor_value::reader::read_nested` reads from the
/// data when it goes down to the given depth, `None` where it rejects the
/// data.
pub uninterp spec fn cbor_decoding(data: Seq<u8>, max_nest: i8) -> Option<ItemView>;

/// Rebuilds a simple value as the one of `oasis-cbor-value` with the same
/// name.
#[verifier::external_body]
fn simple_to_outside(value: &Simple) -> oasis_cbor_value::SimpleValue {
    match value {
        Simple::FalseValue => oasis_cbor_value::SimpleValue::FalseValue,
        Simple::TrueValue => oasis_cbor_value::SimpleValue::TrueValue,
        Simple::NullValue => oasis_cbor_value::SimpleValue::NullValue,
        Simple::Undefined => oasis_cbor_value::SimpleValue::Undefined,
    }
}

/// Rebuilds a simple value of `oasis-cbor-value` as the one of this
/// library with the same name.
#[verifier::external_body]
fn simple_from_outside(value: oasis_cbor_value::SimpleValue) -> Simple {
    match value {
        oasis_cbor_value::SimpleValue::FalseValue => Simple::FalseValue,
        oasis_cbor_value::SimpleValue::TrueValue => Simple::TrueValue,
        oasis_cbor_value::SimpleValue::NullValue => Simple::NullValue,
        oasis_cbor_value::SimpleValue::Undefined => Simple::Undefined,
    }
}

/// Rebuilds an item as a `oasis_cbor_value::Value`, variant for variant.
#[verifier::external_body]
fn to_outside(value: &Item) -> oasis_cbor_value::Value {
    match value {
        Item::Unsigned(n) => Outside::Unsigned(*n),
        Item::Negative(n) => Outside::Negative(*n),
        Item::ByteString(b) => Outside::ByteString(b.clone()),
        Item::TextString(s) => Outside::TextString(s.clone()),
        Item::Array(a) => Outside::Array(a.iter().map(to_outside).collect()),
        Item::Mapping(m) => Outside::Map(
            m.iter().map(|e| (to_outside(&e.0), to_outside(&e.1))).collect(),
        ),
        Item::Tag(t, inner) => Outside::Tag(*t, Box::new(to_outside(inner))),
        Item::Simple(s) => Outside::Simple(simple_to_outside(s)),
    }
}

/// Rebuilds a `oasis_cbor_value::Value` as an item of this library,
/// variant for variant.
#[verifier::external_body]
fn from_outside(value: oasis_cbor_value::Value) -> Item {
    match value {
        Outside::Unsigned(n) => Item::Unsigned(n),
        Outside::Negative(n) => Item::Negative(n),
        Outside::ByteString(b) => Item::ByteString(b),
        Outside::TextString(s) => Item::TextString(s),
        Outside::Array(a) => Item::Array(a.into_iter().map(from_outside).collect()),
        Outside::Map(m) => Item::Mapping(
            m.into_iter().map(|e| (from_outside(e.0), from_outside(e.1))).collect(),
        ),
        Outside::Tag(t, inner) => Item::Tag(t, Box::new(from_outside(*inner))),
        Outside::Simple(s) => Item::Simple(simple_from_outside(s)),
    }
}

/// Calls `oasis_cbor_value::writer::write` on the item. The result is what
/// that function appends to an empty vector, or the error it returns: the
/// writer refuses an item nested more than 127 deep and a mapping with a
/// repeated key. Negative integers outside the range of CBOR are kept out,
/// because the writer computes `-(n + 1)` on them.
#[verifier::external_body]
fn write(value: &Item) -> (r: Result<Vec<u8>, EncoderError>)
    requires
        representable(value@),
    ensures
        match r {
            Ok(data) => cbor_encoding(value@) == Ok::<Seq<u8>, EncoderError>(data@),
            Err(e) => cbor_encoding(value@) == Err::<Seq<u8>, EncoderError>(e),
        },
{
    let mut data = Vec::new();
    match oasis_cbor_value::writer::write(to_outside(value), &mut data) {
        Ok(()) => Ok(data),
        Err(oasis_cbor_value::writer::EncoderError::TooMuchNesting) => Err(
            EncoderError::TooMuchNesting,
        ),
        Err(oasis_cbor_value::writer::EncoderError::DuplicateMapKey) => Err(
            EncoderError::DuplicateMapKey,
        ),
    }
}

/// Calls `oasis_cbor_value::reader::read_nested` on the data with the
/// given depth. The reader accepts one complete item in canonical form
/// with nothing after it. A negative integer that it returns was computed
/// as `-n - 1` from a 64-bit `n`, so the item is representable.
#[verifier::external_body]
fn read_nested(data: &[u8], max_nest: i8) -> (r: Option<Item>)
    ensures
        match r {
            Some(value) => cbor_decoding(data@, max_nest) == Some(value@) && representable(
                value@,
            ),
            None => cbor_decoding(data@, max_nest) is None,
        },
{
    match oasis_cbor_value::reader::read_nested(data, Some(max_nest)) {
        Ok(value) => Some(from_outside(value)),
        Err(_) => None,
    }
}

/// Encodes an item. An item that holds a negative integer outside the
/// range of CBOR has no encoding and is refused as too deeply nested
/// items and repeated keys are.
pub fn to_vec(value: &Item) -> (r: Option<Vec<u8>>)
    ensures
        match r {
            Some(data) => representable(value@) && cbor_encoding(value@) == Ok::<
                Seq<u8>,
                EncoderError,
            >(data@),
            None => !representable(value@) || cbor_encoding(value@) is Err,
        },
{
    if !value.is_representable() {
        return None;
    }
    match write(value) {
        Ok(data) => Some(data),
        Err(_) => None,
    }
}

/// Decodes one item from the data, down to [`MAX_NESTING_LEVEL`] levels.
pub fn from_slice(data: &[u8]) -> (r: Option<Item>)
    ensures
        match r {
            Some(value) => cbor_decoding(data@, MAX_NESTING_LEVEL) == Some(value@)
                && representable(value@),
            None => cbor_decoding(data@, MAX_NESTING_LEVEL) is None,
        },
{
    read_nested(data, MAX_NESTING_LEVEL)
}

/// Why an item is not the value that was expected.
#[derive(PartialEq, Eq, Structural, Clone, Copy, Debug)]
pub enum DecodeError {
    ParsingFailed,
    UnexpectedType,
    MissingField,
    UnknownField,
    UnexpectedIntegerSize,
}

impl DecodeError {
    /// The error in words.
    pub fn message(&self) -> (text: &'static str)
        ensures
            text@ == decode_error_text(*self),
    {
        match self {
            DecodeError::ParsingFailed => "parsing failed",
            DecodeError::UnexpectedType => "unexpected type",
            DecodeError::MissingField => "missing field",
            DecodeError::UnknownField => "unknown field",
            DecodeError::UnexpectedIntegerSize => "unexpected integer size",
        }
    }
}

/// A decoding error in words.
pub open spec fn decode_error_text(e: DecodeError) -> Seq<char> {
    match e {
        DecodeError::ParsingFailed => "parsing failed"@,
        DecodeError::UnexpectedType => "unexpected type"@,
        DecodeError::MissingField => "missing field"@,
        DecodeError::UnknownField => "unknown field"@,
        DecodeError::UnexpectedIntegerSize => "unexpected integer size"@,
    }
}

/// A value that has a CBOR form.
pub trait Encode: Sized {
    /// The CBOR form of the value.
    spec fn encoded(&self) -> ItemView;

    fn into_cbor_value(self) -> (item: Item)
        ensures
            item@ == self.encoded(),
    ;
}

/// A value that can be read from its CBOR form.
pub trait Decode: Encode {
    /// Reads the value from an item. An item is accepted only if it is
    /// the CBOR form of a value.
    fn try_from_cbor_value(item: Item) -> (r: Result<Self, DecodeError>)
        ensures
            match r {
                Ok(value) => value.encoded() == item@,
                Err(_) => forall|value: Self| value.encoded() != item@,
            },
    ;
}

impl Encode for Item {
    open spec fn encoded(&self) -> ItemView {
        self@
    }

    fn into_cbor_value(self) -> (item: Item) {
        self
    }
}

impl Decode for Item {
    fn try_from_cbor_value(item: Item) -> (r: Result<Self, DecodeError>) {
        Ok(item)
    }
}

impl Encode for () {
    open spec fn encoded(&self) -> ItemView {
        ItemView::Simple(Simple::NullValue)
    }

    fn into_cbor_value(self) -> (item: Item) {
        Item::Simple(Simple::NullValue)
    }
}

impl Encode for u64 {
    open spec fn encoded(&self) -> ItemView {
        ItemView::Unsigned(*self)
    }

    fn into_cbor_value(self) -> (item: Item) {
        Item::Unsigned(self)
    }
}

impl Decode for u64 {
    fn try_from_cbor_value(item: Item) -> (r: Result<Self, DecodeError>) {
        match item {
            Item::Unsigned(n) => Ok(n),
            _ => Err(DecodeError::UnexpectedType),
        }
    }
}

/// A text item.
pub fn text(s: &str) -> (item: Item)
    ensures
        item@ == ItemView::TextString(s@),
{
    Item::TextString(s.to_owned())
}

/// A mapping with one entry.
pub fn mapping1(key: Item, value: Item) -> (item: Item)
    ensures
        item@ == ItemView::Mapping(seq![(key@, value@)]),
{
    let mut entries: Vec<(Item, Item)> = Vec::new();
    entries.push((key, value));
    let item = Item::Mapping(entries);
    assert(item@->Mapping_0 =~= seq![(key@, value@)]);
    item
}

/// The contents of the entries of a mapping.
pub open spec fn entries_view(entries: Seq<(Item, Item)>) -> Seq<(ItemView, ItemView)> {
    Seq::new(entries.len(), |i: int| (entries[i].0@, entries[i].1@))
}

/// The contents of the items of an array.
pub open spec fn items_view(items: Seq<Item>) -> Seq<ItemView> {
    Seq::new(items.len(), |i: int| items[i]@)
}

/// A mapping with the given entries.
pub fn from_entries(entries: Vec<(Item, Item)>) -> (item: Item)
    ensures
        item@ == ItemView::Mapping(entries_view(entries@)),
{
    let item = Item::Mapping(entries);
    assert(item@->Mapping_0 =~= entries_view(entries@));
    item
}

/// The entries of a mapping; `None` for any other item.
pub fn into_entries(item: Item) -> (r: Option<Vec<(Item, Item)>>)
    ensures
        match r {
            Some(entries) => item@ == ItemView::Mapping(entries_view(entries@)),
            None => !(item@ is Mapping),
        },
{
    match item {
        Item::Mapping(entries) => {
            assert(item@->Mapping_0 =~= entries_view(entries@));
            Some(entries)
        },
        _ => None,
    }
}

/// An array of the given items.
pub fn from_items(items: Vec<Item>) -> (item: Item)
    ensures
        item@ == ItemView::Array(items_view(items@)),
{
    let item = Item::Array(items);
    assert(item@->Array_0 =~= items_view(items@));
    item
}

/// The items of an array; `None` for any other item.
pub fn into_items(item: Item) -> (r: Option<Vec<Item>>)
    ensures
        match r {
            Some(items) => item@ == ItemView::Array(items_view(items@)),
            None => !(item@ is Array),
        },
{
    match item {
        Item::Array(items) => {
            assert(item@->Array_0 =~= items_view(items@));
            Some(items)
        },
        _ => None,
    }
}

/// The text of a text item; `None` for any other item.
pub fn into_text(item: Item) -> (r: Option<String>)
    ensures
        match r {
            Some(s) => item@ == ItemView::TextString(s@),
            None => !(item@ is TextString),
        },
{
    match item {
        Item::TextString(s) => Some(s),
        _ => None,
    }
}

/// The bytes of a byte string; `None` for any other item.
pub fn into_bytes(item: Item) -> (r: Option<Vec<u8>>)
    ensures
        match r {
            Some(b) => item@ == ItemView::ByteString(b@),
            None => !(item@ is ByteString),
        },
{
    match item {
        Item::ByteString(b) => Some(b),
        _ => None,
    }
}

/// The number of an unsigned integer; `None` for any other item.
pub fn into_unsigned(item: Item) -> (r: Option<u64>)
    ensures
        match r {
            Some(n) => item@ == ItemView::Unsigned(n),
            None => !(item@ is Unsigned),
        },
{
    match item {
        Item::Unsigned(n) => Some(n),
        _ => None,
    }
}

/// Whether the item is the given text.
pub fn is_text(item: &Item, expected: &str) -> (yes: bool)
    ensures
        yes == (item@ == ItemView::TextString(expected@)),
{
    match item {
        Item::TextString(s) => crate::text::str_eq(s.as_str(), expected),
        _ => false,
    }
}

/// The elements in opposite order.
pub fn reversed<T>(v: Vec<T>) -> (r: Vec<T>)
    ensures
        r@ == v@.reverse(),
{
    let mut rest = v;
    let mut out: Vec<T> = Vec::new();
    while rest.len() > 0
        invariant
            rest@.len() + out@.len() == v@.len(),
            rest@ == v@.subrange(0, rest@.len() as int),
            forall|j: int| 0 <= j < out@.len() ==> out@[j] == v@[v@.len() - 1 - j],
        decreases rest.len(),
    {
        let last = rest.pop().unwrap();
        out.push(last);
    }
    assert(out@ =~= v@.reverse());
    out
}

/// The CBOR form of a record: a mapping from the names of the fields to
/// their values, in the order given.
pub open spec fn record_view(keys: Seq<&'static str>, values: Seq<ItemView>) -> ItemView {
    ItemView::Mapping(Seq::new(keys.len(), |i: int| (ItemView::TextString(keys[i]@), values[i])))
}

/// A record with the given fields.
pub fn from_record(keys: &[&'static str], values: Vec<Item>) -> (item: Item)
    requires
        keys@.len() == values@.len(),
    ensures
        item@ == record_view(keys@, items_view(values@)),
{
    let ghost all = values@;
    let mut rest = reversed(values);
    let mut entries: Vec<(Item, Item)> = Vec::new();
    while rest.len() > 0
        invariant
            keys@.len() == all.len(),
            rest@.len() + entries@.len() == all.len(),
            rest@ == all.reverse().subrange(0, rest@.len() as int),
            forall|j: int|
                0 <= j < entries@.len() ==> (#[trigger] entries@[j]).0@ == ItemView::TextString(
                    keys@[j]@,
                ) && entries@[j].1 == all[j],
        decreases rest.len(),
    {
        let value = rest.pop().unwrap();
        let key = text(keys[entries.len()]);
        entries.push((key, value));
    }
    let item = from_entries(entries);
    assert(item@->Mapping_0 =~= record_view(keys@, items_view(all))->Mapping_0);
    item
}

/// The values of the fields of a record with the given names, in order;
/// `None` for an item that is no such record.
pub fn into_record(item: Item, keys: &[&'static str]) -> (r: Option<Vec<Item>>)
    ensures
        match r {
            Some(values) => values@.len() == keys@.len() && item@ == record_view(
                keys@,
                items_view(values@),
            ),
            None => forall|values: Seq<ItemView>| item@ != #[trigger] record_view(keys@, values),
        },
{
    let given = match into_entries(item) {
        Some(entries) => entries,
        None => {
            return None;
        },
    };
    if given.len() != keys.len() {
        assert forall|values: Seq<ItemView>| item@ != #[trigger] record_view(keys@, values) by {
            assert(record_view(keys@, values)->Mapping_0.len() == keys@.len());
        }
        return None;
    }
    let ghost all = given@;
    let mut rest = reversed(given);
    let mut values: Vec<Item> = Vec::new();
    while rest.len() > 0
        invariant
            item@ == ItemView::Mapping(entries_view(all)),
            keys@.len() == all.len(),
            rest@.len() + values@.len() == all.len(),
            rest@ == all.reverse().subrange(0, rest@.len() as int),
            forall|j: int|
                0 <= j < values@.len() ==> (#[trigger] all[j]).0@ == ItemView::TextString(
                    keys@[j]@,
                ) && values@[j] == all[j].1,
        decreases rest.len(),
    {
        let ghost at = values@.len() as int;
        let (key, value) = rest.pop().unwrap();
        assert((key, value) == all[at]);
        let expected = keys[values.len()];
        if !is_text(&key, expected) {
            assert forall|other: Seq<ItemView>| item@ != #[trigger] record_view(keys@, other) by {
                if item@ == record_view(keys@, other) {
                    assert(record_view(keys@, other)->Mapping_0[at] == entries_view(all)[at]);
                }
            }
            return None;
        }
        let ghost before = values@;
        values.push(value);
        assert forall|j: int| 0 <= j < values@.len() implies (#[trigger] all[j]).0@
            == ItemView::TextString(keys@[j]@) && values@[j] == all[j].1 by {
            if j < at {
                assert(before[j] == all[j].1);
            }
        }
    }
    assert(item@->Mapping_0 =~= record_view(keys@, items_view(values@))->Mapping_0);
    Some(values)
}

/// The number of entries of a mapping; `None` for any other item.
pub fn entry_count(item: &Item) -> (r: Option<usize>)
    ensures
        match r {
            Some(n) => item@ is Mapping && item@->Mapping_0.len() == n,
            None => !(item@ is Mapping),
        },
{
    match item {
        Item::Mapping(entries) => Some(entries.len()),
        _ => None,
    }
}

/// Reads a value back from its own CBOR form. Decoding what was encoded
/// succeeds, and gives a value with the same CBOR form.
pub fn decode_encoded<T: Decode>(value: T) -> (r: Result<T, DecodeError>)
    ensures
        r matches Ok(back) && back.encoded() == value.encoded(),
{
    let item = value.into_cbor_value();
    T::try_from_cbor_value(item)
}

} // verus!
