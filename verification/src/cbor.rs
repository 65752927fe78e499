//! CBOR values as the chat logic reads them, decoding of a byte stream of
//! CBOR items (through `serde_cbor`), and lookups in CBOR maps.
use serde_cbor::Value as Item;
use vstd::prelude::*;

verus! {

broadcast use vstd::string::group_string_axioms;

/// A decoded CBOR data item. Floating-point numbers and tagged items,
/// which the chat logic never reads, are `Other`.
#[derive(Debug)]
pub enum CborValue {
    Null,
    Bool(bool),
    Integer(i128),
    Bytes(Vec<u8>),
    Text(String),
    Array(Vec<CborValue>),
    /// The entries of a map, in key order, each key once.
    Mapping(Vec<(CborValue, CborValue)>),
    Other,
}

/// `serde_cbor::Value`, a decoded CBOR item, carried through opaquely.
#[verifier::external_type_specification]
#[verifier::external_body]
pub struct ExCborItem(serde_cbor::Value);

/// The first item that `serde_cbor` decodes from `bytes`, with the number
/// of bytes it takes; `None` where `bytes` is empty or does not begin with
/// a well-formed item.
pub uninterp spec fn cbor_decode_first(bytes: Seq<u8>) -> Option<(CborValue, nat)>;

/// `serde_cbor::Value` in the library's own terms.
#[verifier::external_body]
fn from_outside(v: serde_cbor::Value) -> CborValue {
    match v {
        Item::Null => CborValue::Null,
        Item::Bool(b) => CborValue::Bool(b),
        Item::Integer(i) => CborValue::Integer(i),
        Item::Bytes(b) => CborValue::Bytes(b),
        Item::Text(t) => CborValue::Text(t),
        Item::Array(a) => CborValue::Array(a.into_iter().map(from_outside).collect()),
        Item::Map(m) => CborValue::Mapping(m.into_iter().map(|(k, x)| (from_outside(k), from_outside(x))).collect()),
        _ => CborValue::Other,
    }
}

/// Decodes the first CBOR item of `bytes[offset..]` with
/// `serde_cbor::Deserializer::into_iter::<Value>` and `next`, and reports
/// the bytes it took (`StreamDeserializer::byte_offset`). The result is
/// `cbor_decode_first` of those bytes; an item takes at least its header
/// byte and no more bytes than there are.
#[verifier::external_body]
fn decode_item_at(bytes: &[u8], offset: usize) -> (res: Option<(CborValue, usize)>)
    requires
        offset <= bytes@.len(),
    ensures
        res matches Some((v, n)) ==> cbor_decode_first(bytes@.skip(offset as int)) == Some(
            (v, n as nat),
        ) && 1 <= n <= bytes@.len() - offset,
        res is None ==> cbor_decode_first(bytes@.skip(offset as int)) is None,
{
    let mut it = serde_cbor::Deserializer::from_slice(&bytes[offset..]).into_iter::<serde_cbor::Value>();
    match it.next() {
        Some(Ok(v)) => Some((from_outside(v), it.byte_offset())),
        _ => None,
    }
}

/// The items of a CBOR sequence, decoded one after the other until the
/// bytes run out or an item fails to decode.
pub open spec fn cbor_decode_stream(bytes: Seq<u8>) -> Seq<CborValue>
    decreases bytes.len(),
{
    match cbor_decode_first(bytes) {
        Some((v, n)) => if 1 <= n <= bytes.len() {
            seq![v] + cbor_decode_stream(bytes.skip(n as int))
        } else {
            Seq::empty()
        },
        None => Seq::empty(),
    }
}

/// Decodes the CBOR items of `bytes`, in order, until the bytes run out or
/// an item fails to decode.
pub fn decode_stream(bytes: &[u8]) -> (res: Vec<CborValue>)
    ensures
        res@ == cbor_decode_stream(bytes@),
{
    let mut res: Vec<CborValue> = Vec::new();
    let mut offset: usize = 0;
    let total = bytes.len();
    assert(bytes@.skip(0) =~= bytes@);
    loop
        invariant
            total == bytes@.len(),
            offset <= bytes@.len(),
            res@ + cbor_decode_stream(bytes@.skip(offset as int)) == cbor_decode_stream(bytes@),
        decreases bytes@.len() - offset,
    {
        let ghost rest = bytes@.skip(offset as int);
        match decode_item_at(bytes, offset) {
            Some((v, n)) => {
                let ghost before = res@;
                assert(rest.skip(n as int) =~= bytes@.skip(offset + n));
                assert(cbor_decode_stream(rest) == seq![v] + cbor_decode_stream(
                    bytes@.skip(offset + n),
                ));
                res.push(v);
                offset = offset + n;
                assert(res@ + cbor_decode_stream(bytes@.skip(offset as int)) =~= before + (seq![v]
                    + cbor_decode_stream(bytes@.skip(offset as int))));
            },
            None => {
                assert(res@ + cbor_decode_stream(rest) =~= res@);
                return res;
            },
        }
    }
}

/// `k` is the text key `key`.
pub open spec fn is_text_key(k: CborValue, key: Seq<char>) -> bool {
    k matches CborValue::Text(t) && t@ == key
}

/// `k` is the integer key `key`.
pub open spec fn is_int_key(k: CborValue, key: int) -> bool {
    k matches CborValue::Integer(n) && n == key
}

/// The value under the text key `key` in a map's entries.
pub open spec fn lookup_text(entries: Seq<(CborValue, CborValue)>, key: Seq<char>) -> Option<
    CborValue,
>
    decreases entries.len(),
{
    if entries.len() == 0 {
        None
    } else if is_text_key(entries[0].0, key) {
        Some(entries[0].1)
    } else {
        lookup_text(entries.drop_first(), key)
    }
}

/// The value under the integer key `key` in a map's entries.
pub open spec fn lookup_int(entries: Seq<(CborValue, CborValue)>, key: int) -> Option<CborValue>
    decreases entries.len(),
{
    if entries.len() == 0 {
        None
    } else if is_int_key(entries[0].0, key) {
        Some(entries[0].1)
    } else {
        lookup_int(entries.drop_first(), key)
    }
}

/// The value under the text key `key` (`BTreeMap::get` with `Value::Text`).
pub fn get_text<'a>(entries: &'a Vec<(CborValue, CborValue)>, key: &str) -> (res: Option<
    &'a CborValue,
>)
    ensures
        res matches Some(v) ==> lookup_text(entries@, key@) == Some(*v),
        res is None ==> lookup_text(entries@, key@) is None,
{
    let k = key.to_string();
    let mut i: usize = 0;
    assert(entries@.skip(0) =~= entries@);
    while i < entries.len()
        invariant
            i <= entries@.len(),
            k@ == key@,
            lookup_text(entries@.skip(i as int), key@) == lookup_text(entries@, key@),
        decreases entries@.len() - i,
    {
        assert(entries@.skip(i as int)[0] == entries@[i as int]);
        let matched = match &entries[i].0 {
            CborValue::Text(t) => *t == k,
            _ => false,
        };
        if matched {
            return Some(&entries[i].1);
        }
        assert(entries@.skip(i as int).drop_first() =~= entries@.skip(i + 1));
        i = i + 1;
    }
    None
}

/// The value under the integer key `key` (`BTreeMap::get` with
/// `Value::Integer`).
pub fn get_int<'a>(entries: &'a Vec<(CborValue, CborValue)>, key: i128) -> (res: Option<
    &'a CborValue,
>)
    ensures
        res matches Some(v) ==> lookup_int(entries@, key as int) == Some(*v),
        res is None ==> lookup_int(entries@, key as int) is None,
{
    let mut i: usize = 0;
    assert(entries@.skip(0) =~= entries@);
    while i < entries.len()
        invariant
            i <= entries@.len(),
            lookup_int(entries@.skip(i as int), key as int) == lookup_int(entries@, key as int),
        decreases entries@.len() - i,
    {
        assert(entries@.skip(i as int)[0] == entries@[i as int]);
        let matched = match &entries[i].0 {
            CborValue::Integer(n) => *n == key,
            _ => false,
        };
        if matched {
            return Some(&entries[i].1);
        }
        assert(entries@.skip(i as int).drop_first() =~= entries@.skip(i + 1));
        i = i + 1;
    }
    None
}

} // verus!
