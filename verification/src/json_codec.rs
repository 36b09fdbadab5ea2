//! The boundary with `serde_json`: reading text into JSON values and writing
//! JSON values as text.

use serde_json::Value;
use vstd::prelude::*;

use vstd::utf8::{
    decode_utf8, encode_utf8, encode_utf8_decode_utf8, encode_utf8_valid_utf8, valid_utf8,
};

use crate::json::{
    entries_view, float_bits, items_view, opt_owned, FloatNumber, Json, JsonNumber, JsonSpec,
    NumberSpec,
};

verus! {

/// `serde_json::Value`, the tree that `serde_json` reads and writes.
#[verifier::external_type_specification]
#[verifier::external_body]
pub struct ExValue(Value);

/// The JSON value that a `serde_json::Value` holds.
pub uninterp spec fn value_tree(v: Value) -> JsonSpec;

/// One level of a `serde_json::Value`.
pub enum Layer {
    Null,
    Bool(bool),
    Number(JsonNumber),
    Str(String),
    Array(Vec<Value>),
    Object(Vec<(String, Value)>),
}

/// The JSON values that several `serde_json::Value`s hold.
pub open spec fn value_items(items: Seq<Value>) -> Seq<JsonSpec> {
    Seq::new(items.len(), |i: int| value_tree(items[i]))
}

/// The object that entries make, the later of two equal keys counting.
pub open spec fn value_entries(entries: Seq<(String, Value)>) -> Map<
    Seq<char>,
    JsonSpec,
>
    decreases entries.len(),
{
    if entries.len() == 0 {
        Map::empty()
    } else {
        value_entries(entries.drop_last()).insert(
            entries.last().0@,
            value_tree(entries.last().1),
        )
    }
}

/// The JSON value that one level and the values below it make.
pub open spec fn layer_tree(l: Layer) -> JsonSpec {
    match l {
        Layer::Null => JsonSpec::Null,
        Layer::Bool(b) => JsonSpec::Bool(b),
        Layer::Number(n) => JsonSpec::Number(n@),
        Layer::Str(s) => JsonSpec::Str(s@),
        Layer::Array(items) => JsonSpec::Array(value_items(items@)),
        Layer::Object(entries) => JsonSpec::Object(value_entries(entries@)),
    }
}

/// No key stands twice among the entries of a level.
pub open spec fn distinct_keys(entries: Seq<(String, Value)>) -> bool {
    forall|i: int, j: int|
        0 <= i < j < entries.len() ==> (#[trigger] entries[i]).0@ != (#[trigger] entries[j]).0@
}

/// Takes a `serde_json::Value` apart by its variants. Its numbers are told
/// apart by `Number::as_u64`, `as_i64` and `as_f64`, so that one which is kept as
/// a `FloatNumber` is not an integer form and has the bits kept with it;
/// `serde_json::Map` holds each key once.
#[verifier::external_body]
fn unfold(v: Value) -> (r: Layer)
    ensures
        layer_tree(r) == value_tree(v),
        r matches Layer::Object(entries) ==> distinct_keys(entries@),
        r matches Layer::Number(JsonNumber::Float(f)) ==> float_bits(f.number) == Some(f.bits),
{
    match v {
        Value::Null => Layer::Null,
        Value::Bool(b) => Layer::Bool(b),
        Value::Number(n) => match (n.as_u64(), n.as_i64(), n.as_f64()) {
            (Some(u), _, _) => Layer::Number(JsonNumber::Unsigned(u)),
            (None, Some(i), _) => Layer::Number(JsonNumber::Signed(i)),
            (None, None, f) => Layer::Number(
                JsonNumber::Float(FloatNumber { bits: f.unwrap_or_default().to_bits(), number: n }),
            ),
        },
        Value::String(s) => Layer::Str(s),
        Value::Array(items) => Layer::Array(items),
        Value::Object(map) => Layer::Object(map.into_iter().collect()),
    }
}

/// Puts a `serde_json::Value` together from one level. `Value::from` on an
/// integer, and the variants of `serde_json::Value`, hold just what they are given;
/// collecting into a `serde_json::Map` inserts the entries in order.
#[verifier::external_body]
fn fold(l: Layer) -> (r: Value)
    requires
        l matches Layer::Number(JsonNumber::Float(f)) ==> f.agrees(),
    ensures
        value_tree(r) == layer_tree(l),
{
    match l {
        Layer::Null => Value::Null,
        Layer::Bool(b) => Value::Bool(b),
        Layer::Number(JsonNumber::Unsigned(n)) => Value::from(n),
        Layer::Number(JsonNumber::Signed(n)) => Value::from(n),
        Layer::Number(JsonNumber::Float(f)) => Value::Number(f.number),
        Layer::Str(s) => Value::String(s),
        Layer::Array(items) => Value::Array(items),
        Layer::Object(entries) => Value::Object(entries.into_iter().collect()),
    }
}

/// Every entry of a level stands in the object that they make.
proof fn lemma_entries_contain(entries: Seq<(String, Value)>, i: int)
    requires
        distinct_keys(entries),
        0 <= i < entries.len(),
    ensures
        value_entries(entries).contains_key(entries[i].0@),
        value_entries(entries)[entries[i].0@] == value_tree(entries[i].1),
        value_entries(entries).dom().finite(),
    decreases entries.len(),
{
    lemma_entries_finite(entries);
    if i < entries.len() - 1 {
        lemma_entries_contain(entries.drop_last(), i);
        assert(entries.drop_last()[i] == entries[i]);
        assert(entries[i].0@ != entries[entries.len() - 1].0@);
    }
}

proof fn lemma_entries_finite(entries: Seq<(String, Value)>)
    ensures
        value_entries(entries).dom().finite(),
    decreases entries.len(),
{
    if entries.len() > 0 {
        lemma_entries_finite(entries.drop_last());
    }
}

/// The JSON value that a `serde_json::Value` holds.
pub fn from_value(v: Value) -> (r: Json)
    ensures
        r@ == value_tree(v),
    decreases value_tree(v),
{
    let ghost whole = value_tree(v);
    match unfold(v) {
        Layer::Null => Json::Null,
        Layer::Bool(b) => Json::Bool(b),
        Layer::Number(n) => Json::Number(n),
        Layer::Str(s) => Json::Str(s),
        Layer::Array(items) => {
            let ghost all = items@;
            let mut out: Vec<Json> = Vec::new();
            for x in it: items
                invariant
                    it.seq() == all,
                    whole == value_tree(v),
                    whole == JsonSpec::Array(value_items(all)),
                    items_view(out@) == value_items(all).take(it.index() as int),
            {
                let ghost k = it.index() as int;
                proof {
                    assert(value_items(all)[k] == value_tree(x));
                    assert(decreases_to!(whole => whole->Array_0));
                    assert(decreases_to!(whole->Array_0 => value_items(all)[k]));
                }
                let j = from_value(x);
                proof {
                    crate::json::lemma_items_push(out@, j);
                }
                out.push(j);
                proof {
                    assert(items_view(out@) =~= value_items(all).take(k + 1));
                }
            }
            proof {
                assert(value_items(all).take(all.len() as int) =~= value_items(all));
            }
            Json::Array(out)
        },
        Layer::Object(entries) => {
            let ghost all = entries@;
            let mut out: Vec<(String, Json)> = Vec::new();
            proof {
                assert(all.take(0) =~= Seq::empty());
            }
            for e in it: entries
                invariant
                    it.seq() == all,
                    distinct_keys(all),
                    whole == value_tree(v),
                    whole == JsonSpec::Object(value_entries(all)),
                    entries_view(out@) == value_entries(all.take(it.index() as int)),
            {
                let ghost k = it.index() as int;
                proof {
                    lemma_entries_contain(all, k);
                    assert(decreases_to!(whole => whole->Object_0));
                    assert(decreases_to!(whole->Object_0 => value_entries(all)[all[k].0@]));
                }
                let (key, x) = e;
                let j = from_value(x);
                let ghost before = out@;
                out.push((key, j));
                proof {
                    assert(out@.drop_last() =~= before);
                    assert(all.take(k + 1).drop_last() =~= all.take(k));
                }
            }
            proof {
                assert(all.take(all.len() as int) =~= all);
            }
            Json::Object(out)
        },
    }
}

/// The `serde_json::Value` that holds a JSON value.
pub fn to_value(j: &Json) -> (r: Value)
    ensures
        value_tree(r) == j@,
    decreases j,
{
    match j {
        Json::Null => fold(Layer::Null),
        Json::Bool(b) => fold(Layer::Bool(*b)),
        Json::Number(n) => {
            let copy = n.clone();
            match &copy {
                JsonNumber::Float(f) => {
                    proof {
                        use_type_invariant(f);
                    }
                },
                _ => {},
            }
            fold(Layer::Number(copy))
        },
        Json::Str(s) => fold(Layer::Str(s.clone())),
        Json::Array(items) => {
            let mut out: Vec<Value> = Vec::new();
            let mut i: usize = 0;
            while i < items.len()
                invariant
                    i <= items@.len(),
                    j matches Json::Array(whole) && whole == items,
                    value_items(out@) == items_view(items@).take(i as int),
                decreases items@.len() - i,
            {
                let v = to_value(&items[i]);
                let ghost before = out@;
                out.push(v);
                proof {
                    assert(value_items(out@) =~= value_items(before).push(value_tree(v)));
                    assert(value_items(out@) =~= items_view(items@).take(i + 1));
                }
                i = i + 1;
            }
            proof {
                assert(items_view(items@).take(items@.len() as int) =~= items_view(items@));
            }
            fold(Layer::Array(out))
        },
        Json::Object(entries) => {
            let mut out: Vec<(String, Value)> = Vec::new();
            let mut i: usize = 0;
            proof {
                assert(entries@.take(0) =~= Seq::<(String, Json)>::empty());
            }
            while i < entries.len()
                invariant
                    i <= entries@.len(),
                    j matches Json::Object(whole) && whole == entries,
                    value_entries(out@) == entries_view(entries@.take(i as int)),
                decreases entries@.len() - i,
            {
                let v = to_value(&entries[i].1);
                let ghost before = out@;
                out.push((entries[i].0.clone(), v));
                proof {
                    assert(out@.drop_last() =~= before);
                    assert(entries@.take(i + 1).drop_last() =~= entries@.take(i as int));
                }
                i = i + 1;
            }
            proof {
                assert(entries@.take(entries@.len() as int) =~= entries@);
            }
            fold(Layer::Object(out))
        },
    }
}

// ---- reading ----------------------------------------------------------

/// The JSON value that `serde_json::from_str` reads from a text.
pub uninterp spec fn json_parse(text: Seq<char>) -> Option<JsonSpec>;

/// The JSON value that bytes hold: none where they are not UTF-8, else what
/// their text holds.
pub open spec fn json_parse_bytes(bytes: Seq<u8>) -> Option<JsonSpec> {
    if valid_utf8(bytes) {
        json_parse(decode_utf8(bytes))
    } else {
        None
    }
}

/// The JSON value that a `serde_json::Value` holds, where there is one.
pub open spec fn opt_value(v: Option<Value>) -> Option<JsonSpec> {
    match v {
        Some(x) => Some(value_tree(x)),
        None => None,
    }
}

/// `serde_json::from_str` reads a text as a JSON value, or fails.
#[verifier::external_body]
fn value_from_str(text: &str) -> (r: Option<Value>)
    ensures
        opt_value(r) == json_parse(text@),
{
    serde_json::from_str(text).ok()
}

/// `serde_json::from_slice` reads bytes as a JSON value, or fails. It accepts
/// the same texts as `serde_json::from_str` and fails on bytes that are not
/// UTF-8.
#[verifier::external_body]
fn value_from_slice(bytes: &[u8]) -> (r: Option<Value>)
    ensures
        opt_value(r) == json_parse_bytes(bytes@),
{
    serde_json::from_slice(bytes).ok()
}

/// Reads a text as a JSON value.
pub fn read_json(text: &str) -> (r: Option<Json>)
    ensures
        opt_owned(r) == json_parse(text@),
{
    match value_from_str(text) {
        Some(v) => Some(from_value(v)),
        None => None,
    }
}

/// Reads bytes as a JSON value.
pub fn read_json_bytes(bytes: &[u8]) -> (r: Option<Json>)
    ensures
        opt_owned(r) == json_parse_bytes(bytes@),
{
    match value_from_slice(bytes) {
        Some(v) => Some(from_value(v)),
        None => None,
    }
}

// ---- writing ----------------------------------------------------------

/// The compact text that `serde_json::to_string` writes for a JSON value.
pub uninterp spec fn json_text(j: JsonSpec) -> Seq<char>;

/// The indented text that `serde_json::to_string_pretty` writes for a JSON
/// value.
pub uninterp spec fn json_pretty(j: JsonSpec) -> Seq<char>;

/// The key by which `serde_json` marks text that it has not read yet. Where
/// `serde_json` is built to carry such text, an object that begins with this
/// key is read as something else than an object.
pub const RAW_TEXT_KEY: &'static str = "$serde_json::private::RawValue";

/// A value whose numbers are integers of 64 bits, which nests containers at
/// most `levels` deep, and no object of which holds `RAW_TEXT_KEY`.
pub open spec fn rereadable(j: JsonSpec, levels: nat) -> bool
    decreases levels,
{
    match j {
        JsonSpec::Number(NumberSpec::Float(_)) => false,
        JsonSpec::Number(NumberSpec::Int(n)) => i64::MIN <= n <= u64::MAX,
        JsonSpec::Array(items) => levels > 0 && forall|i: int|
            0 <= i < items.len() ==> rereadable(#[trigger] items[i], (levels - 1) as nat),
        JsonSpec::Object(m) => levels > 0 && m.dom().finite() && !m.contains_key(RAW_TEXT_KEY@)
            && forall|k: Seq<char>|
            m.contains_key(k) ==> rereadable(#[trigger] m[k], (levels - 1) as nat),
        _ => true,
    }
}

/// How deep `serde_json` follows nested containers when it reads.
pub const READ_DEPTH: u8 = 127;

/// `serde_json::to_string` on a `serde_json::Value` always succeeds. What it
/// writes reads back as the same value, but for numbers that are not integers,
/// for values nested deeper than reading follows, and for objects with the key
/// `RAW_TEXT_KEY`.
#[verifier::external_body]
fn value_to_string(v: &Value) -> (r: String)
    ensures
        r@ == json_text(value_tree(*v)),
        rereadable(value_tree(*v), READ_DEPTH as nat) ==> json_parse(r@) == Some(value_tree(*v)),
{
    serde_json::to_string(v).unwrap_or_default()
}

/// `serde_json::to_string_pretty` on a `serde_json::Value` always succeeds, and
/// what it writes reads back as `serde_json::to_string`'s text does.
#[verifier::external_body]
fn value_to_pretty(v: &Value) -> (r: String)
    ensures
        r@ == json_pretty(value_tree(*v)),
        rereadable(value_tree(*v), READ_DEPTH as nat) ==> json_parse(r@) == Some(value_tree(*v)),
{
    serde_json::to_string_pretty(v).unwrap_or_default()
}

/// Writes a JSON value as compact text.
pub fn write_json(j: &Json) -> (r: String)
    ensures
        r@ == json_text(j@),
        rereadable(j@, READ_DEPTH as nat) ==> json_parse(r@) == Some(j@),
{
    let v = to_value(j);
    value_to_string(&v)
}

/// Writes a JSON value as indented text.
pub fn write_json_pretty(j: &Json) -> (r: String)
    ensures
        r@ == json_pretty(j@),
        rereadable(j@, READ_DEPTH as nat) ==> json_parse(r@) == Some(j@),
{
    let v = to_value(j);
    value_to_pretty(&v)
}

/// Writes a JSON value as the bytes of its compact text.
pub fn write_json_bytes(j: &Json) -> (r: Vec<u8>)
    ensures
        r@ == encode_utf8(json_text(j@)),
        rereadable(j@, READ_DEPTH as nat) ==> json_parse_bytes(r@) == Some(j@),
{
    let text = write_json(j);
    proof {
        encode_utf8_valid_utf8(text@);
        encode_utf8_decode_utf8(text@);
    }
    text.as_str().as_bytes_vec()
}

// ---- numbers that are not integers ------------------------------------

/// The bits of the finite double-precision number that a text writes down.
pub uninterp spec fn float_text(text: Seq<char>) -> Option<u64>;

/// The bits of a number, where there is one.
pub open spec fn opt_bits(f: Option<FloatNumber>) -> Option<u64> {
    match f {
        Some(x) => Some(x.raw_bits()),
        None => None,
    }
}

/// `serde_json::Number::from_f64` holds a number that is finite, not as an
/// integer form, and refuses one that is not finite. The number is what
/// `str::parse` reads in the text, and `Number::as_f64` gives it back.
#[verifier::external_body]
pub(crate) fn read_float(text: &str) -> (r: Option<FloatNumber>)
    ensures
        opt_bits(r) == float_text(text@),
        r matches Some(f) ==> float_bits(f.number) == Some(f.bits),
{
    let number = serde_json::Number::from_f64(text.parse().ok()?)?;
    let bits = number.as_f64()?.to_bits();
    Some(FloatNumber { number, bits })
}

} // verus!
