//! JSON values: an owned value type, its mathematical model, and the small
//! operations that read and change values.

use vstd::prelude::*;

use crate::text::{opt_str_view, str_eq};

verus! {

/// `serde_json::Number`, which carries the numbers that are not integers.
#[verifier::external_type_specification]
#[verifier::external_body]
pub struct ExNumber(serde_json::Number);

/// A clone of a `serde_json::Number` is the same number.
pub assume_specification[ <serde_json::Number as Clone>::clone ](n: &serde_json::Number) -> (r:
    serde_json::Number)
    ensures
        r == *n,
;

/// The bits of the double-precision number that a `serde_json::Number` is, as
/// `Number::as_f64` gives it; none where the number is one of the two integer
/// forms, which `Number::as_u64` or `Number::as_i64` gives.
pub uninterp spec fn float_bits(n: serde_json::Number) -> Option<u64>;

/// A number that is not an integer: what `serde_json` holds, and the bits of
/// the double-precision number that it is.
#[derive(Debug)]
pub struct FloatNumber {
    pub(crate) number: serde_json::Number,
    pub(crate) bits: u64,
}

impl FloatNumber {
    /// The number is not one of the integer forms, and the bits are its own.
    #[verifier::type_invariant]
    pub closed spec fn agrees(self) -> bool {
        float_bits(self.number) == Some(self.bits)
    }

    /// The bits of the double-precision number.
    pub closed spec fn raw_bits(self) -> u64 {
        self.bits
    }

    /// The bits of the double-precision number.
    pub fn to_bits(&self) -> (r: u64)
        ensures
            r == self.raw_bits(),
    {
        self.bits
    }
}

impl Clone for FloatNumber {
    fn clone(&self) -> (r: Self)
        ensures
            r == *self,
    {
        proof {
            use_type_invariant(self);
        }
        FloatNumber { number: self.number.clone(), bits: self.bits }
    }
}

/// A JSON number.
#[derive(Debug)]
pub enum JsonNumber {
    Unsigned(u64),
    Signed(i64),
    Float(FloatNumber),
}

/// What a JSON number is: an integer, or a number that is none, told by its bits.
pub enum NumberSpec {
    Int(int),
    Float(u64),
}

impl View for JsonNumber {
    type V = NumberSpec;

    open spec fn view(&self) -> NumberSpec {
        match *self {
            JsonNumber::Unsigned(n) => NumberSpec::Int(n as int),
            JsonNumber::Signed(n) => NumberSpec::Int(n as int),
            JsonNumber::Float(f) => NumberSpec::Float(f.raw_bits()),
        }
    }
}

impl Clone for JsonNumber {
    fn clone(&self) -> (r: Self)
        ensures
            r@ == self@,
    {
        match self {
            JsonNumber::Unsigned(n) => JsonNumber::Unsigned(*n),
            JsonNumber::Signed(n) => JsonNumber::Signed(*n),
            JsonNumber::Float(f) => JsonNumber::Float(f.clone()),
        }
    }
}

/// A JSON value. Where an object holds a key twice, the later entry counts.
#[derive(Debug)]
pub enum Json {
    Null,
    Bool(bool),
    Number(JsonNumber),
    Str(String),
    Array(Vec<Json>),
    Object(Vec<(String, Json)>),
}

/// What a JSON value is.
#[verifier::ext_equal]
pub enum JsonSpec {
    Null,
    Bool(bool),
    Number(NumberSpec),
    Str(Seq<char>),
    Array(Seq<JsonSpec>),
    Object(Map<Seq<char>, JsonSpec>),
}

/// The model of a JSON value.
pub open spec fn json_view(j: Json) -> JsonSpec
    decreases j,
{
    match j {
        Json::Null => JsonSpec::Null,
        Json::Bool(b) => JsonSpec::Bool(b),
        Json::Number(n) => JsonSpec::Number(n@),
        Json::Str(s) => JsonSpec::Str(s@),
        Json::Array(items) => JsonSpec::Array(items_view(items@)),
        Json::Object(entries) => JsonSpec::Object(entries_view(entries@)),
    }
}

/// The models of several JSON values.
pub open spec fn items_view(items: Seq<Json>) -> Seq<JsonSpec>
    decreases items,
{
    Seq::new(
        items.len(),
        |i: int|
            if 0 <= i < items.len() {
                json_view(items[i])
            } else {
                JsonSpec::Null
            },
    )
}

/// The model of the entries of an object.
pub open spec fn entries_view(entries: Seq<(String, Json)>) -> Map<Seq<char>, JsonSpec>
    decreases entries,
{
    if entries.len() == 0 {
        Map::empty()
    } else {
        entries_view(entries.drop_last()).insert(entries.last().0@, json_view(entries.last().1))
    }
}

impl View for Json {
    type V = JsonSpec;

    open spec fn view(&self) -> JsonSpec {
        json_view(*self)
    }
}

/// The model of a borrowed value that may be absent.
pub open spec fn opt_json(v: Option<&Json>) -> Option<JsonSpec> {
    match v {
        Some(j) => Some(j@),
        None => None,
    }
}

/// The model of an owned value that may be absent.
pub open spec fn opt_owned(v: Option<Json>) -> Option<JsonSpec> {
    match v {
        Some(j) => Some(j@),
        None => None,
    }
}

impl JsonSpec {
    /// The value under `key`, where the value is an object that has the key.
    pub open spec fn get(self, key: Seq<char>) -> Option<JsonSpec> {
        match self {
            JsonSpec::Object(m) => if m.contains_key(key) {
                Some(m[key])
            } else {
                None
            },
            _ => None,
        }
    }

    /// The text, where the value is one.
    pub open spec fn as_str(self) -> Option<Seq<char>> {
        match self {
            JsonSpec::Str(s) => Some(s),
            _ => None,
        }
    }

    /// The flag, where the value is one.
    pub open spec fn as_bool(self) -> Option<bool> {
        match self {
            JsonSpec::Bool(b) => Some(b),
            _ => None,
        }
    }

    /// The number, where the value is an integer in the range of `u64`.
    pub open spec fn as_u64(self) -> Option<u64> {
        match self {
            JsonSpec::Number(NumberSpec::Int(n)) if 0 <= n <= u64::MAX => Some(n as u64),
            _ => None,
        }
    }

    /// The number, where the value is an integer in the range of `i64`.
    pub open spec fn as_i64(self) -> Option<i64> {
        match self {
            JsonSpec::Number(NumberSpec::Int(n)) if i64::MIN <= n <= i64::MAX => Some(n as i64),
            _ => None,
        }
    }

    /// The number, where the value is one.
    pub open spec fn as_number(self) -> Option<NumberSpec> {
        match self {
            JsonSpec::Number(n) => Some(n),
            _ => None,
        }
    }

    /// The text under `key`, where there is one.
    pub open spec fn get_str(self, key: Seq<char>) -> Option<Seq<char>> {
        match self.get(key) {
            Some(v) => v.as_str(),
            None => None,
        }
    }

    /// The text under `key`, or the empty text.
    pub open spec fn str_or_empty(self, key: Seq<char>) -> Seq<char> {
        match self.get_str(key) {
            Some(s) => s,
            None => seq![],
        }
    }

    /// The flag under `key`, where there is one.
    pub open spec fn get_bool(self, key: Seq<char>) -> Option<bool> {
        match self.get(key) {
            Some(v) => v.as_bool(),
            None => None,
        }
    }

    /// The unsigned number under `key`, where there is one.
    pub open spec fn get_u64(self, key: Seq<char>) -> Option<u64> {
        match self.get(key) {
            Some(v) => v.as_u64(),
            None => None,
        }
    }

    /// The signed number under `key`, where there is one.
    pub open spec fn get_i64(self, key: Seq<char>) -> Option<i64> {
        match self.get(key) {
            Some(v) => v.as_i64(),
            None => None,
        }
    }

    /// The value under `outer` and, in it, under `inner`.
    pub open spec fn get2(self, outer: Seq<char>, inner: Seq<char>) -> Option<JsonSpec> {
        match self.get(outer) {
            Some(v) => v.get(inner),
            None => None,
        }
    }
}

/// Entries of which none has `key` do not give it.
proof fn lemma_entries_absent(entries: Seq<(String, Json)>, key: Seq<char>)
    requires
        forall|i: int| 0 <= i < entries.len() ==> (#[trigger] entries[i]).0@ != key,
    ensures
        !entries_view(entries).contains_key(key),
    decreases entries.len(),
{
    if entries.len() > 0 {
        lemma_entries_absent(entries.drop_last(), key);
    }
}

/// The last entry with `key` gives its value.
proof fn lemma_entries_last(entries: Seq<(String, Json)>, key: Seq<char>, at: int)
    requires
        0 <= at < entries.len(),
        entries[at].0@ == key,
        forall|i: int| at < i < entries.len() ==> (#[trigger] entries[i]).0@ != key,
    ensures
        entries_view(entries).contains_key(key),
        entries_view(entries)[key] == entries[at].1@,
    decreases entries.len(),
{
    if at < entries.len() - 1 {
        lemma_entries_last(entries.drop_last(), key, at);
    }
}

/// The models of a longer vector of values.
pub proof fn lemma_items_push(items: Seq<Json>, j: Json)
    ensures
        items_view(items.push(j)) == items_view(items).push(j@),
{
    assert(items_view(items.push(j)) =~= items_view(items).push(j@));
}

/// An array of one value.
pub(crate) fn array_of(j: Json) -> (r: Json)
    ensures
        r@ == JsonSpec::Array(seq![j@]),
{
    let ghost v = j@;
    let items = vec![j];
    proof {
        assert(items_view(items@) =~= seq![v]);
    }
    Json::Array(items)
}

/// Sets the value under `key`.
pub fn put(entries: &mut Vec<(String, Json)>, key: &str, value: Json)
    ensures
        entries_view(final(entries)@) == entries_view(old(entries)@).insert(key@, value@),
{
    remove_key(entries, key);
    let ghost before = entries@;
    entries.push((key.to_owned(), value));
    proof {
        assert(entries@.drop_last() =~= before);
        assert(entries_view(before).insert(key@, value@) =~= entries_view(old(entries)@).insert(
            key@,
            value@,
        ));
    }
}

/// Takes the value under `key` away.
pub fn remove_key(entries: &mut Vec<(String, Json)>, key: &str)
    ensures
        entries_view(final(entries)@) == entries_view(old(entries)@).remove(key@),
{
    let mut rest: Vec<(String, Json)> = Vec::new();
    std::mem::swap(entries, &mut rest);
    let ghost all = rest@;
    proof {
        assert(all == old(entries)@);
        assert(entries_view(entries@) =~= entries_view(all.take(0)).remove(key@));
    }
    for e in it: rest
        invariant
            it.seq() == all,
            entries_view(entries@) == entries_view(all.take(it.index() as int)).remove(key@),
    {
        let ghost before = entries@;
        let ghost k = it.index() as int;
        proof {
            assert(all.take(k + 1).drop_last() =~= all.take(k));
            assert(all.take(k + 1).last() == e);
        }
        if !str_eq(e.0.as_str(), key) {
            entries.push(e);
            proof {
                assert(entries@.drop_last() =~= before);
            }
        }
        proof {
            assert(entries_view(entries@) =~= entries_view(all.take(k + 1)).remove(key@));
        }
    }
    proof {
        assert(all.take(all.len() as int) =~= all);
    }
}

impl Json {
    /// A text value.
    pub fn text(s: &str) -> (r: Json)
        ensures
            r@ == JsonSpec::Str(s@),
    {
        Json::Str(s.to_owned())
    }

    /// The value under `key`, where the value is an object that has the key.
    pub fn get(&self, key: &str) -> (r: Option<&Json>)
        ensures
            opt_json(r) == self@.get(key@),
    {
        match self {
            Json::Object(entries) => find_entry(entries, key),
            _ => None,
        }
    }

    /// The text, where the value is one.
    pub fn as_str(&self) -> (r: Option<&str>)
        ensures
            opt_str_view(r) == self@.as_str(),
    {
        match self {
            Json::Str(s) => Some(s.as_str()),
            _ => None,
        }
    }

    /// The flag, where the value is one.
    pub fn as_bool(&self) -> (r: Option<bool>)
        ensures
            r == self@.as_bool(),
    {
        match self {
            Json::Bool(b) => Some(*b),
            _ => None,
        }
    }

    /// The number, where the value is an integer in the range of `u64`.
    pub fn as_u64(&self) -> (r: Option<u64>)
        ensures
            r == self@.as_u64(),
    {
        match self {
            Json::Number(JsonNumber::Unsigned(n)) => Some(*n),
            Json::Number(JsonNumber::Signed(n)) => if *n >= 0 {
                Some(*n as u64)
            } else {
                None
            },
            _ => None,
        }
    }

    /// The number, where the value is an integer in the range of `i64`.
    pub fn as_i64(&self) -> (r: Option<i64>)
        ensures
            r == self@.as_i64(),
    {
        match self {
            Json::Number(JsonNumber::Signed(n)) => Some(*n),
            Json::Number(JsonNumber::Unsigned(n)) => if *n <= 0x7fff_ffff_ffff_ffff {
                Some(*n as i64)
            } else {
                None
            },
            _ => None,
        }
    }

    /// The number, where the value is one.
    pub fn as_number(&self) -> (r: Option<JsonNumber>)
        ensures
            match r {
                Some(n) => self@.as_number() == Some(n@),
                None => self@.as_number() is None,
            },
    {
        match self {
            Json::Number(n) => Some(n.clone()),
            _ => None,
        }
    }

    /// The text under `key`, where there is one.
    pub fn get_str(&self, key: &str) -> (r: Option<&str>)
        ensures
            opt_str_view(r) == self@.get_str(key@),
    {
        match self.get(key) {
            Some(v) => v.as_str(),
            None => None,
        }
    }

    /// The text under `key`, or the empty text.
    pub fn str_or_empty(&self, key: &str) -> (r: String)
        ensures
            r@ == self@.str_or_empty(key@),
    {
        match self.get_str(key) {
            Some(s) => s.to_owned(),
            None => String::new(),
        }
    }

    /// The flag under `key`, where there is one.
    pub fn get_bool(&self, key: &str) -> (r: Option<bool>)
        ensures
            r == self@.get_bool(key@),
    {
        match self.get(key) {
            Some(v) => v.as_bool(),
            None => None,
        }
    }

    /// The unsigned number under `key`, where there is one.
    pub fn get_u64(&self, key: &str) -> (r: Option<u64>)
        ensures
            r == self@.get_u64(key@),
    {
        match self.get(key) {
            Some(v) => v.as_u64(),
            None => None,
        }
    }

    /// The signed number under `key`, where there is one.
    pub fn get_i64(&self, key: &str) -> (r: Option<i64>)
        ensures
            r == self@.get_i64(key@),
    {
        match self.get(key) {
            Some(v) => v.as_i64(),
            None => None,
        }
    }

    /// The value under `outer` and, in it, under `inner`.
    pub fn get2(&self, outer: &str, inner: &str) -> (r: Option<&Json>)
        ensures
            opt_json(r) == self@.get2(outer@, inner@),
    {
        match self.get(outer) {
            Some(v) => v.get(inner),
            None => None,
        }
    }

    /// Whether the text under `key` is `expected`.
    pub fn has_str(&self, key: &str, expected: &str) -> (r: bool)
        ensures
            r == (self@.get_str(key@) == Some(expected@)),
    {
        match self.get_str(key) {
            Some(s) => str_eq(s, expected),
            None => false,
        }
    }
}

/// The value under `key` among the entries of an object.
pub fn find_entry<'a>(entries: &'a Vec<(String, Json)>, key: &str) -> (r: Option<&'a Json>)
    ensures
        opt_json(r) == JsonSpec::Object(entries_view(entries@)).get(key@),
{
    let mut i: usize = entries.len();
    while i > 0
        invariant
            i <= entries@.len(),
            forall|k: int| i <= k < entries@.len() ==> (#[trigger] entries@[k]).0@ != key@,
        decreases i,
    {
        i = i - 1;
        if str_eq(entries[i].0.as_str(), key) {
            proof {
                lemma_entries_last(entries@, key@, i as int);
            }
            return Some(&entries[i].1);
        }
    }
    proof {
        lemma_entries_absent(entries@, key@);
    }
    None
}

impl Clone for Json {
    fn clone(&self) -> (r: Self)
        ensures
            r@ == self@,
        decreases self,
    {
        match self {
            Json::Null => Json::Null,
            Json::Bool(b) => Json::Bool(*b),
            Json::Number(n) => Json::Number(n.clone()),
            Json::Str(s) => Json::Str(s.clone()),
            Json::Array(items) => {
                let mut out: Vec<Json> = Vec::new();
                let mut i: usize = 0;
                while i < items.len()
                    invariant
                        i <= items@.len(),
                        self matches Json::Array(whole) && whole == items,
                        items_view(out@) == items_view(items@).take(i as int),
                    decreases items@.len() - i,
                {
                    let copy = items[i].clone();
                    proof {
                        lemma_items_push(out@, copy);
                    }
                    out.push(copy);
                    proof {
                        assert(items_view(out@) =~= items_view(items@).take(i + 1));
                    }
                    i = i + 1;
                }
                proof {
                    assert(items_view(items@).take(items@.len() as int) =~= items_view(items@));
                }
                Json::Array(out)
            },
            Json::Object(entries) => {
                let mut out: Vec<(String, Json)> = Vec::new();
                let mut i: usize = 0;
                proof {
                    assert(entries@.take(0) =~= Seq::<(String, Json)>::empty());
                }
                while i < entries.len()
                    invariant
                        i <= entries@.len(),
                        self matches Json::Object(whole) && whole == entries,
                        entries_view(out@) == entries_view(entries@.take(i as int)),
                    decreases entries@.len() - i,
                {
                    let copy = entries[i].1.clone();
                    let ghost before = out@;
                    out.push((entries[i].0.clone(), copy));
                    proof {
                        assert(out@.drop_last() =~= before);
                        assert(entries@.take(i + 1).drop_last() =~= entries@.take(i as int));
                    }
                    i = i + 1;
                }
                proof {
                    assert(entries@.take(entries@.len() as int) =~= entries@);
                }
                Json::Object(out)
            },
        }
    }
}

} // verus!
