//! The mathematical model of JSON values, and the trusted boundary to
//! `serde_json`.
//!
//! A [`Jv`] is the model of a `serde_json::Value`: numbers that are stored as
//! integers keep their value, other numbers are only remembered to be
//! numbers, and objects become maps from key to model. The uninterpreted
//! functions [`jv_of`], [`obj_model`] and [`parse_of`] name the model of a
//! value, of an object map, and of the result of parsing a text; every
//! trusted wrapper below states its behaviour in terms of these names.

use vstd::prelude::*;

verus! {

/// The model of a JSON value.
pub enum Jv {
    /// `null`
    Null,
    /// `true` or `false`
    Bool(bool),
    /// A number stored as a non-negative integer, with its value.
    UInt(int),
    /// A number stored as a negative integer, with its value.
    NInt(int),
    /// A number stored as a float; its value is not modelled.
    FNum,
    /// A string, as its characters.
    Str(Seq<char>),
    /// An array, elementwise.
    Arr(Seq<Jv>),
    /// An object, as a map from key to model. Duplicate keys cannot occur.
    Obj(Map<Seq<char>, Jv>),
}

#[verifier::external_type_specification]
#[verifier::external_body]
pub struct ExValue(serde_json::Value);

#[verifier::external_type_specification]
#[verifier::external_body]
#[verifier::reject_recursive_types(K)]
#[verifier::reject_recursive_types(V)]
pub struct ExJsonMap<K, V>(serde_json::Map<K, V>);

/// The model of a `serde_json::Value`.
pub uninterp spec fn jv_of(v: serde_json::Value) -> Jv;

/// The model of a `serde_json::Map`: its entries, keyed by their characters.
pub uninterp spec fn obj_model(m: serde_json::Map<String, serde_json::Value>) -> Map<Seq<char>, Jv>;

/// What parsing a text as one JSON document yields, if anything.
pub uninterp spec fn parse_of(s: Seq<char>) -> Option<Jv>;

/// The model of an object with no entries.
pub open spec fn empty_obj() -> Map<Seq<char>, Jv> {
    Map::empty()
}

/// The value's arrays and objects nest at most `n` levels deep: a scalar
/// fits within any bound, a container only within a positive bound whose
/// predecessor admits every element.
pub open spec fn jv_within_depth(j: Jv, n: int) -> bool
    decreases n,
{
    match j {
        Jv::Arr(s) => n >= 1 && (forall|i: int|
            0 <= i < s.len() ==> jv_within_depth(#[trigger] s[i], n - 1)),
        Jv::Obj(m) => n >= 1 && (forall|k: Seq<char>|
            m.contains_key(k) ==> jv_within_depth(#[trigger] m[k], n - 1)),
        _ => true,
    }
}

/// Relies on `serde_json::from_str::<Value>`: parses the text as one JSON
/// document, returning the value for exactly the texts the parser accepts —
/// well-formed JSON whose containers nest within the reader's recursion
/// limit — and `None` for every other text.
#[verifier::external_body]
pub fn parse_json(line: &str) -> (r: Option<serde_json::Value>)
    ensures
        match r {
            Some(v) => parse_of(line@) == Some(jv_of(v)),
            None => parse_of(line@) is None,
        },
{
    serde_json::from_str::<serde_json::Value>(line).ok()
}

/// Relies on `serde_json::to_string`: serializes a value compactly on one
/// line. The text never contains a newline, parsing it back yields exactly
/// the serialized value whenever that value's containers nest at most 127
/// levels deep — the reader decrements a budget of 128 per container and
/// rejects when it reaches zero — and parsing never yields a different
/// value. Serializing a `Value` cannot fail: its object keys are strings,
/// its numbers are finite, and the writer is an in-memory buffer.
#[verifier::external_body]
pub fn to_json_line(v: &serde_json::Value) -> (r: String)
    ensures
        forall|i: int| 0 <= i < r@.len() ==> r@[i] != '\n',
        jv_within_depth(jv_of(*v), 127) ==> parse_of(r@) == Some(jv_of(*v)),
        parse_of(r@) matches Some(j) ==> j == jv_of(*v),
{
    serde_json::to_string(v).unwrap()
}

/// Relies on `serde_json::Value::get`: looks a key up in an object, `None`
/// on any other kind of value.
#[verifier::external_body]
pub fn get_field<'a>(v: &'a serde_json::Value, key: &str) -> (r: Option<&'a serde_json::Value>)
    ensures
        match r {
            Some(f) => (jv_of(*v) matches Jv::Obj(m) && m.contains_key(key@) && jv_of(*f)
                == m[key@]),
            None => !(jv_of(*v) matches Jv::Obj(m) && m.contains_key(key@)),
        },
{
    v.get(key)
}

/// Relies on `serde_json::Value::as_u64`: the value of a number stored as a
/// non-negative integer, `None` for every other value.
#[verifier::external_body]
pub fn as_u64(v: &serde_json::Value) -> (r: Option<u64>)
    ensures
        match r {
            Some(n) => jv_of(*v) == Jv::UInt(n as int),
            None => !(jv_of(*v) is UInt),
        },
{
    v.as_u64()
}

/// Relies on `serde_json::Value::as_i64`: the value of a number stored as an
/// integer that fits `i64`, `None` otherwise.
#[verifier::external_body]
pub fn as_i64(v: &serde_json::Value) -> (r: Option<i64>)
    ensures
        match r {
            Some(n) => (n >= 0 && jv_of(*v) == Jv::UInt(n as int)) || (n < 0 && jv_of(*v)
                == Jv::NInt(n as int)),
            None => !(jv_of(*v) matches Jv::NInt(_)) && !(jv_of(*v) matches Jv::UInt(k) && k
                <= i64::MAX),
        },
{
    v.as_i64()
}

/// Relies on `serde_json::Value::as_str`: the characters of a string value,
/// `None` for every other value.
#[verifier::external_body]
pub fn as_str<'a>(v: &'a serde_json::Value) -> (r: Option<&'a str>)
    ensures
        match r {
            Some(s) => jv_of(*v) == Jv::Str(s@),
            None => !(jv_of(*v) is Str),
        },
{
    v.as_str()
}

/// Relies on `serde_json::Value::as_bool`: the boolean of a `true`/`false`
/// value, `None` for every other value.
#[verifier::external_body]
pub fn as_bool(v: &serde_json::Value) -> (r: Option<bool>)
    ensures
        match r {
            Some(b) => jv_of(*v) == Jv::Bool(b),
            None => !(jv_of(*v) is Bool),
        },
{
    v.as_bool()
}

/// Relies on `serde_json::Value::as_array`: the elements of an array value,
/// `None` for every other value.
#[verifier::external_body]
pub fn as_array<'a>(v: &'a serde_json::Value) -> (r: Option<&'a Vec<serde_json::Value>>)
    ensures
        match r {
            Some(a) => (jv_of(*v) matches Jv::Arr(s) && a@.len() == s.len() && forall|i: int|
                0 <= i < s.len() ==> jv_of(a@[i]) == s[i]),
            None => !(jv_of(*v) is Arr),
        },
{
    v.as_array()
}

/// Relies on `serde_json::Value::is_null`.
#[verifier::external_body]
pub fn is_null(v: &serde_json::Value) -> (r: bool)
    ensures
        r == (jv_of(*v) == Jv::Null),
{
    v.is_null()
}

/// Relies on `<serde_json::Value as Clone>::clone`: the copy has the same
/// model as the original.
#[verifier::external_body]
pub fn clone_value(v: &serde_json::Value) -> (r: serde_json::Value)
    ensures
        jv_of(r) == jv_of(*v),
{
    v.clone()
}

/// Relies on `serde_json::Map::new`: the empty object.
#[verifier::external_body]
pub fn new_json_map() -> (r: serde_json::Map<String, serde_json::Value>)
    ensures
        obj_model(r) == empty_obj(),
{
    serde_json::Map::new()
}

/// Relies on `serde_json::Map::insert`: adds or replaces one entry.
#[verifier::external_body]
pub fn insert_field(m: &mut serde_json::Map<String, serde_json::Value>, key: &str, v: serde_json::Value)
    ensures
        obj_model(*final(m)) == obj_model(*old(m)).insert(key@, jv_of(v)),
{
    m.insert(key.to_owned(), v);
}

/// Relies on `serde_json::Value::Object`: wraps an object map as a value.
#[verifier::external_body]
pub fn object_value(m: serde_json::Map<String, serde_json::Value>) -> (r: serde_json::Value)
    ensures
        jv_of(r) == Jv::Obj(obj_model(m)),
{
    serde_json::Value::Object(m)
}

/// Relies on `serde_json::Value::String`: wraps characters as a string value.
#[verifier::external_body]
pub fn string_value(s: &str) -> (r: serde_json::Value)
    ensures
        jv_of(r) == Jv::Str(s@),
{
    serde_json::Value::String(s.to_owned())
}

/// Relies on `From<u64> for serde_json::Value`: a number stored as a
/// non-negative integer.
#[verifier::external_body]
pub fn u64_value(n: u64) -> (r: serde_json::Value)
    ensures
        jv_of(r) == Jv::UInt(n as int),
{
    serde_json::Value::from(n)
}

/// Relies on `serde_json::Value::Bool`.
#[verifier::external_body]
pub fn bool_value(b: bool) -> (r: serde_json::Value)
    ensures
        jv_of(r) == Jv::Bool(b),
{
    serde_json::Value::Bool(b)
}

/// Relies on `serde_json::Value::Null`.
#[verifier::external_body]
pub fn null_value() -> (r: serde_json::Value)
    ensures
        jv_of(r) == Jv::Null,
{
    serde_json::Value::Null
}

} // verus!
