//! Reading the source documents: a model of a JSON tree, and the few
//! accessors of `serde_json::Value` that the parsers go through.

use vstd::prelude::*;

verus! {

/// `serde_json::Value`: a document as it arrives. Nothing inside it is seen
/// here; it is read through the accessors below.
#[verifier::external_type_specification]
#[verifier::external_body]
pub struct ExValue(serde_json::Value);

/// A JSON number, in the three forms in which a document tree holds one.
pub enum JsonNumber {
    /// A non-negative integer.
    PosInt(u64),
    /// A negative integer.
    NegInt(i64),
    /// Any other number, as the bit pattern of its double.
    Double(u64),
}

/// A JSON tree as plain values.
pub enum Json {
    Null,
    Flag(bool),
    Number(JsonNumber),
    Text(Seq<char>),
    List(Seq<Json>),
    Object(Map<Seq<char>, Json>),
}

/// The tree that a `serde_json::Value` holds. It is known only through what
/// the accessors below say of it.
pub uninterp spec fn json_of(value: serde_json::Value) -> Json;

/// The bit pattern of the double that an integer converts to by `as`: the
/// nearest double. Only the name is used.
pub uninterp spec fn double_of_int(i: int) -> u64;

impl Json {
    /// The member of an object under `key`; nothing for a missing key, and
    /// nothing for a tree that is no object.
    pub open spec fn field(self, key: Seq<char>) -> Option<Json> {
        match self {
            Json::Object(members) => if members.contains_key(key) {
                Some(members[key])
            } else {
                None
            },
            _ => None,
        }
    }

    /// The integer that the tree is, when it is one and fits 64 signed bits.
    pub open spec fn as_int(self) -> Option<i64> {
        match self {
            Json::Number(JsonNumber::PosInt(n)) => if n <= i64::MAX {
                Some(n as i64)
            } else {
                None
            },
            Json::Number(JsonNumber::NegInt(n)) => Some(n),
            _ => None,
        }
    }

    /// The non-negative integer that the tree is, when it is one.
    pub open spec fn as_count(self) -> Option<u64> {
        match self {
            Json::Number(JsonNumber::PosInt(n)) => Some(n),
            _ => None,
        }
    }

    /// The number that the tree is, as the bit pattern of a double; an
    /// integer gives the double that it converts to.
    pub open spec fn as_double(self) -> Option<u64> {
        match self {
            Json::Number(JsonNumber::PosInt(n)) => Some(double_of_int(n as int)),
            Json::Number(JsonNumber::NegInt(n)) => Some(double_of_int(n as int)),
            Json::Number(JsonNumber::Double(bits)) => Some(bits),
            _ => None,
        }
    }

    /// The text that the tree is, when it is a string.
    pub open spec fn as_text(self) -> Option<Seq<char>> {
        match self {
            Json::Text(t) => Some(t),
            _ => None,
        }
    }

    /// The truth value that the tree is, when it is one.
    pub open spec fn as_flag(self) -> Option<bool> {
        match self {
            Json::Flag(b) => Some(b),
            _ => None,
        }
    }

    /// The items of the tree, when it is an array.
    pub open spec fn as_list(self) -> Option<Seq<Json>> {
        match self {
            Json::List(items) => Some(items),
            _ => None,
        }
    }

    /// The first item of the tree, when it is an array that has one.
    pub open spec fn first_item(self) -> Option<Json> {
        match self {
            Json::List(items) => if items.len() > 0 {
                Some(items[0])
            } else {
                None
            },
            _ => None,
        }
    }
}

/// The member under `key` of a tree that may be missing.
pub open spec fn field_of(tree: Option<Json>, key: Seq<char>) -> Option<Json> {
    match tree {
        Some(j) => j.field(key),
        None => None,
    }
}

/// The first item of a tree that may be missing.
pub open spec fn first_of(tree: Option<Json>) -> Option<Json> {
    match tree {
        Some(j) => j.first_item(),
        None => None,
    }
}

pub open spec fn int_of(tree: Option<Json>) -> Option<i64> {
    match tree {
        Some(j) => j.as_int(),
        None => None,
    }
}

pub open spec fn count_of(tree: Option<Json>) -> Option<u64> {
    match tree {
        Some(j) => j.as_count(),
        None => None,
    }
}

pub open spec fn double_of(tree: Option<Json>) -> Option<u64> {
    match tree {
        Some(j) => j.as_double(),
        None => None,
    }
}

pub open spec fn text_of(tree: Option<Json>) -> Option<Seq<char>> {
    match tree {
        Some(j) => j.as_text(),
        None => None,
    }
}

pub open spec fn flag_of(tree: Option<Json>) -> Option<bool> {
    match tree {
        Some(j) => j.as_flag(),
        None => None,
    }
}

pub open spec fn list_of(tree: Option<Json>) -> Option<Seq<Json>> {
    match tree {
        Some(j) => j.as_list(),
        None => None,
    }
}

/// The tree behind a reference that may be missing.
pub open spec fn tree_of(value: Option<&serde_json::Value>) -> Option<Json> {
    match value {
        Some(v) => Some(json_of(*v)),
        None => None,
    }
}

/// `Value::get` with a string key: the member of an object under that key,
/// and nothing for a missing key or a value that is no object.
#[verifier::external_body]
pub(crate) fn value_get<'a>(value: &'a serde_json::Value, key: &str) -> (r: Option<
    &'a serde_json::Value,
>)
    ensures
        tree_of(r) == json_of(*value).field(key@),
{
    value.get(key)
}

/// `Value::as_i64`: the integer of a number that is one and fits `i64`.
#[verifier::external_body]
pub(crate) fn value_as_i64(value: &serde_json::Value) -> (r: Option<i64>)
    ensures
        r == json_of(*value).as_int(),
{
    value.as_i64()
}

/// `Value::as_u64`: the integer of a number that is a non-negative one.
#[verifier::external_body]
pub(crate) fn value_as_u64(value: &serde_json::Value) -> (r: Option<u64>)
    ensures
        r == json_of(*value).as_count(),
{
    value.as_u64()
}

/// `Value::as_f64`, handed on as the bit pattern of the double: the double
/// that a number holds, or the one that its integer converts to.
#[verifier::external_body]
pub(crate) fn value_as_double_bits(value: &serde_json::Value) -> (r: Option<u64>)
    ensures
        r == match json_of(*value) {
            Json::Number(JsonNumber::PosInt(n)) => Some(double_of_int(n as int)),
            Json::Number(JsonNumber::NegInt(n)) => Some(double_of_int(n as int)),
            Json::Number(JsonNumber::Double(bits)) => Some(bits),
            _ => None,
        },
{
    value.as_f64().map(|x| x.to_bits())
}

/// `Value::as_str`: the text of a string.
#[verifier::external_body]
pub(crate) fn value_as_str<'a>(value: &'a serde_json::Value) -> (r: Option<&'a str>)
    ensures
        r.deep_view() == json_of(*value).as_text(),
{
    value.as_str()
}

/// `Value::as_bool`: the truth value of a boolean.
#[verifier::external_body]
pub(crate) fn value_as_bool(value: &serde_json::Value) -> (r: Option<bool>)
    ensures
        r == json_of(*value).as_flag(),
{
    value.as_bool()
}

/// `Value::as_array`: the items of an array, in their order.
#[verifier::external_body]
pub(crate) fn value_as_array<'a>(value: &'a serde_json::Value) -> (r: Option<
    &'a Vec<serde_json::Value>,
>)
    ensures
        match r {
            Some(items) => json_of(*value).as_list() == Some(
                items@.map_values(|item: serde_json::Value| json_of(item)),
            ),
            None => json_of(*value).as_list() is None,
        },
{
    value.as_array()
}

} // verus!
