//! The boundary to `serde_json`: parsing, looking up, and building JSON values.
//!
//! A [`serde_json::Value`] is opaque to the proofs. What it holds is named by
//! [`json_model`], and each item below that calls into `serde_json` says what
//! the call does in terms of that model.

use vstd::prelude::*;
use vstd::utf8::encode_utf8;

use crate::text::text_of;

verus! {

/// A JSON value. A number that is not an integer held exactly is kept by the
/// text that it is shown as.
pub enum JsonModel {
    Null,
    Bool(bool),
    Integer(int),
    Fraction(Seq<char>),
    Str(Seq<char>),
    Array(Seq<JsonModel>),
    Object(Map<Seq<char>, JsonModel>),
}

impl JsonModel {
    /// The member `key`, where the value is an object that has it.
    pub open spec fn member(self, key: Seq<char>) -> Option<JsonModel> {
        match self {
            JsonModel::Object(m) => if m.contains_key(key) {
                Some(m[key])
            } else {
                None
            },
            _ => None,
        }
    }

    /// Whether the value is an object whose members are nulls, booleans, integers
    /// and strings, under keys that do not start with a dollar sign.
    pub open spec fn flat(self) -> bool {
        match self {
            JsonModel::Object(m) => forall|key: Seq<char>| #[trigger]
                m.contains_key(key) ==> !(key.len() > 0 && key[0] == '$') && (m[key] is Null
                    || m[key] is Bool || m[key] is Integer || m[key] is Str),
            _ => false,
        }
    }

    /// The value as an unsigned 64-bit integer, where it is one.
    pub open spec fn unsigned(self) -> Option<u64> {
        match self {
            JsonModel::Integer(i) => if 0 <= i <= u64::MAX {
                Some(i as u64)
            } else {
                None
            },
            _ => None,
        }
    }

    /// The value as a string, where it is one.
    pub open spec fn text(self) -> Option<Seq<char>> {
        match self {
            JsonModel::Str(s) => Some(s),
            _ => None,
        }
    }

    /// The value as a boolean, where it is one.
    pub open spec fn boolean(self) -> Option<bool> {
        match self {
            JsonModel::Bool(b) => Some(b),
            _ => None,
        }
    }
}

/// The value type of `serde_json`.
#[verifier::external_type_specification]
#[verifier::external_body]
pub struct ExValue(serde_json::Value);

/// What a `serde_json` value holds.
pub uninterp spec fn json_model(v: serde_json::Value) -> JsonModel;

/// What the bytes of a JSON text stand for, as `serde_json::from_slice` reads
/// them into a value; `None` where it refuses them.
pub uninterp spec fn json_text(bytes: Seq<u8>) -> Option<JsonModel>;

/// The text of a JSON value in one line, as `serde_json` shows it.
pub uninterp spec fn json_shown(v: JsonModel) -> Seq<char>;

/// The bytes of the text of a JSON value with line breaks and indentation, as
/// `serde_json::to_vec_pretty` writes it.
pub uninterp spec fn json_pretty(v: JsonModel) -> Seq<u8>;

/// Calls `serde_json::from_slice`. Claims that whether the bytes are accepted,
/// and what value they give, depends on the bytes alone.
#[verifier::external_body]
pub(crate) fn parse_json(bytes: &[u8]) -> (r: Option<serde_json::Value>)
    ensures
        match r {
            Some(v) => json_text(bytes@) == Some(json_model(v)),
            None => json_text(bytes@) is None,
        },
{
    serde_json::from_slice(bytes).ok()
}

/// Calls `serde_json::Value::get` with a string. Claims that it finds the
/// member of an object that has that key, and nothing otherwise.
#[verifier::external_body]
pub(crate) fn member<'a>(v: &'a serde_json::Value, key: &str) -> (r: Option<&'a serde_json::Value>)
    ensures
        match r {
            Some(x) => json_model(*v).member(key@) == Some(json_model(*x)),
            None => json_model(*v).member(key@) is None,
        },
{
    v.get(key)
}

/// `serde_json::Value::as_u64`: the integer that a number holds, where it is
/// between zero and `u64::MAX`, and nothing for any other value.
pub assume_specification[ serde_json::Value::as_u64 ](v: &serde_json::Value) -> (r: Option<u64>)
    ensures
        r == json_model(*v).unsigned(),
;

/// `serde_json::Value::as_str`: the text of a string, and nothing for any
/// other value.
pub assume_specification<'a>[ serde_json::Value::as_str ](v: &'a serde_json::Value) -> (r: Option<&'a str>)
    ensures
        match r {
            Some(s) => json_model(*v).text() == Some(s@),
            None => json_model(*v).text() is None,
        },
;

/// `serde_json::Value::as_bool`: the boolean, and nothing for any other value.
pub assume_specification[ serde_json::Value::as_bool ](v: &serde_json::Value) -> (r: Option<bool>)
    ensures
        r == json_model(*v).boolean(),
;

/// `serde_json::Value::is_null`: whether the value is null.
pub assume_specification[ serde_json::Value::is_null ](v: &serde_json::Value) -> (r: bool)
    ensures
        r == (json_model(*v) is Null),
;

/// `Clone::clone` on a `serde_json::Value`: the copy holds the same.
pub assume_specification[ <serde_json::Value as Clone>::clone ](v: &serde_json::Value) -> (r:
    serde_json::Value)
    ensures
        json_model(r) == json_model(*v),
;

/// The constant `serde_json::Value::Null`: a null.
#[verifier::external_body]
pub(crate) fn json_null() -> (r: serde_json::Value)
    ensures
        json_model(r) is Null,
{
    serde_json::Value::Null
}

/// Calls `From<u64>` of `serde_json::Value`: a number that holds the integer.
#[verifier::external_body]
pub(crate) fn json_u64(n: u64) -> (r: serde_json::Value)
    ensures
        json_model(r) == JsonModel::Integer(n as int),
{
    serde_json::Value::from(n)
}

/// Calls `From<i32>` of `serde_json::Value`: a number that holds the integer.
#[verifier::external_body]
pub(crate) fn json_i32(n: i32) -> (r: serde_json::Value)
    ensures
        json_model(r) == JsonModel::Integer(n as int),
{
    serde_json::Value::from(n)
}

/// Calls `From<&str>` of `serde_json::Value`: a string with the same text.
#[verifier::external_body]
pub(crate) fn json_str(s: &str) -> (r: serde_json::Value)
    ensures
        json_model(r) == JsonModel::Str(s@),
{
    serde_json::Value::from(s)
}

/// Calls `serde_json::Map::new`, and makes a value of it: an object without
/// members.
#[verifier::external_body]
pub(crate) fn json_object() -> (r: serde_json::Value)
    ensures
        json_model(r) == JsonModel::Object(Map::empty()),
{
    serde_json::Value::Object(serde_json::Map::new())
}

/// Assigns through the index operator of `serde_json::Value` with a string: on
/// an object, the member of that key is set, whether it was there or not, and
/// the others stay. On a value that is neither an object nor null, the operator
/// panics.
#[verifier::external_body]
pub(crate) fn set_member(v: &mut serde_json::Value, key: &str, x: serde_json::Value)
    requires
        json_model(*old(v)) is Object,
    ensures
        json_model(*final(v)) == JsonModel::Object(
            json_model(*old(v))->Object_0.insert(key@, json_model(x)),
        ),
{
    v[key] = x;
}

/// Calls `Display::fmt` of `serde_json::Value` through `to_string`. Claims that
/// the text depends on what the value holds alone, that there is no line break
/// in it, since those in strings are escaped, and that from the text of a flat
/// object `serde_json::from_slice` gives back the object. Left unsaid is what it
/// gives of other values: the parser limits how deep a value is nested, may read
/// a fraction inexactly, and has private keys, which start with a dollar sign and
/// under which an object stands for something else.
#[verifier::external_body]
pub(crate) fn show_json(v: &serde_json::Value) -> (r: String)
    ensures
        r@ == json_shown(json_model(*v)),
        !r@.contains('\n'),
        json_model(*v).flat() ==> json_text(encode_utf8(r@)) == Some(json_model(*v)),
{
    v.to_string()
}

/// Calls `serde_json::to_vec_pretty`. Claims that it does not fail, since a value
/// has only strings for keys and is written to memory, and that the bytes depend
/// on what the value holds alone.
#[verifier::external_body]
pub(crate) fn show_json_pretty(v: &serde_json::Value) -> (r: Option<Vec<u8>>)
    ensures
        match r {
            Some(bytes) => bytes@ == json_pretty(json_model(*v)),
            None => false,
        },
{
    serde_json::to_vec_pretty(v).ok()
}

/// The member `key` of an object, or null where there is none.
pub open spec fn member_or_null(v: JsonModel, key: Seq<char>) -> JsonModel {
    match v.member(key) {
        Some(x) => x,
        None => JsonModel::Null,
    }
}

/// A copy of the member `key` of an object, or null where there is none.
pub fn copied_member(v: &serde_json::Value, key: &str) -> (r: serde_json::Value)
    ensures
        json_model(r) == member_or_null(json_model(*v), key@),
{
    match member(v, key) {
        Some(x) => x.clone(),
        None => json_null(),
    }
}

/// The member `key` of an object as an unsigned integer, where it is one.
pub open spec fn u64_member(v: JsonModel, key: Seq<char>) -> Option<u64> {
    match v.member(key) {
        Some(x) => x.unsigned(),
        None => None,
    }
}

/// The member `key` of an object as a string, where it is one.
pub open spec fn str_member(v: JsonModel, key: Seq<char>) -> Option<Seq<char>> {
    match v.member(key) {
        Some(x) => x.text(),
        None => None,
    }
}

/// The member `key` of an object as a boolean, where it is one.
pub open spec fn bool_member(v: JsonModel, key: Seq<char>) -> Option<bool> {
    match v.member(key) {
        Some(x) => x.boolean(),
        None => None,
    }
}

/// The member `key` of an object as an unsigned integer, where it is one.
pub fn u64_field(v: &serde_json::Value, key: &str) -> (r: Option<u64>)
    ensures
        r == u64_member(json_model(*v), key@),
{
    match member(v, key) {
        Some(x) => x.as_u64(),
        None => None,
    }
}

/// The member `key` of an object as a string, where it is one.
pub fn str_field<'a>(v: &'a serde_json::Value, key: &str) -> (r: Option<&'a str>)
    ensures
        match r {
            Some(s) => str_member(json_model(*v), key@) == Some(s@),
            None => str_member(json_model(*v), key@) is None,
        },
{
    match member(v, key) {
        Some(x) => x.as_str(),
        None => None,
    }
}

/// The member `key` of an object as a string of its own, where it is one.
pub fn string_field(v: &serde_json::Value, key: &str) -> (r: Option<String>)
    ensures
        text_of(r) == str_member(json_model(*v), key@),
{
    match str_field(v, key) {
        Some(s) => Some(s.to_owned()),
        None => None,
    }
}

/// The member `key` of an object as a boolean, where it is one.
pub fn bool_field(v: &serde_json::Value, key: &str) -> (r: Option<bool>)
    ensures
        r == bool_member(json_model(*v), key@),
{
    match member(v, key) {
        Some(x) => x.as_bool(),
        None => None,
    }
}

/// A member of a value is read if and only if the value is an object that has it
/// under exactly that key and with the right type, and what is read is what it
/// holds. What other members there are does not matter.
pub proof fn law_members_are_read(
    v: JsonModel,
    key: Seq<char>,
    x: JsonModel,
    n: u64,
    s: Seq<char>,
    b: bool,
)
    ensures
        v.member(key) == Some(x) <==> (v matches JsonModel::Object(m) && m.contains_key(key)
            && m[key] == x),
        u64_member(v, key) == Some(n) <==> (v matches JsonModel::Object(m) && m.contains_key(key)
            && m[key] == JsonModel::Integer(n as int)),
        str_member(v, key) == Some(s) <==> (v matches JsonModel::Object(m) && m.contains_key(key)
            && m[key] == JsonModel::Str(s)),
        bool_member(v, key) == Some(b) <==> (v matches JsonModel::Object(m) && m.contains_key(key)
            && m[key] == JsonModel::Bool(b)),
        member_or_null(v, key) == (match v {
            JsonModel::Object(m) => if m.contains_key(key) {
                m[key]
            } else {
                JsonModel::Null
            },
            _ => JsonModel::Null,
        }),
{
}

} // verus!
