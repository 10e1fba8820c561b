//! JSON documents.
//!
//! A `serde_json::Value` is a tree-shaped collection: an array or an object holds
//! further values. The type is opaque to the verifier; [`json_of`] names what a
//! value holds, and the operations of `serde_json` that this crate calls are
//! specified over that name.

use serde_json::Value;
use vstd::prelude::*;

use crate::text;

verus! {

/// `serde_json::Value`, opaque.
#[verifier::external_type_specification]
#[verifier::external_body]
pub struct ExValue(serde_json::Value);

/// `serde_json::Error`, opaque.
#[verifier::external_type_specification]
#[verifier::external_body]
pub struct ExError(serde_json::Error);

/// A JSON number, as `serde_json` keeps it.
pub enum Number {
    /// A whole number that is not negative.
    Unsigned(u64),
    /// A negative whole number.
    Negative(i64),
    /// Any other number, by its bit pattern.
    Float(u64),
}

/// What a JSON document holds.
pub enum Json {
    Null,
    Bool(bool),
    Number(Number),
    Text(Seq<char>),
    Array(Seq<Json>),
    Object(Map<Seq<char>, Json>),
}

/// What a `serde_json::Value` holds.
pub uninterp spec fn json_of(value: serde_json::Value) -> Json;

/// What `serde_json::from_str` makes of a text: the document, or the message of
/// the error.
pub uninterp spec fn parsed_json(text: Seq<char>) -> Result<Json, Seq<char>>;

/// What each of several values holds.
pub open spec fn jsons(values: Seq<Value>) -> Seq<Json> {
    values.map_values(|v: Value| json_of(v))
}

impl Json {
    /// The member of an object under a key; `Null` where there is none, or where
    /// this is no object.
    pub open spec fn at(self, key: Seq<char>) -> Json {
        match self {
            Json::Object(members) => if members.dom().contains(key) {
                members[key]
            } else {
                Json::Null
            },
            _ => Json::Null,
        }
    }

    /// The text of a string, or a default for anything else.
    pub open spec fn text_or(self, default: Seq<char>) -> Seq<char> {
        match self {
            Json::Text(text) => text,
            _ => default,
        }
    }

    /// A count: the low 32 bits of a whole number that is not negative, and zero
    /// for anything else.
    pub open spec fn count(self) -> u32 {
        match self {
            Json::Number(Number::Unsigned(n)) => (n % 0x1_0000_0000) as u32,
            _ => 0,
        }
    }

    /// The elements of an array, and none for anything else.
    pub open spec fn items(self) -> Seq<Json> {
        match self {
            Json::Array(items) => items,
            _ => Seq::empty(),
        }
    }

    /// An object with one more member, which replaces one of the same key.
    pub open spec fn with(self, key: Seq<char>, member: Json) -> Json {
        match self {
            Json::Object(members) => Json::Object(members.insert(key, member)),
            _ => self,
        }
    }

    /// The object without members.
    pub open spec fn no_members() -> Json {
        Json::Object(Map::empty())
    }

    /// The array of strings.
    pub open spec fn strings(parts: Seq<Seq<char>>) -> Json {
        Json::Array(parts.map_values(|p: Seq<char>| Json::Text(p)))
    }
}

// ---------------------------------------------------------------------------
// Reading
// ---------------------------------------------------------------------------

/// `serde_json::Value::as_str`: the text of a string, and `None` for any other
/// value.
pub assume_specification[ serde_json::Value::as_str ](value: &serde_json::Value) -> (r: Option<
    &str,
>)
    ensures
        match json_of(*value) {
            Json::Text(text) => r matches Some(s) && s@ == text,
            _ => r is None,
        },
;

/// `serde_json::Value::as_u64`: a whole number that is not negative, and `None`
/// for any other value.
pub assume_specification[ serde_json::Value::as_u64 ](value: &serde_json::Value) -> (r: Option<u64>)
    ensures
        match json_of(*value) {
            Json::Number(Number::Unsigned(n)) => r == Some(n),
            _ => r is None,
        },
;

/// `serde_json::Value::as_bool`: a boolean, and `None` for any other value.
pub assume_specification[ serde_json::Value::as_bool ](value: &serde_json::Value) -> (r: Option<
    bool,
>)
    ensures
        match json_of(*value) {
            Json::Bool(b) => r == Some(b),
            _ => r is None,
        },
;

/// `serde_json::Value::as_array`: the elements of an array in their order, and
/// `None` for any other value.
pub assume_specification[ serde_json::Value::as_array ](value: &serde_json::Value) -> (r: Option<
    &Vec<serde_json::Value>,
>)
    ensures
        match json_of(*value) {
            Json::Array(items) => r matches Some(v) && jsons(v@) == items,
            _ => r is None,
        },
;

/// The clone of a `serde_json::Value` holds what the value holds.
pub assume_specification[ <serde_json::Value as Clone>::clone ](value: &serde_json::Value) -> (r:
    serde_json::Value)
    ensures
        json_of(r) == json_of(*value),
;

/// `serde_json::Value`'s `[key]` with a string: the member under the key, and the
/// null value where there is none, or where the value is no object.
#[verifier::external_body]
pub(crate) fn member<'a>(value: &'a Value, key: &str) -> (r: &'a Value)
    ensures
        json_of(*r) == json_of(*value).at(key@),
{
    &value[key]
}

/// `serde_json::from_str` into a `serde_json::Value`: the document of the text, or
/// an error. The error's message, too, follows from the text.
#[verifier::external_body]
pub(crate) fn parse(text: &str) -> (r: Result<Value, serde_json::Error>)
    ensures
        match parsed_json(text@) {
            Ok(json) => r matches Ok(value) && json_of(value) == json,
            Err(message) => r matches Err(e) && forall|t: String|
                vstd::string::to_string_from_display_ensures(&e, t) ==> #[trigger] t@ == message,
        },
{
    serde_json::from_str(text)
}

/// The text of a string value, or a default for any other value.
pub fn text_or(value: &Value, default: &str) -> (r: String)
    ensures
        r@ == json_of(*value).text_or(default@),
{
    match value.as_str() {
        Some(text) => text.to_string(),
        None => default.to_string(),
    }
}

/// A count: the low 32 bits of a whole number that is not negative, and zero for
/// any other value.
pub fn count(value: &Value) -> (r: u32)
    ensures
        r == json_of(*value).count(),
{
    match value.as_u64() {
        Some(n) => {
            assert(n as u32 == n % 0x1_0000_0000) by (bit_vector);
            #[verifier::truncate]
            let low: u32 = n as u32;
            low
        },
        None => 0,
    }
}

// ---------------------------------------------------------------------------
// Building
// ---------------------------------------------------------------------------

/// `serde_json::Value::String`.
#[verifier::external_body]
pub(crate) fn text_value(text: String) -> (r: Value)
    ensures
        json_of(r) == Json::Text(text@),
{
    Value::String(text)
}

/// `serde_json::Value::Bool`.
#[verifier::external_body]
pub(crate) fn bool_value(b: bool) -> (r: Value)
    ensures
        json_of(r) == Json::Bool(b),
{
    Value::Bool(b)
}

/// `serde_json::Value::from` on a `u32`: the whole number.
#[verifier::external_body]
pub(crate) fn number_value(n: u32) -> (r: Value)
    ensures
        json_of(r) == Json::Number(Number::Unsigned(n as u64)),
{
    Value::from(n)
}

/// `serde_json::Value::Array`.
#[verifier::external_body]
pub(crate) fn array_value(items: Vec<Value>) -> (r: Value)
    ensures
        json_of(r) == Json::Array(jsons(items@)),
{
    Value::Array(items)
}

/// `serde_json::Value::Object` of an empty `serde_json::Map`.
#[verifier::external_body]
pub(crate) fn empty_object() -> (r: Value)
    ensures
        json_of(r) == Json::no_members(),
{
    Value::Object(serde_json::Map::new())
}

/// `serde_json::Value`'s `[key]` assigned to, on an object: the object then has the
/// member under the key, in place of one that it had there, and its other members
/// as before. (On a value that is neither an object nor null, `serde_json` panics.)
#[verifier::external_body]
pub(crate) fn set_member(object: &mut Value, key: &str, member: Value)
    requires
        json_of(*old(object)) is Object,
    ensures
        json_of(*final(object)) == json_of(*old(object)).with(key@, json_of(member)),
{
    object[key] = member;
}

/// Gives an object a string member.
pub(crate) fn set_text(object: &mut Value, key: &str, text: &str)
    requires
        json_of(*old(object)) is Object,
    ensures
        json_of(*final(object)) == json_of(*old(object)).with(key@, Json::Text(text@)),
{
    set_member(object, key, text_value(text.to_string()));
}

/// The array of strings.
pub fn strings_value(parts: &Vec<String>) -> (r: Value)
    ensures
        json_of(r) == Json::strings(text::texts(parts@)),
{
    let mut items: Vec<Value> = Vec::new();
    let mut i: usize = 0;
    while i < parts.len()
        invariant
            i <= parts.len(),
            items@.len() == i,
            forall|j: int|
                0 <= j < i ==> json_of(#[trigger] items@[j]) == Json::Text(parts@[j]@),
        decreases parts.len() - i,
    {
        items.push(text_value(parts[i].clone()));
        i = i + 1;
    }
    assert(jsons(items@) =~= text::texts(parts@).map_values(|p: Seq<char>| Json::Text(p)));
    array_value(items)
}

// ---------------------------------------------------------------------------
// Laws
// ---------------------------------------------------------------------------

/// What is read from a document is what stands there. An object gives the member under a
/// key, a string its characters, an array its elements, and a whole number below 2^32
/// itself; where there is no such thing, null, the default, no elements and zero stand
/// in for it.
pub proof fn law_reading(document: Json, key: Seq<char>, default: Seq<char>)
    ensures
        match document {
            Json::Object(members) => {
                &&& members.dom().contains(key) ==> document.at(key) == members[key]
                &&& !members.dom().contains(key) ==> document.at(key) == Json::Null
            },
            _ => document.at(key) == Json::Null,
        },
        match document {
            Json::Text(text) => document.text_or(default) == text,
            _ => document.text_or(default) == default,
        },
        match document {
            Json::Array(items) => document.items() == items,
            _ => document.items() == Seq::<Json>::empty(),
        },
        match document {
            Json::Number(Number::Unsigned(n)) => {
                &&& n < 0x1_0000_0000 ==> document.count() == n
                &&& exists|high: int| n == #[trigger] (high * 0x1_0000_0000) + document.count()
            },
            _ => document.count() == 0,
        },
{
    if let Json::Number(Number::Unsigned(n)) = document {
        let high = n as int / 0x1_0000_0000;
        assert(n == (high * 0x1_0000_0000) + document.count());
    }
}

/// What is put into a document stands there: an object that is given a member has it,
/// and its other members as before; the array of strings has each string in order.
pub proof fn law_building(
    members: Map<Seq<char>, Json>,
    key: Seq<char>,
    member: Json,
    parts: Seq<Seq<char>>,
)
    ensures
        Json::Object(members).with(key, member) matches Json::Object(more) && {
            &&& more.dom() == members.dom().insert(key)
            &&& more[key] == member
            &&& forall|k: Seq<char>| k != key && members.dom().contains(k) ==> #[trigger] more[k]
                == members[k]
        },
        Json::no_members() == Json::Object(Map::empty()),
        Json::strings(parts) matches Json::Array(items) && {
            &&& items.len() == parts.len()
            &&& forall|i: int| 0 <= i < parts.len() ==> #[trigger] items[i] == Json::Text(parts[i])
        },
{
}

/// What several values hold is what each of them holds, in order.
pub proof fn law_jsons(values: Seq<Value>)
    ensures
        jsons(values).len() == values.len(),
        forall|i: int| 0 <= i < values.len() ==> #[trigger] jsons(values)[i] == json_of(values[i]),
{
}

} // verus!
