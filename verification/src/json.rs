//! A JSON document as a tree of plain values, the form in which manifests
//! are handed to and taken from the codec.

use vstd::prelude::*;
use crate::text::str_eq;

verus! {

/// Mathematical model of a JSON document.
pub enum Json {
    Null,
    Bool(bool),
    /// A number that is an integer in the range of `i64`.
    Integer(i64),
    /// Any other number: one with a fraction or exponent, or out of range.
    Number,
    Text(Seq<char>),
    Array(Seq<Json>),
    /// The members of an object, in document order.
    Object(Seq<(Seq<char>, Json)>),
}

/// One `"key": value` member of a JSON object.
#[derive(Debug, PartialEq, Eq)]
pub struct JsonMember {
    pub key: String,
    pub value: JsonValue,
}

/// A JSON document.
#[derive(Debug, PartialEq, Eq)]
pub enum JsonValue {
    Null,
    Bool(bool),
    /// A number that is an integer in the range of `i64`.
    Integer(i64),
    /// Any other number; its value is not kept.
    Number,
    Text(String),
    Array(Vec<JsonValue>),
    Object(Vec<JsonMember>),
}

/// The document that a value stands for.
pub open spec fn model_of(v: JsonValue) -> Json
    decreases v,
{
    match v {
        JsonValue::Null => Json::Null,
        JsonValue::Bool(b) => Json::Bool(b),
        JsonValue::Integer(n) => Json::Integer(n),
        JsonValue::Number => Json::Number,
        JsonValue::Text(s) => Json::Text(s@),
        JsonValue::Array(items) => Json::Array(
            Seq::new(
                items@.len(),
                |i: int|
                    if 0 <= i < items@.len() {
                        model_of(items@[i])
                    } else {
                        Json::Null
                    },
            ),
        ),
        JsonValue::Object(members) => Json::Object(
            Seq::new(
                members@.len(),
                |i: int|
                    if 0 <= i < members@.len() {
                        (members@[i].key@, model_of(members@[i].value))
                    } else {
                        (Seq::empty(), Json::Null)
                    },
            ),
        ),
    }
}

impl View for JsonValue {
    type V = Json;

    open spec fn view(&self) -> Json {
        model_of(*self)
    }
}

/// The value of the first member of `members` whose key is `key`.
pub open spec fn lookup(members: Seq<(Seq<char>, Json)>, key: Seq<char>) -> Option<Json>
    decreases members.len(),
{
    if members.len() == 0 {
        None
    } else if members[0].0 == key {
        Some(members[0].1)
    } else {
        lookup(members.drop_first(), key)
    }
}

impl Json {
    /// The member `key` of an object; `None` for a missing member and for a
    /// value that is no object.
    pub open spec fn member(self, key: Seq<char>) -> Option<Json> {
        match self {
            Json::Object(members) => lookup(members, key),
            _ => None,
        }
    }
}

impl JsonValue {
    /// The member `key` of an object, if the value is an object that has one.
    pub fn get(&self, key: &str) -> (r: Option<&JsonValue>)
        ensures
            match r {
                Some(v) => self@.member(key@) == Some(v@),
                None => self@.member(key@) is None,
            },
    {
        match self {
            JsonValue::Object(members) => {
                let mut i: usize = 0;
                assert(self@->Object_0.skip(0) == self@->Object_0);
                while i < members.len()
                    invariant
                        i <= members@.len(),
                        self@ is Object,
                        self@->Object_0.len() == members@.len(),
                        forall|j: int| 0 <= j < members@.len() ==> self@->Object_0[j] == (
                            members@[j].key@,
                            members@[j].value@,
                        ),
                        lookup(self@->Object_0, key@) == lookup(self@->Object_0.skip(i as int), key@),
                    decreases members@.len() - i,
                {
                    if str_eq(members[i].key.as_str(), key) {
                        return Some(&members[i].value);
                    }
                    proof {
                        let rest = self@->Object_0.skip(i as int);
                        assert(rest.drop_first() == self@->Object_0.skip(i as int + 1));
                    }
                    i += 1;
                }
                None
            },
            _ => None,
        }
    }
}

/// A JSON value as the `serde_json` crate holds it.
#[verifier::external_type_specification]
#[verifier::external_body]
pub struct ExValue(serde_json::Value);

/// The error that the `serde_json` crate reports.
#[verifier::external_type_specification]
#[verifier::external_body]
pub struct ExError(serde_json::Error);

/// The document that the `serde_json` crate reads from a text, if the text
/// is one.
pub uninterp spec fn json_of_text(text: Seq<char>) -> Option<Json>;

/// The document that a value of the `serde_json` crate stands for.
pub uninterp spec fn json_of_value(value: serde_json::Value) -> Json;

/// The outermost level of a value of the `serde_json` crate: what kind of
/// value it is, with its content where it is a scalar and with its parts,
/// untouched, where it is an array or an object.
pub(crate) enum Shallow<'a> {
    Null,
    Bool(bool),
    /// A number, as an integer where it is one in the range of `i64`.
    Number(Option<i64>),
    Text(&'a String),
    Array(Vec<&'a serde_json::Value>),
    Object(Vec<(&'a String, &'a serde_json::Value)>),
}

/// What the outermost level of a value says of the document that the value
/// stands for.
pub(crate) open spec fn level_of(level: Shallow, json: Json) -> bool {
    match level {
        Shallow::Null => json == Json::Null,
        Shallow::Bool(b) => json == Json::Bool(b),
        Shallow::Number(Some(n)) => json == Json::Integer(n),
        Shallow::Number(None) => json == Json::Number,
        Shallow::Text(s) => json == Json::Text(s@),
        Shallow::Array(items) => json == Json::Array(
            Seq::new(items@.len(), |i: int| json_of_value(*items@[i])),
        ),
        Shallow::Object(members) => json == Json::Object(
            Seq::new(members@.len(), |i: int| (members@[i].0@, json_of_value(*members@[i].1))),
        ),
    }
}

/// Reads a text with `serde_json::from_str`. Trusted: the value that comes
/// back stands for the document that the crate reads from the text, and an
/// error comes back exactly where it reads none.
#[verifier::external_body]
pub(crate) fn read_value(text: &str) -> (r: Result<serde_json::Value, serde_json::Error>)
    ensures
        match r {
            Ok(value) => json_of_text(text@) == Some(json_of_value(value)),
            Err(_) => json_of_text(text@) is None,
        },
{
    serde_json::from_str::<serde_json::Value>(text)
}

/// Takes the outermost level off a `serde_json::Value`, one arm for each of
/// its variants; a number is asked with `Value::as_i64` whether it is an
/// integer. Trusted: the level is that of the document that the value
/// stands for, and the parts of an array or an object are handed out in
/// their order.
#[verifier::external_body]
pub(crate) fn shallow(value: &serde_json::Value) -> (r: Shallow<'_>)
    ensures
        level_of(r, json_of_value(*value)),
{
    match value {
        serde_json::Value::Null => Shallow::Null,
        serde_json::Value::Bool(b) => Shallow::Bool(*b),
        serde_json::Value::Number(_) => Shallow::Number(value.as_i64()),
        serde_json::Value::String(s) => Shallow::Text(s),
        serde_json::Value::Array(items) => Shallow::Array(items.iter().collect()),
        serde_json::Value::Object(members) => Shallow::Object(members.iter().collect()),
    }
}

/// The text of an error of the `serde_json` crate, as its `Display` writes
/// it. Nothing is stated of the text.
#[verifier::external_body]
pub(crate) fn error_text(error: &serde_json::Error) -> (r: String)
{
    error.to_string()
}

impl JsonValue {
    /// The document that a value of the `serde_json` crate stands for, as a
    /// tree of plain values.
    pub fn from_value(value: &serde_json::Value) -> (r: JsonValue)
        ensures
            r@ == json_of_value(*value),
        decreases json_of_value(*value),
    {
        let ghost json = json_of_value(*value);
        match shallow(value) {
            Shallow::Null => JsonValue::Null,
            Shallow::Bool(b) => JsonValue::Bool(b),
            Shallow::Number(Some(n)) => JsonValue::Integer(n),
            Shallow::Number(None) => JsonValue::Number,
            Shallow::Text(s) => JsonValue::Text(s.clone()),
            Shallow::Array(items) => {
                let mut out: Vec<JsonValue> = Vec::new();
                let mut i: usize = 0;
                while i < items.len()
                    invariant
                        i <= items@.len(),
                        out@.len() == i,
                        json == Json::Array(
                            Seq::new(items@.len(), |k: int| json_of_value(*items@[k])),
                        ),
                        json == json_of_value(*value),
                        forall|j: int| 0 <= j < i ==> (#[trigger] out@[j])@ == json_of_value(
                            *items@[j],
                        ),
                    decreases items@.len() - i,
                {
                    assert(json->Array_0[i as int] == json_of_value(*items@[i as int]));
                    out.push(JsonValue::from_value(items[i]));
                    i += 1;
                }
                assert(JsonValue::Array(out)@->Array_0 =~= json->Array_0);
                JsonValue::Array(out)
            },
            Shallow::Object(members) => {
                let mut out: Vec<JsonMember> = Vec::new();
                let mut i: usize = 0;
                while i < members.len()
                    invariant
                        i <= members@.len(),
                        out@.len() == i,
                        json == Json::Object(
                            Seq::new(
                                members@.len(),
                                |k: int| (members@[k].0@, json_of_value(*members@[k].1)),
                            ),
                        ),
                        json == json_of_value(*value),
                        forall|j: int|
                            0 <= j < i ==> (#[trigger] out@[j]).key@ == members@[j].0@
                                && out@[j].value@ == json_of_value(*members@[j].1),
                    decreases members@.len() - i,
                {
                    assert(json->Object_0[i as int].1 == json_of_value(*members@[i as int].1));
                    let part = JsonValue::from_value(members[i].1);
                    out.push(JsonMember { key: members[i].0.clone(), value: part });
                    i += 1;
                }
                assert(JsonValue::Object(out)@->Object_0 =~= json->Object_0);
                JsonValue::Object(out)
            },
        }
    }

    /// Reads a JSON document from a text. Where the text is no JSON
    /// document, the error is the text of what the reader reports.
    pub fn parse(text: &str) -> (r: Result<JsonValue, String>)
        ensures
            match r {
                Ok(value) => json_of_text(text@) == Some(value@),
                Err(_) => json_of_text(text@) is None,
            },
    {
        match read_value(text) {
            Ok(value) => Ok(JsonValue::from_value(&value)),
            Err(e) => Err(error_text(&e)),
        }
    }
}

} // verus!
