//! Errors of the manifest codec.

use vstd::prelude::*;
use vstd::string::*;
use crate::text::{signed_decimal, signed_decimal_text};

verus! {

/// A JSON value that has not the shape a manifest asks for. The variants
/// with a payload carry the name of the offending property.
#[derive(Debug, PartialEq, Eq)]
pub enum JsonError {
    ExpectedRootObject,
    ExpectedRootArray,
    ExpectedObject(String),
    ExpectedArray(String),
    ExpectedBool(String),
    ExpectedNumber(String),
    ExpectedString(String),
    ExpectedObjectOrNull(String),
    ExpectedArrayOrNull(String),
    ExpectedBoolOrNull(String),
    ExpectedNumberOrNull(String),
    ExpectedStringOrNull(String),
    ExpectedArrayOfBool(String),
    ExpectedArrayOfNumber(String),
    ExpectedArrayOfString(String),
    ExpectedArrayOfObject(String),
    ExpectedArrayOfArray(String),
}

/// Mathematical model of a [`JsonError`].
pub enum JsonErrorView {
    ExpectedRootObject,
    ExpectedRootArray,
    ExpectedObject(Seq<char>),
    ExpectedArray(Seq<char>),
    ExpectedBool(Seq<char>),
    ExpectedNumber(Seq<char>),
    ExpectedString(Seq<char>),
    ExpectedObjectOrNull(Seq<char>),
    ExpectedArrayOrNull(Seq<char>),
    ExpectedBoolOrNull(Seq<char>),
    ExpectedNumberOrNull(Seq<char>),
    ExpectedStringOrNull(Seq<char>),
    ExpectedArrayOfBool(Seq<char>),
    ExpectedArrayOfNumber(Seq<char>),
    ExpectedArrayOfString(Seq<char>),
    ExpectedArrayOfObject(Seq<char>),
    ExpectedArrayOfArray(Seq<char>),
}

impl View for JsonError {
    type V = JsonErrorView;

    open spec fn view(&self) -> JsonErrorView {
        match self {
            JsonError::ExpectedRootObject => JsonErrorView::ExpectedRootObject,
            JsonError::ExpectedRootArray => JsonErrorView::ExpectedRootArray,
            JsonError::ExpectedObject(prop) => JsonErrorView::ExpectedObject(prop@),
            JsonError::ExpectedArray(prop) => JsonErrorView::ExpectedArray(prop@),
            JsonError::ExpectedBool(prop) => JsonErrorView::ExpectedBool(prop@),
            JsonError::ExpectedNumber(prop) => JsonErrorView::ExpectedNumber(prop@),
            JsonError::ExpectedString(prop) => JsonErrorView::ExpectedString(prop@),
            JsonError::ExpectedObjectOrNull(prop) => JsonErrorView::ExpectedObjectOrNull(prop@),
            JsonError::ExpectedArrayOrNull(prop) => JsonErrorView::ExpectedArrayOrNull(prop@),
            JsonError::ExpectedBoolOrNull(prop) => JsonErrorView::ExpectedBoolOrNull(prop@),
            JsonError::ExpectedNumberOrNull(prop) => JsonErrorView::ExpectedNumberOrNull(prop@),
            JsonError::ExpectedStringOrNull(prop) => JsonErrorView::ExpectedStringOrNull(prop@),
            JsonError::ExpectedArrayOfBool(prop) => JsonErrorView::ExpectedArrayOfBool(prop@),
            JsonError::ExpectedArrayOfNumber(prop) => JsonErrorView::ExpectedArrayOfNumber(prop@),
            JsonError::ExpectedArrayOfString(prop) => JsonErrorView::ExpectedArrayOfString(prop@),
            JsonError::ExpectedArrayOfObject(prop) => JsonErrorView::ExpectedArrayOfObject(prop@),
            JsonError::ExpectedArrayOfArray(prop) => JsonErrorView::ExpectedArrayOfArray(prop@),
        }
    }
}

/// The sentence `Property "<prop>" to be <what>!`.
pub open spec fn property_sentence(prop: Seq<char>, what: Seq<char>) -> Seq<char> {
    "Property \""@ + prop + "\" to be "@ + what + "!"@
}

impl JsonErrorView {
    /// The text that describes the error to a user.
    pub open spec fn message(self) -> Seq<char> {
        match self {
            JsonErrorView::ExpectedRootObject => "Expected json root to be an object!"@,
            JsonErrorView::ExpectedRootArray => "Expected json root to be an array!"@,
            JsonErrorView::ExpectedObject(prop) => property_sentence(prop, "a object"@),
            JsonErrorView::ExpectedArray(prop) => property_sentence(prop, "a array"@),
            JsonErrorView::ExpectedBool(prop) => property_sentence(prop, "a boolean"@),
            JsonErrorView::ExpectedNumber(prop) => property_sentence(prop, "a number"@),
            JsonErrorView::ExpectedString(prop) => property_sentence(prop, "a string"@),
            JsonErrorView::ExpectedObjectOrNull(prop) => property_sentence(prop, "a object or null"@),
            JsonErrorView::ExpectedArrayOrNull(prop) => property_sentence(prop, "a array or null"@),
            JsonErrorView::ExpectedBoolOrNull(prop) => property_sentence(prop, "a boolean or null"@),
            JsonErrorView::ExpectedNumberOrNull(prop) => property_sentence(prop, "a number or null"@),
            JsonErrorView::ExpectedStringOrNull(prop) => property_sentence(prop, "a string or null"@),
            JsonErrorView::ExpectedArrayOfBool(prop) => property_sentence(prop, "an array of booleans"@),
            JsonErrorView::ExpectedArrayOfNumber(prop) => property_sentence(prop, "an array of numbers"@),
            JsonErrorView::ExpectedArrayOfString(prop) => property_sentence(prop, "an array of strings"@),
            JsonErrorView::ExpectedArrayOfObject(prop) => property_sentence(prop, "an array of objects"@),
            JsonErrorView::ExpectedArrayOfArray(prop) => property_sentence(prop, "an array of arrays"@),
        }
    }
}

fn property_message(prop: &String, what: &str) -> (s: String)
    ensures
        s@ == property_sentence(prop@, what@),
{
    let mut s = "Property \"".to_owned();
    s.append(prop.as_str());
    s.append("\" to be ");
    s.append(what);
    s.append("!");
    s
}

impl JsonError {
    /// The text that describes the error to a user.
    pub fn message(&self) -> (s: String)
        ensures
            s@ == self@.message(),
    {
        match self {
            JsonError::ExpectedRootObject => "Expected json root to be an object!".to_owned(),
            JsonError::ExpectedRootArray => "Expected json root to be an array!".to_owned(),
            JsonError::ExpectedObject(prop) => property_message(prop, "a object"),
            JsonError::ExpectedArray(prop) => property_message(prop, "a array"),
            JsonError::ExpectedBool(prop) => property_message(prop, "a boolean"),
            JsonError::ExpectedNumber(prop) => property_message(prop, "a number"),
            JsonError::ExpectedString(prop) => property_message(prop, "a string"),
            JsonError::ExpectedObjectOrNull(prop) => property_message(prop, "a object or null"),
            JsonError::ExpectedArrayOrNull(prop) => property_message(prop, "a array or null"),
            JsonError::ExpectedBoolOrNull(prop) => property_message(prop, "a boolean or null"),
            JsonError::ExpectedNumberOrNull(prop) => property_message(prop, "a number or null"),
            JsonError::ExpectedStringOrNull(prop) => property_message(prop, "a string or null"),
            JsonError::ExpectedArrayOfBool(prop) => property_message(prop, "an array of booleans"),
            JsonError::ExpectedArrayOfNumber(prop) => property_message(prop, "an array of numbers"),
            JsonError::ExpectedArrayOfString(prop) => property_message(prop, "an array of strings"),
            JsonError::ExpectedArrayOfObject(prop) => property_message(prop, "an array of objects"),
            JsonError::ExpectedArrayOfArray(prop) => property_message(prop, "an array of arrays"),
        }
    }
}

/// Why a manifest could not be read. The payload of the first two variants
/// is the text of the failure that the reader met.
#[derive(Debug, PartialEq, Eq)]
pub enum ModManifestError {
    /// The file could not be read.
    IOError(String),
    /// The text is no JSON document.
    SerdeError(String),
    /// A property is missing or has the wrong JSON type.
    JsonError(JsonError),
    /// The manifest names a schema version that is not known.
    UnknownVersion(i64),
    /// The `Guid` property is a string that is no UUID; the payload is that string.
    MalformedGuid(String),
}

/// Mathematical model of a [`ModManifestError`].
pub enum ModManifestErrorView {
    IOError(Seq<char>),
    SerdeError(Seq<char>),
    JsonError(JsonErrorView),
    UnknownVersion(i64),
    MalformedGuid(Seq<char>),
}

impl View for ModManifestError {
    type V = ModManifestErrorView;

    open spec fn view(&self) -> ModManifestErrorView {
        match self {
            ModManifestError::IOError(s) => ModManifestErrorView::IOError(s@),
            ModManifestError::SerdeError(s) => ModManifestErrorView::SerdeError(s@),
            ModManifestError::JsonError(e) => ModManifestErrorView::JsonError(e@),
            ModManifestError::UnknownVersion(n) => ModManifestErrorView::UnknownVersion(*n),
            ModManifestError::MalformedGuid(s) => ModManifestErrorView::MalformedGuid(s@),
        }
    }
}

impl ModManifestErrorView {
    /// The text that describes the error to a user.
    pub open spec fn message(self) -> Seq<char> {
        match self {
            ModManifestErrorView::IOError(s) => "IO error: \""@ + s + "\"!"@,
            ModManifestErrorView::SerdeError(s) => "Serde error: \""@ + s + "\"!"@,
            ModManifestErrorView::JsonError(e) => "Json error: \""@ + e.message() + "\"!"@,
            ModManifestErrorView::UnknownVersion(n) => "Unknown version "@ + signed_decimal(n as int)
                + "!"@,
            ModManifestErrorView::MalformedGuid(s) => "Malformed GUID \""@ + s + "\"!"@,
        }
    }
}

impl ModManifestError {
    /// The text that describes the error to a user.
    pub fn message(&self) -> (s: String)
        ensures
            s@ == self@.message(),
    {
        match self {
            ModManifestError::IOError(text) => {
                let mut s = "IO error: \"".to_owned();
                s.append(text.as_str());
                s.append("\"!");
                s
            },
            ModManifestError::SerdeError(text) => {
                let mut s = "Serde error: \"".to_owned();
                s.append(text.as_str());
                s.append("\"!");
                s
            },
            ModManifestError::JsonError(e) => {
                let mut s = "Json error: \"".to_owned();
                let inner = e.message();
                s.append(inner.as_str());
                s.append("\"!");
                s
            },
            ModManifestError::UnknownVersion(n) => {
                let mut s = "Unknown version ".to_owned();
                let digits = signed_decimal_text(*n);
                s.append(digits.as_str());
                s.append("!");
                s
            },
            ModManifestError::MalformedGuid(text) => {
                let mut s = "Malformed GUID \"".to_owned();
                s.append(text.as_str());
                s.append("\"!");
                s
            },
        }
    }
}

} // verus!
