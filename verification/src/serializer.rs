//! The versioned codec of mod manifests: it reads the legacy schema and the
//! current one from a JSON document, and writes the current one.

use vstd::prelude::*;
use crate::error::{JsonError, JsonErrorView, ModManifestError, ModManifestErrorView};
use crate::guid::{format_guid, guid_of_text, guid_text, parse_guid, Guid};
use crate::json::{json_of_text, lookup, Json, JsonMember, JsonValue};
use crate::manifests::mod_manifest::{
    ManifestView,
    ModManifest,
    ModOption,
    ModSubOption,
    NexusData,
    NexusView,
    OptionView,
    SubOptionView,
    Version,
};
use crate::text::views;

verus! {

/// The number of the current schema.
pub const CURRENT_VERSION: u32 = 1;

/// The model of a result whose two sides have models.
pub open spec fn result_view<T: View, E: View>(r: Result<T, E>) -> Result<T::V, E::V> {
    match r {
        Ok(t) => Ok(t@),
        Err(e) => Err(e@),
    }
}

/// The model of a result that holds an optional text.
pub open spec fn optional_text_view(r: Result<Option<String>, JsonError>) -> Result<
    Option<Seq<char>>,
    JsonErrorView,
> {
    match r {
        Ok(Some(s)) => Ok(Some(s@)),
        Ok(None) => Ok(None),
        Err(e) => Err(e@),
    }
}

/// The model of a result that holds an optional list.
pub open spec fn optional_list_view<T: View>(r: Result<Option<Vec<T>>, JsonError>) -> Result<
    Option<Seq<T::V>>,
    JsonErrorView,
> {
    match r {
        Ok(Some(v)) => Ok(Some(views(v@))),
        Ok(None) => Ok(None),
        Err(e) => Err(e@),
    }
}

/// The model of a result that holds a list.
pub open spec fn list_result_view<T: View>(r: Result<Vec<T>, JsonError>) -> Result<
    Seq<T::V>,
    JsonErrorView,
> {
    match r {
        Ok(v) => Ok(views(v@)),
        Err(e) => Err(e@),
    }
}

/// A property that must be a string.
pub open spec fn required_text(object: Json, key: Seq<char>) -> Result<Seq<char>, JsonErrorView> {
    match object.member(key) {
        Some(Json::Text(s)) => Ok(s),
        _ => Err(JsonErrorView::ExpectedString(key)),
    }
}

/// A property that may be missing or null, and is a string otherwise.
pub open spec fn optional_text(object: Json, key: Seq<char>) -> Result<
    Option<Seq<char>>,
    JsonErrorView,
> {
    match object.member(key) {
        None => Ok(None),
        Some(Json::Null) => Ok(None),
        Some(Json::Text(s)) => Ok(Some(s)),
        _ => Err(JsonErrorView::ExpectedStringOrNull(key)),
    }
}

/// A property that may be missing or null, and is an array otherwise.
pub open spec fn optional_array(object: Json, key: Seq<char>) -> Result<
    Option<Seq<Json>>,
    JsonErrorView,
> {
    match object.member(key) {
        None => Ok(None),
        Some(Json::Null) => Ok(None),
        Some(Json::Array(items)) => Ok(Some(items)),
        _ => Err(JsonErrorView::ExpectedArrayOrNull(key)),
    }
}

/// The items of an array that holds nothing but strings.
pub open spec fn text_list(items: Seq<Json>, key: Seq<char>) -> Result<
    Seq<Seq<char>>,
    JsonErrorView,
> {
    if forall|i: int| 0 <= i < items.len() ==> #[trigger] items[i] is Text {
        Ok(Seq::new(items.len(), |i: int| items[i]->Text_0))
    } else {
        Err(JsonErrorView::ExpectedArrayOfString(key))
    }
}

/// A property that may be missing or null, and is an array of strings
/// otherwise.
pub open spec fn optional_text_list(object: Json, key: Seq<char>) -> Result<
    Option<Seq<Seq<char>>>,
    JsonErrorView,
> {
    match optional_array(object, key) {
        Err(e) => Err(e),
        Ok(None) => Ok(None),
        Ok(Some(items)) => match text_list(items, key) {
            Err(e) => Err(e),
            Ok(texts) => Ok(Some(texts)),
        },
    }
}

/// Decodes the items of an array one by one with `item`; the first item that
/// fails, in document order, decides the error.
pub open spec fn each<T>(items: Seq<Json>, item: spec_fn(Json) -> Result<T, JsonErrorView>) -> Result<
    Seq<T>,
    JsonErrorView,
>
    decreases items.len(),
{
    if items.len() == 0 {
        Ok(Seq::empty())
    } else {
        match each(items.drop_last(), item) {
            Err(e) => Err(e),
            Ok(front) => match item(items.last()) {
                Err(e) => Err(e),
                Ok(t) => Ok(front.push(t)),
            },
        }
    }
}

/// An error among the first items of an array is the error of the array.
pub proof fn lemma_each_fails_early<T>(
    items: Seq<Json>,
    item: spec_fn(Json) -> Result<T, JsonErrorView>,
    n: int,
)
    requires
        0 <= n <= items.len(),
        each(items.take(n), item) is Err,
    ensures
        each(items, item) == each(items.take(n), item),
    decreases items.len(),
{
    if n == items.len() {
        assert(items.take(n) == items);
    } else {
        assert(items.drop_last().take(n) == items.take(n));
        lemma_each_fails_early(items.drop_last(), item, n);
    }
}

fn get_required_text(object: &JsonValue, key: &str) -> (r: Result<String, JsonError>)
    ensures
        result_view(r) == required_text(object@, key@),
{
    match object.get(key) {
        Some(JsonValue::Text(s)) => Ok(s.clone()),
        _ => Err(JsonError::ExpectedString(key.to_owned())),
    }
}

fn get_optional_text(object: &JsonValue, key: &str) -> (r: Result<Option<String>, JsonError>)
    ensures
        optional_text_view(r) == optional_text(object@, key@),
{
    match object.get(key) {
        None => Ok(None),
        Some(JsonValue::Null) => Ok(None),
        Some(JsonValue::Text(s)) => Ok(Some(s.clone())),
        _ => Err(JsonError::ExpectedStringOrNull(key.to_owned())),
    }
}

fn get_text_list(items: &Vec<JsonValue>, key: &str) -> (r: Result<Vec<String>, JsonError>)
    ensures
        list_result_view(r) == text_list(views(items@), key@),
{
    let mut out: Vec<String> = Vec::new();
    let mut i: usize = 0;
    while i < items.len()
        invariant
            i <= items@.len(),
            out@.len() == i,
            forall|j: int| 0 <= j < i ==> #[trigger] items@[j]@ is Text,
            forall|j: int| 0 <= j < i ==> (#[trigger] out@[j])@ == items@[j]@->Text_0,
        decreases items@.len() - i,
    {
        match &items[i] {
            JsonValue::Text(s) => {
                out.push(s.clone());
            },
            _ => {
                assert(!(views(items@)[i as int] is Text));
                return Err(JsonError::ExpectedArrayOfString(key.to_owned()));
            },
        }
        i += 1;
    }
    assert(views(out@) == Seq::new(views(items@).len(), |i: int| views(items@)[i]->Text_0));
    Ok(out)
}

fn get_optional_text_list(object: &JsonValue, key: &str) -> (r: Result<
    Option<Vec<String>>,
    JsonError,
>)
    ensures
        optional_list_view(r) == optional_text_list(object@, key@),
{
    match object.get(key) {
        None => Ok(None),
        Some(JsonValue::Null) => Ok(None),
        Some(JsonValue::Array(items)) => {
            proof {
                lemma_array_view(*items);
            }
            match get_text_list(items, key) {
                Ok(texts) => Ok(Some(texts)),
                Err(e) => Err(e),
            }
        },
        _ => Err(JsonError::ExpectedArrayOrNull(key.to_owned())),
    }
}

/// The model of an array is made of the models of its items.
pub proof fn lemma_array_view(items: Vec<JsonValue>)
    ensures
        JsonValue::Array(items)@ == Json::Array(views(items@)),
{
    assert(JsonValue::Array(items)@->Array_0 =~= views(items@));
}

/// Decodes one item of a `SubOptions` array.
pub open spec fn decode_sub_option(json: Json) -> Result<SubOptionView, JsonErrorView> {
    if !(json is Object) {
        Err(JsonErrorView::ExpectedArrayOfObject("SubOptions"@))
    } else {
        match required_text(json, "Name"@) {
            Err(e) => Err(e),
            Ok(name) => match required_text(json, "Description"@) {
                Err(e) => Err(e),
                Ok(description) => match json.member("Include"@) {
                    Some(Json::Array(items)) => match text_list(items, "Include"@) {
                        Err(e) => Err(e),
                        Ok(includes) => Ok(SubOptionView { name, description, includes }),
                    },
                    _ => Err(JsonErrorView::ExpectedArray("Include"@)),
                },
            },
        }
    }
}

/// The decoder of the items of a `SubOptions` array.
pub open spec fn sub_option_decoder() -> spec_fn(Json) -> Result<SubOptionView, JsonErrorView> {
    |j: Json| decode_sub_option(j)
}

/// A property that may be missing or null, and is an array of sub-options
/// otherwise.
pub open spec fn optional_sub_options(object: Json) -> Result<
    Option<Seq<SubOptionView>>,
    JsonErrorView,
> {
    match optional_array(object, "SubOptions"@) {
        Err(e) => Err(e),
        Ok(None) => Ok(None),
        Ok(Some(items)) => match each(items, sub_option_decoder()) {
            Err(e) => Err(e),
            Ok(subs) => Ok(Some(subs)),
        },
    }
}

/// Decodes one item of an `Options` array of the current schema.
pub open spec fn decode_option(json: Json) -> Result<OptionView, JsonErrorView> {
    if !(json is Object) {
        Err(JsonErrorView::ExpectedArrayOfObject("Options"@))
    } else {
        match required_text(json, "Name"@) {
            Err(e) => Err(e),
            Ok(name) => match required_text(json, "Description"@) {
                Err(e) => Err(e),
                Ok(description) => match optional_text_list(json, "Include"@) {
                    Err(e) => Err(e),
                    Ok(includes) => match optional_sub_options(json) {
                        Err(e) => Err(e),
                        Ok(sub_options) => Ok(
                            OptionView { name, description, includes, sub_options },
                        ),
                    },
                },
            },
        }
    }
}

/// The decoder of the items of an `Options` array of the current schema.
pub open spec fn option_decoder() -> spec_fn(Json) -> Result<OptionView, JsonErrorView> {
    |j: Json| decode_option(j)
}

/// A property that may be missing or null, and is an array of options
/// otherwise.
pub open spec fn optional_options(object: Json) -> Result<Option<Seq<OptionView>>, JsonErrorView> {
    match optional_array(object, "Options"@) {
        Err(e) => Err(e),
        Ok(None) => Ok(None),
        Ok(Some(items)) => match each(items, option_decoder()) {
            Err(e) => Err(e),
            Ok(options) => Ok(Some(options)),
        },
    }
}

/// Decodes the `NexusData` property, which may be missing or null.
pub open spec fn optional_nexus_data(object: Json) -> Result<Option<NexusView>, JsonErrorView> {
    match object.member("NexusData"@) {
        None => Ok(None),
        Some(Json::Null) => Ok(None),
        Some(Json::Object(members)) => match lookup(members, "Id"@) {
            Some(Json::Integer(id)) if 0 <= id <= u32::MAX => match required_text(
                Json::Object(members),
                "Version"@,
            ) {
                Err(e) => Err(e),
                Ok(version) => Ok(Some(NexusView { id: id as u32, version })),
            },
            _ => Err(JsonErrorView::ExpectedNumber("Id"@)),
        },
        _ => Err(JsonErrorView::ExpectedObjectOrNull("NexusData"@)),
    }
}

fn read_sub_option(json: &JsonValue) -> (r: Result<ModSubOption, JsonError>)
    ensures
        result_view(r) == decode_sub_option(json@),
{
    match json {
        JsonValue::Object(_) => {},
        _ => {
            return Err(JsonError::ExpectedArrayOfObject("SubOptions".to_owned()));
        },
    }
    let name = match get_required_text(json, "Name") {
        Ok(name) => name,
        Err(e) => {
            return Err(e);
        },
    };
    let description = match get_required_text(json, "Description") {
        Ok(description) => description,
        Err(e) => {
            return Err(e);
        },
    };
    match json.get("Include") {
        Some(JsonValue::Array(items)) => {
            proof {
                lemma_array_view(*items);
            }
            match get_text_list(items, "Include") {
                Ok(includes) => Ok(ModSubOption::new(name, description, includes)),
                Err(e) => Err(e),
            }
        },
        _ => Err(JsonError::ExpectedArray("Include".to_owned())),
    }
}

fn read_sub_options(object: &JsonValue) -> (r: Result<Option<Vec<ModSubOption>>, JsonError>)
    ensures
        optional_list_view(r) == optional_sub_options(object@),
{
    match object.get("SubOptions") {
        None => Ok(None),
        Some(JsonValue::Null) => Ok(None),
        Some(JsonValue::Array(items)) => {
            let ghost item = sub_option_decoder();
            let ghost all = views(items@);
            proof {
                lemma_array_view(*items);
            }
            let mut out: Vec<ModSubOption> = Vec::new();
            let mut i: usize = 0;
            assert(views(out@) == Seq::<SubOptionView>::empty());
            while i < items.len()
                invariant
                    i <= items@.len(),
                    all == views(items@),
                    item == sub_option_decoder(),
                    optional_array(object@, "SubOptions"@) == Ok::<Option<Seq<Json>>, JsonErrorView>(
                        Some(all),
                    ),
                    each(all.take(i as int), item) == Ok::<Seq<SubOptionView>, JsonErrorView>(
                        views(out@),
                    ),
                decreases items@.len() - i,
            {
                proof {
                    assert(all.take(i + 1).drop_last() == all.take(i as int));
                }
                match read_sub_option(&items[i]) {
                    Ok(sub) => {
                        let ghost before = views(out@);
                        out.push(sub);
                        assert(views(out@) == before.push(sub@));
                    },
                    Err(e) => {
                        proof {
                            lemma_each_fails_early(all, item, i + 1);
                        }
                        return Err(e);
                    },
                }
                i += 1;
            }
            assert(all.take(i as int) == all);
            Ok(Some(out))
        },
        _ => Err(JsonError::ExpectedArrayOrNull("SubOptions".to_owned())),
    }
}

fn read_option(json: &JsonValue) -> (r: Result<ModOption, JsonError>)
    ensures
        result_view(r) == decode_option(json@),
{
    match json {
        JsonValue::Object(_) => {},
        _ => {
            return Err(JsonError::ExpectedArrayOfObject("Options".to_owned()));
        },
    }
    let name = match get_required_text(json, "Name") {
        Ok(name) => name,
        Err(e) => {
            return Err(e);
        },
    };
    let description = match get_required_text(json, "Description") {
        Ok(description) => description,
        Err(e) => {
            return Err(e);
        },
    };
    let includes = match get_optional_text_list(json, "Include") {
        Ok(includes) => includes,
        Err(e) => {
            return Err(e);
        },
    };
    match read_sub_options(json) {
        Ok(sub_options) => Ok(ModOption::new(name, description, includes, sub_options)),
        Err(e) => Err(e),
    }
}

fn read_options(object: &JsonValue) -> (r: Result<Option<Vec<ModOption>>, JsonError>)
    ensures
        optional_list_view(r) == optional_options(object@),
{
    match object.get("Options") {
        None => Ok(None),
        Some(JsonValue::Null) => Ok(None),
        Some(JsonValue::Array(items)) => {
            let ghost item = option_decoder();
            let ghost all = views(items@);
            proof {
                lemma_array_view(*items);
            }
            let mut out: Vec<ModOption> = Vec::new();
            let mut i: usize = 0;
            assert(views(out@) == Seq::<OptionView>::empty());
            while i < items.len()
                invariant
                    i <= items@.len(),
                    all == views(items@),
                    item == option_decoder(),
                    optional_array(object@, "Options"@) == Ok::<Option<Seq<Json>>, JsonErrorView>(
                        Some(all),
                    ),
                    each(all.take(i as int), item) == Ok::<Seq<OptionView>, JsonErrorView>(
                        views(out@),
                    ),
                decreases items@.len() - i,
            {
                proof {
                    assert(all.take(i + 1).drop_last() == all.take(i as int));
                }
                match read_option(&items[i]) {
                    Ok(option) => {
                        let ghost before = views(out@);
                        out.push(option);
                        assert(views(out@) == before.push(option@));
                    },
                    Err(e) => {
                        proof {
                            lemma_each_fails_early(all, item, i + 1);
                        }
                        return Err(e);
                    },
                }
                i += 1;
            }
            assert(all.take(i as int) == all);
            Ok(Some(out))
        },
        _ => Err(JsonError::ExpectedArrayOrNull("Options".to_owned())),
    }
}

fn read_nexus_data(object: &JsonValue) -> (r: Result<Option<NexusData>, JsonError>)
    ensures
        match r {
            Ok(Some(d)) => optional_nexus_data(object@) == Ok::<Option<NexusView>, JsonErrorView>(
                Some(d@),
            ),
            Ok(None) => optional_nexus_data(object@) == Ok::<Option<NexusView>, JsonErrorView>(None),
            Err(e) => optional_nexus_data(object@) == Err::<Option<NexusView>, JsonErrorView>(e@),
        },
{
    match object.get("NexusData") {
        None => Ok(None),
        Some(JsonValue::Null) => Ok(None),
        Some(nexus) => match nexus {
            JsonValue::Object(_) => {
                let id: u32 = match nexus.get("Id") {
                    Some(JsonValue::Integer(n)) => {
                        if 0 <= *n && *n <= 0xffff_ffff {
                            *n as u32
                        } else {
                            return Err(JsonError::ExpectedNumber("Id".to_owned()));
                        }
                    },
                    _ => {
                        return Err(JsonError::ExpectedNumber("Id".to_owned()));
                    },
                };
                match get_required_text(nexus, "Version") {
                    Ok(version) => Ok(Some(NexusData::new(id, version))),
                    Err(e) => Err(e),
                }
            },
            _ => Err(JsonError::ExpectedObjectOrNull("NexusData".to_owned())),
        },
    }
}

/// A property error as an error of the whole manifest.
pub open spec fn lift<T>(r: Result<T, JsonErrorView>) -> Result<T, ModManifestErrorView> {
    match r {
        Ok(t) => Ok(t),
        Err(e) => Err(ModManifestErrorView::JsonError(e)),
    }
}

/// Decodes the `Guid` property: a string that the `uuid` crate reads.
pub open spec fn decode_guid(object: Json) -> Result<Guid, ModManifestErrorView> {
    match required_text(object, "Guid"@) {
        Err(e) => Err(ModManifestErrorView::JsonError(e)),
        Ok(text) => match guid_of_text(text) {
            Some(guid) => Ok(guid),
            None => Err(ModManifestErrorView::MalformedGuid(text)),
        },
    }
}

/// Decodes a manifest of the legacy schema. The properties are read in the
/// order `Guid`, `Name`, `Description`, `IconPath`, `Options`; the first one
/// that fails decides the error.
pub open spec fn decode_legacy(json: Json) -> Result<ManifestView, ModManifestErrorView> {
    if !(json is Object) {
        Err(ModManifestErrorView::JsonError(JsonErrorView::ExpectedRootObject))
    } else {
        match decode_guid(json) {
            Err(e) => Err(e),
            Ok(guid) => match lift(required_text(json, "Name"@)) {
                Err(e) => Err(e),
                Ok(name) => match lift(required_text(json, "Description"@)) {
                    Err(e) => Err(e),
                    Ok(description) => match lift(optional_text(json, "IconPath"@)) {
                        Err(e) => Err(e),
                        Ok(icon_path) => match lift(optional_text_list(json, "Options"@)) {
                            Err(e) => Err(e),
                            Ok(options) => Ok(
                                ManifestView::Legacy {
                                    guid,
                                    name,
                                    description,
                                    icon_path,
                                    options,
                                },
                            ),
                        },
                    },
                },
            },
        }
    }
}

/// Decodes a manifest of the current schema. The properties are read in the
/// order `Guid`, `Name`, `Description`, `IconPath`, `Options`, `NexusData`;
/// the first one that fails decides the error.
pub open spec fn decode_v1(json: Json) -> Result<ManifestView, ModManifestErrorView> {
    if !(json is Object) {
        Err(ModManifestErrorView::JsonError(JsonErrorView::ExpectedRootObject))
    } else {
        match decode_guid(json) {
            Err(e) => Err(e),
            Ok(guid) => match lift(required_text(json, "Name"@)) {
                Err(e) => Err(e),
                Ok(name) => match lift(required_text(json, "Description"@)) {
                    Err(e) => Err(e),
                    Ok(description) => match lift(optional_text(json, "IconPath"@)) {
                        Err(e) => Err(e),
                        Ok(icon_path) => match lift(optional_options(json)) {
                            Err(e) => Err(e),
                            Ok(options) => match lift(optional_nexus_data(json)) {
                                Err(e) => Err(e),
                                Ok(nexus_data) => Ok(
                                    ManifestView::V1 {
                                        guid,
                                        name,
                                        description,
                                        icon_path,
                                        options,
                                        nexus_data,
                                    },
                                ),
                            },
                        },
                    },
                },
            },
        }
    }
}

/// Decodes a manifest of either schema. A document without a `Version`
/// property is a legacy manifest; one whose `Version` is the integer 1 is a
/// current manifest; any other integer is an unknown version, and a
/// `Version` that is no integer is a property of the wrong type.
pub open spec fn decode_manifest(json: Json) -> Result<ManifestView, ModManifestErrorView> {
    if !(json is Object) {
        Err(ModManifestErrorView::JsonError(JsonErrorView::ExpectedRootObject))
    } else {
        match json.member("Version"@) {
            None => decode_legacy(json),
            Some(Json::Integer(n)) => if n == CURRENT_VERSION {
                decode_v1(json)
            } else {
                Err(ModManifestErrorView::UnknownVersion(n))
            },
            Some(_) => Err(
                ModManifestErrorView::JsonError(JsonErrorView::ExpectedNumber("Version"@)),
            ),
        }
    }
}

fn read_guid(object: &JsonValue) -> (r: Result<Guid, ModManifestError>)
    ensures
        match r {
            Ok(guid) => decode_guid(object@) == Ok::<Guid, ModManifestErrorView>(guid),
            Err(e) => decode_guid(object@) == Err::<Guid, ModManifestErrorView>(e@),
        },
{
    match get_required_text(object, "Guid") {
        Err(e) => Err(ModManifestError::JsonError(e)),
        Ok(text) => match parse_guid(text.as_str()) {
            Some(guid) => Ok(guid),
            None => Err(ModManifestError::MalformedGuid(text)),
        },
    }
}

/// The decoder of the legacy schema.
pub struct ModManifestSerializerLegacy;

impl ModManifestSerializerLegacy {
    /// Decodes a manifest of the legacy schema.
    pub fn deserialize(&self, value: &JsonValue) -> (r: Result<ModManifest, ModManifestError>)
        ensures
            result_view(r) == decode_legacy(value@),
    {
        match value {
            JsonValue::Object(_) => {},
            _ => {
                return Err(ModManifestError::JsonError(JsonError::ExpectedRootObject));
            },
        }
        let guid = match read_guid(value) {
            Ok(guid) => guid,
            Err(e) => {
                return Err(e);
            },
        };
        let name = match get_required_text(value, "Name") {
            Ok(name) => name,
            Err(e) => {
                return Err(ModManifestError::JsonError(e));
            },
        };
        let description = match get_required_text(value, "Description") {
            Ok(description) => description,
            Err(e) => {
                return Err(ModManifestError::JsonError(e));
            },
        };
        let icon_path = match get_optional_text(value, "IconPath") {
            Ok(icon_path) => icon_path,
            Err(e) => {
                return Err(ModManifestError::JsonError(e));
            },
        };
        match get_optional_text_list(value, "Options") {
            Ok(options) => Ok(ModManifest::new_legacy(guid, name, description, icon_path, options)),
            Err(e) => Err(ModManifestError::JsonError(e)),
        }
    }
}

/// The codec of the current schema.
pub struct ModManifestSerializerV1;

impl ModManifestSerializerV1 {
    /// Decodes a manifest of the current schema.
    pub fn deserialize(&self, value: &JsonValue) -> (r: Result<ModManifest, ModManifestError>)
        ensures
            result_view(r) == decode_v1(value@),
    {
        match value {
            JsonValue::Object(_) => {},
            _ => {
                return Err(ModManifestError::JsonError(JsonError::ExpectedRootObject));
            },
        }
        let guid = match read_guid(value) {
            Ok(guid) => guid,
            Err(e) => {
                return Err(e);
            },
        };
        let name = match get_required_text(value, "Name") {
            Ok(name) => name,
            Err(e) => {
                return Err(ModManifestError::JsonError(e));
            },
        };
        let description = match get_required_text(value, "Description") {
            Ok(description) => description,
            Err(e) => {
                return Err(ModManifestError::JsonError(e));
            },
        };
        let icon_path = match get_optional_text(value, "IconPath") {
            Ok(icon_path) => icon_path,
            Err(e) => {
                return Err(ModManifestError::JsonError(e));
            },
        };
        let options = match read_options(value) {
            Ok(options) => options,
            Err(e) => {
                return Err(ModManifestError::JsonError(e));
            },
        };
        match read_nexus_data(value) {
            Ok(nexus_data) => Ok(
                ModManifest::new(guid, name, description, icon_path, options, nexus_data),
            ),
            Err(e) => Err(ModManifestError::JsonError(e)),
        }
    }
}

impl ModManifest {
    /// Decodes a manifest, in whichever schema the document is written.
    pub fn decode(json: &JsonValue) -> (r: Result<ModManifest, ModManifestError>)
        ensures
            result_view(r) == decode_manifest(json@),
    {
        match json {
            JsonValue::Object(_) => {},
            _ => {
                return Err(ModManifestError::JsonError(JsonError::ExpectedRootObject));
            },
        }
        match json.get("Version") {
            None => ModManifestSerializerLegacy.deserialize(json),
            Some(JsonValue::Integer(n)) => {
                let known = 0 <= *n && *n <= 0xffff_ffff && Version::<1>::try_from(*n as u32).is_ok();
                if known {
                    ModManifestSerializerV1.deserialize(json)
                } else {
                    Err(ModManifestError::UnknownVersion(*n))
                }
            },
            Some(_) => Err(
                ModManifestError::JsonError(JsonError::ExpectedNumber("Version".to_owned())),
            ),
        }
    }
}

/// A JSON array of strings.
pub open spec fn encode_texts(texts: Seq<Seq<char>>) -> Json {
    Json::Array(Seq::new(texts.len(), |i: int| Json::Text(texts[i])))
}

/// A string, or null where there is none.
pub open spec fn encode_optional_text(text: Option<Seq<char>>) -> Json {
    match text {
        Some(s) => Json::Text(s),
        None => Json::Null,
    }
}

/// The JSON form of a sub-option.
pub open spec fn encode_sub_option(sub: SubOptionView) -> Json {
    Json::Object(
        seq![
            ("Name"@, Json::Text(sub.name)),
            ("Description"@, Json::Text(sub.description)),
            ("Include"@, encode_texts(sub.includes)),
        ],
    )
}

/// The encoder of sub-options.
pub open spec fn sub_option_encoder() -> spec_fn(SubOptionView) -> Json {
    |sub: SubOptionView| encode_sub_option(sub)
}

/// The JSON form of an option.
pub open spec fn encode_option(option: OptionView) -> Json {
    Json::Object(
        seq![
            ("Name"@, Json::Text(option.name)),
            ("Description"@, Json::Text(option.description)),
            (
                "Include"@,
                match option.includes {
                    Some(texts) => encode_texts(texts),
                    None => Json::Null,
                },
            ),
            (
                "SubOptions"@,
                match option.sub_options {
                    Some(subs) => Json::Array(subs.map_values(sub_option_encoder())),
                    None => Json::Null,
                },
            ),
        ],
    )
}

/// The encoder of options.
pub open spec fn option_encoder() -> spec_fn(OptionView) -> Json {
    |option: OptionView| encode_option(option)
}

/// The JSON form of the data about the Nexus site.
pub open spec fn encode_nexus_data(data: NexusView) -> Json {
    Json::Object(seq![("Id"@, Json::Integer(data.id as i64)), ("Version"@, Json::Text(data.version))])
}

/// The JSON form of a manifest. It is always that of the current schema: a
/// legacy manifest is written with the options that its names translate to.
pub open spec fn encode_manifest(manifest: ManifestView) -> Json {
    Json::Object(
        seq![
            ("Version"@, Json::Integer(CURRENT_VERSION as i64)),
            ("Guid"@, Json::Text(guid_text(manifest.guid()))),
            ("Name"@, Json::Text(manifest.name())),
            ("Description"@, Json::Text(manifest.description())),
            ("IconPath"@, encode_optional_text(manifest.icon_path())),
            (
                "Options"@,
                match manifest.options() {
                    Some(options) => Json::Array(options.map_values(option_encoder())),
                    None => Json::Null,
                },
            ),
            (
                "NexusData"@,
                match manifest.nexus_data() {
                    Some(data) => encode_nexus_data(data),
                    None => Json::Null,
                },
            ),
        ],
    )
}

/// The model of an object is made of the keys and the models of the values
/// of its members.
pub proof fn lemma_object_view(members: Vec<JsonMember>)
    ensures
        JsonValue::Object(members)@ == Json::Object(
            Seq::new(members@.len(), |i: int| (members@[i].key@, members@[i].value@)),
        ),
{
    assert(JsonValue::Object(members)@->Object_0 =~= Seq::new(
        members@.len(),
        |i: int| (members@[i].key@, members@[i].value@),
    ));
}

fn member(key: &str, value: JsonValue) -> (r: JsonMember)
    ensures
        r.key@ == key@,
        r.value == value,
{
    JsonMember { key: key.to_owned(), value }
}

fn write_texts(texts: &[String]) -> (r: JsonValue)
    ensures
        r@ == encode_texts(views(texts@)),
{
    let mut out: Vec<JsonValue> = Vec::new();
    let mut i: usize = 0;
    while i < texts.len()
        invariant
            i <= texts@.len(),
            out@.len() == i,
            forall|j: int| 0 <= j < i ==> (#[trigger] out@[j])@ == Json::Text(texts@[j]@),
        decreases texts@.len() - i,
    {
        out.push(JsonValue::Text(texts[i].clone()));
        i += 1;
    }
    proof {
        lemma_array_view(out);
        assert(views(out@) == encode_texts(views(texts@))->Array_0);
    }
    JsonValue::Array(out)
}

fn write_sub_option(sub: &ModSubOption) -> (r: JsonValue)
    ensures
        r@ == encode_sub_option(sub@),
{
    let members = vec![
        member("Name", JsonValue::Text(sub.name().to_owned())),
        member("Description", JsonValue::Text(sub.description().to_owned())),
        member("Include", write_texts(sub.includes())),
    ];
    proof {
        lemma_object_view(members);
        assert(JsonValue::Object(members)@->Object_0 == encode_sub_option(sub@)->Object_0);
    }
    JsonValue::Object(members)
}

fn write_sub_options(subs: &[ModSubOption]) -> (r: JsonValue)
    ensures
        r@ == Json::Array(views(subs@).map_values(sub_option_encoder())),
{
    let mut out: Vec<JsonValue> = Vec::new();
    let mut i: usize = 0;
    while i < subs.len()
        invariant
            i <= subs@.len(),
            out@.len() == i,
            forall|j: int| 0 <= j < i ==> (#[trigger] out@[j])@ == encode_sub_option(subs@[j]@),
        decreases subs@.len() - i,
    {
        out.push(write_sub_option(&subs[i]));
        i += 1;
    }
    proof {
        lemma_array_view(out);
        assert(views(out@) == views(subs@).map_values(sub_option_encoder()));
    }
    JsonValue::Array(out)
}

fn write_option(option: &ModOption) -> (r: JsonValue)
    ensures
        r@ == encode_option(option@),
{
    let includes = match option.includes() {
        Some(texts) => write_texts(texts),
        None => JsonValue::Null,
    };
    let sub_options = match option.sub_options() {
        Some(subs) => write_sub_options(subs),
        None => JsonValue::Null,
    };
    let members = vec![
        member("Name", JsonValue::Text(option.name().to_owned())),
        member("Description", JsonValue::Text(option.description().to_owned())),
        member("Include", includes),
        member("SubOptions", sub_options),
    ];
    proof {
        lemma_object_view(members);
        assert(JsonValue::Object(members)@->Object_0 == encode_option(option@)->Object_0);
    }
    JsonValue::Object(members)
}

fn write_options(options: &[ModOption]) -> (r: JsonValue)
    ensures
        r@ == Json::Array(views(options@).map_values(option_encoder())),
{
    let mut out: Vec<JsonValue> = Vec::new();
    let mut i: usize = 0;
    while i < options.len()
        invariant
            i <= options@.len(),
            out@.len() == i,
            forall|j: int| 0 <= j < i ==> (#[trigger] out@[j])@ == encode_option(options@[j]@),
        decreases options@.len() - i,
    {
        out.push(write_option(&options[i]));
        i += 1;
    }
    proof {
        lemma_array_view(out);
        assert(views(out@) == views(options@).map_values(option_encoder()));
    }
    JsonValue::Array(out)
}

fn write_nexus_data(data: &NexusData) -> (r: JsonValue)
    ensures
        r@ == encode_nexus_data(data@),
{
    let members = vec![
        member("Id", JsonValue::Integer(data.id() as i64)),
        member("Version", JsonValue::Text(data.version().to_owned())),
    ];
    proof {
        lemma_object_view(members);
        assert(JsonValue::Object(members)@->Object_0 == encode_nexus_data(data@)->Object_0);
    }
    JsonValue::Object(members)
}

/// The member that stands first under its key is the one that `lookup` finds.
pub proof fn lemma_lookup_at(members: Seq<(Seq<char>, Json)>, key: Seq<char>, i: int)
    requires
        0 <= i < members.len(),
        members[i].0 == key,
        forall|j: int| 0 <= j < i ==> members[j].0 != key,
    ensures
        lookup(members, key) == Some(members[i].1),
    decreases i,
{
    if i > 0 {
        let rest = members.drop_first();
        lemma_lookup_at(rest, key, i - 1);
    }
}

/// The property names of an option are pairwise different.
proof fn lemma_option_keys_differ()
    ensures
        "Name"@ != "Description"@,
        "Name"@ != "Include"@,
        "Name"@ != "SubOptions"@,
        "Description"@ != "Include"@,
        "Description"@ != "SubOptions"@,
        "Include"@ != "SubOptions"@,
{
    reveal_strlit("Name");
    reveal_strlit("Description");
    reveal_strlit("Include");
    reveal_strlit("SubOptions");
    assert("Name"@.len() != "Description"@.len());
    assert("Name"@.len() != "Include"@.len());
}

/// The property names of the Nexus data are different.
proof fn lemma_nexus_keys_differ()
    ensures
        "Id"@ != "Version"@,
{
    reveal_strlit("Id");
    reveal_strlit("Version");
    assert("Id"@.len() != "Version"@.len());
}

/// The property names of a manifest are pairwise different.
proof fn lemma_manifest_keys_differ()
    ensures
        "Version"@ != "Guid"@,
        "Version"@ != "Name"@,
        "Version"@ != "Description"@,
        "Version"@ != "IconPath"@,
        "Version"@ != "Options"@,
        "Version"@ != "NexusData"@,
        "Guid"@ != "Name"@,
        "Guid"@ != "Description"@,
        "Guid"@ != "IconPath"@,
        "Guid"@ != "Options"@,
        "Guid"@ != "NexusData"@,
        "Name"@ != "Description"@,
        "Name"@ != "IconPath"@,
        "Name"@ != "Options"@,
        "Name"@ != "NexusData"@,
        "Description"@ != "IconPath"@,
        "Description"@ != "Options"@,
        "Description"@ != "NexusData"@,
        "IconPath"@ != "Options"@,
        "IconPath"@ != "NexusData"@,
        "Options"@ != "NexusData"@,
{
    reveal_strlit("Version");
    reveal_strlit("Guid");
    reveal_strlit("Name");
    reveal_strlit("Description");
    reveal_strlit("IconPath");
    reveal_strlit("Options");
    reveal_strlit("NexusData");
    assert("Version"@.len() != "Name"@.len());
    assert("Version"@.len() != "Description"@.len());
    assert("Version"@.len() != "IconPath"@.len());
    assert("Version"@[0] != "Options"@[0]);
    assert("Guid"@[0] != "Name"@[0]);
}

/// An array of strings is read back as the strings it was written from.
pub proof fn lemma_texts_round_trip(texts: Seq<Seq<char>>, key: Seq<char>)
    ensures
        text_list(encode_texts(texts)->Array_0, key) == Ok::<Seq<Seq<char>>, JsonErrorView>(texts),
{
    let items = encode_texts(texts)->Array_0;
    assert(Seq::new(items.len(), |i: int| items[i]->Text_0) == texts);
}

/// Items that are each read back as they were written are read back so as
/// an array.
pub proof fn lemma_each_round_trip<T>(
    items: Seq<T>,
    encode: spec_fn(T) -> Json,
    decode: spec_fn(Json) -> Result<T, JsonErrorView>,
)
    requires
        forall|i: int|
            0 <= i < items.len() ==> decode(encode(#[trigger] items[i])) == Ok::<T, JsonErrorView>(
                items[i],
            ),
    ensures
        each(items.map_values(encode), decode) == Ok::<Seq<T>, JsonErrorView>(items),
    decreases items.len(),
{
    let written = items.map_values(encode);
    if items.len() == 0 {
        assert(items == Seq::<T>::empty());
    } else {
        assert(written.drop_last() == items.drop_last().map_values(encode));
        lemma_each_round_trip(items.drop_last(), encode, decode);
        assert(items.drop_last().push(items.last()) == items);
    }
}

/// A sub-option is read back as it was written.
pub proof fn lemma_sub_option_round_trip(sub: SubOptionView)
    ensures
        decode_sub_option(encode_sub_option(sub)) == Ok::<SubOptionView, JsonErrorView>(sub),
{
    lemma_option_keys_differ();
    let members = encode_sub_option(sub)->Object_0;
    lemma_lookup_at(members, "Description"@, 1);
    lemma_lookup_at(members, "Include"@, 2);
    lemma_texts_round_trip(sub.includes, "Include"@);
}

/// An option is read back as it was written.
pub proof fn lemma_option_round_trip(option: OptionView)
    ensures
        decode_option(encode_option(option)) == Ok::<OptionView, JsonErrorView>(option),
{
    lemma_option_keys_differ();
    let members = encode_option(option)->Object_0;
    lemma_lookup_at(members, "Description"@, 1);
    lemma_lookup_at(members, "Include"@, 2);
    lemma_lookup_at(members, "SubOptions"@, 3);
    if let Some(texts) = option.includes {
        lemma_texts_round_trip(texts, "Include"@);
    }
    if let Some(subs) = option.sub_options {
        assert forall|i: int| 0 <= i < subs.len() implies sub_option_decoder()(
            sub_option_encoder()(#[trigger] subs[i]),
        ) == Ok::<SubOptionView, JsonErrorView>(subs[i]) by {
            lemma_sub_option_round_trip(subs[i]);
        }
        lemma_each_round_trip(subs, sub_option_encoder(), sub_option_decoder());
    }
}

/// The data about the Nexus site are read back as they were written.
pub proof fn lemma_nexus_data_round_trip(object: Json, data: NexusView)
    requires
        object.member("NexusData"@) == Some(encode_nexus_data(data)),
    ensures
        optional_nexus_data(object) == Ok::<Option<NexusView>, JsonErrorView>(Some(data)),
{
    lemma_nexus_keys_differ();
    let members = encode_nexus_data(data)->Object_0;
    lemma_lookup_at(members, "Version"@, 1);
}

/// Where the `uuid` crate reads an identifier back from its hyphenated
/// form, a manifest that is encoded and then decoded comes back
/// in the current schema with every field as it was: identifier, name,
/// description, icon path, option tree and Nexus data. A manifest of the
/// current schema comes back equal.
pub proof fn lemma_manifest_round_trip(manifest: ManifestView)
    requires
        guid_of_text(guid_text(manifest.guid())) == Some(manifest.guid()),
    ensures
        decode_manifest(encode_manifest(manifest)) == Ok::<ManifestView, ModManifestErrorView>(
            manifest.upgraded(),
        ),
        manifest is V1 ==> manifest.upgraded() == manifest,
{
    lemma_manifest_keys_differ();
    let json = encode_manifest(manifest);
    let members = json->Object_0;
    lemma_lookup_at(members, "Guid"@, 1);
    lemma_lookup_at(members, "Name"@, 2);
    lemma_lookup_at(members, "Description"@, 3);
    lemma_lookup_at(members, "IconPath"@, 4);
    lemma_lookup_at(members, "Options"@, 5);
    lemma_lookup_at(members, "NexusData"@, 6);
    if let Some(options) = manifest.options() {
        assert forall|i: int| 0 <= i < options.len() implies option_decoder()(
            option_encoder()(#[trigger] options[i]),
        ) == Ok::<OptionView, JsonErrorView>(options[i]) by {
            lemma_option_round_trip(options[i]);
        }
        lemma_each_round_trip(options, option_encoder(), option_decoder());
    }
    if let Some(data) = manifest.nexus_data() {
        lemma_nexus_data_round_trip(json, data);
    }
}

/// A document whose `Version` is an integer other than that of the current
/// schema is rejected with that integer, whatever else it
/// holds.
pub proof fn lemma_unknown_version(json: Json, n: i64)
    requires
        json is Object,
        json.member("Version"@) == Some(Json::Integer(n)),
        n != CURRENT_VERSION,
    ensures
        decode_manifest(json) == Err::<ManifestView, ModManifestErrorView>(
            ModManifestErrorView::UnknownVersion(n),
        ),
{
}

impl ModManifestSerializerV1 {
    /// Encodes a manifest in the current schema.
    pub fn serialize(&self, value: &ModManifest) -> (r: JsonValue)
        ensures
            r@ == encode_manifest(value@),
            decode_manifest(r@) == Ok::<ManifestView, ModManifestErrorView>(value@.upgraded()),
    {
        let guid = format_guid(value.guid());
        let icon_path = match value.icon_path() {
            Some(path) => JsonValue::Text(path.to_owned()),
            None => JsonValue::Null,
        };
        let options = match value.options() {
            Some(options) => write_options(options),
            None => JsonValue::Null,
        };
        let nexus_data = match value.nexus_data() {
            Some(data) => write_nexus_data(data),
            None => JsonValue::Null,
        };
        let members = vec![
            member("Version", JsonValue::Integer(CURRENT_VERSION as i64)),
            member("Guid", JsonValue::Text(guid)),
            member("Name", JsonValue::Text(value.name().to_owned())),
            member("Description", JsonValue::Text(value.description().to_owned())),
            member("IconPath", icon_path),
            member("Options", options),
            member("NexusData", nexus_data),
        ];
        proof {
            lemma_object_view(members);
            assert(JsonValue::Object(members)@->Object_0 == encode_manifest(value@)->Object_0);
            lemma_manifest_round_trip(value@);
        }
        JsonValue::Object(members)
    }
}

impl ModManifest {
    /// Reads a manifest from the text of a manifest file. A text that is no
    /// JSON document is refused with what the reader reports; a document is
    /// decoded, in whichever schema it is written.
    pub fn from_text(text: &str) -> (r: Result<ModManifest, ModManifestError>)
        ensures
            match json_of_text(text@) {
                Some(json) => result_view(r) == decode_manifest(json),
                None => r matches Err(ModManifestError::SerdeError(_)),
            },
    {
        match JsonValue::parse(text) {
            Ok(json) => ModManifest::decode(&json),
            Err(report) => Err(ModManifestError::SerdeError(report)),
        }
    }

    /// Encodes the manifest. The document is always in the current schema,
    /// and decoding it gives the manifest back in that schema.
    pub fn encode(&self) -> (r: JsonValue)
        ensures
            r@ == encode_manifest(self@),
            decode_manifest(r@) == Ok::<ManifestView, ModManifestErrorView>(self@.upgraded()),
    {
        ModManifestSerializerV1.serialize(self)
    }
}

} // verus!
