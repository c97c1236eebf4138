//! Trusted boundary to `serde_json`.
//!
//! JSON values are built from plain values here and handed to the
//! templating engine.  Each value's content carries a model, `JsonData`,
//! through the name `json_view`; the constructors pin the view of what
//! they build, so the rendering context's shape is stated exactly.

use vstd::prelude::*;

verus! {

/// The content of a JSON value: the shape the contracts here speak of.
/// Object members are a map — the underlying map keeps keys unique and
/// sorted, later duplicates winning.  Numbers are carried unconstrained.
pub enum JsonData {
    Null,
    Bool(bool),
    Str(Seq<char>),
    Num,
    Arr(Seq<JsonData>),
    Obj(Map<Seq<char>, JsonData>),
}

/// A JSON value, carried opaquely between construction and rendering.
#[verifier::external_type_specification]
#[verifier::external_body]
pub struct ExJsonValue(serde_json::Value);

/// The content of a JSON value.
pub uninterp spec fn json_view(v: serde_json::Value) -> JsonData;

/// What the JSON parser makes of a byte string: `None` when the bytes are
/// not a well-formed document, else the document's content.
pub uninterp spec fn json_parsed(b: Seq<u8>) -> Option<JsonData>;

/// The object members a pair list builds, later duplicates winning.
pub open spec fn spec_string_map(pairs: Seq<(Seq<char>, Seq<char>)>) -> Map<Seq<char>, JsonData>
    decreases pairs.len(),
{
    if pairs.len() == 0 {
        Map::empty()
    } else {
        spec_string_map(pairs.drop_last()).insert(
            pairs.last().0,
            JsonData::Str(pairs.last().1),
        )
    }
}

/// The object members an entry list builds, later duplicates winning.
pub open spec fn spec_entries_map(entries: Seq<(String, serde_json::Value)>) -> Map<
    Seq<char>,
    JsonData,
>
    decreases entries.len(),
{
    if entries.len() == 0 {
        Map::empty()
    } else {
        spec_entries_map(entries.drop_last()).insert(
            entries.last().0@,
            json_view(entries.last().1),
        )
    }
}

/// Relies on serde_json::from_slice: `Some` exactly when the bytes are a
/// well-formed JSON document, and then that document's content.
#[verifier::external_body]
pub(crate) fn json_parse_bytes(b: &Vec<u8>) -> (r: Option<serde_json::Value>)
    ensures
        r is Some <==> json_parsed(b@) is Some,
        r matches Some(v) ==> Some(json_view(v)) == json_parsed(b@),
{
    serde_json::from_slice(b.as_slice()).ok()
}

/// Relies on serde_json::Value::Null: the JSON null value.
#[verifier::external_body]
pub(crate) fn json_null() -> (r: serde_json::Value)
    ensures
        json_view(r) == JsonData::Null,
{
    serde_json::Value::Null
}

/// Relies on serde_json::Value::String: a JSON string of the given text.
#[verifier::external_body]
pub(crate) fn json_string(s: &str) -> (r: serde_json::Value)
    ensures
        json_view(r) == JsonData::Str(s@),
{
    serde_json::Value::String(s.to_string())
}

/// Relies on serde_json::Value::Bool: a JSON boolean.
#[verifier::external_body]
pub(crate) fn json_bool(b: bool) -> (r: serde_json::Value)
    ensures
        json_view(r) == JsonData::Bool(b),
{
    serde_json::Value::Bool(b)
}

/// Relies on serde_json::Value::Object: a JSON object with one string
/// member per pair.
#[verifier::external_body]
pub(crate) fn json_object_of_pairs(pairs: &Vec<(String, String)>) -> (r: serde_json::Value)
    ensures
        json_view(r) == JsonData::Obj(spec_string_map(pairs.deep_view())),
{
    serde_json::Value::Object(
        pairs.iter().map(
            |(k, v)| (k.clone(), serde_json::Value::String(v.clone())),
        ).collect(),
    )
}

/// Relies on serde_json::Value::Object: a JSON object with the given
/// members.
#[verifier::external_body]
pub(crate) fn json_object(entries: Vec<(String, serde_json::Value)>) -> (r: serde_json::Value)
    ensures
        json_view(r) == JsonData::Obj(spec_entries_map(entries@)),
{
    serde_json::Value::Object(entries.into_iter().collect())
}

/// What the UTF-8 decoder makes of valid bytes.
pub uninterp spec fn utf8_decoded(b: Seq<u8>) -> Seq<char>;

/// Relies on String::from_utf8: `Some` exactly when the bytes are valid
/// UTF-8, and then the text whose UTF-8 form is those bytes.
#[verifier::external_body]
pub(crate) fn utf8_to_string(b: &Vec<u8>) -> (r: Option<String>)
    ensures
        r is Some <==> vstd::utf8::valid_utf8(b@),
        r matches Some(s) ==> vstd::utf8::encode_utf8(s@) == b@ && s@ == utf8_decoded(b@),
{
    String::from_utf8(b.clone()).ok()
}

} // verus!
