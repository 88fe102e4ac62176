//! Questions asked of JSON text. Tool arguments travel through the engine as JSON text; what
//! the engine needs to know of such a text is answered by `serde_json`.
use vstd::prelude::*;
use crate::ids::id_views;

verus! {

/// What a JSON text holds under a key where a string is looked for.
#[derive(Debug, PartialEq, Eq)]
pub enum JsonText {
    /// The text is no object, or the object has no such member.
    Missing,
    /// The member is no string.
    NotString,
    Text(String),
}

pub enum JsonTextView {
    Missing,
    NotString,
    Text(Seq<char>),
}

impl View for JsonText {
    type V = JsonTextView;

    open spec fn view(&self) -> JsonTextView {
        match self {
            JsonText::Missing => JsonTextView::Missing,
            JsonText::NotString => JsonTextView::NotString,
            JsonText::Text(s) => JsonTextView::Text(s@),
        }
    }
}

/// What a JSON text holds under a key where a list of strings is looked for.
#[derive(Debug, PartialEq, Eq)]
pub enum JsonTexts {
    /// The text is no object, or the object has no such member.
    Missing,
    /// The member is no array.
    NotArray,
    /// The member is an array, and one of its elements is no string.
    NotStrings,
    Texts(Vec<String>),
}

pub enum JsonTextsView {
    Missing,
    NotArray,
    NotStrings,
    Texts(Seq<Seq<char>>),
}

impl View for JsonTexts {
    type V = JsonTextsView;

    open spec fn view(&self) -> JsonTextsView {
        match self {
            JsonTexts::Missing => JsonTextsView::Missing,
            JsonTexts::NotArray => JsonTextsView::NotArray,
            JsonTexts::NotStrings => JsonTextsView::NotStrings,
            JsonTexts::Texts(items) => JsonTextsView::Texts(id_views(items@)),
        }
    }
}

/// The compact text that `serde_json` writes for the value it reads from `text`, or `None` where
/// `text` is not JSON. Two texts of the same value have the same canonical text.
pub uninterp spec fn canonical_json(text: Seq<char>) -> Option<Seq<char>>;

/// What the JSON value `text` holds under `key` where a string is looked for, or `None` where
/// `text` is not JSON.
pub uninterp spec fn json_text_member(text: Seq<char>, key: Seq<char>) -> Option<JsonTextView>;

/// What the JSON value `text` holds under `key` where a list of strings is looked for, or
/// `None` where `text` is not JSON.
pub uninterp spec fn json_texts_member(text: Seq<char>, key: Seq<char>) -> Option<JsonTextsView>;

/// Whether `text` is JSON.
pub open spec fn is_json(text: Seq<char>) -> bool {
    canonical_json(text) is Some
}

/// The string that the JSON object `text` holds under `key`, or `None` where `text` is not JSON,
/// is no object, has no such member, or holds something other than a string there.
pub open spec fn json_string_member(text: Seq<char>, key: Seq<char>) -> Option<Seq<char>> {
    match json_text_member(text, key) {
        Some(JsonTextView::Text(s)) => Some(s),
        _ => None,
    }
}

/// Lifts an optional string to its view.
pub open spec fn view_of(s: Option<String>) -> Option<Seq<char>> {
    match s {
        Some(s) => Some(s@),
        None => None,
    }
}

/// Lifts an optional member to its view.
pub open spec fn text_view_of(member: Option<JsonText>) -> Option<JsonTextView> {
    match member {
        Some(m) => Some(m@),
        None => None,
    }
}

/// Lifts an optional member to its view.
pub open spec fn texts_view_of(member: Option<JsonTexts>) -> Option<JsonTextsView> {
    match member {
        Some(m) => Some(m@),
        None => None,
    }
}

/// Trusted: `serde_json::from_str` into a `serde_json::Value`, then `serde_json::to_string` of
/// that value. The contract only gives the outcome its name, `canonical_json`; a failure of
/// either call is the `None` of that name.
#[verifier::external_body]
pub(crate) fn canonical_text(text: &str) -> (out: Option<String>)
    ensures
        view_of(out) == canonical_json(text@),
{
    match serde_json::from_str::<serde_json::Value>(text) {
        Ok(value) => match serde_json::to_string(&value) {
            Ok(written) => Some(written),
            Err(_) => None,
        },
        Err(_) => None,
    }
}

/// Trusted: `serde_json::from_str` into a `serde_json::Value`, then `Value::get` with `key` and
/// `Value::as_str` on what it found. The contract gives the outcome its name,
/// `json_text_member`, and says that there is an outcome exactly for a text that is JSON: a
/// value that was read can always be written.
#[verifier::external_body]
pub(crate) fn text_member(text: &str, key: &str) -> (out: Option<JsonText>)
    ensures
        text_view_of(out) == json_text_member(text@, key@),
        out is Some == is_json(text@),
{
    match serde_json::from_str::<serde_json::Value>(text) {
        Ok(value) => match value.get(key) {
            Some(member) => match member.as_str() {
                Some(s) => Some(JsonText::Text(s.to_string())),
                None => Some(JsonText::NotString),
            },
            None => Some(JsonText::Missing),
        },
        Err(_) => None,
    }
}

/// Trusted: `serde_json::from_str` into a `serde_json::Value`, then `Value::get` with `key`,
/// `Value::as_array` on what it found and `Value::as_str` on each element. The contract gives
/// the outcome its name, `json_texts_member`, and says that there is an outcome exactly for a
/// text that is JSON.
#[verifier::external_body]
pub(crate) fn texts_member(text: &str, key: &str) -> (out: Option<JsonTexts>)
    ensures
        texts_view_of(out) == json_texts_member(text@, key@),
        out is Some == is_json(text@),
{
    let value = serde_json::from_str::<serde_json::Value>(text).ok()?;
    Some(match value.get(key) {
        None => JsonTexts::Missing,
        Some(member) => match member.as_array() {
            None => JsonTexts::NotArray,
            Some(items) => match items.iter().map(|v| v.as_str().map(String::from)).collect() {
                Some(texts) => JsonTexts::Texts(texts),
                None => JsonTexts::NotStrings,
            },
        },
    })
}

/// The string under `key`, where the member is one.
pub fn as_string(member: Option<JsonText>) -> (out: Option<String>)
    ensures
        view_of(out) == match text_view_of(member) {
            Some(JsonTextView::Text(s)) => Some(s),
            _ => None,
        },
{
    match member {
        Some(JsonText::Text(s)) => Some(s),
        _ => None,
    }
}

/// The string that the JSON object `text` holds under `key`.
pub fn string_member(text: &str, key: &str) -> (out: Option<String>)
    ensures
        view_of(out) == json_string_member(text@, key@),
{
    as_string(text_member(text, key))
}

} // verus!
