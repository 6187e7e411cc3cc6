//! The little JSON that the wire protocol carries: string fields of an
//! object, read and written through `serde_json`.

use crate::error::AppError;
use crate::text::push_chars;
use crate::text::push_str;
use crate::text::string_of;
use vstd::prelude::*;
use vstd::string::StringExecFns;
use vstd::utf8::decode_utf8;
use vstd::utf8::valid_utf8;

verus! {

/// The JSON string literal for a text, quotes and escapes included
/// (`serde_json::to_string` on a string).
pub uninterp spec fn json_literal(text: Seq<char>) -> Seq<char>;

/// What reading a string field of a JSON payload gives: `None` where the
/// payload is not JSON, `Some(None)` where it is JSON without a string under
/// that key, `Some(Some(text))` otherwise (`serde_json::from_slice` into a
/// `Value`, indexed by the key, then `as_str`).
pub uninterp spec fn json_text_field(payload: Seq<u8>, key: Seq<char>) -> Option<Option<Seq<char>>>;

/// What reading a field that holds a list of strings gives: `None` where the
/// payload is not JSON, `Some(None)` where it is JSON without such a list
/// under that key (`serde_json::from_slice` into a `Value`, indexed by the
/// key, then `serde_json::from_value` into a vector of strings).
pub uninterp spec fn json_list_field(payload: Seq<u8>, key: Seq<char>) -> Option<
    Option<Seq<Seq<char>>>,
>;

/// The answer in a provider response: `None` where the body is not JSON,
/// `Some(None)` where it is JSON without a string at
/// `choices[0].message.content` (`serde_json::from_slice` into a `Value`,
/// indexed along that path, then `as_str`).
pub uninterp spec fn json_first_choice(body: Seq<u8>) -> Option<Option<Seq<char>>>;

/// The text that invalid UTF-8 is replaced by (`String::from_utf8_lossy`).
pub uninterp spec fn utf8_lossy(bytes: Seq<u8>) -> Seq<char>;

/// The values of a sequence of strings.
pub open spec fn strings_view(items: Seq<String>) -> Seq<Seq<char>> {
    items.map_values(|s: String| s@)
}

/// Calls `serde_json::to_string` on a string, which cannot fail.
#[verifier::external_body]
fn json_quote(text: &str) -> (literal: String)
    ensures
        literal@ == json_literal(text@),
{
    serde_json::to_string(text).unwrap_or_default()
}

/// Calls `serde_json::from_slice` for a `Value`, indexes it by the key and
/// calls `as_str`. On failure the error's own description comes back.
#[verifier::external_body]
fn json_read_text(payload: &[u8], key: &str) -> (r: Result<Option<String>, String>)
    ensures
        match r {
            Ok(Some(text)) => json_text_field(payload@, key@) == Some(Some(text@)),
            Ok(None) => json_text_field(payload@, key@) == Some(None::<Seq<char>>),
            Err(_) => json_text_field(payload@, key@) is None,
        },
{
    match serde_json::from_slice::<serde_json::Value>(payload) {
        Ok(value) => Ok(value[key].as_str().map(String::from)),
        Err(e) => Err(e.to_string()),
    }
}

/// Calls `serde_json::from_slice` for a `Value`, indexes it by the key and
/// calls `serde_json::from_value` for a vector of strings.
#[verifier::external_body]
fn json_read_list(payload: &[u8], key: &str) -> (r: Result<Option<Vec<String>>, String>)
    ensures
        match r {
            Ok(Some(items)) => json_list_field(payload@, key@) == Some(Some(strings_view(items@))),
            Ok(None) => json_list_field(payload@, key@) == Some(None::<Seq<Seq<char>>>),
            Err(_) => json_list_field(payload@, key@) is None,
        },
{
    match serde_json::from_slice::<serde_json::Value>(payload) {
        Ok(value) => Ok(serde_json::from_value::<Vec<String>>(value[key].clone()).ok()),
        Err(e) => Err(e.to_string()),
    }
}

/// Calls `serde_json::from_slice` for a `Value`, indexes it by `choices`, 0,
/// `message` and `content`, and calls `as_str`.
#[verifier::external_body]
fn json_read_first_choice(body: &[u8]) -> (r: Result<Option<String>, String>)
    ensures
        match r {
            Ok(Some(text)) => json_first_choice(body@) == Some(Some(text@)),
            Ok(None) => json_first_choice(body@) == Some(None::<Seq<char>>),
            Err(_) => json_first_choice(body@) is None,
        },
{
    match serde_json::from_slice::<serde_json::Value>(body) {
        Ok(value) => Ok(value["choices"][0]["message"]["content"].as_str().map(String::from)),
        Err(e) => Err(e.to_string()),
    }
}

/// Calls `std::str::from_utf8`, which accepts exactly the valid UTF-8 byte
/// strings and decodes them.
#[verifier::external_body]
fn utf8_decode(bytes: &[u8]) -> (r: Option<String>)
    ensures
        r is Some <==> valid_utf8(bytes@),
        r matches Some(text) ==> text@ == decode_utf8(bytes@),
{
    match std::str::from_utf8(bytes) {
        Ok(text) => Some(String::from(text)),
        Err(_) => None,
    }
}

/// Calls `String::from_utf8_lossy`, which decodes valid UTF-8 and replaces
/// what is invalid.
#[verifier::external_body]
fn utf8_decode_lossy(bytes: &[u8]) -> (text: String)
    ensures
        text@ == utf8_lossy(bytes@),
        valid_utf8(bytes@) ==> text@ == decode_utf8(bytes@),
{
    String::from_utf8_lossy(bytes).into_owned()
}

/// The JSON string literal for a text.
pub fn write_literal(text: &str) -> (literal: String)
    ensures
        literal@ == json_literal(text@),
{
    json_quote(text)
}

/// The string field `key` of a JSON payload. A payload that is not JSON is a
/// `JsonError`; a payload without a string under the key gives `None`.
pub fn read_text_field(payload: &[u8], key: &str) -> (r: Result<Option<String>, AppError>)
    ensures
        match r {
            Ok(Some(text)) => json_text_field(payload@, key@) == Some(Some(text@)),
            Ok(None) => json_text_field(payload@, key@) == Some(None::<Seq<char>>),
            Err(e) => json_text_field(payload@, key@) is None && e is JsonError,
        },
{
    match json_read_text(payload, key) {
        Ok(field) => Ok(field),
        Err(reason) => Err(AppError::JsonError(reason)),
    }
}

/// The field `key` of a JSON payload as a list of strings. A payload that is
/// not JSON is a `JsonError`; a payload without such a list under the key
/// gives `None`.
pub fn read_list_field(payload: &[u8], key: &str) -> (r: Result<Option<Vec<String>>, AppError>)
    ensures
        match r {
            Ok(Some(items)) => json_list_field(payload@, key@) == Some(Some(strings_view(items@))),
            Ok(None) => json_list_field(payload@, key@) == Some(None::<Seq<Seq<char>>>),
            Err(e) => json_list_field(payload@, key@) is None && e is JsonError,
        },
{
    match json_read_list(payload, key) {
        Ok(field) => Ok(field),
        Err(reason) => Err(AppError::JsonError(reason)),
    }
}

/// The answer in a provider response body. A body that is not JSON is a
/// `JsonError`; a body without an answer gives `None`.
pub fn read_first_choice(body: &[u8]) -> (r: Result<Option<String>, AppError>)
    ensures
        match r {
            Ok(Some(text)) => json_first_choice(body@) == Some(Some(text@)),
            Ok(None) => json_first_choice(body@) == Some(None::<Seq<char>>),
            Err(e) => json_first_choice(body@) is None && e is JsonError,
        },
{
    match json_read_first_choice(body) {
        Ok(answer) => Ok(answer),
        Err(reason) => Err(AppError::JsonError(reason)),
    }
}

/// The text of a UTF-8 payload; a `Utf8Error` where it is not UTF-8.
pub fn read_utf8(bytes: &[u8]) -> (r: Result<String, AppError>)
    ensures
        match r {
            Ok(text) => valid_utf8(bytes@) && text@ == decode_utf8(bytes@),
            Err(e) => !valid_utf8(bytes@) && e is Utf8Error,
        },
{
    match utf8_decode(bytes) {
        Some(text) => Ok(text),
        None => Err(AppError::Utf8Error(String::from_str("invalid utf-8 sequence"))),
    }
}

/// The text of a payload, with what is not UTF-8 replaced.
pub fn read_utf8_lossy(bytes: &[u8]) -> (text: String)
    ensures
        text@ == utf8_lossy(bytes@),
        valid_utf8(bytes@) ==> text@ == decode_utf8(bytes@),
{
    utf8_decode_lossy(bytes)
}

/// The JSON text of an object with one string field.
pub open spec fn object_one(key: Seq<char>, value: Seq<char>) -> Seq<char> {
    "{"@ + json_literal(key) + ":"@ + json_literal(value) + "}"@
}

/// The JSON text of an object with two string fields.
pub open spec fn object_two(
    key1: Seq<char>,
    value1: Seq<char>,
    key2: Seq<char>,
    value2: Seq<char>,
) -> Seq<char> {
    "{"@ + json_literal(key1) + ":"@ + json_literal(value1) + ","@ + json_literal(key2) + ":"@
        + json_literal(value2) + "}"@
}

/// The JSON literals of the items, with a comma between neighbours.
pub open spec fn list_items(items: Seq<Seq<char>>) -> Seq<char>
    decreases items.len(),
{
    if items.len() == 0 {
        Seq::empty()
    } else if items.len() == 1 {
        json_literal(items[0])
    } else {
        list_items(items.drop_last()) + ","@ + json_literal(items.last())
    }
}

/// The JSON text of a list of strings.
pub open spec fn list_text(items: Seq<Seq<char>>) -> Seq<char> {
    "["@ + list_items(items) + "]"@
}

/// Writes an object with one string field.
pub fn write_object_one(key: &str, value: &str) -> (text: String)
    ensures
        text@ == object_one(key@, value@),
{
    let mut out: Vec<char> = Vec::new();
    push_str(&mut out, "{");
    push_str(&mut out, json_quote(key).as_str());
    push_str(&mut out, ":");
    push_str(&mut out, json_quote(value).as_str());
    push_str(&mut out, "}");
    assert(out@ =~= object_one(key@, value@));
    string_of(&out)
}

/// Writes an object with two string fields.
pub fn write_object_two(key1: &str, value1: &str, key2: &str, value2: &str) -> (text: String)
    ensures
        text@ == object_two(key1@, value1@, key2@, value2@),
{
    let mut out: Vec<char> = Vec::new();
    push_str(&mut out, "{");
    push_str(&mut out, json_quote(key1).as_str());
    push_str(&mut out, ":");
    push_str(&mut out, json_quote(value1).as_str());
    push_str(&mut out, ",");
    push_str(&mut out, json_quote(key2).as_str());
    push_str(&mut out, ":");
    push_str(&mut out, json_quote(value2).as_str());
    push_str(&mut out, "}");
    assert(out@ =~= object_two(key1@, value1@, key2@, value2@));
    string_of(&out)
}

/// Writes a list of strings.
pub fn write_list(items: &Vec<String>) -> (text: String)
    ensures
        text@ == list_text(strings_view(items@)),
{
    let ghost all = strings_view(items@);
    let mut body: Vec<char> = Vec::new();
    let mut i: usize = 0;
    assert(all.take(0).len() == 0);
    while i < items.len()
        invariant
            i <= items.len(),
            all == strings_view(items@),
            body@ == list_items(all.take(i as int)),
        decreases items.len() - i,
    {
        proof {
            assert(all.take(i + 1).drop_last() =~= all.take(i as int));
            assert(all.take(i + 1).last() == items@[i as int]@);
            assert(all.take(i + 1)[0] == all[0]);
        }
        if i > 0 {
            push_str(&mut body, ",");
        }
        push_str(&mut body, json_quote(items[i].as_str()).as_str());
        assert(body@ =~= list_items(all.take(i + 1)));
        i += 1;
    }
    assert(all.take(items.len() as int) =~= all);
    let mut out: Vec<char> = Vec::new();
    push_str(&mut out, "[");
    push_chars(&mut out, &body);
    push_str(&mut out, "]");
    assert(out@ =~= list_text(all));
    string_of(&out)
}

} // verus!
