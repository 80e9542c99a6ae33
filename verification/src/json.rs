//! JSON texts, read and written by `serde_json`.
//!
//! The gateway never looks inside a JSON value: it passes a request body
//! through the parser to learn whether it is JSON and to get its compact form,
//! and it asks for the quoted form of the strings that it puts into a document
//! of its own.

use vstd::prelude::*;

verus! {

/// What `serde_json` makes of a body: the compact text of the value that the
/// bytes hold, or the message of the error with which it refuses them.
pub uninterp spec fn json_reencoded(body: Seq<u8>) -> Result<Seq<char>, Seq<char>>;

/// A string as a JSON string literal: between double quotes, with the escapes
/// that `serde_json` writes.
pub uninterp spec fn json_quoted(s: Seq<char>) -> Seq<char>;

/// The view of a text that came with its alternative, an error message.
pub open spec fn outcome_view(outcome: Result<String, String>) -> Result<Seq<char>, Seq<char>> {
    match outcome {
        Ok(text) => Ok(text@),
        Err(message) => Err(message@),
    }
}

/// The text of the empty JSON object.
pub open spec fn empty_object() -> Seq<char> {
    seq!['{', '}']
}

/// The JSON text that stands for a request body: the empty object for an
/// empty body, else whatever the parser made of it.
pub open spec fn body_json(body: Seq<u8>, reencoded: Result<Seq<char>, Seq<char>>) -> Result<
    Seq<char>,
    Seq<char>,
> {
    if body.len() == 0 {
        Ok(empty_object())
    } else {
        reencoded
    }
}

/// The JSON text that stands for a body where a body that is no JSON is
/// forgiven: the empty object in its place.
pub open spec fn lenient_json(strict: Result<Seq<char>, Seq<char>>) -> Seq<char> {
    match strict {
        Ok(text) => text,
        Err(_) => empty_object(),
    }
}

/// Calls `serde_json::from_reader` on the bytes, for a `serde_json::Value`,
/// and writes the value back with `serde_json::to_string`. Trusted: that the
/// outcome depends on the bytes alone, and is therefore the named one. An
/// error of either call is given by its message.
#[verifier::external_body]
fn reencode(body: &[u8]) -> (outcome: Result<String, String>)
    ensures
        outcome_view(outcome) == json_reencoded(body@),
{
    match serde_json::from_reader::<&[u8], serde_json::Value>(body) {
        Ok(value) => match serde_json::to_string(&value) {
            Ok(text) => Ok(text),
            Err(e) => Err(e.to_string()),
        },
        Err(e) => Err(e.to_string()),
    }
}

/// Writes the string as a `serde_json::Value::String` through the value's
/// `Display`. Trusted: that the text depends on the string alone, and is
/// therefore the named one.
#[verifier::external_body]
pub(crate) fn quote(s: &str) -> (quoted: String)
    ensures
        quoted@ == json_quoted(s@),
{
    serde_json::Value::String(s.to_owned()).to_string()
}

/// The text of the empty JSON object.
pub fn empty_object_text() -> (text: String)
    ensures
        text@ == empty_object(),
{
    proof {
        reveal_strlit("{}");
    }
    let text = "{}".to_owned();
    assert(text@ =~= empty_object());
    text
}

/// The JSON text that stands for a body of which the parser's outcome is
/// known.
pub fn body_json_from(body_is_empty: bool, reencoded: Result<String, String>) -> (strict: Result<
    String,
    String,
>)
    ensures
        body_is_empty ==> outcome_view(strict) == Ok::<Seq<char>, Seq<char>>(empty_object()),
        !body_is_empty ==> outcome_view(strict) == outcome_view(reencoded),
{
    if body_is_empty {
        Ok(empty_object_text())
    } else {
        reencoded
    }
}

/// The JSON text that stands for a request body, or the parser's message if a
/// body that is not empty is no JSON.
pub fn read_body(body: &[u8]) -> (strict: Result<String, String>)
    ensures
        outcome_view(strict) == body_json(body@, json_reencoded(body@)),
{
    if body.len() == 0 {
        Ok(empty_object_text())
    } else {
        body_json_from(false, reencode(body))
    }
}

/// The text of a strictly read body, with the empty object in place of a
/// refusal.
pub fn forgive(strict: &Result<String, String>) -> (text: String)
    ensures
        text@ == lenient_json(outcome_view(*strict)),
{
    match strict {
        Ok(text) => text.clone(),
        Err(_) => empty_object_text(),
    }
}

} // verus!
