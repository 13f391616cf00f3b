//! Payloads and their wire form.
//!
//! A payload is a parsed JSON document. The registry never looks inside
//! one: it is decoded once, when a text frame arrives, and forwarded as it
//! is.

use crate::networking::frame::{frame_text, InboundFrame};
use serde_json::Value;
use std::fmt::Debug;
use vstd::prelude::*;
use vstd::string::StringExecFns;

verus! {

/// `serde_json::Value`: a JSON document, carried as it is.
#[verifier::external_type_specification]
#[verifier::external_body]
pub struct ExValue(Value);

/// `serde_json::Error`: why a text is no JSON document.
#[verifier::external_type_specification]
#[verifier::external_body]
pub struct ExJsonError(serde_json::Error);

/// The document that a text holds, if it is well-formed JSON.
pub uninterp spec fn json_value(text: Seq<char>) -> Option<Value>;

/// A diagnostic: what went wrong, a colon and a space, then the detail.
pub open spec fn message_text(message: Seq<char>, detail: Seq<char>) -> Seq<char> {
    message + seq![':', ' '] + detail
}

/// Calls `serde_json::from_str` for a `Value`.
///
/// Trusted: whether the text parses, and to which document, depends on the
/// text alone.
#[verifier::external_body]
fn decode_json(text: &str) -> (decoded: Result<Value, serde_json::Error>)
    ensures
        match decoded {
            Ok(value) => json_value(text@) == Some(value),
            Err(_) => json_value(text@) is None,
        },
{
    serde_json::from_str::<Value>(text)
}

/// Formats a value with its `Debug` impl.
///
/// Trusted: nothing is claimed of the text.
#[verifier::external_body]
fn debug_text<T: Debug>(value: &T) -> String {
    format!("{:?}", value)
}

/// Joins what went wrong and its detail into one diagnostic.
pub fn describe(message: &str, detail: &str) -> (text: String)
    ensures
        text@ == message_text(message@, detail@),
{
    let mut text = String::from_str(message);
    text.append(": ");
    proof {
        reveal_strlit(": ");
        assert(": "@ =~= seq![':', ' ']);
    }
    text.append(detail);
    text
}

/// The diagnostic for an error value: `message`, a colon and a space, then
/// the error as its `Debug` impl prints it.
pub fn to_message<T: Debug>(message: &'static str, e: T) -> (text: String)
    ensures
        tells(text@, message@),
{
    let detail = debug_text(&e);
    let text = describe(message, detail.as_str());
    assert(text@.subrange(0, message@.len() as int + 2) =~= message_text(message@, Seq::empty()));
    text
}

/// What `parse_message` says of a frame that holds no text.
pub open spec fn no_text() -> Seq<char> {
    "Could not extract text from message"@
}

/// What `parse_message` says of a text that is no JSON document.
pub open spec fn no_json() -> Seq<char> {
    "Could not parse json"@
}

/// Whether `diagnostic` is `message`, a colon and a space, and some detail.
pub open spec fn tells(diagnostic: Seq<char>, message: Seq<char>) -> bool {
    message_text(message, Seq::empty()).is_prefix_of(diagnostic)
}

/// The payload that a frame holds: the document of its text, if it has a
/// text and the text is well-formed JSON.
pub open spec fn payload_of(frame: InboundFrame) -> Option<Value> {
    match frame_text(frame) {
        Some(text) => json_value(text),
        None => None,
    }
}

/// Decodes a frame into a payload.
///
/// Succeeds exactly on a frame whose text is well-formed JSON. On a frame
/// that holds no text the error is a diagnostic that starts with
/// `Could not extract text from message: `; on a text that is no JSON
/// document it is one that starts with `Could not parse json: `.
pub fn parse_message(message: &InboundFrame) -> (parsed: Result<Value, String>)
    ensures
        match parsed {
            Ok(value) => payload_of(*message) == Some(value),
            Err(diagnostic) => match frame_text(*message) {
                None => tells(diagnostic@, no_text()),
                Some(text) => json_value(text) is None && tells(diagnostic@, no_json()),
            },
        },
{
    match message.to_text() {
        Err(e) => Err(to_message("Could not extract text from message", e)),
        Ok(text) => match decode_json(text) {
            Ok(value) => Ok(value),
            Err(e) => Err(to_message("Could not parse json", e)),
        },
    }
}

} // verus!
