//! Frames as they come off a connection.

use std::str::Utf8Error;
use vstd::prelude::*;
use vstd::utf8::{decode_utf8, valid_utf8};

verus! {

/// `std::str::Utf8Error`: why bytes are no text.
#[verifier::external_type_specification]
#[verifier::external_body]
pub struct ExUtf8Error(Utf8Error);

/// A frame read from a connection.
#[derive(Debug, PartialEq, Eq)]
pub enum InboundFrame {
    /// A text frame.
    Text(String),
    /// A binary frame.
    Binary(Vec<u8>),
    /// A ping with its payload.
    Ping(Vec<u8>),
    /// A pong with its payload.
    Pong(Vec<u8>),
    /// A close frame with its reason, if it gave one.
    Close(Option<String>),
    /// A frame of any other kind with its payload.
    Raw(Vec<u8>),
}

/// The text that bytes hold, if they are UTF-8.
pub open spec fn text_of_bytes(bytes: Seq<u8>) -> Option<Seq<char>> {
    if valid_utf8(bytes) {
        Some(decode_utf8(bytes))
    } else {
        None
    }
}

/// The text that a frame holds, if it holds one: the text of a text
/// frame, the reason of a close frame (empty if it gave none), and the
/// payload of any other frame if it is UTF-8.
pub open spec fn frame_text(frame: InboundFrame) -> Option<Seq<char>> {
    match frame {
        InboundFrame::Text(text) => Some(text@),
        InboundFrame::Binary(data) => text_of_bytes(data@),
        InboundFrame::Ping(data) => text_of_bytes(data@),
        InboundFrame::Pong(data) => text_of_bytes(data@),
        InboundFrame::Close(None) => Some(Seq::empty()),
        InboundFrame::Close(Some(reason)) => Some(reason@),
        InboundFrame::Raw(data) => text_of_bytes(data@),
    }
}

/// Calls `std::str::from_utf8`.
///
/// Trusted: the call succeeds exactly on bytes that are UTF-8, and the
/// text is then what they encode.
#[verifier::external_body]
fn utf8_text(bytes: &[u8]) -> (text: Result<&str, Utf8Error>)
    ensures
        match text {
            Ok(text) => text_of_bytes(bytes@) == Some(text@),
            Err(_) => text_of_bytes(bytes@) is None,
        },
{
    std::str::from_utf8(bytes)
}

impl InboundFrame {
    /// Whether this is a text frame.
    pub fn is_text(&self) -> (text: bool)
        ensures
            text == (self is Text),
    {
        match self {
            InboundFrame::Text(_) => true,
            _ => false,
        }
    }

    /// The text of the frame, as `frame_text` says. Fails exactly on a
    /// payload that is not UTF-8.
    pub fn to_text(&self) -> (text: Result<&str, Utf8Error>)
        ensures
            match text {
                Ok(text) => frame_text(*self) == Some(text@),
                Err(_) => frame_text(*self) is None,
            },
    {
        match self {
            InboundFrame::Text(text) => Ok(text.as_str()),
            InboundFrame::Binary(data) => utf8_text(data.as_slice()),
            InboundFrame::Ping(data) => utf8_text(data.as_slice()),
            InboundFrame::Pong(data) => utf8_text(data.as_slice()),
            InboundFrame::Close(None) => {
                proof {
                    reveal_strlit("");
                }
                Ok("")
            },
            InboundFrame::Close(Some(reason)) => Ok(reason.as_str()),
            InboundFrame::Raw(data) => utf8_text(data.as_slice()),
        }
    }
}

} // verus!
