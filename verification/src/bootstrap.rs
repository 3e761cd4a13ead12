//! Decoding the two values that the process is given before its main loop: the
//! bot credential and the base URL for shareable links.
//!
//! Both arrive as raw bytes and must be UTF-8. A value that is not cannot be
//! used, and there is nothing to fall back on: the caller is expected to stop.

use crate::error::EngineError;
use vstd::prelude::*;
use vstd::utf8::{decode_utf8, valid_utf8};

verus! {

/// The two start-up values.
#[derive(Debug, Clone, Copy, PartialEq, Eq)]
pub enum BootstrapField {
    /// The credential with which the bot speaks to the chat platform.
    Credential,
    /// The base of the links under which proofs are shared.
    BaseUrl,
}

/// Calls `String::from_utf8`. The text is there exactly when the bytes are
/// valid UTF-8, and then it is the text that the bytes encode.
#[verifier::external_body]
fn utf8_text(bytes: Vec<u8>) -> (text: Option<String>)
    ensures
        text is Some <==> valid_utf8(bytes@),
        text matches Some(decoded) ==> decoded@ == decode_utf8(bytes@),
{
    match String::from_utf8(bytes) {
        Ok(decoded) => Some(decoded),
        Err(_) => None,
    }
}

/// Decodes one start-up value. Fails, naming the value, exactly when the
/// payload is not valid UTF-8.
pub fn decode_field(field: BootstrapField, payload: Vec<u8>) -> (decoded: Result<
    String,
    EngineError,
>)
    ensures
        match decoded {
            Ok(text) => valid_utf8(payload@) && text@ == decode_utf8(payload@),
            Err(e) => !valid_utf8(payload@) && e == EngineError::BootstrapNotUtf8(field),
        },
{
    match utf8_text(payload) {
        Some(text) => Ok(text),
        None => Err(EngineError::BootstrapNotUtf8(field)),
    }
}

} // verus!
