//! The canonical byte form of a message history and its SHA-256 digest.
//!
//! A history is written as a JSON array of objects with the members `sender`,
//! `text` and `timestamp`, in that order and without whitespace. The form is
//! order-sensitive and depends on nothing but the messages, so a history has
//! exactly one digest. That the framing lets no two histories share a form is
//! shown in [`crate::canonical`].

use crate::message::{ChatMessage, MessageView, views_of};
use sha2::Digest;
use vstd::prelude::*;
use vstd::string::*;

verus! {

/// The error with which `serde_json` reports that a value could not be written.
#[verifier::external_type_specification]
#[verifier::external_body]
pub struct ExJsonError(serde_json::Error);

/// The JSON string literal for `text`: the quoted, escaped form that
/// `serde_json` writes for a string.
pub uninterp spec fn json_string(text: Seq<char>) -> Seq<u8>;

/// The SHA-256 digest of `data`.
pub uninterp spec fn sha256(data: Seq<u8>) -> Seq<u8>;

/// Length of a SHA-256 digest in bytes.
pub const DIGEST_LEN: usize = 32;

/// A SHA-256 digest.
pub type Digest32 = [u8; DIGEST_LEN];

/// The ASCII code of the decimal digit `d`.
pub open spec fn digit_byte(d: nat) -> u8
    recommends
        d < 10,
{
    (48 + d) as u8
}

/// The decimal numeral of `n`, most significant digit first, without leading zeros.
pub open spec fn decimal_digits(n: nat) -> Seq<u8>
    decreases n,
{
    if n < 10 {
        seq![digit_byte(n)]
    } else {
        decimal_digits(n / 10).push(digit_byte(n % 10))
    }
}

/// The JSON object with the members `sender`, `text` and `timestamp`, in that
/// order, the first two given as JSON strings already written.
pub open spec fn object_json(sender_json: Seq<u8>, text_json: Seq<u8>, timestamp: u64) -> Seq<u8> {
    "{\"sender\":".spec_bytes() + sender_json + ",\"text\":".spec_bytes() + text_json
        + ",\"timestamp\":".spec_bytes() + decimal_digits(timestamp as nat) + "}".spec_bytes()
}

/// The JSON object for one message.
pub open spec fn message_json(m: MessageView) -> Seq<u8> {
    object_json(json_string(m.sender), json_string(m.text), m.timestamp)
}

/// The JSON objects of `messages`, separated by commas.
pub open spec fn joined_json(messages: Seq<MessageView>) -> Seq<u8>
    decreases messages.len(),
{
    if messages.len() == 0 {
        Seq::empty()
    } else if messages.len() == 1 {
        message_json(messages[0])
    } else {
        joined_json(messages.drop_last()) + ",".spec_bytes() + message_json(messages.last())
    }
}

/// The canonical byte form of a history: the JSON array of its messages.
pub open spec fn history_json(messages: Seq<MessageView>) -> Seq<u8> {
    "[".spec_bytes() + joined_json(messages) + "]".spec_bytes()
}

/// The integrity digest of a history: SHA-256 over its canonical byte form.
pub open spec fn checkpoint_digest(messages: Seq<MessageView>) -> Seq<u8> {
    sha256(history_json(messages))
}

/// Calls `serde_json::to_vec` on a string slice. The call succeeds and the bytes
/// are the JSON string literal for `text`. It succeeds because the only failure
/// that writing a string can report is an I/O error of the writer, and `to_vec`
/// writes into a byte vector of its own.
#[verifier::external_body]
fn json_string_bytes(text: &str) -> (written: Result<Vec<u8>, serde_json::Error>)
    ensures
        written is Ok,
        written matches Ok(bytes) ==> bytes@ == json_string(text@),
{
    serde_json::to_vec(text)
}

/// Calls `sha2::Sha256::digest`, the one-shot form of the `Digest` trait, and
/// hands its 32 output bytes on as an array. The result is the SHA-256 digest of
/// the bytes.
#[verifier::external_body]
fn sha256_bytes(data: &Vec<u8>) -> (digest: Digest32)
    ensures
        digest@ == sha256(data@),
{
    sha2::Sha256::digest(data).into()
}

/// Appends the UTF-8 bytes of `piece` to `out`.
fn push_str_bytes(out: &mut Vec<u8>, piece: &str)
    ensures
        final(out)@ == old(out)@ + piece.spec_bytes(),
{
    let mut bytes = piece.as_bytes_vec();
    out.append(&mut bytes);
}

/// Appends the decimal numeral of `n` to `out`.
pub fn push_decimal(out: &mut Vec<u8>, n: u64)
    ensures
        final(out)@ == old(out)@ + decimal_digits(n as nat),
    decreases n,
{
    if n >= 10 {
        push_decimal(out, n / 10);
    }
    let digit: u8 = (n % 10) as u8;
    out.push(48u8 + digit);
    assert(out@ =~= old(out)@ + decimal_digits(n as nat));
}

/// Writes the JSON object of a message whose two texts are given as JSON strings
/// already written.
pub fn object_bytes(sender_json: Vec<u8>, text_json: Vec<u8>, timestamp: u64) -> (out: Vec<u8>)
    ensures
        out@ == object_json(sender_json@, text_json@, timestamp),
{
    let mut sender_part = sender_json;
    let mut text_part = text_json;
    let mut out: Vec<u8> = Vec::new();
    push_str_bytes(&mut out, "{\"sender\":");
    out.append(&mut sender_part);
    push_str_bytes(&mut out, ",\"text\":");
    out.append(&mut text_part);
    push_str_bytes(&mut out, ",\"timestamp\":");
    push_decimal(&mut out, timestamp);
    push_str_bytes(&mut out, "}");
    assert(out@ =~= object_json(sender_json@, text_json@, timestamp));
    out
}

/// Writes the JSON object for `message`. Always succeeds; the bytes are exactly
/// [`message_json`] of the message.
pub fn message_bytes(message: &ChatMessage) -> (written: Result<Vec<u8>, serde_json::Error>)
    ensures
        written matches Ok(bytes) && bytes@ == message_json(message@),
{
    let sender_json = match json_string_bytes(message.sender.as_str()) {
        Ok(bytes) => bytes,
        Err(e) => {
            return Err(e);
        },
    };
    let text_json = match json_string_bytes(message.text.as_str()) {
        Ok(bytes) => bytes,
        Err(e) => {
            return Err(e);
        },
    };
    Ok(object_bytes(sender_json, text_json, message.timestamp))
}

/// Extending a history by one message extends the joined form by a comma, unless
/// the history was empty, and the new message's object.
pub proof fn lemma_joined_push(messages: Seq<MessageView>, next: MessageView)
    ensures
        joined_json(messages.push(next)) == if messages.len() == 0 {
            message_json(next)
        } else {
            joined_json(messages) + ",".spec_bytes() + message_json(next)
        },
{
    let longer = messages.push(next);
    assert(longer.drop_last() =~= messages);
    assert(longer.last() == next);
}

/// Writes the canonical byte form of `messages`. Always succeeds; the bytes are
/// exactly [`history_json`] of the messages.
pub fn history_bytes(messages: &Vec<ChatMessage>) -> (written: Result<Vec<u8>, serde_json::Error>)
    ensures
        written matches Ok(bytes) && bytes@ == history_json(views_of(messages@)),
{
    let mut out: Vec<u8> = Vec::new();
    push_str_bytes(&mut out, "[");
    let mut i: usize = 0;
    while i < messages.len()
        invariant
            i <= messages.len(),
            out@ == "[".spec_bytes() + joined_json(views_of(messages@.take(i as int))),
        decreases messages.len() - i,
    {
        let mut object = match message_bytes(&messages[i]) {
            Ok(bytes) => bytes,
            Err(e) => {
                return Err(e);
            },
        };
        let ghost done = views_of(messages@.take(i as int));
        let ghost head = out@;
        if i > 0 {
            push_str_bytes(&mut out, ",");
        }
        out.append(&mut object);
        proof {
            let next = messages@[i as int]@;
            assert(views_of(messages@.take(i + 1)) =~= done.push(next));
            lemma_joined_push(done, next);
            if i > 0 {
                assert(out@ == head + ",".spec_bytes() + message_json(next));
                assert(out@ =~= "[".spec_bytes() + (joined_json(done) + ",".spec_bytes()
                    + message_json(next)));
            } else {
                assert(done =~= Seq::<MessageView>::empty());
                assert(out@ =~= "[".spec_bytes() + message_json(next));
            }
        }
        i += 1;
    }
    assert(messages@.take(messages.len() as int) =~= messages@);
    push_str_bytes(&mut out, "]");
    Ok(out)
}

/// Computes the integrity digest of `messages`. Always succeeds; the digest is
/// exactly [`checkpoint_digest`] of the messages. It depends on the messages
/// alone, so equal histories have equal digests.
pub fn checkpoint_hash(messages: &Vec<ChatMessage>) -> (hashed: Result<Digest32, serde_json::Error>)
    ensures
        hashed matches Ok(digest) && digest@ == checkpoint_digest(views_of(messages@)),
{
    match history_bytes(messages) {
        Ok(bytes) => Ok(sha256_bytes(&bytes)),
        Err(e) => Err(e),
    }
}

/// Hashing is a function of the history: two message sequences with the same
/// views, in the same order, have the same canonical form and the same digest.
pub proof fn lemma_digest_deterministic(first: Seq<ChatMessage>, second: Seq<ChatMessage>)
    requires
        views_of(first) == views_of(second),
    ensures
        history_json(views_of(first)) == history_json(views_of(second)),
        checkpoint_digest(views_of(first)) == checkpoint_digest(views_of(second)),
{
}

} // verus!
