//! Why the canonical form of a history can be read in only one way.
//!
//! The framing that this library adds around the texts (brackets, commas,
//! member names, decimal timestamps) never makes two histories look alike.
//! Whether the texts themselves can be told apart is a matter of the JSON
//! string form, which this library takes from `serde_json` and does not
//! define. The main law, [`lemma_canonical_form_injective`], therefore speaks
//! of histories whose texts are self-delimiting in that form, and nothing in
//! this library claims that a text is.

use crate::encoding::{
    decimal_digits, digit_byte, history_json, joined_json, json_string, message_json,
};
use crate::message::MessageView;
use vstd::prelude::*;
use vstd::string::*;

verus! {

/// `b` is the ASCII code of a decimal digit.
pub open spec fn is_digit(b: u8) -> bool {
    48 <= b <= 57
}

/// The bytes of the punctuation that frames a history.
proof fn lemma_punctuation()
    ensures
        "[".spec_bytes() == seq![91u8],
        "]".spec_bytes() == seq![93u8],
        ",".spec_bytes() == seq![44u8],
        "}".spec_bytes() == seq![125u8],
        "{\"sender\":".spec_bytes().len() > 0,
        "{\"sender\":".spec_bytes()[0] == 123u8,
{
    reveal_strlit("[");
    reveal_strlit("]");
    reveal_strlit(",");
    reveal_strlit("}");
    reveal_strlit("{\"sender\":");
    is_ascii_spec_bytes("[");
    is_ascii_spec_bytes("]");
    is_ascii_spec_bytes(",");
    is_ascii_spec_bytes("}");
    is_ascii_spec_bytes("{\"sender\":");
    assert("[".spec_bytes() =~= seq![91u8]);
    assert("]".spec_bytes() =~= seq![93u8]);
    assert(",".spec_bytes() =~= seq![44u8]);
    assert("}".spec_bytes() =~= seq![125u8]);
}

/// A decimal numeral is one or more digits.
proof fn lemma_decimal_is_digits(n: nat)
    ensures
        decimal_digits(n).len() > 0,
        forall|i: int| 0 <= i < decimal_digits(n).len() ==> is_digit(#[trigger] decimal_digits(n)[i]),
    decreases n,
{
    if n >= 10 {
        lemma_decimal_is_digits(n / 10);
    }
}

/// Different numbers have different numerals.
pub proof fn lemma_decimal_injective(a: nat, b: nat)
    requires
        decimal_digits(a) == decimal_digits(b),
    ensures
        a == b,
    decreases a,
{
    lemma_decimal_is_digits(a / 10);
    lemma_decimal_is_digits(b / 10);
    if a >= 10 && b >= 10 {
        let da = decimal_digits(a / 10);
        let db = decimal_digits(b / 10);
        assert(da =~= decimal_digits(a).drop_last());
        assert(db =~= decimal_digits(b).drop_last());
        assert(decimal_digits(a).last() == digit_byte(a % 10));
        assert(decimal_digits(b).last() == digit_byte(b % 10));
        lemma_decimal_injective(a / 10, b / 10);
    } else if a < 10 && b < 10 {
        assert(decimal_digits(a)[0] == digit_byte(a));
        assert(decimal_digits(b)[0] == digit_byte(b));
    } else if a < 10 {
        assert(decimal_digits(b).len() >= 2);
    } else {
        assert(decimal_digits(a).len() >= 2);
    }
}

/// Equal sequences that begin alike end alike.
proof fn lemma_cancel_prefix(head: Seq<u8>, first: Seq<u8>, second: Seq<u8>)
    requires
        head + first == head + second,
    ensures
        first == second,
{
    assert(first =~= (head + first).skip(head.len() as int));
    assert(second =~= (head + second).skip(head.len() as int));
}

/// A numeral ends where the first byte that is no digit stands: two numerals,
/// each followed by a byte that is no digit, agree as texts only if the
/// numbers agree and what follows agrees.
proof fn lemma_decimal_delimited(a: nat, rest: Seq<u8>, b: nat, other_rest: Seq<u8>)
    requires
        decimal_digits(a) + rest == decimal_digits(b) + other_rest,
        rest.len() > 0 && !is_digit(rest[0]),
        other_rest.len() > 0 && !is_digit(other_rest[0]),
    ensures
        a == b,
        rest == other_rest,
{
    let da = decimal_digits(a);
    let db = decimal_digits(b);
    let whole = da + rest;
    lemma_decimal_is_digits(a);
    lemma_decimal_is_digits(b);
    if da.len() < db.len() {
        assert(whole[da.len() as int] == rest[0]);
        assert((db + other_rest)[da.len() as int] == db[da.len() as int]);
        assert(false);
    }
    if db.len() < da.len() {
        assert((db + other_rest)[db.len() as int] == other_rest[0]);
        assert(whole[db.len() as int] == da[db.len() as int]);
        assert(false);
    }
    assert(da =~= whole.take(da.len() as int));
    assert(db =~= (db + other_rest).take(db.len() as int));
    lemma_decimal_injective(a, b);
    lemma_cancel_prefix(da, rest, other_rest);
}

/// The JSON string of `text` ends where it ends: followed by anything, it is
/// the beginning of no other text's JSON string followed by anything.
#[verifier::opaque]
pub open spec fn self_delimiting(text: Seq<char>) -> bool {
    forall|rest: Seq<u8>, other: Seq<char>, other_rest: Seq<u8>|
        #![trigger json_string(text) + rest, json_string(other) + other_rest]
        json_string(text) + rest == json_string(other) + other_rest ==> other == text
}

/// Every sender and every text of the history is self-delimiting.
pub open spec fn texts_self_delimiting(messages: Seq<MessageView>) -> bool {
    forall|i: int|
        0 <= i < messages.len() ==> self_delimiting((#[trigger] messages[i]).sender)
            && self_delimiting(messages[i].text)
}

/// What follows an object in a history: for each further message a comma and
/// its object.
pub open spec fn continued(messages: Seq<MessageView>) -> Seq<u8>
    decreases messages.len(),
{
    if messages.len() == 0 {
        Seq::empty()
    } else {
        ",".spec_bytes() + message_json(messages[0]) + continued(messages.skip(1))
    }
}

/// What self-delimitation gives for one pair of byte strings.
proof fn lemma_string_delimited(
    text: Seq<char>,
    rest: Seq<u8>,
    other: Seq<char>,
    other_rest: Seq<u8>,
)
    requires
        self_delimiting(text),
        json_string(text) + rest == json_string(other) + other_rest,
    ensures
        text == other,
        rest == other_rest,
{
    reveal(self_delimiting);
    lemma_cancel_prefix(json_string(text), rest, other_rest);
}

/// An object followed by anything, read member by member.
proof fn lemma_object_members(message: MessageView, rest: Seq<u8>)
    ensures
        message_json(message) + rest == "{\"sender\":".spec_bytes() + (json_string(message.sender)
            + (",\"text\":".spec_bytes() + (json_string(message.text) + (
        ",\"timestamp\":".spec_bytes() + (decimal_digits(message.timestamp as nat) + (
        "}".spec_bytes() + rest)))))),
{
    let k1 = "{\"sender\":".spec_bytes();
    let k2 = ",\"text\":".spec_bytes();
    let k3 = ",\"timestamp\":".spec_bytes();
    let k4 = "}".spec_bytes();
    let s = json_string(message.sender);
    let t = json_string(message.text);
    let d = decimal_digits(message.timestamp as nat);
    assert(message_json(message) == k1 + s + k2 + t + k3 + d + k4);
    assert(k1 + s + k2 + t + k3 + d + k4 + rest =~= k1 + (s + (k2 + (t + (k3 + (d + (k4
        + rest)))))));
}

/// An object ends where it ends: two objects, each followed by anything,
/// agree as bytes only if the messages agree and what follows agrees.
pub proof fn lemma_object_delimited(
    message: MessageView,
    rest: Seq<u8>,
    other: MessageView,
    other_rest: Seq<u8>,
)
    requires
        self_delimiting(message.sender),
        self_delimiting(message.text),
        message_json(message) + rest == message_json(other) + other_rest,
    ensures
        message == other,
        rest == other_rest,
{
    let k1 = "{\"sender\":".spec_bytes();
    let k2 = ",\"text\":".spec_bytes();
    let k3 = ",\"timestamp\":".spec_bytes();
    let k4 = "}".spec_bytes();
    let after_number = k4 + rest;
    let other_after_number = k4 + other_rest;
    let number = decimal_digits(message.timestamp as nat) + after_number;
    let other_number = decimal_digits(other.timestamp as nat) + other_after_number;
    let after_text = k3 + number;
    let other_after_text = k3 + other_number;
    let text = json_string(message.text) + after_text;
    let other_text = json_string(other.text) + other_after_text;
    let after_sender = k2 + text;
    let other_after_sender = k2 + other_text;
    let sender = json_string(message.sender) + after_sender;
    let other_sender = json_string(other.sender) + other_after_sender;
    lemma_object_members(message, rest);
    lemma_object_members(other, other_rest);
    lemma_cancel_prefix(k1, sender, other_sender);
    lemma_string_delimited(message.sender, after_sender, other.sender, other_after_sender);
    lemma_cancel_prefix(k2, text, other_text);
    lemma_string_delimited(message.text, after_text, other.text, other_after_text);
    lemma_cancel_prefix(k3, number, other_number);
    lemma_punctuation();
    assert(after_number[0] == 125u8);
    assert(other_after_number[0] == 125u8);
    lemma_decimal_delimited(
        message.timestamp as nat,
        after_number,
        other.timestamp as nat,
        other_after_number,
    );
    lemma_cancel_prefix(k4, rest, other_rest);
}

/// One more message at the end adds a comma and its object at the end.
proof fn lemma_continued_push(messages: Seq<MessageView>, next: MessageView)
    ensures
        continued(messages.push(next)) == continued(messages) + ",".spec_bytes() + message_json(
            next,
        ),
    decreases messages.len(),
{
    let longer = messages.push(next);
    if messages.len() == 0 {
        assert(longer.skip(1) =~= Seq::<MessageView>::empty());
        assert(continued(longer.skip(1)) =~= Seq::<u8>::empty());
        assert(longer[0] == next);
        assert(continued(longer) =~= ",".spec_bytes() + message_json(next));
        assert(continued(messages) + ",".spec_bytes() + message_json(next) =~= ",".spec_bytes()
            + message_json(next));
    } else {
        lemma_continued_push(messages.skip(1), next);
        assert(longer.skip(1) =~= messages.skip(1).push(next));
        assert(longer[0] == messages[0]);
        assert(continued(longer) =~= continued(messages) + ",".spec_bytes() + message_json(next));
    }
}

/// The objects of a history that is not empty, read from the front: the first
/// object, then each further one behind a comma.
proof fn lemma_joined_from_front(messages: Seq<MessageView>)
    requires
        messages.len() > 0,
    ensures
        joined_json(messages) == message_json(messages[0]) + continued(messages.skip(1)),
    decreases messages.len(),
{
    if messages.len() == 1 {
        assert(messages.skip(1) =~= Seq::<MessageView>::empty());
        assert(continued(messages.skip(1)) =~= Seq::<u8>::empty());
        assert(joined_json(messages) =~= message_json(messages[0]) + continued(messages.skip(1)));
    } else {
        let earlier = messages.drop_last();
        lemma_joined_from_front(earlier);
        lemma_continued_push(earlier.skip(1), messages.last());
        assert(messages.skip(1) =~= earlier.skip(1).push(messages.last()));
        assert(earlier[0] == messages[0]);
        assert(joined_json(messages) =~= message_json(messages[0]) + continued(messages.skip(1)));
    }
}

/// What follows an object tells the remaining messages apart: two
/// continuations, each closed by the bracket, agree only if the messages agree.
proof fn lemma_continued_injective(messages: Seq<MessageView>, others: Seq<MessageView>)
    requires
        texts_self_delimiting(messages),
        continued(messages) + "]".spec_bytes() == continued(others) + "]".spec_bytes(),
    ensures
        messages == others,
    decreases messages.len(),
{
    lemma_punctuation();
    let close = "]".spec_bytes();
    let comma = ",".spec_bytes();
    if messages.len() == 0 {
        if others.len() > 0 {
            assert((continued(messages) + close)[0] == 93u8);
            assert((continued(others) + close)[0] == 44u8);
        }
        assert(messages =~= others);
    } else {
        if others.len() == 0 {
            assert((continued(messages) + close)[0] == 44u8);
            assert((continued(others) + close)[0] == 93u8);
        }
        let rest = continued(messages.skip(1)) + close;
        let other_rest = continued(others.skip(1)) + close;
        assert(continued(messages) + close =~= comma + (message_json(messages[0]) + rest));
        assert(continued(others) + close =~= comma + (message_json(others[0]) + other_rest));
        lemma_cancel_prefix(
            comma,
            message_json(messages[0]) + rest,
            message_json(others[0]) + other_rest,
        );
        lemma_object_delimited(messages[0], rest, others[0], other_rest);
        assert forall|i: int| 0 <= i < messages.skip(1).len() implies self_delimiting(
            (#[trigger] messages.skip(1)[i]).sender,
        ) && self_delimiting(messages.skip(1)[i].text) by {
            assert(messages.skip(1)[i] == messages[i + 1]);
        }
        lemma_continued_injective(messages.skip(1), others.skip(1));
        assert(messages =~= seq![messages[0]] + messages.skip(1));
        assert(others =~= seq![others[0]] + others.skip(1));
    }
}

/// The canonical form is injective and order-sensitive. If the JSON strings of
/// a history's senders and texts are self-delimiting, no other history has the
/// same canonical form: another order, another length, or a change of any
/// sender, text or timestamp changes the bytes that are hashed.
pub proof fn lemma_canonical_form_injective(messages: Seq<MessageView>, others: Seq<MessageView>)
    requires
        texts_self_delimiting(messages),
        history_json(messages) == history_json(others),
    ensures
        messages == others,
{
    lemma_punctuation();
    let open = "[".spec_bytes();
    let close = "]".spec_bytes();
    assert(history_json(messages) =~= open + (joined_json(messages) + close));
    assert(history_json(others) =~= open + (joined_json(others) + close));
    lemma_cancel_prefix(open, joined_json(messages) + close, joined_json(others) + close);
    if messages.len() == 0 {
        if others.len() > 0 {
            lemma_joined_from_front(others);
            assert((joined_json(messages) + close)[0] == 93u8);
            assert((joined_json(others) + close)[0] == 123u8);
        }
        assert(messages =~= others);
    } else {
        lemma_joined_from_front(messages);
        if others.len() == 0 {
            assert((joined_json(messages) + close)[0] == 123u8);
            assert((joined_json(others) + close)[0] == 93u8);
        }
        lemma_joined_from_front(others);
        let rest = continued(messages.skip(1)) + close;
        let other_rest = continued(others.skip(1)) + close;
        assert(joined_json(messages) + close =~= message_json(messages[0]) + rest);
        assert(joined_json(others) + close =~= message_json(others[0]) + other_rest);
        lemma_object_delimited(messages[0], rest, others[0], other_rest);
        assert forall|i: int| 0 <= i < messages.skip(1).len() implies self_delimiting(
            (#[trigger] messages.skip(1)[i]).sender,
        ) && self_delimiting(messages.skip(1)[i].text) by {
            assert(messages.skip(1)[i] == messages[i + 1]);
        }
        lemma_continued_injective(messages.skip(1), others.skip(1));
        assert(messages =~= seq![messages[0]] + messages.skip(1));
        assert(others =~= seq![others[0]] + others.skip(1));
    }
}

} // verus!
