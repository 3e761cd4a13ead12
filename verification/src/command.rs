//! Recognising the `/prove` command in a message text.
//!
//! A text is a command exactly when it begins with `/prove ` (the space
//! included, the case exact). The search string is everything after those seven
//! characters, taken literally: inner and trailing spaces stay, nothing is
//! split into words or rejoined.

use crate::text::{begins_with, chars_begin_with, chars_of};
use vstd::prelude::*;
use vstd::string::*;

verus! {

/// The characters of `/prove `.
pub open spec fn command_prefix() -> Seq<char> {
    seq!['/', 'p', 'r', 'o', 'v', 'e', ' ']
}

/// `text` is a proof command.
pub open spec fn is_command(text: Seq<char>) -> bool {
    begins_with(text, command_prefix())
}

/// The search string of a command text: what follows the prefix.
pub open spec fn search_string(text: Seq<char>) -> Seq<char>
    recommends
        is_command(text),
{
    text.skip(command_prefix().len() as int)
}

/// Splits a message text into command and history data.
///
/// Returns the search string when `text` is a command and `None` when it is
/// ordinary chat text.
pub fn parse_command(text: &str) -> (parsed: Option<String>)
    ensures
        parsed is Some <==> is_command(text@),
        parsed matches Some(search) ==> search@ == search_string(text@),
{
    let prefix = "/prove ";
    proof {
        reveal_strlit("/prove ");
        assert(prefix@ =~= command_prefix());
    }
    let chars = chars_of(text);
    let prefix_chars = chars_of(prefix);
    if chars_begin_with(&chars, &prefix_chars) {
        let rest = text.substring_char(7, chars.len());
        Some(rest.to_owned())
    } else {
        None
    }
}

} // verus!
