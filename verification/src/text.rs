//! Character-level text predicates and the executable checks that decide them.
//!
//! A text is modelled by its sequence of Unicode scalar values, the view of
//! `str` and `String`. Matching is exact: no case folding, no trimming, no
//! normalisation.

use vstd::prelude::*;

verus! {

/// `pat` occurs in `text` starting at position `at`.
pub open spec fn occurs_at(pat: Seq<char>, text: Seq<char>, at: int) -> bool {
    &&& 0 <= at
    &&& at + pat.len() <= text.len()
    &&& text.subrange(at, at + pat.len()) == pat
}

/// `pat` is a contiguous substring of `text`. The empty pattern occurs in every text.
pub open spec fn occurs_in(pat: Seq<char>, text: Seq<char>) -> bool {
    exists|at: int| occurs_at(pat, text, at)
}

/// `text` begins with `prefix`.
pub open spec fn begins_with(text: Seq<char>, prefix: Seq<char>) -> bool {
    occurs_at(prefix, text, 0)
}

/// The characters of a string slice, in order.
pub fn chars_of(s: &str) -> (out: Vec<char>)
    ensures
        out@ == s@,
{
    broadcast use vstd::string::group_string_axioms;

    let mut out: Vec<char> = Vec::new();
    for c in it: s.chars()
        invariant
            it.seq() == s@,
            out@ == it.seq().take(it.index()),
    {
        out.push(c);
    }
    out
}

/// Decides whether `pat` occurs in `text` at `at`, comparing character by character.
pub fn chars_match_at(text: &Vec<char>, pat: &Vec<char>, at: usize) -> (found: bool)
    requires
        at + pat.len() <= text.len(),
    ensures
        found == occurs_at(pat@, text@, at as int),
{
    let mut k: usize = 0;
    while k < pat.len()
        invariant
            k <= pat.len(),
            at + pat.len() <= text.len(),
            forall|j: int| 0 <= j < k ==> text@[at + j] == pat@[j],
        decreases pat.len() - k,
    {
        if text[at + k] != pat[k] {
            proof {
                let window = text@.subrange(at as int, at + pat.len());
                assert(window[k as int] == text@[at + k]);
            }
            return false;
        }
        k += 1;
    }
    assert(text@.subrange(at as int, at + pat.len()) =~= pat@);
    true
}

/// Decides whether `text` begins with `prefix`.
pub fn chars_begin_with(text: &Vec<char>, prefix: &Vec<char>) -> (found: bool)
    ensures
        found == begins_with(text@, prefix@),
{
    if prefix.len() > text.len() {
        return false;
    }
    chars_match_at(text, prefix, 0)
}

/// Decides whether `pat` occurs anywhere in `text`, trying each start position in turn.
pub fn chars_contain(text: &Vec<char>, pat: &Vec<char>) -> (found: bool)
    ensures
        found == occurs_in(pat@, text@),
{
    if pat.len() > text.len() {
        assert(forall|at: int| !occurs_at(pat@, text@, at));
        return false;
    }
    let last: usize = text.len() - pat.len();
    let mut at: usize = 0;
    loop
        invariant
            last == text.len() - pat.len(),
            pat.len() <= text.len(),
            at <= last,
            forall|j: int| 0 <= j < at ==> !occurs_at(pat@, text@, j),
        decreases last - at,
    {
        if chars_match_at(text, pat, at) {
            return true;
        }
        if at == last {
            assert(forall|j: int| !occurs_at(pat@, text@, j));
            return false;
        }
        at += 1;
    }
}

/// Case-sensitive substring test on string slices.
pub fn contains(text: &str, pat: &str) -> (found: bool)
    ensures
        found == occurs_in(pat@, text@),
{
    let text_chars = chars_of(text);
    let pat_chars = chars_of(pat);
    chars_contain(&text_chars, &pat_chars)
}

/// Case-sensitive prefix test on string slices.
pub fn starts_with(text: &str, prefix: &str) -> (found: bool)
    ensures
        found == begins_with(text@, prefix@),
{
    let text_chars = chars_of(text);
    let prefix_chars = chars_of(prefix);
    chars_begin_with(&text_chars, &prefix_chars)
}

} // verus!
