//! The result presenter: turns the outcome of a proof into outbound notices.
//!
//! An empty result yields one plain notice and nothing else. A result with
//! matches yields the matches as text, one line each in the order given, then
//! the publication of the proof artifact under a fresh identifier, then a
//! second notice with a clickable link to it.

use crate::action::{Action, ActionView, MatchView, NoticeFormat, ProofMatch, actions_view, matches_view};
use crate::encoding::digit_byte;
use crate::error::EngineError;
use vstd::prelude::*;
use vstd::string::*;

verus! {

/// The UTC date and time of the instant `secs` seconds after the Unix epoch,
/// written by `chrono` in the given `strftime` format; `None` when `chrono`
/// has no date for the instant.
pub uninterp spec fn utc_text(secs: i64, format: Seq<char>) -> Option<Seq<char>>;

/// The format of a date text: year, month and day, then hour and minute, as
/// in `2015-05-15 00:00`.
pub open spec fn minute_format() -> Seq<char> {
    "%Y-%m-%d %H:%M"@
}

/// The date text of a message timestamp: its UTC date and time to the minute.
/// Timestamps beyond the signed 64-bit range have none.
pub open spec fn date_text(timestamp: u64) -> Option<Seq<char>> {
    if timestamp <= i64::MAX {
        utc_text(timestamp as i64, minute_format())
    } else {
        None
    }
}

/// One result line: `<date> <sender>: <text>`.
pub open spec fn line_text(date: Seq<char>, sender: Seq<char>, text: Seq<char>) -> Seq<char> {
    date + " "@ + sender + ": "@ + text
}

/// Every match has a date text.
pub open spec fn renderable(matches: Seq<MatchView>) -> bool {
    forall|i: int| 0 <= i < matches.len() ==> date_text((#[trigger] matches[i]).0) is Some
}

/// The line of one match.
pub open spec fn match_line(m: MatchView) -> Seq<char>
    recommends
        date_text(m.0) is Some,
{
    line_text(date_text(m.0).unwrap(), m.1, m.2)
}

/// The lines of all matches in result order, joined by newlines.
pub open spec fn results_text(matches: Seq<MatchView>) -> Seq<char>
    decreases matches.len(),
{
    if matches.len() == 0 {
        Seq::empty()
    } else if matches.len() == 1 {
        match_line(matches[0])
    } else {
        results_text(matches.drop_last()) + "\n"@ + match_line(matches.last())
    }
}

/// The character of the decimal digit `d`.
pub open spec fn digit_char(d: nat) -> char
    recommends
        d < 10,
{
    digit_byte(d) as char
}

/// The decimal numeral of `n` as text.
pub open spec fn decimal_text(n: nat) -> Seq<char>
    decreases n,
{
    if n < 10 {
        seq![digit_char(n)]
    } else {
        decimal_text(n / 10).push(digit_char(n % 10))
    }
}

/// The path under which the artifact with identifier `id` is published.
pub open spec fn publish_path(id: u32) -> Seq<char> {
    "/"@ + decimal_text(id as nat)
}

/// The shareable address of the artifact: `<base_url>/<identity>/<id>`.
pub open spec fn link_text(base_url: Seq<char>, identity: Seq<char>, id: u32) -> Seq<char> {
    base_url + "/"@ + identity + "/"@ + decimal_text(id as nat)
}

/// An HTML anchor that shows `link` and points to it.
pub open spec fn anchor_text(link: Seq<char>) -> Seq<char> {
    "<a href=\""@ + link + "\">"@ + link + "</a>"@
}

/// The notice for a proof that found nothing.
pub open spec fn no_results_notice(chat_id: i64) -> ActionView {
    ActionView::Notify { chat_id, text: "No results found"@, format: NoticeFormat::Plain }
}

/// What is to be done with a proof outcome, given the identifier drawn for it:
/// for no matches the single "no results" notice; otherwise the results notice,
/// the publication of the artifact and the link notice, in this order.
pub open spec fn presentation(
    chat_id: i64,
    matches: Seq<MatchView>,
    artifact: Seq<u8>,
    base_url: Seq<char>,
    identity: Seq<char>,
    id: u32,
) -> Seq<ActionView> {
    if matches.len() == 0 {
        seq![no_results_notice(chat_id)]
    } else {
        seq![
            ActionView::Notify { chat_id, text: results_text(matches), format: NoticeFormat::Plain },
            ActionView::Publish {
                path: publish_path(id),
                content_type: "application/json"@,
                bytes: artifact,
            },
            ActionView::Notify {
                chat_id,
                text: anchor_text(link_text(base_url, identity, id)),
                format: NoticeFormat::Html,
            },
        ]
    }
}

/// Asks `chrono` for the UTC date-time of `secs` (`DateTime::from_timestamp`
/// with no nanoseconds) and, where there is one, writes it in `format`
/// (`DateTime::format`). The result is the named text for the instant and the
/// format, present or absent as `chrono` decides. Writing panics on a format
/// that `chrono` cannot parse, so the one format that the library uses is the
/// only one admitted.
#[verifier::external_body]
fn utc_string(secs: i64, format: &str) -> (text: Option<String>)
    requires
        format@ == minute_format(),
    ensures
        match text {
            Some(t) => utc_text(secs, format@) == Some(t@),
            None => utc_text(secs, format@) is None,
        },
{
    match chrono::DateTime::from_timestamp(secs, 0) {
        Some(moment) => Some(moment.format(format).to_string()),
        None => None,
    }
}

/// Draws a `u32` from `rand`'s thread-local generator (`rand::random`). Any
/// value may come back, and two calls need not agree. The call panics only if
/// the operating system gives no entropy when a thread's generator is seeded.
#[verifier::external_body]
fn random_identifier() -> (id: u32) {
    rand::random()
}

/// The date text of a message timestamp, if it has one.
pub fn render_date(timestamp: u64) -> (text: Option<String>)
    ensures
        match text {
            Some(t) => date_text(timestamp) == Some(t@),
            None => date_text(timestamp) is None,
        },
{
    if timestamp <= i64::MAX as u64 {
        utc_string(timestamp as i64, "%Y-%m-%d %H:%M")
    } else {
        None
    }
}

/// Writes one result line from its three parts.
pub fn render_line(date: &str, sender: &str, text: &str) -> (line: String)
    ensures
        line@ == line_text(date@, sender@, text@),
{
    let mut line = date.to_owned();
    line.append(" ");
    line.append(sender);
    line.append(": ");
    line.append(text);
    line
}

/// Writes the results notice: one line per match, in result order, joined by
/// newlines. `None` exactly when some match has no date text.
pub fn render_results(matches: &Vec<ProofMatch>) -> (rendered: Option<String>)
    ensures
        match rendered {
            Some(text) => renderable(matches_view(matches@)) && text@ == results_text(
                matches_view(matches@),
            ),
            None => !renderable(matches_view(matches@)),
        },
{
    let ghost all = matches_view(matches@);
    let mut out = String::new();
    let mut i: usize = 0;
    while i < matches.len()
        invariant
            i <= matches.len(),
            all == matches_view(matches@),
            renderable(all.take(i as int)),
            out@ == results_text(all.take(i as int)),
        decreases matches.len() - i,
    {
        let date = match render_date(matches[i].0) {
            Some(date) => date,
            None => {
                assert(date_text(all[i as int].0) is None);
                return None;
            },
        };
        let line = render_line(date.as_str(), matches[i].1.as_str(), matches[i].2.as_str());
        if i > 0 {
            out.append("\n");
        }
        out.append(line.as_str());
        proof {
            let done = all.take(i as int);
            let next = all.take(i + 1);
            assert(next.drop_last() =~= done);
            assert(next.last() == all[i as int]);
            assert(line@ == match_line(all[i as int]));
            assert forall|j: int| 0 <= j < next.len() implies date_text((#[trigger] next[j]).0)
                is Some by {
                if j < i {
                    assert(done[j] == next[j]);
                }
            }
            if i == 0 {
                assert(out@ =~= line@);
            } else {
                assert(out@ =~= results_text(done) + "\n"@ + line@);
            }
        }
        i += 1;
    }
    assert(all.take(matches.len() as int) =~= all);
    Some(out)
}

/// The one-character text of a decimal digit.
fn digit_str(d: u8) -> (s: &'static str)
    requires
        d < 10,
    ensures
        s@ == seq![digit_char(d as nat)],
{
    proof {
        reveal_strlit("0");
        reveal_strlit("1");
        reveal_strlit("2");
        reveal_strlit("3");
        reveal_strlit("4");
        reveal_strlit("5");
        reveal_strlit("6");
        reveal_strlit("7");
        reveal_strlit("8");
        reveal_strlit("9");
    }
    let s = match d {
        0 => "0",
        1 => "1",
        2 => "2",
        3 => "3",
        4 => "4",
        5 => "5",
        6 => "6",
        7 => "7",
        8 => "8",
        _ => "9",
    };
    assert(s@ =~= seq![digit_char(d as nat)]);
    s
}

/// Appends the decimal numeral of `n` to `out`.
pub fn push_decimal_text(out: &mut String, n: u32)
    ensures
        final(out)@ == old(out)@ + decimal_text(n as nat),
    decreases n,
{
    if n >= 10 {
        push_decimal_text(out, n / 10);
    }
    out.append(digit_str((n % 10) as u8));
    assert(out@ =~= old(out)@ + decimal_text(n as nat));
}

/// Writes the path under which the artifact with identifier `id` is published.
pub fn render_publish_path(id: u32) -> (path: String)
    ensures
        path@ == publish_path(id),
{
    let mut path = "/".to_owned();
    push_decimal_text(&mut path, id);
    path
}

/// Writes the shareable address `<base_url>/<identity>/<id>`.
pub fn render_link(base_url: &str, identity: &str, id: u32) -> (link: String)
    ensures
        link@ == link_text(base_url@, identity@, id),
{
    let mut link = base_url.to_owned();
    link.append("/");
    link.append(identity);
    link.append("/");
    push_decimal_text(&mut link, id);
    link
}

/// Writes the HTML anchor for `link`.
pub fn render_anchor(link: &str) -> (anchor: String)
    ensures
        anchor@ == anchor_text(link@),
{
    let mut anchor = "<a href=\"".to_owned();
    anchor.append(link);
    anchor.append("\">");
    anchor.append(link);
    anchor.append("</a>");
    anchor
}

/// Presents a proof outcome under a given identifier.
///
/// Succeeds with exactly [`presentation`] unless there are matches and one of
/// them has no date text; then nothing is to be done and the failure is
/// [`EngineError::DateOutOfRange`].
pub fn present_with_identifier(
    chat_id: i64,
    matches: &Vec<ProofMatch>,
    artifact: Vec<u8>,
    base_url: &str,
    identity: &str,
    id: u32,
) -> (presented: Result<Vec<Action>, EngineError>)
    ensures
        match presented {
            Ok(actions) => {
                &&& matches@.len() == 0 || renderable(matches_view(matches@))
                &&& actions_view(actions@) == presentation(
                    chat_id,
                    matches_view(matches@),
                    artifact@,
                    base_url@,
                    identity@,
                    id,
                )
            },
            Err(e) => {
                &&& e is DateOutOfRange
                &&& matches@.len() > 0
                &&& !renderable(matches_view(matches@))
            },
        },
{
    let mut actions: Vec<Action> = Vec::new();
    if matches.len() == 0 {
        actions.push(
            Action::Notify {
                chat_id,
                text: "No results found".to_owned(),
                format: NoticeFormat::Plain,
            },
        );
        assert(actions_view(actions@) =~= seq![no_results_notice(chat_id)]);
        return Ok(actions);
    }
    let results = match render_results(matches) {
        Some(text) => text,
        None => {
            return Err(EngineError::DateOutOfRange);
        },
    };
    let link = render_link(base_url, identity, id);
    actions.push(Action::Notify { chat_id, text: results, format: NoticeFormat::Plain });
    actions.push(
        Action::Publish {
            path: render_publish_path(id),
            content_type: "application/json".to_owned(),
            bytes: artifact,
        },
    );
    actions.push(
        Action::Notify { chat_id, text: render_anchor(link.as_str()), format: NoticeFormat::Html },
    );
    assert(actions_view(actions@) =~= presentation(
        chat_id,
        matches_view(matches@),
        artifact@,
        base_url@,
        identity@,
        id,
    ));
    Ok(actions)
}

/// Presents a proof outcome, drawing a fresh random identifier when there is
/// something to publish.
///
/// With no matches the only action is the "no results" notice: nothing is
/// published and no link is sent. With matches the actions are those of
/// [`presentation`] for the identifier that was drawn.
pub fn present(
    chat_id: i64,
    matches: &Vec<ProofMatch>,
    artifact: Vec<u8>,
    base_url: &str,
    identity: &str,
) -> (presented: Result<Vec<Action>, EngineError>)
    ensures
        matches@.len() == 0 ==> (presented matches Ok(actions) && actions_view(actions@) == seq![
            no_results_notice(chat_id),
        ]),
        match presented {
            Ok(actions) => {
                &&& matches@.len() == 0 || renderable(matches_view(matches@))
                &&& exists|id: u32|
                    actions_view(actions@) == #[trigger] presentation(
                        chat_id,
                        matches_view(matches@),
                        artifact@,
                        base_url@,
                        identity@,
                        id,
                    )
            },
            Err(e) => {
                &&& e is DateOutOfRange
                &&& matches@.len() > 0
                &&& !renderable(matches_view(matches@))
            },
        },
{
    let id: u32 = if matches.len() == 0 {
        0
    } else {
        random_identifier()
    };
    present_with_identifier(chat_id, matches, artifact, base_url, identity, id)
}

} // verus!
