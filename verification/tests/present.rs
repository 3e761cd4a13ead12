use chatproof::action::{Action, NoticeFormat, ProofMatch};
use chatproof::error::EngineError;
use chatproof::present::{
    present, present_with_identifier, push_decimal_text, render_anchor, render_date, render_line,
    render_link, render_publish_path, render_results,
};

fn found(timestamp: u64, sender: &str, text: &str) -> ProofMatch {
    (timestamp, sender.to_string(), text.to_string())
}

fn notice(chat_id: i64, text: &str, format: NoticeFormat) -> Action {
    Action::Notify { chat_id, text: text.to_string(), format }
}

#[test]
fn the_epoch_renders_as_midnight_of_the_first_day_of_1970() {
    assert_eq!(render_date(0), Some("1970-01-01 00:00".to_string()));
}

#[test]
fn dates_are_rendered_in_utc_to_the_minute() {
    assert_eq!(render_date(100), Some("1970-01-01 00:01".to_string()));
    assert_eq!(render_date(1_431_648_000), Some("2015-05-15 00:00".to_string()));
    assert_eq!(render_date(1_700_000_000), Some("2023-11-14 22:13".to_string()));
    assert_eq!(render_date(253_402_300_799), Some("9999-12-31 23:59".to_string()));
}

#[test]
fn a_timestamp_beyond_every_calendar_has_no_date() {
    assert_eq!(render_date(u64::MAX), None);
    assert_eq!(render_date(i64::MAX as u64), None);
    assert_eq!(render_date(i64::MAX as u64 + 1), None);
}

#[test]
fn a_line_is_date_sender_colon_text() {
    assert_eq!(render_line("1970-01-01 00:01", "alice", "hello world"), "1970-01-01 00:01 alice: hello world");
    assert_eq!(render_line("d", "", ""), "d : ");
}

#[test]
fn results_are_one_line_per_match_in_the_order_given() {
    let matches = vec![found(108, "bob", "goodbye world"), found(100, "alice", "hello world")];
    assert_eq!(
        render_results(&matches),
        Some("1970-01-01 00:01 bob: goodbye world\n1970-01-01 00:01 alice: hello world".to_string())
    );
}

#[test]
fn a_single_result_has_no_newline() {
    let matches = vec![found(1_431_648_000, "alice", "hi")];
    assert_eq!(render_results(&matches), Some("2015-05-15 00:00 alice: hi".to_string()));
}

#[test]
fn no_results_render_as_the_empty_text() {
    assert_eq!(render_results(&Vec::new()), Some(String::new()));
}

#[test]
fn results_with_an_undatable_match_do_not_render() {
    let matches = vec![found(100, "alice", "hello"), found(u64::MAX, "bob", "late")];
    assert_eq!(render_results(&matches), None);
}

#[test]
fn decimal_text_of_identifiers() {
    let mut out = String::from("#");
    push_decimal_text(&mut out, 0);
    assert_eq!(out, "#0");
    let mut out = String::new();
    push_decimal_text(&mut out, 4_294_967_295);
    assert_eq!(out, "4294967295");
    let mut out = String::new();
    push_decimal_text(&mut out, 1_000);
    assert_eq!(out, "1000");
}

#[test]
fn the_publish_path_is_a_slash_and_the_identifier() {
    assert_eq!(render_publish_path(12345), "/12345");
    assert_eq!(render_publish_path(0), "/0");
}

#[test]
fn the_link_joins_base_identity_and_identifier_with_slashes() {
    assert_eq!(
        render_link("https://node.example", "chatproof:chatproof:template.os", 987),
        "https://node.example/chatproof:chatproof:template.os/987"
    );
    assert_eq!(render_link("", "", 1), "//1");
}

#[test]
fn the_anchor_shows_the_link_and_points_to_it() {
    assert_eq!(render_anchor("https://x/y/1"), "<a href=\"https://x/y/1\">https://x/y/1</a>");
}

#[test]
fn an_empty_result_yields_only_the_no_results_notice() {
    let actions = present(9, &Vec::new(), vec![1, 2, 3], "https://node.example", "proc").unwrap();
    assert_eq!(actions, vec![notice(9, "No results found", NoticeFormat::Plain)]);
}

#[test]
fn an_empty_result_publishes_nothing_and_sends_no_link() {
    let actions = present_with_identifier(9, &Vec::new(), vec![1, 2, 3], "u", "p", 77).unwrap();
    assert_eq!(actions.len(), 1);
    assert!(!actions.iter().any(|action| matches!(action, Action::Publish { .. })));
    assert!(!actions
        .iter()
        .any(|action| matches!(action, Action::Notify { format: NoticeFormat::Html, .. })));
}

#[test]
fn a_result_with_matches_yields_results_publication_and_link_in_this_order() {
    let matches = vec![found(100, "alice", "hello world"), found(108, "bob", "goodbye world")];
    let actions =
        present_with_identifier(-5, &matches, vec![0xde, 0xad], "https://node.example", "proc", 4242)
            .unwrap();
    assert_eq!(
        actions,
        vec![
            notice(
                -5,
                "1970-01-01 00:01 alice: hello world\n1970-01-01 00:01 bob: goodbye world",
                NoticeFormat::Plain
            ),
            Action::Publish {
                path: "/4242".to_string(),
                content_type: "application/json".to_string(),
                bytes: vec![0xde, 0xad],
            },
            notice(
                -5,
                "<a href=\"https://node.example/proc/4242\">https://node.example/proc/4242</a>",
                NoticeFormat::Html
            ),
        ]
    );
}

#[test]
fn a_drawn_identifier_names_both_the_path_and_the_link() {
    let matches = vec![found(100, "alice", "hello world")];
    let actions = present(1, &matches, vec![7], "https://node.example", "proc").unwrap();
    assert_eq!(actions.len(), 3);
    assert_eq!(actions[0], notice(1, "1970-01-01 00:01 alice: hello world", NoticeFormat::Plain));
    let id = match &actions[1] {
        Action::Publish { path, content_type, bytes } => {
            assert_eq!(content_type, "application/json");
            assert_eq!(bytes, &vec![7]);
            assert!(path.starts_with('/'));
            let id: u32 = path[1..].parse().unwrap();
            assert_eq!(path, &format!("/{}", id));
            id
        }
        other => panic!("expected a publication, got {:?}", other),
    };
    let link = format!("https://node.example/proc/{}", id);
    assert_eq!(actions[2], notice(1, &format!("<a href=\"{}\">{}</a>", link, link), NoticeFormat::Html));
}

#[test]
fn identifiers_are_drawn_afresh() {
    let matches = vec![found(100, "alice", "hello world")];
    let mut paths = Vec::new();
    for _ in 0..8 {
        let actions = present(1, &matches, Vec::new(), "u", "p").unwrap();
        match &actions[1] {
            Action::Publish { path, .. } => paths.push(path.clone()),
            other => panic!("expected a publication, got {:?}", other),
        }
    }
    paths.sort();
    paths.dedup();
    assert!(paths.len() > 1);
}

#[test]
fn an_undatable_match_fails_the_presentation() {
    let matches = vec![found(u64::MAX, "bob", "late")];
    assert!(matches!(
        present_with_identifier(1, &matches, Vec::new(), "u", "p", 3),
        Err(EngineError::DateOutOfRange)
    ));
    assert!(matches!(present(1, &matches, Vec::new(), "u", "p"), Err(EngineError::DateOutOfRange)));
}
