use chatproof::normalize::{normalize, Candidate, Inbound, InboundMessage, Normalized, UpdateContent};

fn text_message(chat_id: i64, sender: Option<&str>, text: Option<&str>, date: u64) -> UpdateContent {
    UpdateContent::Message(InboundMessage {
        chat_id,
        sender: sender.map(|s| s.to_string()),
        text: text.map(|s| s.to_string()),
        date,
    })
}

#[test]
fn a_response_is_not_applicable() {
    assert_eq!(normalize(Inbound::Response), Normalized::NotApplicable);
}

#[test]
fn an_undecodable_payload_is_not_applicable() {
    assert_eq!(normalize(Inbound::Undecodable), Normalized::NotApplicable);
}

#[test]
fn an_envelope_without_updates_is_not_applicable() {
    assert_eq!(normalize(Inbound::Updates(Vec::new())), Normalized::NotApplicable);
}

#[test]
fn an_update_that_is_no_message_is_not_applicable() {
    assert_eq!(normalize(Inbound::Updates(vec![UpdateContent::Other])), Normalized::NotApplicable);
}

#[test]
fn a_message_without_text_is_not_applicable() {
    let payload = Inbound::Updates(vec![text_message(7, Some("alice"), None, 100)]);
    assert_eq!(normalize(payload), Normalized::NotApplicable);
}

#[test]
fn a_text_message_yields_its_four_fields() {
    let payload = Inbound::Updates(vec![text_message(-42, Some("alice"), Some("hello world"), 100)]);
    assert_eq!(
        normalize(payload),
        Normalized::Candidate(Candidate {
            text: "hello world".to_string(),
            chat_id: -42,
            sender: "alice".to_string(),
            timestamp: 100,
        })
    );
}

#[test]
fn a_missing_sender_becomes_the_empty_name() {
    let payload = Inbound::Updates(vec![text_message(1, None, Some("hi"), 5)]);
    assert_eq!(
        normalize(payload),
        Normalized::Candidate(Candidate {
            text: "hi".to_string(),
            chat_id: 1,
            sender: String::new(),
            timestamp: 5,
        })
    );
}

#[test]
fn only_the_newest_update_of_an_envelope_counts() {
    let payload = Inbound::Updates(vec![
        text_message(1, Some("alice"), Some("first"), 10),
        text_message(2, Some("bob"), Some("second"), 11),
    ]);
    assert_eq!(
        normalize(payload),
        Normalized::Candidate(Candidate {
            text: "second".to_string(),
            chat_id: 2,
            sender: "bob".to_string(),
            timestamp: 11,
        })
    );
    let payload = Inbound::Updates(vec![
        text_message(1, Some("alice"), Some("first"), 10),
        UpdateContent::Other,
    ]);
    assert_eq!(normalize(payload), Normalized::NotApplicable);
}

#[test]
fn a_command_text_is_passed_through_untouched() {
    let payload = Inbound::Updates(vec![text_message(3, Some("carol"), Some("/prove  x "), 9)]);
    match normalize(payload) {
        Normalized::Candidate(candidate) => assert_eq!(candidate.text, "/prove  x "),
        Normalized::NotApplicable => panic!("a text message is applicable"),
    }
}
