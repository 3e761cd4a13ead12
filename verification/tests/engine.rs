use chatproof::action::{Action, NoticeFormat, ProofRequest, ProverOutcome};
use chatproof::checkpoint::CheckpointStore;
use chatproof::encoding::checkpoint_hash;
use chatproof::engine::{Engine, Event, Ingested, CHECKPOINT_GAP};
use chatproof::error::EngineError;
use chatproof::message::ChatMessage;
use chatproof::normalize::{Candidate, Inbound, InboundMessage, UpdateContent};

fn message(sender: &str, text: &str, timestamp: u64) -> ChatMessage {
    ChatMessage::new(sender.to_string(), text.to_string(), timestamp)
}

fn candidate(sender: &str, text: &str, timestamp: u64) -> Candidate {
    Candidate { text: text.to_string(), chat_id: 7, sender: sender.to_string(), timestamp }
}

fn inbound(sender: &str, text: &str, date: u64) -> Event {
    Event::Inbound(Inbound::Updates(vec![UpdateContent::Message(InboundMessage {
        chat_id: 7,
        sender: Some(sender.to_string()),
        text: Some(text.to_string()),
        date,
    })]))
}

fn keys(store: &CheckpointStore) -> Vec<u64> {
    store.entries().iter().map(|entry| entry.0).collect()
}

fn step(engine: &mut Engine, event: Event) -> Result<Vec<Action>, EngineError> {
    engine.step(event, "https://node.example", "chatproof:chatproof:template.os")
}

fn engine_with_world_history() -> Engine {
    let mut engine = Engine::new(100);
    assert_eq!(engine.ingest(candidate("alice", "hello world", 100)).unwrap(), Ingested::Appended);
    assert_eq!(
        engine.ingest(candidate("bob", "goodbye world", 108)).unwrap(),
        Ingested::Closed { closed_at: 108 }
    );
    engine
}

#[test]
fn the_gap_is_five_seconds() {
    assert_eq!(CHECKPOINT_GAP, 5);
}

#[test]
fn a_new_engine_has_no_history() {
    let engine = Engine::new(1_700_000_000);
    assert!(engine.open_buffer().is_empty());
    assert_eq!(engine.last_checkpoint_time(), 1_700_000_000);
    assert_eq!(engine.store().len(), 0);
}

#[test]
fn a_message_within_the_gap_is_only_appended() {
    let mut engine = Engine::new(100);
    assert_eq!(engine.ingest(candidate("alice", "one", 103)).unwrap(), Ingested::Appended);
    assert_eq!(engine.open_buffer(), &vec![message("alice", "one", 103)]);
    assert_eq!(engine.last_checkpoint_time(), 100);
    assert_eq!(engine.store().len(), 0);
}

#[test]
fn a_gap_of_exactly_five_does_not_close() {
    let mut engine = Engine::new(100);
    assert!(!engine.crosses_gap(105));
    assert_eq!(engine.ingest(candidate("alice", "edge", 105)).unwrap(), Ingested::Appended);
    assert_eq!(engine.store().len(), 0);
    assert_eq!(engine.last_checkpoint_time(), 100);
}

#[test]
fn a_gap_of_six_closes() {
    let mut engine = Engine::new(100);
    assert!(engine.crosses_gap(106));
    assert_eq!(
        engine.ingest(candidate("alice", "over", 106)).unwrap(),
        Ingested::Closed { closed_at: 106 }
    );
    assert_eq!(keys(engine.store()), vec![106]);
    assert_eq!(engine.last_checkpoint_time(), 106);
    assert!(engine.open_buffer().is_empty());
}

#[test]
fn a_timestamp_before_the_last_checkpoint_never_closes() {
    let mut engine = Engine::new(100);
    assert!(!engine.crosses_gap(0));
    assert!(!engine.crosses_gap(99));
    assert_eq!(engine.ingest(candidate("alice", "old", 3)).unwrap(), Ingested::Appended);
    assert_eq!(engine.ingest(candidate("alice", "older", 0)).unwrap(), Ingested::Appended);
    assert_eq!(engine.store().len(), 0);
    assert_eq!(engine.open_buffer().len(), 2);
}

#[test]
fn the_gap_rule_does_not_overflow_at_the_ends_of_the_range() {
    let mut engine = Engine::new(u64::MAX - 2);
    assert!(!engine.crosses_gap(u64::MAX));
    assert_eq!(engine.ingest(candidate("alice", "late", u64::MAX)).unwrap(), Ingested::Appended);
    let mut engine = Engine::new(0);
    assert!(engine.crosses_gap(u64::MAX));
    assert_eq!(
        engine.ingest(candidate("alice", "far", u64::MAX)).unwrap(),
        Ingested::Closed { closed_at: u64::MAX }
    );
}

#[test]
fn checkpoint_boundary_two_messages_one_checkpoint() {
    let t0 = 1_000;
    let mut engine = Engine::new(t0);
    assert_eq!(engine.ingest(candidate("alice", "first", t0 + 5)).unwrap(), Ingested::Appended);
    assert_eq!(
        engine.ingest(candidate("bob", "second", t0 + 6)).unwrap(),
        Ingested::Closed { closed_at: t0 + 6 }
    );
    assert_eq!(engine.store().len(), 1);
    assert_eq!(keys(engine.store()), vec![t0 + 6]);
    let checkpoint = engine.store().get(t0 + 6).unwrap();
    assert_eq!(
        checkpoint.messages,
        vec![message("alice", "first", t0 + 5), message("bob", "second", t0 + 6)]
    );
    assert_eq!(engine.last_checkpoint_time(), t0 + 6);
    assert!(engine.open_buffer().is_empty());
}

#[test]
fn a_closing_checkpoint_takes_everything_that_was_open() {
    let mut engine = Engine::new(50);
    for (i, text) in ["a", "b", "c"].iter().enumerate() {
        assert_eq!(engine.ingest(candidate("alice", text, 50 + i as u64)).unwrap(), Ingested::Appended);
    }
    assert_eq!(
        engine.ingest(candidate("bob", "d", 60)).unwrap(),
        Ingested::Closed { closed_at: 60 }
    );
    let texts: Vec<&str> =
        engine.store().get(60).unwrap().messages.iter().map(|m| m.text.as_str()).collect();
    assert_eq!(texts, vec!["a", "b", "c", "d"]);
}

#[test]
fn a_checkpoint_carries_the_digest_of_its_messages() {
    let engine = engine_with_world_history();
    let checkpoint = engine.store().get(108).unwrap();
    assert_eq!(checkpoint.hash, checkpoint_hash(&checkpoint.messages).unwrap());
    let hex: String = checkpoint.hash.iter().map(|byte| format!("{:02x}", byte)).collect();
    assert_eq!(hex, "bbf46019dabf23ab359540b1821e5d52450194d3122789ac9e51d21076b11706");
}

#[test]
fn the_gap_is_measured_from_the_last_checkpoint() {
    let mut engine = Engine::new(100);
    assert_eq!(engine.ingest(candidate("a", "1", 110)).unwrap(), Ingested::Closed { closed_at: 110 });
    assert_eq!(engine.ingest(candidate("a", "2", 115)).unwrap(), Ingested::Appended);
    assert_eq!(engine.ingest(candidate("a", "3", 116)).unwrap(), Ingested::Closed { closed_at: 116 });
    assert_eq!(engine.ingest(candidate("a", "4", 200)).unwrap(), Ingested::Closed { closed_at: 200 });
    assert_eq!(keys(engine.store()), vec![110, 116, 200]);
    assert_eq!(engine.store().get(116).unwrap().messages.len(), 2);
    assert_eq!(engine.store().get(200).unwrap().messages.len(), 1);
    assert_eq!(engine.last_checkpoint_time(), 200);
}

#[test]
fn stored_checkpoints_are_never_changed_by_later_messages() {
    let mut engine = engine_with_world_history();
    let before = engine.store().get(108).unwrap().clone();
    assert_eq!(engine.ingest(candidate("carol", "more", 109)).unwrap(), Ingested::Appended);
    assert_eq!(engine.ingest(candidate("carol", "even more", 120)).unwrap(), Ingested::Closed { closed_at: 120 });
    assert_eq!(engine.store().get(108).unwrap(), &before);
    assert_eq!(keys(engine.store()), vec![108, 120]);
}

#[test]
fn command_exclusion_prove_foo_never_enters_history() {
    let mut engine = Engine::new(100);
    assert_eq!(engine.ingest(candidate("alice", "before", 101)).unwrap(), Ingested::Appended);
    assert_eq!(
        engine.ingest(candidate("alice", "/prove foo", 102)).unwrap(),
        Ingested::Command { chat_id: 7, search: "foo".to_string() }
    );
    assert_eq!(
        engine.ingest(candidate("alice", "/prove foo", 500)).unwrap(),
        Ingested::Command { chat_id: 7, search: "foo".to_string() }
    );
    assert_eq!(engine.ingest(candidate("alice", "after", 110)).unwrap(), Ingested::Closed { closed_at: 110 });
    assert!(engine.open_buffer().iter().all(|m| m.text != "/prove foo"));
    for entry in engine.store().entries() {
        assert!(entry.1.messages.iter().all(|m| m.text != "/prove foo"));
    }
    assert_eq!(
        engine.store().get(110).unwrap().messages,
        vec![message("alice", "before", 101), message("alice", "after", 110)]
    );
}

#[test]
fn a_command_leaves_the_engine_as_it_was() {
    let mut engine = engine_with_world_history();
    assert_eq!(engine.ingest(candidate("carol", "open", 109)).unwrap(), Ingested::Appended);
    let mut twin = engine_with_world_history();
    assert_eq!(twin.ingest(candidate("carol", "open", 109)).unwrap(), Ingested::Appended);
    let _ = engine.ingest(candidate("carol", "/prove world", 9_999)).unwrap();
    assert_eq!(engine, twin);
    assert_eq!(engine.last_checkpoint_time(), 108);
}

#[test]
fn text_that_only_resembles_a_command_is_history() {
    let mut engine = Engine::new(100);
    assert_eq!(engine.ingest(candidate("alice", "/prove", 101)).unwrap(), Ingested::Appended);
    assert_eq!(engine.ingest(candidate("alice", " /prove x", 102)).unwrap(), Ingested::Appended);
    assert_eq!(engine.ingest(candidate("alice", "/Prove x", 103)).unwrap(), Ingested::Appended);
    assert_eq!(engine.open_buffer().len(), 3);
}

#[test]
fn an_event_without_a_text_message_changes_nothing() {
    let mut engine = engine_with_world_history();
    let twin = engine_with_world_history();
    assert_eq!(step(&mut engine, Event::Inbound(Inbound::Response)).unwrap(), Vec::new());
    assert_eq!(step(&mut engine, Event::Inbound(Inbound::Undecodable)).unwrap(), Vec::new());
    assert_eq!(step(&mut engine, Event::Inbound(Inbound::Updates(Vec::new()))).unwrap(), Vec::new());
    assert_eq!(
        step(&mut engine, Event::Inbound(Inbound::Updates(vec![UpdateContent::Other]))).unwrap(),
        Vec::new()
    );
    assert_eq!(engine, twin);
}

#[test]
fn an_inbound_message_is_taken_into_history_and_asks_for_nothing() {
    let mut engine = Engine::new(100);
    assert_eq!(step(&mut engine, inbound("alice", "hello world", 100)).unwrap(), Vec::new());
    assert_eq!(step(&mut engine, inbound("bob", "goodbye world", 108)).unwrap(), Vec::new());
    assert_eq!(engine, engine_with_world_history());
}

#[test]
fn a_command_asks_for_a_proof_over_the_matching_checkpoints() {
    let mut engine = engine_with_world_history();
    assert_eq!(step(&mut engine, inbound("carol", "unrelated", 120)).unwrap(), Vec::new());
    let actions = step(&mut engine, inbound("carol", "/prove world", 121)).unwrap();
    assert_eq!(actions.len(), 1);
    match &actions[0] {
        Action::Prove { chat_id, request } => {
            assert_eq!(*chat_id, 7);
            assert_eq!(request.search_string, "world");
            assert_eq!(keys(&request.candidate_checkpoints), vec![108]);
            assert_eq!(request.candidate_checkpoints.get(108), engine.store().get(108));
        }
        other => panic!("expected a proof request, got {:?}", other),
    }
}

#[test]
fn a_command_without_candidates_still_asks_for_a_proof() {
    let mut engine = engine_with_world_history();
    let actions = step(&mut engine, inbound("carol", "/prove absent", 121)).unwrap();
    assert_eq!(
        actions,
        vec![Action::Prove {
            chat_id: 7,
            request: ProofRequest {
                search_string: "absent".to_string(),
                candidate_checkpoints: CheckpointStore::new(),
            },
        }]
    );
}

#[test]
fn the_open_buffer_is_not_searched() {
    let mut engine = Engine::new(100);
    assert_eq!(step(&mut engine, inbound("alice", "hello world", 101)).unwrap(), Vec::new());
    let actions = step(&mut engine, inbound("alice", "/prove world", 102)).unwrap();
    match &actions[0] {
        Action::Prove { request, .. } => assert_eq!(request.candidate_checkpoints.len(), 0),
        other => panic!("expected a proof request, got {:?}", other),
    }
}

#[test]
fn prover_failure_isolation() {
    let mut engine = engine_with_world_history();
    assert_eq!(step(&mut engine, inbound("carol", "still open", 110)).unwrap(), Vec::new());
    let buffer_before = engine.open_buffer().clone();
    let store_before: Vec<(u64, [u8; 32], Vec<ChatMessage>)> = engine
        .store()
        .entries()
        .iter()
        .map(|entry| (entry.0, entry.1.hash, entry.1.messages.clone()))
        .collect();
    let _ = step(&mut engine, inbound("carol", "/prove world", 111)).unwrap();
    let failed = step(
        &mut engine,
        Event::ProverReturned { chat_id: 7, outcome: ProverOutcome::Failed("execution failed".to_string()) },
    );
    match failed {
        Err(EngineError::ProverFailed(reason)) => assert_eq!(reason, "execution failed"),
        other => panic!("expected the prover's failure, got {:?}", other),
    }
    assert_eq!(engine.open_buffer(), &buffer_before);
    let store_after: Vec<(u64, [u8; 32], Vec<ChatMessage>)> = engine
        .store()
        .entries()
        .iter()
        .map(|entry| (entry.0, entry.1.hash, entry.1.messages.clone()))
        .collect();
    assert_eq!(store_after, store_before);
    assert_eq!(engine.last_checkpoint_time(), 108);
}

#[test]
fn after_a_prover_failure_the_command_can_be_repeated() {
    let mut engine = engine_with_world_history();
    let first = step(&mut engine, inbound("carol", "/prove world", 111)).unwrap();
    let _ = step(
        &mut engine,
        Event::ProverReturned { chat_id: 7, outcome: ProverOutcome::Failed("out of memory".to_string()) },
    );
    let second = step(&mut engine, inbound("carol", "/prove world", 112)).unwrap();
    assert_eq!(first, second);
}

#[test]
fn empty_result_path() {
    let mut engine = engine_with_world_history();
    let twin = engine_with_world_history();
    let actions = step(
        &mut engine,
        Event::ProverReturned {
            chat_id: 7,
            outcome: ProverOutcome::Proved { matches: Vec::new(), artifact: vec![1, 2, 3] },
        },
    )
    .unwrap();
    assert_eq!(
        actions,
        vec![Action::Notify {
            chat_id: 7,
            text: "No results found".to_string(),
            format: NoticeFormat::Plain,
        }]
    );
    assert_eq!(engine, twin);
}

#[test]
fn non_empty_result_path() {
    let mut engine = engine_with_world_history();
    assert_eq!(engine.store().len(), 1);
    let request = step(&mut engine, inbound("carol", "/prove world", 130)).unwrap();
    let candidates = match &request[0] {
        Action::Prove { request, .. } => {
            assert_eq!(request.search_string, "world");
            request.candidate_checkpoints.entries()
        }
        other => panic!("expected a proof request, got {:?}", other),
    };
    let mut matches = Vec::new();
    for entry in candidates {
        for found in &entry.1.messages {
            if found.text.contains("world") {
                matches.push((found.timestamp, found.sender.clone(), found.text.clone()));
            }
        }
    }
    assert_eq!(
        matches,
        vec![
            (100, "alice".to_string(), "hello world".to_string()),
            (108, "bob".to_string(), "goodbye world".to_string()),
        ]
    );
    let actions = step(
        &mut engine,
        Event::ProverReturned {
            chat_id: 7,
            outcome: ProverOutcome::Proved { matches, artifact: b"{\"proof\":true}".to_vec() },
        },
    )
    .unwrap();
    assert_eq!(actions.len(), 3);
    match &actions[0] {
        Action::Notify { chat_id, text, format } => {
            assert_eq!(*chat_id, 7);
            assert_eq!(*format, NoticeFormat::Plain);
            let lines: Vec<&str> = text.split('\n').collect();
            assert_eq!(lines, vec!["1970-01-01 00:01 alice: hello world", "1970-01-01 00:01 bob: goodbye world"]);
        }
        other => panic!("expected the results notice, got {:?}", other),
    }
    let path = match &actions[1] {
        Action::Publish { path, content_type, bytes } => {
            assert_eq!(content_type, "application/json");
            assert_eq!(bytes, &b"{\"proof\":true}".to_vec());
            path.clone()
        }
        other => panic!("expected the publication, got {:?}", other),
    };
    match &actions[2] {
        Action::Notify { chat_id, text, format } => {
            assert_eq!(*chat_id, 7);
            assert_eq!(*format, NoticeFormat::Html);
            let link = format!("https://node.example/chatproof:chatproof:template.os{}", path);
            assert_eq!(text, &format!("<a href=\"{}\">{}</a>", link, link));
        }
        other => panic!("expected the link notice, got {:?}", other),
    }
    assert_eq!(engine, engine_with_world_history());
}

#[test]
fn an_undatable_match_is_reported_and_changes_nothing() {
    let mut engine = engine_with_world_history();
    let outcome = ProverOutcome::Proved {
        matches: vec![(u64::MAX, "bob".to_string(), "late".to_string())],
        artifact: Vec::new(),
    };
    assert!(matches!(
        step(&mut engine, Event::ProverReturned { chat_id: 7, outcome }),
        Err(EngineError::DateOutOfRange)
    ));
    assert_eq!(engine, engine_with_world_history());
}

#[test]
fn append_only_lengthens_the_buffer_and_tells_whether_the_gap_is_crossed() {
    let mut engine = Engine::new(100);
    assert!(!engine.append(message("alice", "hello", 105)));
    assert!(engine.append(message("bob", "world", 106)));
    assert_eq!(
        engine.open_buffer(),
        &vec![message("alice", "hello", 105), message("bob", "world", 106)]
    );
    assert_eq!(engine.store().len(), 0);
    assert_eq!(engine.last_checkpoint_time(), 100);
}

#[test]
fn a_checkpoint_that_cannot_be_hashed_does_not_close() {
    let mut engine = Engine::new(100);
    assert!(!engine.append(message("alice", "hello", 101)));
    assert!(engine.append(message("bob", "world", 110)));
    let cause = serde_json::from_str::<u64>("not a number").unwrap_err();
    let account = cause.to_string();
    match engine.close_checkpoint(110, Err(cause)) {
        Err(EngineError::Serialization(e)) => assert_eq!(e.to_string(), account),
        other => panic!("expected the serialization failure, got {:?}", other),
    }
    assert_eq!(
        engine.open_buffer(),
        &vec![message("alice", "hello", 101), message("bob", "world", 110)]
    );
    assert_eq!(engine.store().len(), 0);
    assert_eq!(engine.last_checkpoint_time(), 100);
    let digest = checkpoint_hash(engine.open_buffer()).unwrap();
    assert!(engine.close_checkpoint(110, Ok(digest)).is_ok());
    assert_eq!(keys(engine.store()), vec![110]);
    assert_eq!(engine.store().get(110).unwrap().messages.len(), 2);
}

#[test]
fn closing_with_a_digest_moves_the_buffer_into_the_store() {
    let mut engine = Engine::new(100);
    assert!(engine.append(message("alice", "hello", 110)));
    let digest = checkpoint_hash(engine.open_buffer()).unwrap();
    assert!(engine.close_checkpoint(110, Ok(digest)).is_ok());
    assert!(engine.open_buffer().is_empty());
    assert_eq!(engine.last_checkpoint_time(), 110);
    let checkpoint = engine.store().get(110).unwrap();
    assert_eq!(checkpoint.hash, digest);
    assert_eq!(checkpoint.messages, vec![message("alice", "hello", 110)]);
}

#[test]
fn append_then_close_is_what_ingest_does() {
    let mut by_steps = Engine::new(100);
    assert!(!by_steps.append(message("a", "one", 105)));
    assert!(by_steps.append(message("b", "two", 106)));
    let digest = checkpoint_hash(by_steps.open_buffer()).unwrap();
    assert!(by_steps.close_checkpoint(106, Ok(digest)).is_ok());
    let mut at_once = Engine::new(100);
    assert_eq!(at_once.ingest(candidate("a", "one", 105)).unwrap(), Ingested::Appended);
    assert_eq!(at_once.ingest(candidate("b", "two", 106)).unwrap(), Ingested::Closed { closed_at: 106 });
    assert_eq!(by_steps, at_once);
}

#[test]
fn the_gap_restarts_at_each_checkpoint() {
    let mut engine = Engine::new(100);
    assert_eq!(step(&mut engine, inbound("a", "one", 105)).unwrap(), Vec::new());
    assert_eq!(engine.store().len(), 0);
    assert_eq!(engine.open_buffer(), &vec![message("a", "one", 105)]);
    assert_eq!(step(&mut engine, inbound("b", "two", 106)).unwrap(), Vec::new());
    assert_eq!(engine.last_checkpoint_time(), 106);
    assert_eq!(step(&mut engine, inbound("c", "three", 111)).unwrap(), Vec::new());
    assert_eq!(engine.last_checkpoint_time(), 106);
    assert_eq!(keys(engine.store()), vec![106]);
    let checkpoint = engine.store().get(106).unwrap();
    assert_eq!(checkpoint.messages, vec![message("a", "one", 105), message("b", "two", 106)]);
    assert_eq!(checkpoint.hash, checkpoint_hash(&checkpoint.messages).unwrap());
    assert_eq!(engine.open_buffer(), &vec![message("c", "three", 111)]);
}

#[test]
fn every_checkpoint_is_keyed_by_the_time_of_its_last_message() {
    let mut engine = Engine::new(0);
    for (i, time) in [3u64, 6, 7, 20, 21, 26, 27, 100].iter().enumerate() {
        let text = format!("message {}", i);
        assert!(engine.ingest(candidate("alice", &text, *time)).is_ok());
    }
    assert_eq!(keys(engine.store()), vec![6, 20, 26, 100]);
    for entry in engine.store().entries() {
        assert_eq!(entry.1.messages.last().unwrap().timestamp, entry.0);
    }
    assert_eq!(engine.last_checkpoint_time(), 100);
}

#[test]
fn taking_a_message_never_fails() {
    let mut engine = Engine::new(0);
    let texts = ["", "\"quoted\"", "back\\slash", "line\nbreak", "\u{0}\u{1f}", "grüße 日本 🎉"];
    for (i, text) in texts.iter().enumerate() {
        let time = 10 * (i as u64 + 1);
        assert_eq!(
            engine.ingest(candidate(text, text, time)).unwrap(),
            Ingested::Closed { closed_at: time }
        );
    }
    assert_eq!(engine.store().len(), texts.len());
}

#[test]
fn the_main_types_are_reachable_from_the_crate_root() {
    let message = chatproof::ChatMessage {
        sender: "alice".to_string(),
        text: "hello".to_string(),
        timestamp: 1,
    };
    assert_eq!(message, ChatMessage::new("alice".to_string(), "hello".to_string(), 1));
    let engine: chatproof::Engine = Engine::new(0);
    assert_eq!(engine.store(), &chatproof::CheckpointStore::new());
}
