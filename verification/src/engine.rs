//! The engine: the open buffer, the time of the last checkpoint and the store,
//! and the transitions that one inbound event or one prover outcome causes.
//!
//! Events are handled strictly one after the other. A message that is no
//! command is appended to the open buffer; when it lies more than
//! [`CHECKPOINT_GAP`] seconds after the last checkpoint it closes the buffer,
//! itself included, into a new checkpoint. A command never touches history: it
//! yields a proof request over the stored checkpoints, and what the proving
//! engine answers is turned into notices.

use crate::action::{
    Action, ActionView, ProofRequest, ProofRequestView, ProverOutcome, actions_view, matches_view,
};
use crate::checkpoint::{
    Checkpoint, CheckpointStore, CheckpointView, StoreView, candidates_of, increasing,
};
use crate::command::{is_command, parse_command, search_string};
use crate::encoding::{Digest32, checkpoint_digest, checkpoint_hash};
use crate::error::EngineError;
use crate::message::{ChatMessage, MessageView, views_of};
use crate::normalize::{Candidate, CandidateView, Inbound, Normalized, candidate_in, normalize};
use crate::present::{no_results_notice, present, presentation, renderable};
use vstd::prelude::*;

verus! {

/// A message closes the open checkpoint when it lies more than this many
/// seconds after the last checkpoint.
pub const CHECKPOINT_GAP: u64 = 5;

/// The closure rule: the gap between `timestamp` and the last checkpoint is
/// strictly greater than [`CHECKPOINT_GAP`]. A timestamp at or before the last
/// checkpoint never closes.
pub open spec fn closes(timestamp: u64, last_checkpoint_time: u64) -> bool {
    timestamp - last_checkpoint_time > CHECKPOINT_GAP
}

/// No message of the sequence is a command.
pub open spec fn free_of_commands(messages: Seq<MessageView>) -> bool {
    forall|i: int| 0 <= i < messages.len() ==> !is_command((#[trigger] messages[i]).text)
}

/// Every checkpoint of the store carries the digest of its own messages.
pub open spec fn all_sealed(store: StoreView) -> bool {
    forall|i: int| 0 <= i < store.len() ==> (#[trigger] store[i]).1.sealed()
}

/// The history record that a candidate becomes.
pub open spec fn message_of(candidate: CandidateView) -> MessageView {
    MessageView {
        sender: candidate.sender,
        text: candidate.text,
        timestamp: candidate.timestamp,
    }
}

/// The engine's state as a mathematical object.
pub struct EngineView {
    /// Messages received since the last checkpoint, in arrival order.
    pub open_buffer: Seq<MessageView>,
    /// When the last checkpoint closed; the start time before the first one.
    pub last_checkpoint_time: u64,
    /// The closed checkpoints in closing order.
    pub store: StoreView,
}

impl EngineView {
    /// The invariant of the engine.
    ///
    /// Store keys strictly increase and none lies after the last checkpoint
    /// time, which is the newest key once there is one; every stored checkpoint
    /// holds at least one message, is keyed by the timestamp of its last
    /// message, the one that closed it, and carries the digest of exactly its
    /// messages; no command is part of history, open or closed.
    pub open spec fn wf(self) -> bool {
        &&& increasing(self.store)
        &&& all_sealed(self.store)
        &&& self.store.len() > 0 ==> self.store.last().0 == self.last_checkpoint_time
        &&& forall|i: int|
            0 <= i < self.store.len() ==> {
                &&& (#[trigger] self.store[i]).0 <= self.last_checkpoint_time
                &&& self.store[i].1.messages.len() > 0
                &&& self.store[i].1.messages.last().timestamp == self.store[i].0
                &&& free_of_commands(self.store[i].1.messages)
            }
        &&& free_of_commands(self.open_buffer)
    }

    /// The state after `message` joined the open buffer.
    pub open spec fn appended(self, message: MessageView) -> EngineView {
        EngineView { open_buffer: self.open_buffer.push(message), ..self }
    }

    /// The state after the open buffer closed at `closed_at` under `hash`.
    pub open spec fn closed_with(self, closed_at: u64, hash: Seq<u8>) -> EngineView {
        EngineView {
            open_buffer: Seq::empty(),
            last_checkpoint_time: closed_at,
            store: self.store.push(
                (closed_at, CheckpointView { hash, messages: self.open_buffer }),
            ),
        }
    }

    /// The state after the open buffer closed at `closed_at` under its digest.
    pub open spec fn closed_at(self, closed_at: u64) -> EngineView {
        self.closed_with(closed_at, checkpoint_digest(self.open_buffer))
    }

    /// The state after `message`, which is no command, was taken into history:
    /// appended, and closed over if it crosses the gap.
    pub open spec fn ingested(self, message: MessageView) -> EngineView {
        if closes(message.timestamp, self.last_checkpoint_time) {
            self.appended(message).closed_at(message.timestamp)
        } else {
            self.appended(message)
        }
    }
}

/// The proof request that a command causes: the search string and the stored
/// checkpoints that mention it.
pub open spec fn prove_action(chat_id: i64, store: StoreView, search: Seq<char>) -> ActionView {
    ActionView::Prove {
        chat_id,
        request: ProofRequestView {
            search_string: search,
            candidate_checkpoints: candidates_of(store, search),
        },
    }
}

/// What handling an inbound event must achieve, from the state `pre` to the
/// state `post` with the result `handled`.
///
/// An event without a candidate message changes nothing and asks for nothing.
/// A command changes nothing and asks for one proof. Any other message is
/// taken into history and asks for nothing. Handling an inbound event always
/// succeeds.
pub open spec fn inbound_handled(
    pre: Engine,
    payload: Inbound,
    post: Engine,
    handled: Result<Vec<Action>, EngineError>,
) -> bool {
    match candidate_in(payload) {
        None => {
            &&& post == pre
            &&& handled matches Ok(actions)
            &&& actions@.len() == 0
        },
        Some(candidate) => if is_command(candidate.text) {
            &&& post == pre
            &&& handled matches Ok(actions)
            &&& actions_view(actions@) == seq![
                prove_action(candidate.chat_id, pre@.store, search_string(candidate.text)),
            ]
        } else {
            &&& post@ == pre@.ingested(message_of(candidate))
            &&& handled matches Ok(actions)
            &&& actions@.len() == 0
        },
    }
}

/// What handling a prover outcome must achieve.
///
/// The engine's state never changes. A failure of the proving engine is
/// reported with its own account and asks for nothing. A proof without
/// matches asks for the "no results" notice only. A proof with matches asks
/// for the results notice, the publication and the link notice under some
/// identifier, unless a match has no date text.
pub open spec fn outcome_handled(
    pre: Engine,
    chat_id: i64,
    outcome: ProverOutcome,
    base_url: Seq<char>,
    identity: Seq<char>,
    post: Engine,
    handled: Result<Vec<Action>, EngineError>,
) -> bool {
    &&& post == pre
    &&& match outcome {
        ProverOutcome::Failed(account) => {
            &&& handled matches Err(EngineError::ProverFailed(reason))
            &&& reason == account
        },
        ProverOutcome::Proved { matches, artifact } => if matches@.len() == 0 {
            &&& handled matches Ok(actions)
            &&& actions_view(actions@) == seq![no_results_notice(chat_id)]
        } else if renderable(matches_view(matches@)) {
            &&& handled matches Ok(actions)
            &&& exists|id: u32|
                actions_view(actions@) == #[trigger] presentation(
                    chat_id,
                    matches_view(matches@),
                    artifact@,
                    base_url,
                    identity,
                    id,
                )
        } else {
            &&& handled matches Err(e)
            &&& e is DateOutOfRange
        },
    }
}

/// The engine context: all state that outlives an event.
#[derive(Debug, PartialEq, Eq)]
pub struct Engine {
    open_buffer: Vec<ChatMessage>,
    last_checkpoint_time: u64,
    store: CheckpointStore,
}

impl View for Engine {
    type V = EngineView;

    closed spec fn view(&self) -> EngineView {
        EngineView {
            open_buffer: views_of(self.open_buffer@),
            last_checkpoint_time: self.last_checkpoint_time,
            store: self.store@,
        }
    }
}

/// What became of a candidate message.
#[derive(Debug, PartialEq, Eq)]
pub enum Ingested {
    /// It is a command; history is untouched and the search is to be proved.
    Command { chat_id: i64, search: String },
    /// It joined the open buffer.
    Appended,
    /// It joined the open buffer and closed it into the checkpoint `closed_at`.
    Closed { closed_at: u64 },
}

/// One thing that happens to the engine.
#[derive(Debug, PartialEq, Eq)]
pub enum Event {
    /// The transport delivered something.
    Inbound(Inbound),
    /// The proving engine finished the request that was made for `chat_id`.
    ProverReturned { chat_id: i64, outcome: ProverOutcome },
}

impl Engine {
    /// A fresh engine: nothing buffered, nothing stored, the last checkpoint
    /// time set to the start time.
    pub fn new(start_time: u64) -> (engine: Self)
        ensures
            engine@ == (EngineView {
                open_buffer: Seq::empty(),
                last_checkpoint_time: start_time,
                store: Seq::empty(),
            }),
            engine@.wf(),
    {
        let engine = Engine {
            open_buffer: Vec::new(),
            last_checkpoint_time: start_time,
            store: CheckpointStore::new(),
        };
        assert(engine@.open_buffer =~= Seq::empty());
        engine
    }

    /// The messages received since the last checkpoint.
    pub fn open_buffer(&self) -> (buffer: &Vec<ChatMessage>)
        ensures
            views_of(buffer@) == self@.open_buffer,
    {
        &self.open_buffer
    }

    /// When the last checkpoint closed.
    pub fn last_checkpoint_time(&self) -> (time: u64)
        ensures
            time == self@.last_checkpoint_time,
    {
        self.last_checkpoint_time
    }

    /// The closed checkpoints.
    pub fn store(&self) -> (store: &CheckpointStore)
        ensures
            store@ == self@.store,
    {
        &self.store
    }

    /// Decides the closure rule for a message time against the last checkpoint.
    pub fn crosses_gap(&self, timestamp: u64) -> (crossed: bool)
        ensures
            crossed == closes(timestamp, self@.last_checkpoint_time),
    {
        timestamp > self.last_checkpoint_time && timestamp - self.last_checkpoint_time
            > CHECKPOINT_GAP
    }

    /// Closes the open buffer, given the outcome of hashing it.
    ///
    /// The buffer closes at the timestamp of its last message, and only when
    /// that message crosses the gap. With a digest the buffer moves into a new
    /// checkpoint under that digest, the last checkpoint time becomes
    /// `closed_at` and the buffer starts empty. Without one nothing changes:
    /// the checkpoint did not close.
    pub fn close_checkpoint(
        &mut self,
        closed_at: u64,
        hashed: Result<Digest32, serde_json::Error>,
    ) -> (closed: Result<(), EngineError>)
        requires
            old(self)@.wf(),
            old(self)@.open_buffer.len() > 0,
            closed_at == old(self)@.open_buffer.last().timestamp,
            closes(closed_at, old(self)@.last_checkpoint_time),
            hashed matches Ok(hash) ==> hash@ == checkpoint_digest(old(self)@.open_buffer),
        ensures
            final(self)@.wf(),
            match hashed {
                Ok(hash) => closed is Ok && final(self)@ == old(self)@.closed_at(closed_at),
                Err(cause) => closed matches Err(EngineError::Serialization(e)) && e == cause
                    && *final(self) == *old(self),
            },
    {
        let hash = match hashed {
            Ok(hash) => hash,
            Err(cause) => {
                return Err(EngineError::Serialization(cause));
            },
        };
        let mut messages: Vec<ChatMessage> = Vec::new();
        std::mem::swap(&mut self.open_buffer, &mut messages);
        let checkpoint = Checkpoint { hash, messages };
        let refused = self.store.append(closed_at, checkpoint);
        self.last_checkpoint_time = closed_at;
        proof {
            let before = old(self)@.store;
            if before.len() > 0 {
                assert(before.last() == before[before.len() - 1]);
            }
            assert(refused is None);
            assert(self@.open_buffer =~= Seq::empty());
            assert(self@ == old(self)@.closed_at(closed_at));
            let after = self@.store;
            assert forall|i: int| 0 <= i < after.len() implies {
                &&& (#[trigger] after[i]).0 <= closed_at
                &&& after[i].1.messages.len() > 0
                &&& after[i].1.messages.last().timestamp == after[i].0
                &&& free_of_commands(after[i].1.messages)
                &&& after[i].1.sealed()
            } by {
                if i < before.len() {
                    assert(after[i] == before[i]);
                }
            }
        }
        Ok(())
    }

    /// Appends a message that is no command to the open buffer and says
    /// whether it crosses the gap, that is, whether the buffer is now due to
    /// close at this message's timestamp. Nothing closes here.
    pub fn append(&mut self, message: ChatMessage) -> (crossed: bool)
        requires
            old(self)@.wf(),
            !is_command(message@.text),
        ensures
            final(self)@.wf(),
            final(self)@ == old(self)@.appended(message@),
            crossed == closes(message.timestamp, old(self)@.last_checkpoint_time),
    {
        let crossed = self.crosses_gap(message.timestamp);
        self.open_buffer.push(message);
        proof {
            let grown = old(self)@.appended(message@);
            assert(self@.open_buffer =~= grown.open_buffer);
            assert forall|i: int| 0 <= i < grown.open_buffer.len() implies !is_command(
                (#[trigger] grown.open_buffer[i]).text,
            ) by {
                if i < old(self)@.open_buffer.len() {
                    assert(grown.open_buffer[i] == old(self)@.open_buffer[i]);
                }
            }
        }
        crossed
    }

    /// Takes one candidate message.
    ///
    /// A command is handed back with its search string and leaves the engine
    /// exactly as it was. Any other message is appended to the open buffer; if
    /// it crosses the gap, the buffer, this message included, closes into a
    /// checkpoint keyed by the message's timestamp. Taking a message always
    /// succeeds.
    pub fn ingest(&mut self, candidate: Candidate) -> (ingested: Result<Ingested, EngineError>)
        requires
            old(self)@.wf(),
        ensures
            final(self)@.wf(),
            is_command(candidate@.text) ==> {
                &&& *final(self) == *old(self)
                &&& ingested matches Ok(Ingested::Command { chat_id, search })
                &&& chat_id == candidate.chat_id
                &&& search@ == search_string(candidate@.text)
            },
            !is_command(candidate@.text) ==> {
                &&& final(self)@ == old(self)@.ingested(message_of(candidate@))
                &&& if closes(candidate.timestamp, old(self)@.last_checkpoint_time) {
                    ingested matches Ok(Ingested::Closed { closed_at }) && closed_at
                        == candidate.timestamp
                } else {
                    ingested matches Ok(Ingested::Appended)
                }
            },
    {
        let Candidate { text, chat_id, sender, timestamp } = candidate;
        match parse_command(text.as_str()) {
            Some(search) => {
                return Ok(Ingested::Command { chat_id, search });
            },
            None => {},
        }
        let crossed = self.append(ChatMessage { sender, text, timestamp });
        if !crossed {
            return Ok(Ingested::Appended);
        }
        let hashed = checkpoint_hash(&self.open_buffer);
        match self.close_checkpoint(timestamp, hashed) {
            Ok(()) => Ok(Ingested::Closed { closed_at: timestamp }),
            Err(e) => Err(e),
        }
    }

    /// Handles one inbound event: normalises it, then either ignores it, takes
    /// the message into history, or builds the proof request for a command.
    pub fn handle_inbound(&mut self, payload: Inbound) -> (handled: Result<
        Vec<Action>,
        EngineError,
    >)
        requires
            old(self)@.wf(),
        ensures
            final(self)@.wf(),
            inbound_handled(*old(self), payload, *final(self), handled),
    {
        let candidate = match normalize(payload) {
            Normalized::Candidate(candidate) => candidate,
            Normalized::NotApplicable => {
                return Ok(Vec::new());
            },
        };
        let mut actions: Vec<Action> = Vec::new();
        match self.ingest(candidate) {
            Ok(Ingested::Command { chat_id, search }) => {
                let candidate_checkpoints = self.store.filter(search.as_str());
                let request = ProofRequest { search_string: search, candidate_checkpoints };
                actions.push(Action::Prove { chat_id, request });
                assert(actions_view(actions@) =~= seq![
                    prove_action(chat_id, old(self)@.store, request@.search_string),
                ]);
                Ok(actions)
            },
            Ok(Ingested::Appended) => Ok(actions),
            Ok(Ingested::Closed { closed_at }) => Ok(actions),
            Err(e) => Err(e),
        }
    }

    /// Handles the outcome of a proof request. History is read-only here.
    pub fn handle_outcome(
        &mut self,
        chat_id: i64,
        outcome: ProverOutcome,
        base_url: &str,
        identity: &str,
    ) -> (handled: Result<Vec<Action>, EngineError>)
        ensures
            outcome_handled(
                *old(self),
                chat_id,
                outcome,
                base_url@,
                identity@,
                *final(self),
                handled,
            ),
    {
        match outcome {
            ProverOutcome::Failed(account) => Err(EngineError::ProverFailed(account)),
            ProverOutcome::Proved { matches, artifact } => present(
                chat_id,
                &matches,
                artifact,
                base_url,
                identity,
            ),
        }
    }

    /// Carries the engine through one event and says what is to be done next.
    pub fn step(&mut self, event: Event, base_url: &str, identity: &str) -> (handled: Result<
        Vec<Action>,
        EngineError,
    >)
        requires
            old(self)@.wf(),
        ensures
            final(self)@.wf(),
            match event {
                Event::Inbound(payload) => inbound_handled(
                    *old(self),
                    payload,
                    *final(self),
                    handled,
                ),
                Event::ProverReturned { chat_id, outcome } => outcome_handled(
                    *old(self),
                    chat_id,
                    outcome,
                    base_url@,
                    identity@,
                    *final(self),
                    handled,
                ),
            },
    {
        match event {
            Event::Inbound(payload) => self.handle_inbound(payload),
            Event::ProverReturned { chat_id, outcome } => self.handle_outcome(
                chat_id,
                outcome,
                base_url,
                identity,
            ),
        }
    }
}

/// Checkpoint boundary. From a state whose last checkpoint closed at `t0`, a
/// message at or before `t0 + 5` followed by one at `t0 + 6` closes exactly one
/// new checkpoint: it is keyed by the second timestamp, holds what was open
/// before and both messages, in order, and the last checkpoint time moves to
/// the second timestamp.
pub proof fn lemma_checkpoint_boundary(start: EngineView, first: MessageView, second: MessageView)
    requires
        first.timestamp <= start.last_checkpoint_time + CHECKPOINT_GAP,
        second.timestamp == start.last_checkpoint_time + CHECKPOINT_GAP + 1,
    ensures
        ({
            let batch = start.open_buffer.push(first).push(second);
            let end = start.ingested(first).ingested(second);
            &&& end.store == start.store.push(
                (
                    second.timestamp,
                    CheckpointView { hash: checkpoint_digest(batch), messages: batch },
                ),
            )
            &&& end.store.len() == start.store.len() + 1
            &&& end.last_checkpoint_time == second.timestamp
            &&& end.open_buffer == Seq::<MessageView>::empty()
        }),
{
}

/// The gap is strict: a message exactly [`CHECKPOINT_GAP`] seconds after the
/// last checkpoint, or earlier, leaves the store and the last checkpoint time
/// as they were and only lengthens the open buffer.
pub proof fn lemma_within_gap_only_appends(start: EngineView, message: MessageView)
    requires
        message.timestamp <= start.last_checkpoint_time + CHECKPOINT_GAP,
    ensures
        start.ingested(message).store == start.store,
        start.ingested(message).last_checkpoint_time == start.last_checkpoint_time,
        start.ingested(message).open_buffer == start.open_buffer.push(message),
{
}

/// A closing message is part of the checkpoint it closes, as its last message,
/// so no checkpoint is ever empty.
pub proof fn lemma_closing_message_included(start: EngineView, message: MessageView)
    requires
        closes(message.timestamp, start.last_checkpoint_time),
    ensures
        ({
            let end = start.ingested(message);
            &&& end.store.len() == start.store.len() + 1
            &&& end.store.last().0 == message.timestamp
            &&& end.store.last().1.messages.len() > 0
            &&& end.store.last().1.messages.last() == message
            &&& end.store.last().1.sealed()
            &&& end.last_checkpoint_time == message.timestamp
        }),
{
}

/// Taking a message into history keeps the engine's invariant, as long as the
/// message is no command.
pub proof fn lemma_ingested_keeps_invariant(start: EngineView, message: MessageView)
    requires
        start.wf(),
        !is_command(message.text),
    ensures
        start.ingested(message).wf(),
{
    let grown = start.appended(message);
    assert forall|i: int| 0 <= i < grown.open_buffer.len() implies !is_command(
        (#[trigger] grown.open_buffer[i]).text,
    ) by {
        if i < start.open_buffer.len() {
            assert(grown.open_buffer[i] == start.open_buffer[i]);
        }
    }
    if closes(message.timestamp, start.last_checkpoint_time) {
        let end = grown.closed_at(message.timestamp);
        assert forall|i: int| 0 <= i < end.store.len() implies {
            &&& (#[trigger] end.store[i]).0 <= end.last_checkpoint_time
            &&& end.store[i].1.messages.len() > 0
            &&& end.store[i].1.messages.last().timestamp == end.store[i].0
            &&& free_of_commands(end.store[i].1.messages)
            &&& end.store[i].1.sealed()
        } by {
            if i < start.store.len() {
                assert(end.store[i] == start.store[i]);
            }
        }
        assert forall|i: int, j: int| 0 <= i < j < end.store.len() implies end.store[i].0
            < end.store[j].0 by {
            if j < start.store.len() {
                assert(start.store[i].0 < start.store[j].0);
            } else {
                assert(end.store[i] == start.store[i]);
            }
        }
    }
}

/// The store only grows: whatever is taken into history, every checkpoint that
/// was stored before is stored after, at the same place and unchanged.
pub proof fn lemma_store_only_grows(start: EngineView, message: MessageView)
    ensures
        start.store.is_prefix_of(start.ingested(message).store),
{
}

/// Command exclusion. A text that is a command, such as `/prove foo`, is the
/// text of no message in the open buffer and of no message in any checkpoint
/// of an engine that satisfies its invariant.
pub proof fn lemma_commands_never_in_history(state: EngineView, text: Seq<char>)
    requires
        state.wf(),
        is_command(text),
    ensures
        forall|i: int| 0 <= i < state.open_buffer.len() ==> (#[trigger] state.open_buffer[i]).text
            != text,
        forall|i: int, j: int|
            0 <= i < state.store.len() && 0 <= j < state.store[i].1.messages.len() ==> (
            #[trigger] state.store[i].1.messages[j]).text != text,
{
    assert forall|i: int, j: int|
        0 <= i < state.store.len() && 0 <= j < state.store[i].1.messages.len() implies (
    #[trigger] state.store[i].1.messages[j]).text != text by {
        assert(free_of_commands(state.store[i].1.messages));
    }
}

} // verus!
