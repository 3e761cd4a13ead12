//! What the engine asks its surroundings to do, and what they report back.
//!
//! The engine itself sends nothing, proves nothing and publishes nothing. It
//! returns [`Action`]s in the order in which they are to be carried out; the
//! surroundings perform them and, for a proof request, come back with a
//! [`ProverOutcome`].

use crate::checkpoint::{CheckpointStore, StoreView};
use vstd::prelude::*;

verus! {

/// How the text of a notice is to be read by the chat platform.
#[derive(Debug, Clone, Copy, PartialEq, Eq)]
pub enum NoticeFormat {
    /// Plain text.
    Plain,
    /// HTML, so that links are clickable.
    Html,
}

/// One proof request: the search string and the checkpoints that can hold it.
/// Built per command and never kept.
#[derive(Debug, PartialEq, Eq)]
pub struct ProofRequest {
    /// The text whose presence is to be proved.
    pub search_string: String,
    /// The stored checkpoints that mention the search string.
    pub candidate_checkpoints: CheckpointStore,
}

/// What a [`ProofRequest`] stands for.
pub struct ProofRequestView {
    pub search_string: Seq<char>,
    pub candidate_checkpoints: StoreView,
}

impl View for ProofRequest {
    type V = ProofRequestView;

    open spec fn view(&self) -> ProofRequestView {
        ProofRequestView {
            search_string: self.search_string@,
            candidate_checkpoints: self.candidate_checkpoints@,
        }
    }
}

/// One matching message: the closing timestamp of its checkpoint, its sender and
/// its text.
pub type ProofMatch = (u64, String, String);

/// The matches of one proof, in the order in which the proving engine gave them.
/// An empty list means that nothing was found, which is no failure.
pub type ProofResult = Vec<ProofMatch>;

/// What a [`ProofMatch`] stands for.
pub type MatchView = (u64, Seq<char>, Seq<char>);

/// The views of a list of matches, in the same order.
pub open spec fn matches_view(matches: Seq<ProofMatch>) -> Seq<MatchView> {
    matches.map_values(|m: ProofMatch| (m.0, m.1@, m.2@))
}

/// How a call of the proving engine ended.
#[derive(Debug, PartialEq, Eq)]
pub enum ProverOutcome {
    /// The proof was computed.
    Proved {
        /// The matches read from the proof's public output.
        matches: ProofResult,
        /// The whole proof as an opaque blob, ready for publication.
        artifact: Vec<u8>,
    },
    /// The proving engine failed; the text is its own account.
    Failed(String),
}

/// A step for the surroundings to carry out.
#[derive(Debug, PartialEq, Eq)]
pub enum Action {
    /// Send `text` to the chat `chat_id`.
    Notify { chat_id: i64, text: String, format: NoticeFormat },
    /// Run the proving engine on `request` and report how it ended, together
    /// with `chat_id`.
    Prove { chat_id: i64, request: ProofRequest },
    /// Make `bytes` fetchable under `path` with the given content type.
    Publish { path: String, content_type: String, bytes: Vec<u8> },
}

/// What an [`Action`] stands for.
pub enum ActionView {
    Notify { chat_id: i64, text: Seq<char>, format: NoticeFormat },
    Prove { chat_id: i64, request: ProofRequestView },
    Publish { path: Seq<char>, content_type: Seq<char>, bytes: Seq<u8> },
}

impl View for Action {
    type V = ActionView;

    open spec fn view(&self) -> ActionView {
        match *self {
            Action::Notify { chat_id, text, format } => ActionView::Notify {
                chat_id,
                text: text@,
                format,
            },
            Action::Prove { chat_id, request } => ActionView::Prove { chat_id, request: request@ },
            Action::Publish { path, content_type, bytes } => ActionView::Publish {
                path: path@,
                content_type: content_type@,
                bytes: bytes@,
            },
        }
    }
}

/// The views of a list of actions, in the same order.
pub open spec fn actions_view(actions: Seq<Action>) -> Seq<ActionView> {
    actions.map_values(|a: Action| a@)
}

} // verus!
