//! The message normaliser: from what the transport delivered to a candidate
//! message, or to "not applicable".
//!
//! Most inbound events are not chat text: replies to the process's own
//! requests, payloads that are no update envelope, updates that carry something
//! other than a message, messages without a text body. None of these is an
//! error; each normalises to [`Normalized::NotApplicable`] and has no effect.

use vstd::prelude::*;

verus! {

/// The fields of a transport message that the engine reads.
#[derive(Debug, PartialEq, Eq)]
pub struct InboundMessage {
    /// The chat the message was posted in.
    pub chat_id: i64,
    /// Display name of the sender, when the transport knows one.
    pub sender: Option<String>,
    /// The text body, when the message has one.
    pub text: Option<String>,
    /// Seconds since the Unix epoch.
    pub date: u64,
}

/// What one update carries.
#[derive(Debug, PartialEq, Eq)]
pub enum UpdateContent {
    /// A newly posted message.
    Message(InboundMessage),
    /// Anything else: edits, channel posts, reactions, queries, membership changes.
    Other,
}

/// One inbound event, already decoded as far as it can be.
#[derive(Debug, PartialEq, Eq)]
pub enum Inbound {
    /// A reply to a request the process sent earlier.
    Response,
    /// A request whose body is not an update envelope.
    Undecodable,
    /// An update envelope with its updates in delivery order.
    Updates(Vec<UpdateContent>),
}

/// A text message in canonical shape, not yet told apart into command or
/// history data.
#[derive(Debug, PartialEq, Eq)]
pub struct Candidate {
    /// The text body, verbatim.
    pub text: String,
    /// The chat to answer in.
    pub chat_id: i64,
    /// Display name of the sender; empty when the transport gave none.
    pub sender: String,
    /// Seconds since the Unix epoch.
    pub timestamp: u64,
}

/// What a [`Candidate`] stands for.
pub struct CandidateView {
    pub text: Seq<char>,
    pub chat_id: i64,
    pub sender: Seq<char>,
    pub timestamp: u64,
}

impl View for Candidate {
    type V = CandidateView;

    open spec fn view(&self) -> CandidateView {
        CandidateView {
            text: self.text@,
            chat_id: self.chat_id,
            sender: self.sender@,
            timestamp: self.timestamp,
        }
    }
}

/// Outcome of normalising an inbound event.
#[derive(Debug, PartialEq, Eq)]
pub enum Normalized {
    /// The event carries no text message. Expected and frequent; not an error.
    NotApplicable,
    /// The event carries this text message.
    Candidate(Candidate),
}

/// The sender name of a message, empty when there is none.
pub open spec fn sender_or_empty(sender: Option<String>) -> Seq<char> {
    match sender {
        Some(name) => name@,
        None => Seq::empty(),
    }
}

/// The candidate that a message yields: none without a text body.
pub open spec fn candidate_of_message(message: InboundMessage) -> Option<CandidateView> {
    match message.text {
        Some(text) => Some(
            CandidateView {
                text: text@,
                chat_id: message.chat_id,
                sender: sender_or_empty(message.sender),
                timestamp: message.date,
            },
        ),
        None => None,
    }
}

/// The candidate that an inbound event yields: the one of the newest update of
/// an envelope, if that update is a message with a text body.
pub open spec fn candidate_in(payload: Inbound) -> Option<CandidateView> {
    match payload {
        Inbound::Updates(updates) => if updates@.len() == 0 {
            None
        } else {
            match updates@.last() {
                UpdateContent::Message(message) => candidate_of_message(message),
                UpdateContent::Other => None,
            }
        },
        Inbound::Response => None,
        Inbound::Undecodable => None,
    }
}

/// Normalises an inbound event. Has no effect besides its result.
pub fn normalize(payload: Inbound) -> (normalized: Normalized)
    ensures
        match candidate_in(payload) {
            Some(expected) => normalized matches Normalized::Candidate(candidate) && candidate@
                == expected,
            None => normalized is NotApplicable,
        },
{
    let mut updates = match payload {
        Inbound::Updates(updates) => updates,
        Inbound::Response => {
            return Normalized::NotApplicable;
        },
        Inbound::Undecodable => {
            return Normalized::NotApplicable;
        },
    };
    let message = match updates.pop() {
        Some(UpdateContent::Message(message)) => message,
        Some(UpdateContent::Other) => {
            return Normalized::NotApplicable;
        },
        None => {
            return Normalized::NotApplicable;
        },
    };
    let InboundMessage { chat_id, sender, text, date } = message;
    let text = match text {
        Some(text) => text,
        None => {
            return Normalized::NotApplicable;
        },
    };
    let sender = match sender {
        Some(name) => name,
        None => String::new(),
    };
    Normalized::Candidate(Candidate { text, chat_id, sender, timestamp: date })
}

} // verus!
