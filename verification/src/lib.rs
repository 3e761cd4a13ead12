//! Checkpointing and proof coordination for a chat history.
//!
//! Chat messages are gathered into time-bounded checkpoints, each sealed with a
//! SHA-256 digest of its canonical JSON form. On a `/prove <text>` command the
//! stored checkpoints are narrowed to those that can hold the text, handed to a
//! proving engine, and what the engine returns is turned into outbound notices.

pub mod action;
pub mod bootstrap;
pub mod canonical;
pub mod checkpoint;
pub mod command;
pub mod encoding;
pub mod engine;
pub mod error;
pub mod message;
pub mod normalize;
pub mod present;
pub mod text;

pub use crate::action::{Action, NoticeFormat, ProofMatch, ProofRequest, ProofResult, ProverOutcome};
pub use crate::checkpoint::{Checkpoint, CheckpointStore};
pub use crate::engine::{Engine, Event, Ingested};
pub use crate::error::EngineError;
pub use crate::message::ChatMessage;
