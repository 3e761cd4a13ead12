//! The failures that the engine reports to its caller.

use crate::bootstrap::BootstrapField;
use vstd::prelude::*;

verus! {

/// Why an event could not be carried through. Each failure concerns the one
/// event in hand; the engine stays usable and its history is as the contract of
/// the failing operation says.
#[derive(Debug)]
pub enum EngineError {
    /// The canonical form of the open buffer could not be written, so the
    /// checkpoint did not close.
    Serialization(serde_json::Error),
    /// The proving engine reported a failure; the text is its own account.
    ProverFailed(String),
    /// A match carries a timestamp for which there is no calendar date.
    DateOutOfRange,
    /// A start-up value is not valid UTF-8; without it the engine cannot run.
    BootstrapNotUtf8(BootstrapField),
}

} // verus!
