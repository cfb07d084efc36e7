//! What a client answers to a batch.
use vstd::prelude::*;

verus! {

/// The answer of a client to a batch.
#[derive(Debug, PartialEq, Eq)]
pub struct BatchAckResult {
    /// `"ok"`, `"error"` or `"timeout"`.
    pub status: String,
    /// The batch that is answered.
    pub batch_id: String,
}

} // verus!
