//! Wire-adjacent vocabulary that a host names in streaming callbacks.

use vstd::prelude::*;

verus! {

/// One live increment from a streaming completion.
///
/// Answer text and the reasoning side channel stay separated so a consumer can
/// render them differently. Tool-call fragments are never surfaced as deltas.
#[derive(Debug, Clone, PartialEq, Eq)]
#[non_exhaustive]
pub enum StreamDelta {
    /// A fragment of the assistant's answer text.
    Text(String),
    /// A fragment of the reasoning side channel, never part of the answer.
    Reasoning(String),
}

} // verus!
