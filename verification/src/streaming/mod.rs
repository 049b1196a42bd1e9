//! Streaming sinks: the fire-and-forget publish policy they share.

pub mod kafka;
pub mod redis;

use vstd::prelude::*;

verus! {

/// What a sink's consumer loop does after one publish attempt.
#[derive(Clone, Copy, Debug, PartialEq, Eq, Structural)]
pub enum SinkAction {
    /// Move on to the next event.
    ContinueNext,
    /// Publish the same event again.
    Retry,
    /// Stop consuming.
    Stop,
}

/// The failure policy of both sinks: whatever a publish attempt did, the
/// loop logs and moves on to the next event — no retry, no requeue, no
/// stop.  A failed publish permanently loses that one event.
pub fn after_publish(delivered: bool) -> (a: SinkAction)
    ensures
        a is ContinueNext,
{
    let _ = delivered;
    SinkAction::ContinueNext
}

} // verus!
