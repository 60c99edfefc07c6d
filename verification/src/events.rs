use vstd::prelude::*;

verus! {

/// Event emitted when a message is dropped because a consumer is too slow.
///
/// Subscribe to this event to monitor the health of a relay and to find the
/// slow parts of a pipeline.
#[derive(Clone, Copy, Debug)]
pub struct Dropped {
    /// The ID of the message that was dropped.
    pub msg_id: u64,
    /// The ID of the relay that dropped it (most often the one where the
    /// message originated).
    pub origin_stream_id: u64,
    /// The type name of the dropped message (for debugging).
    pub event_type_name: &'static str,
}

} // verus!
