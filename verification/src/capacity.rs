//! The fixed capacities of the game and the error of running into one.
use vstd::prelude::*;

verus! {

/// Most checkpoints that one segment can hold.
pub const CHECKPOINT_CAPACITY: usize = 10;

/// Most segments that one snake can hold.
pub const SEGMENT_CAPACITY: usize = 25;

/// A bounded collection was full, so an item was left out. The collection is
/// as it was; the game can go on.
#[derive(Clone, Copy, Debug, PartialEq, Eq, Structural)]
pub enum CapacityError {
    /// A segment already held `CHECKPOINT_CAPACITY` checkpoints.
    CheckpointQueueFull,
    /// The snake already had `SEGMENT_CAPACITY` segments.
    SegmentListFull,
}

} // verus!
