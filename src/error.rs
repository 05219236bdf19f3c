use vstd::prelude::*;

verus! {

/// Errors reported by the rollback buffer.
#[derive(Debug, Clone, Copy, PartialEq, Eq, Structural)]
pub enum RollbackError {
    /// The requested frame is older than the ring keeps: its snapshot is gone.
    FrameTimeout,
    /// A resource of the rollback list was missing from the live resources when a snapshot was built.
    ResourceNotFound,
    /// A rewind targeted a ring slot that holds no snapshot of that frame.
    SlotEmpty,
}

} // verus!
