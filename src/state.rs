use vstd::prelude::*;

verus! {

/// Where the live state stands with respect to the frame history.
#[derive(Debug, Clone, Copy, PartialEq, Eq, Structural)]
pub enum RollbackState {
    /// The live state must be rewound to the stored snapshot of this frame.
    Rollback(usize),
    /// The live state is the state at the start of this frame: the next frame to
    /// simulate is this one, unless it is the newest frame.
    Rolledback(usize),
}

impl RollbackState {
    /// The state after a change has been scheduled at `frame`: any settled state
    /// turns into a rewind to `frame`, and a pending rewind keeps the earlier target.
    pub open spec fn spec_schedule(self, frame: usize) -> RollbackState {
        match self {
            RollbackState::Rolledback(_) => RollbackState::Rollback(frame),
            RollbackState::Rollback(cur) => RollbackState::Rollback(
                if frame < cur { frame } else { cur },
            ),
        }
    }

    pub fn schedule(self, frame: usize) -> (r: RollbackState)
        ensures
            r == self.spec_schedule(frame),
    {
        match self {
            RollbackState::Rolledback(_) => RollbackState::Rollback(frame),
            RollbackState::Rollback(cur) => {
                if frame < cur {
                    RollbackState::Rollback(frame)
                } else {
                    RollbackState::Rollback(cur)
                }
            },
        }
    }

    /// Whether the live state is caught up with `newest`.
    pub open spec fn spec_is_caught_up(self, newest: usize) -> bool {
        self == RollbackState::Rolledback(newest)
    }

    pub fn is_caught_up(self, newest: usize) -> (r: bool)
        ensures
            r == self.spec_is_caught_up(newest),
    {
        match self {
            RollbackState::Rolledback(f) => f == newest,
            RollbackState::Rollback(_) => false,
        }
    }
}

} // verus!
