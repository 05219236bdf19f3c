use vstd::prelude::*;
use crate::changes::{spec_batch, spec_push};
use crate::error::RollbackError;
use crate::resources::{spec_holds_all, spec_override, spec_restrict, ResourceId};
use crate::state::RollbackState;

verus! {

/// What a stored snapshot holds: a world and the resources of the rollback list.
pub struct SnapshotModel<W, V> {
    pub world: W,
    pub resources: Map<ResourceId, V>,
}

/// What the replay loop is asked to do next.
pub enum ActionModel<C> {
    /// The live state was rewound to the snapshot of this frame.
    Rewound(usize),
    /// This frame is to be simulated, after applying these changes in order.
    Simulate(usize, Seq<C>),
    /// The live state is caught up with the newest frame.
    Quiescent,
}

/// The abstract state of a rollback buffer.
pub struct BufferModel<W, V, C> {
    /// The newest confirmed frame.
    pub newest: usize,
    pub state: RollbackState,
    /// The frame handed out for simulation and not finished yet.
    pub in_flight: Option<usize>,
    /// Whether the snapshot of frame 0 has been stored.
    pub initialized: bool,
    pub world: W,
    pub resources: Map<ResourceId, V>,
    pub pending: Map<usize, Seq<C>>,
    pub slots: Seq<Option<(usize, SnapshotModel<W, V>)>>,
    pub rollback: Seq<ResourceId>,
    pub overrides: Seq<ResourceId>,
}

impl<W, V, C> BufferModel<W, V, C> {
    pub open spec fn capacity(self) -> nat {
        self.slots.len()
    }

    pub open spec fn slot_of(self, frame: usize) -> int {
        frame as int % self.slots.len() as int
    }

    /// The stored snapshot of `frame`, if its slot still holds it.
    pub open spec fn snapshot_of(self, frame: usize) -> Option<SnapshotModel<W, V>> {
        match self.slots[self.slot_of(frame)] {
            Some(entry) => if entry.0 == frame {
                Some(entry.1)
            } else {
                None
            },
            None => None,
        }
    }

    /// Whether a change at `frame` comes too late: its snapshot has left the ring.
    pub open spec fn is_timed_out(self, frame: usize) -> bool {
        frame <= self.newest && self.newest - frame >= self.capacity()
    }

    /// The live state is caught up and no frame is being simulated.
    pub open spec fn is_quiescent(self) -> bool {
        self.state == RollbackState::Rolledback(self.newest) && self.in_flight is None
    }

    /// What every buffer keeps true: a non-empty ring, no empty batch, an override list
    /// inside the rollback list, every resource of the rollback list present live and in
    /// every stored snapshot, targets no later than the newest frame, and nothing stored
    /// before initialization.
    pub open spec fn wf(self) -> bool {
        &&& self.slots.len() > 0
        &&& forall|f: usize| #[trigger] self.pending.contains_key(f) ==> self.pending[f].len() > 0
        &&& forall|i: int|
            0 <= i < self.overrides.len() ==> self.rollback.contains(#[trigger] self.overrides[i])
        &&& spec_holds_all(self.resources, self.rollback)
        &&& forall|i: int|
            0 <= i < self.slots.len() && (#[trigger] self.slots[i]) is Some ==> spec_holds_all(
                self.slots[i]->Some_0.1.resources,
                self.rollback,
            )
        &&& match self.state {
            RollbackState::Rollback(f) => f <= self.newest,
            RollbackState::Rolledback(f) => f <= self.newest,
        }
        &&& match self.in_flight {
            Some(f) => self.initialized && self.state == RollbackState::Rolledback(f) && f
                < self.newest,
            None => true,
        }
        &&& !self.initialized ==> forall|i: int|
            0 <= i < self.slots.len() ==> (#[trigger] self.slots[i]) is None
    }

    /// After a change `op` has been scheduled at `frame`: a change to a past or the
    /// current frame forces a rewind, one to a future frame waits for the simulation
    /// to get there.
    pub open spec fn spec_schedule(self, frame: usize, op: C) -> Self {
        BufferModel {
            pending: spec_push(self.pending, frame, op),
            state: if frame <= self.newest {
                self.state.spec_schedule(frame)
            } else {
                self.state
            },
            ..self
        }
    }

    /// After a tick request.
    pub open spec fn spec_tick(self) -> Self {
        BufferModel { newest: (self.newest + 1) as usize, ..self }
    }

    /// One decision of the replay loop: the next state and what the loop must do.
    pub open spec fn spec_next(self) -> (Self, Result<ActionModel<C>, RollbackError>) {
        match self.state {
            RollbackState::Rollback(f) => match self.snapshot_of(f) {
                Some(s) => (
                    BufferModel {
                        world: s.world,
                        resources: s.resources,
                        slots: self.slots.update(self.slot_of(f), None),
                        state: RollbackState::Rolledback(f),
                        ..self
                    },
                    Ok(ActionModel::Rewound(f)),
                ),
                None => (self, Err(RollbackError::SlotEmpty)),
            },
            RollbackState::Rolledback(f) => if f < self.newest {
                (
                    BufferModel { pending: self.pending.remove(f), in_flight: Some(f), ..self },
                    Ok(ActionModel::Simulate(f, spec_batch(self.pending, f))),
                )
            } else {
                (self, Ok(ActionModel::Quiescent))
            },
        }
    }

    /// The live resources at the end of frame `frame`: the resources of the override
    /// list take the value that the snapshot being replaced (that of `frame + 1`) holds.
    pub open spec fn resources_after(self, frame: usize) -> Map<ResourceId, V> {
        match self.snapshot_of((frame + 1) as usize) {
            Some(s) => spec_override(self.resources, s.resources, self.overrides),
            None => self.resources,
        }
    }

    /// After the frame in flight has been simulated and `world_copy` taken of the live world.
    pub open spec fn spec_finish(self, world_copy: W) -> Self {
        let f = match self.in_flight {
            Some(f) => f,
            None => 0,
        };
        let next = (f + 1) as usize;
        let live = self.resources_after(f);
        BufferModel {
            resources: live,
            slots: self.slots.update(
                self.slot_of(next),
                Some((next, SnapshotModel { world: world_copy, resources: spec_restrict(live, self.rollback) })),
            ),
            state: RollbackState::Rolledback(next),
            in_flight: None,
            ..self
        }
    }
}

} // verus!
