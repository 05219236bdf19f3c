use vstd::prelude::*;
use crate::changes::DeferredChangeQueue;
use crate::error::RollbackError;
use crate::model::{ActionModel, BufferModel, SnapshotModel};
use crate::registry::ResourceTrackRegistry;
use crate::resources::{spec_holds_all, spec_override, spec_restrict, ResourceId, ResourceSet};
use crate::ring::SnapshotRing;
use crate::state::RollbackState;

verus! {

/// A stored copy of the live state: its world and the resources of the rollback list.
pub struct Snapshot<W, V> {
    pub world: W,
    pub resources: ResourceSet<V>,
}

impl<W, V> View for Snapshot<W, V> {
    type V = SnapshotModel<W, V>;

    open spec fn view(&self) -> SnapshotModel<W, V> {
        SnapshotModel { world: self.world, resources: self.resources@ }
    }
}

/// What the driver of the replay loop must do next.
pub enum ReplayAction<C> {
    /// The live state was rewound to the stored snapshot of this frame.
    Rewound(usize),
    /// Apply `changes` to the live state in order, run the simulation step once,
    /// then call `finish_frame` with a copy of the live world.
    Simulate { frame: usize, changes: Vec<C> },
    /// The live state is caught up with the newest frame.
    Quiescent,
}

impl<C> View for ReplayAction<C> {
    type V = ActionModel<C>;

    open spec fn view(&self) -> ActionModel<C> {
        match self {
            ReplayAction::Rewound(f) => ActionModel::Rewound(*f),
            ReplayAction::Simulate { frame, changes } => ActionModel::Simulate(*frame, changes@),
            ReplayAction::Quiescent => ActionModel::Quiescent,
        }
    }
}

/// The model of an answer of `next_action`.
pub open spec fn spec_action_view<C>(r: Result<ReplayAction<C>, RollbackError>) -> Result<
    ActionModel<C>,
    RollbackError,
> {
    match r {
        Ok(a) => Ok(a@),
        Err(e) => Err(e),
    }
}

/// The model of a ring slot.
pub open spec fn spec_slot_view<W, V>(entry: Option<(usize, Snapshot<W, V>)>) -> Option<
    (usize, SnapshotModel<W, V>),
> {
    match entry {
        Some(e) => Some((e.0, e.1@)),
        None => None,
    }
}

/// The rollback engine: the frame clock, the rewind / replay state, the live state,
/// the ring of past snapshots, the changes deferred to past frames and the
/// registry of resources that snapshots capture.
///
/// The world `W` is opaque here: copying it is the driver's work. A driver sets the
/// buffer up (`new`, then `track_resource` / `override_resource`, then `initialize`
/// with a copy of the world) and, for each tick, calls `request_tick` and then
/// `next_action` until it answers `Quiescent`. On `Simulate` it applies the changes
/// handed out, in order, to the live state (`world_mut`, `set_resource`), runs the
/// simulation step once, and calls `finish_frame` with a copy of the live world.
/// Changes to past frames are scheduled between ticks with `past_frame_change`.
///
/// The resources of the override list are settled at the end of each replayed
/// frame: after the simulation step, each takes the value that the snapshot about to
/// be replaced stored for it, so an authoritative value wins over a freshly simulated
/// one every time its frame is replayed.
pub struct RollbackBuffer<W, V, C> {
    newest_frame: usize,
    rollback_state: RollbackState,
    in_flight: Option<usize>,
    initialized: bool,
    current_world: W,
    current_resources: ResourceSet<V>,
    buffered_changes: DeferredChangeQueue<C>,
    past: SnapshotRing<Snapshot<W, V>>,
    registry: ResourceTrackRegistry,
}

impl<W, V, C> View for RollbackBuffer<W, V, C> {
    type V = BufferModel<W, V, C>;

    closed spec fn view(&self) -> BufferModel<W, V, C> {
        BufferModel {
            newest: self.newest_frame,
            state: self.rollback_state,
            in_flight: self.in_flight,
            initialized: self.initialized,
            world: self.current_world,
            resources: self.current_resources@,
            pending: self.buffered_changes@,
            slots: self.past@.map_values(|e: Option<(usize, Snapshot<W, V>)>| spec_slot_view(e)),
            rollback: self.registry.rollback_list(),
            overrides: self.registry.override_list(),
        }
    }
}

/// Adding `id` with a value to both the resources and the list keeps every id present.
proof fn lemma_holds_all_push<V>(live: Map<ResourceId, V>, ids: Seq<ResourceId>, id: ResourceId, value: V)
    requires
        spec_holds_all(live, ids),
    ensures
        spec_holds_all(live.insert(id, value), ids.push(id)),
{
    assert forall|i: int| 0 <= i < ids.push(id).len() implies live.insert(id, value).contains_key(
        #[trigger] ids.push(id)[i],
    ) by {
        if i < ids.len() {
            assert(ids.push(id)[i] == ids[i]);
        }
    }
}

/// Restricting resources that hold every id of `ids` to `ids` keeps every id present.
proof fn lemma_restrict_holds_all<V>(live: Map<ResourceId, V>, ids: Seq<ResourceId>)
    requires
        spec_holds_all(live, ids),
    ensures
        spec_holds_all(spec_restrict(live, ids), ids),
{
    assert forall|i: int| 0 <= i < ids.len() implies spec_restrict(live, ids).contains_key(
        #[trigger] ids[i],
    ) by {
        assert(ids.contains(ids[i]));
    }
}

/// What the ring holds for a frame, seen through the buffer's model.
proof fn lemma_ring_view_get<W, V, C>(
    ring: SnapshotRing<Snapshot<W, V>>,
    m: BufferModel<W, V, C>,
    frame: usize,
)
    requires
        ring@.len() > 0,
        m.slots == ring@.map_values(|e: Option<(usize, Snapshot<W, V>)>| spec_slot_view(e)),
    ensures
        match ring.spec_get(frame) {
            Some(s) => m.snapshot_of(frame) == Some(s@),
            None => m.snapshot_of(frame) is None,
        },
{
}

/// Emptying a slot keeps the resources of every stored snapshot complete.
proof fn lemma_slots_wf_update_none<W, V, C>(m: BufferModel<W, V, C>, i: int)
    requires
        m.wf(),
        0 <= i < m.slots.len(),
    ensures
        forall|j: int|
            0 <= j < m.slots.len() && (#[trigger] m.slots.update(i, None)[j]) is Some
                ==> spec_holds_all(m.slots.update(i, None)[j]->Some_0.1.resources, m.rollback),
{
    assert forall|j: int|
        0 <= j < m.slots.len() && (#[trigger] m.slots.update(i, None)[j]) is Some implies spec_holds_all(
        m.slots.update(i, None)[j]->Some_0.1.resources,
        m.rollback,
    ) by {
        assert(m.slots[j] is Some);
    }
}

/// The live resources at the end of a frame still hold every id of the rollback list.
proof fn lemma_override_holds_all<W, V, C>(m: BufferModel<W, V, C>, next: usize)
    requires
        m.wf(),
        next > 0,
    ensures
        spec_holds_all(m.resources_after((next - 1) as usize), m.rollback),
{
    let f = (next - 1) as usize;
    assert(((f + 1) as usize) == next);
    match m.snapshot_of(next) {
        Some(s) => {
            let r = spec_override(m.resources, s.resources, m.overrides);
            assert forall|i: int| 0 <= i < m.rollback.len() implies r.contains_key(
                #[trigger] m.rollback[i],
            ) by {
                assert(m.resources.contains_key(m.rollback[i]));
            }
        },
        None => {},
    }
}

impl<W, V, C> RollbackBuffer<W, V, C> {
    pub closed spec fn inv(&self) -> bool {
        &&& self.buffered_changes.wf()
        &&& self.registry.wf()
        &&& self@.wf()
    }
}

impl<W, V: Copy, C> RollbackBuffer<W, V, C> {
    /// A buffer of `buffer_size` snapshots around the live `world`, at frame 0, with no
    /// resources registered yet and nothing stored.
    pub fn new(buffer_size: usize, world: W) -> (r: Self)
        requires
            buffer_size > 0,
        ensures
            r.inv(),
            r@.capacity() == buffer_size,
            r@.newest == 0,
            r@.state == RollbackState::Rolledback(0),
            r@.in_flight is None,
            !r@.initialized,
            r@.world == world,
            r@.resources == Map::<ResourceId, V>::empty(),
            r@.pending == Map::<usize, Seq<C>>::empty(),
            r@.rollback == Seq::<ResourceId>::empty(),
            r@.overrides == Seq::<ResourceId>::empty(),
            forall|i: int| 0 <= i < buffer_size ==> r@.slots[i] is None,
    {
        let r = RollbackBuffer {
            newest_frame: 0,
            rollback_state: RollbackState::Rolledback(0),
            in_flight: None,
            initialized: false,
            current_world: world,
            current_resources: ResourceSet::new(),
            buffered_changes: DeferredChangeQueue::new(),
            past: SnapshotRing::new(buffer_size),
            registry: ResourceTrackRegistry::new(),
        };
        proof {
            assert(r@.slots.len() == buffer_size);
        }
        r
    }

    /// Inserts `value` for `id` into the live resources and adds `id` to the rollback
    /// list, so that every snapshot captures it. Registration comes before `initialize`.
    pub fn track_resource(&mut self, id: ResourceId, value: V)
        requires
            old(self).inv(),
            !old(self)@.initialized,
        ensures
            final(self).inv(),
            final(self)@ == (BufferModel {
                resources: old(self)@.resources.insert(id, value),
                rollback: old(self)@.rollback.push(id),
                ..old(self)@
            }),
    {
        self.current_resources.insert(id, value);
        self.registry.track(id);
        proof {
            assert(self@ =~= (BufferModel {
                resources: old(self)@.resources.insert(id, value),
                rollback: old(self)@.rollback.push(id),
                ..old(self)@
            }));
            lemma_holds_all_push(old(self)@.resources, old(self)@.rollback, id, value);
        }
    }

    /// As `track_resource`, and adds `id` to the override list too: when a frame is
    /// replayed, the value stored for the end of that frame wins over the simulated one.
    pub fn override_resource(&mut self, id: ResourceId, value: V)
        requires
            old(self).inv(),
            !old(self)@.initialized,
        ensures
            final(self).inv(),
            final(self)@ == (BufferModel {
                resources: old(self)@.resources.insert(id, value),
                rollback: old(self)@.rollback.push(id),
                overrides: old(self)@.overrides.push(id),
                ..old(self)@
            }),
    {
        self.current_resources.insert(id, value);
        self.registry.track_override(id);
        proof {
            assert(self@ =~= (BufferModel {
                resources: old(self)@.resources.insert(id, value),
                rollback: old(self)@.rollback.push(id),
                overrides: old(self)@.overrides.push(id),
                ..old(self)@
            }));
            lemma_holds_all_push(old(self)@.resources, old(self)@.rollback, id, value);
        }
    }

    /// Stores the live state as the snapshot of frame 0, with `world_copy` as its world.
    pub fn initialize(&mut self, world_copy: W)
        requires
            old(self).inv(),
            !old(self)@.initialized,
        ensures
            final(self).inv(),
            final(self)@ == (BufferModel {
                initialized: true,
                slots: old(self)@.slots.update(
                    old(self)@.slot_of(0),
                    Some((0usize, SnapshotModel {
                        world: world_copy,
                        resources: spec_restrict(old(self)@.resources, old(self)@.rollback),
                    })),
                ),
                ..old(self)@
            }),
    {
        let resources = match self.current_resources.restrict(self.registry.rollback_ids()) {
            Ok(set) => set,
            Err(_) => {
                // the live resources always hold every id of the rollback list
                proof {
                    assert(false);
                }
                ResourceSet::new()
            },
        };
        self.past.store(0, Snapshot { world: world_copy, resources });
        self.initialized = true;
        proof {
            let expect = BufferModel {
                initialized: true,
                slots: old(self)@.slots.update(
                    old(self)@.slot_of(0),
                    Some((0usize, SnapshotModel {
                        world: world_copy,
                        resources: spec_restrict(old(self)@.resources, old(self)@.rollback),
                    })),
                ),
                ..old(self)@
            };
            assert(self@.slots =~= expect.slots);
            assert(self@ =~= expect);
            lemma_restrict_holds_all(old(self)@.resources, old(self)@.rollback);
        }
    }

    /// Schedules `op` to be applied to the live state when frame `frame` is next
    /// simulated. For a frame no later than the newest one, the next replay rewinds to
    /// `frame` (or to an earlier frame that is already pending); a future frame simply
    /// waits. Fails with `FrameTimeout`, changing nothing, when the snapshot of `frame`
    /// has left the ring.
    pub fn past_frame_change(&mut self, frame: usize, op: C) -> (r: Result<(), RollbackError>)
        requires
            old(self).inv(),
            old(self)@.initialized,
            old(self)@.in_flight is None,
        ensures
            final(self).inv(),
            old(self)@.is_timed_out(frame) ==> r == Err::<(), RollbackError>(
                RollbackError::FrameTimeout,
            ) && final(self)@ == old(self)@,
            !old(self)@.is_timed_out(frame) ==> r == Ok::<(), RollbackError>(()) && final(self)@
                == old(self)@.spec_schedule(frame, op),
    {
        if frame <= self.newest_frame && self.newest_frame - frame >= self.past.capacity() {
            return Err(RollbackError::FrameTimeout);
        }
        self.buffered_changes.push(frame, op);
        if frame <= self.newest_frame {
            self.rollback_state = self.rollback_state.schedule(frame);
        }
        proof {
            assert(self@ =~= old(self)@.spec_schedule(frame, op));
        }
        Ok(())
    }

    /// A tick request: the newest frame moves on by one. The replay loop then runs
    /// `next_action` until it answers `Quiescent`.
    pub fn request_tick(&mut self)
        requires
            old(self).inv(),
            old(self)@.initialized,
            old(self)@.in_flight is None,
            old(self)@.newest < usize::MAX,
        ensures
            final(self).inv(),
            final(self)@ == old(self)@.spec_tick(),
    {
        self.newest_frame = self.newest_frame + 1;
        proof {
            assert(self@ =~= old(self)@.spec_tick());
        }
    }

    /// One step of the replay loop. A pending rewind installs the stored snapshot of
    /// its frame as the live state (failing with `SlotEmpty`, changing nothing, when the
    /// ring no longer holds it); otherwise, short of the newest frame, the changes of
    /// the current frame are taken out of the queue and handed out for simulation.
    pub fn next_action(&mut self) -> (r: Result<ReplayAction<C>, RollbackError>)
        requires
            old(self).inv(),
            old(self)@.initialized,
            old(self)@.in_flight is None,
        ensures
            final(self).inv(),
            (final(self)@, spec_action_view(r)) == old(self)@.spec_next(),
    {
        match self.rollback_state {
            RollbackState::Rollback(f) => {
                let snapshot = match self.past.take(f) {
                    Ok(s) => s,
                    Err(e) => {
                        proof {
                            lemma_ring_view_get(self.past, self@, f);
                        }
                        return Err(e);
                    },
                };
                proof {
                    lemma_ring_view_get(old(self).past, old(self)@, f);
                }
                self.current_world = snapshot.world;
                self.current_resources = snapshot.resources;
                self.rollback_state = RollbackState::Rolledback(f);
                proof {
                    let (m, a) = old(self)@.spec_next();
                    assert(self@.slots =~= m.slots);
                    assert(self@ =~= m);
                    lemma_slots_wf_update_none(old(self)@, old(self)@.slot_of(f));
                }
                Ok(ReplayAction::Rewound(f))
            },
            RollbackState::Rolledback(f) => {
                if f < self.newest_frame {
                    let changes = self.buffered_changes.take(f);
                    self.in_flight = Some(f);
                    proof {
                        let (m, a) = old(self)@.spec_next();
                        assert(self@ =~= m);
                    }
                    Ok(ReplayAction::Simulate { frame: f, changes })
                } else {
                    Ok(ReplayAction::Quiescent)
                }
            },
        }
    }

    /// Ends the simulation of the frame in flight. The resources of the override list
    /// take the value held by the snapshot that is about to be replaced (the stored
    /// end of this frame, if the ring still holds it); then a snapshot of the live
    /// state, with `world_copy` as its world, is stored for the next frame, which
    /// becomes the current one.
    pub fn finish_frame(&mut self, world_copy: W)
        requires
            old(self).inv(),
            old(self)@.in_flight is Some,
        ensures
            final(self).inv(),
            final(self)@ == old(self)@.spec_finish(world_copy),
    {
        let f = match self.in_flight {
            Some(f) => f,
            None => 0,
        };
        let next = f + 1;
        match self.past.get(next) {
            Some(stored) => {
                self.current_resources.override_from(&stored.resources, self.registry.override_ids());
            },
            None => {},
        }
        proof {
            lemma_ring_view_get(self.past, old(self)@, next);
            assert(self.current_resources@ == old(self)@.resources_after(f));
            lemma_override_holds_all(old(self)@, next);
        }
        let resources = match self.current_resources.restrict(self.registry.rollback_ids()) {
            Ok(set) => set,
            Err(_) => {
                // overriding only replaces values, so every id of the rollback list is still there
                proof {
                    assert(false);
                }
                ResourceSet::new()
            },
        };
        proof {
            lemma_restrict_holds_all(self.current_resources@, old(self)@.rollback);
        }
        self.past.store(next, Snapshot { world: world_copy, resources });
        self.rollback_state = RollbackState::Rolledback(next);
        self.in_flight = None;
        proof {
            let m = old(self)@.spec_finish(world_copy);
            assert(self@.slots =~= m.slots);
            assert(self@ =~= m);
            assert forall|j: int|
                0 <= j < m.slots.len() && (#[trigger] m.slots[j]) is Some implies spec_holds_all(
                m.slots[j]->Some_0.1.resources,
                m.rollback,
            ) by {
                if j != m.slot_of(next) {
                    assert(old(self)@.slots[j] is Some);
                }
            }
        }
    }

    /// The newest confirmed frame.
    pub fn newest_frame(&self) -> (r: usize)
        ensures
            r == self@.newest,
    {
        self.newest_frame
    }

    /// Where the live state stands: a pending rewind, or the frame it is at.
    pub fn rollback_state(&self) -> (r: RollbackState)
        ensures
            r == self@.state,
    {
        self.rollback_state
    }

    /// The number of snapshots the ring keeps.
    pub fn capacity(&self) -> (r: usize)
        ensures
            r == self@.capacity(),
    {
        self.past.capacity()
    }

    pub fn is_initialized(&self) -> (r: bool)
        ensures
            r == self@.initialized,
    {
        self.initialized
    }

    /// The frame handed out for simulation and not finished yet.
    pub fn frame_in_flight(&self) -> (r: Option<usize>)
        ensures
            r == self@.in_flight,
    {
        self.in_flight
    }

    /// Whether the live state is caught up with the newest frame, with no frame in flight.
    pub fn is_quiescent(&self) -> (r: bool)
        ensures
            r == self@.is_quiescent(),
    {
        self.in_flight.is_none() && self.rollback_state.is_caught_up(self.newest_frame)
    }

    /// Whether changes are pending at `frame`.
    pub fn has_pending_changes(&self, frame: usize) -> (r: bool)
        ensures
            r == self@.pending.contains_key(frame),
    {
        self.buffered_changes.contains(frame)
    }

    /// The ids of the rollback list, in registration order.
    pub fn resource_ids(&self) -> (r: &Vec<ResourceId>)
        ensures
            r@ == self@.rollback,
    {
        self.registry.rollback_ids()
    }

    /// The live world.
    pub fn world(&self) -> (r: &W)
        ensures
            *r == self@.world,
    {
        &self.current_world
    }

    /// The live world, for the simulation step and for changes to act on.
    pub fn world_mut(&mut self) -> (r: &mut W)
        ensures
            *r == old(self)@.world,
            final(self)@ == (BufferModel { world: *final(r), ..old(self)@ }),
            final(self).inv() == old(self).inv(),
    {
        &mut self.current_world
    }

    /// The live value of resource `id`.
    pub fn resource(&self, id: ResourceId) -> (r: Option<V>)
        ensures
            match r {
                Some(v) => self@.resources.contains_key(id) && self@.resources[id] == v,
                None => !self@.resources.contains_key(id),
            },
    {
        self.current_resources.get(id)
    }

    /// Sets the live value of resource `id`.
    pub fn set_resource(&mut self, id: ResourceId, value: V)
        requires
            old(self).inv(),
        ensures
            final(self).inv(),
            final(self)@ == (BufferModel {
                resources: old(self)@.resources.insert(id, value),
                ..old(self)@
            }),
    {
        self.current_resources.insert(id, value);
        proof {
            assert(self@ =~= (BufferModel {
                resources: old(self)@.resources.insert(id, value),
                ..old(self)@
            }));
        }
    }

    /// The stored snapshot of `frame`, if the ring still holds it.
    pub fn snapshot(&self, frame: usize) -> (r: Option<&Snapshot<W, V>>)
        requires
            self.inv(),
        ensures
            match self@.snapshot_of(frame) {
                Some(s) => r is Some && r->Some_0@ == s,
                None => r is None,
            },
    {
        proof {
            lemma_ring_view_get(self.past, self@, frame);
        }
        self.past.get(frame)
    }
}

} // verus!
