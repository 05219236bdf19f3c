use vstd::prelude::*;
use crate::changes::spec_batch;
use crate::error::RollbackError;
use crate::model::{ActionModel, BufferModel, SnapshotModel};
use crate::resources::{spec_restrict, ResourceId};
use crate::state::RollbackState;

verus! {

/// The answers of the replay loop, run from `m` for at most `fuel` decisions, where
/// `world_of(f)` is the copy of the live world taken at the end of frame `f`.
pub open spec fn replay_trace<W, V, C>(
    m: BufferModel<W, V, C>,
    world_of: spec_fn(usize) -> W,
    fuel: nat,
) -> Seq<Result<ActionModel<C>, RollbackError>>
    decreases fuel,
{
    if fuel == 0 {
        Seq::empty()
    } else {
        let (m1, a) = m.spec_next();
        match a {
            Ok(ActionModel::Simulate(f, _)) => seq![a] + replay_trace(
                m1.spec_finish(world_of(f)),
                world_of,
                (fuel - 1) as nat,
            ),
            Ok(ActionModel::Rewound(_)) => seq![a] + replay_trace(m1, world_of, (fuel - 1) as nat),
            _ => seq![a],
        }
    }
}

/// The answers a replay owes from frame `from` up to the newest frame `to`: each
/// frame simulated once, in order, with the changes pending at it, then `Quiescent`.
pub open spec fn simulate_frames<C>(pending: Map<usize, Seq<C>>, from: usize, to: usize) -> Seq<
    Result<ActionModel<C>, RollbackError>,
> {
    Seq::new(
        (to - from) as nat,
        |i: int| Ok(ActionModel::Simulate((from + i) as usize, spec_batch(pending, (from + i) as usize))),
    ).push(Ok(ActionModel::Quiescent))
}

/// Replaying from a settled frame simulates every frame up to the newest one exactly
/// once, in order, each with the changes pending at it, and then stops.
pub proof fn lemma_replay_from_settled<W, V, C>(
    m: BufferModel<W, V, C>,
    world_of: spec_fn(usize) -> W,
    f: usize,
)
    requires
        m.state == RollbackState::Rolledback(f),
        m.in_flight is None,
        f <= m.newest,
    ensures
        replay_trace(m, world_of, (m.newest - f + 1) as nat) == simulate_frames(
            m.pending,
            f,
            m.newest,
        ),
    decreases m.newest - f,
{
    let n = m.newest;
    let (m1, a) = m.spec_next();
    if f == n {
        assert(replay_trace(m, world_of, 1) =~= seq![a]);
        assert(simulate_frames(m.pending, f, n) =~= seq![Ok(ActionModel::Quiescent)]);
    } else {
        let m2 = m1.spec_finish(world_of(f));
        assert(m2.state == RollbackState::Rolledback((f + 1) as usize));
        assert(m2.pending == m.pending.remove(f));
        lemma_replay_from_settled(m2, world_of, (f + 1) as usize);
        let rest = simulate_frames(m2.pending, (f + 1) as usize, n);
        assert(replay_trace(m, world_of, (n - f + 1) as nat) == seq![a] + rest);
        assert forall|g: usize| f < g implies #[trigger] spec_batch(m.pending.remove(f), g)
            == spec_batch(m.pending, g) by {}
        assert(seq![a] + rest =~= simulate_frames(m.pending, f, n));
    }
}

/// Rewind correctness: with a rewind pending to frame `k` whose snapshot the ring
/// holds, the replay first restores that snapshot, then simulates frames `k` up to
/// the newest frame, each exactly once, in order, with the changes scheduled at it,
/// exactly as a run from that snapshot would; the copies taken of the world do not
/// change what the loop does.
pub proof fn lemma_rewind_replays_in_order<W, V, C>(
    m: BufferModel<W, V, C>,
    world_of: spec_fn(usize) -> W,
    k: usize,
)
    requires
        m.wf(),
        m.in_flight is None,
        m.state == RollbackState::Rollback(k),
        m.snapshot_of(k) is Some,
    ensures
        replay_trace(m, world_of, (m.newest - k + 2) as nat) == seq![
            Ok::<ActionModel<C>, RollbackError>(ActionModel::Rewound(k)),
        ] + simulate_frames(m.pending, k, m.newest),
{
    let (m1, a) = m.spec_next();
    assert(m1.state == RollbackState::Rolledback(k));
    assert(m1.pending == m.pending);
    lemma_replay_from_settled(m1, world_of, k);
}

/// Quiescence: a tick from a caught-up buffer simulates exactly one frame, the old
/// newest one, with the changes pending at it; finishing it leaves the buffer caught up
/// with the new newest frame, and the loop then stops. Only the slot of the new frame
/// is written, and only the stored snapshot of that frame is read.
pub proof fn lemma_tick_simulates_once<W, V, C>(m: BufferModel<W, V, C>, world_copy: W)
    requires
        m.wf(),
        m.initialized,
        m.is_quiescent(),
        m.newest < usize::MAX,
    ensures
        ({
            let n = m.newest;
            let (m1, a1) = m.spec_tick().spec_next();
            let m2 = m1.spec_finish(world_copy);
            let (m3, a3) = m2.spec_next();
            &&& a1 == Ok::<ActionModel<C>, RollbackError>(
                ActionModel::Simulate(n, spec_batch(m.pending, n)),
            )
            &&& m2.is_quiescent()
            &&& m2.newest == n + 1
            &&& a3 == Ok::<ActionModel<C>, RollbackError>(ActionModel::Quiescent)
            &&& m3 == m2
            &&& m2.slots == m.slots.update(
                m.slot_of((n + 1) as usize),
                Some(
                    (
                        (n + 1) as usize,
                        SnapshotModel {
                            world: world_copy,
                            resources: spec_restrict(m.resources_after(n), m.rollback),
                        },
                    ),
                ),
            )
        }),
{
}

/// Timeout boundary: a change at `newest - capacity` comes too late, one at
/// `newest - capacity + 1` does not.
pub proof fn lemma_timeout_boundary<W, V, C>(m: BufferModel<W, V, C>)
    requires
        m.wf(),
        m.newest >= m.capacity(),
    ensures
        m.is_timed_out((m.newest - m.capacity()) as usize),
        !m.is_timed_out((m.newest - m.capacity() + 1) as usize),
{
}

/// Earliest wins: scheduling a change at `late` and then one at an earlier frame
/// `early` on a settled buffer leaves a single rewind pending, to `early`; the replay
/// of the next tick applies the second change at `early` and the first at `late`, in
/// the same pass.
pub proof fn lemma_earliest_wins<W, V, C>(
    m: BufferModel<W, V, C>,
    world_of: spec_fn(usize) -> W,
    late: usize,
    a: C,
    early: usize,
    b: C,
)
    requires
        m.wf(),
        m.in_flight is None,
        m.state is Rolledback,
        early < late <= m.newest,
        m.newest < usize::MAX,
        !m.is_timed_out(early),
        m.snapshot_of(early) is Some,
    ensures
        ({
            let m2 = m.spec_schedule(late, a).spec_schedule(early, b);
            let trace = replay_trace(m2.spec_tick(), world_of, (m.newest + 1 - early + 2) as nat);
            &&& m2.state == RollbackState::Rollback(early)
            &&& trace[0] == Ok::<ActionModel<C>, RollbackError>(ActionModel::Rewound(early))
            &&& trace[1] == Ok::<ActionModel<C>, RollbackError>(
                ActionModel::Simulate(early, spec_batch(m.pending, early).push(b)),
            )
            &&& trace[1 + late - early] == Ok::<ActionModel<C>, RollbackError>(
                ActionModel::Simulate(late, spec_batch(m.pending, late).push(a)),
            )
        }),
{
    let m1 = m.spec_schedule(late, a);
    let m2 = m1.spec_schedule(early, b);
    assert(m2.state == RollbackState::Rollback(early));
    assert(m2.slots == m.slots);
    assert(m2.newest == m.newest);
    assert(m2.wf()) by {
        assert forall|f: usize| #[trigger] m2.pending.contains_key(f) implies m2.pending[f].len() > 0 by {
            if f != early && f != late {
                assert(m.pending.contains_key(f));
            }
        }
    }
    let m3 = m2.spec_tick();
    assert(m3.wf());
    lemma_rewind_replays_in_order(m3, world_of, early);
    let trace = replay_trace(m3, world_of, (m.newest + 1 - early + 2) as nat);
    let sims = simulate_frames(m3.pending, early, m3.newest);
    assert(trace[0] == Ok::<ActionModel<C>, RollbackError>(ActionModel::Rewound(early)));
    assert(trace[1] == sims[0]);
    assert(trace[1 + late - early] == sims[late - early]);
    assert(spec_batch(m2.pending, early) == spec_batch(m.pending, early).push(b));
    assert(spec_batch(m2.pending, late) == spec_batch(m.pending, late).push(a));
}

/// Override precedence: at the end of a replayed frame, a resource of the override
/// list holds the value that the replaced snapshot stored for it, both live and in
/// the new snapshot, while a resource only in the rollback list keeps the value the
/// simulation computed.
pub proof fn lemma_override_precedence<W, V, C>(
    m: BufferModel<W, V, C>,
    world_copy: W,
    id: ResourceId,
)
    requires
        m.wf(),
        m.in_flight is Some,
        m.rollback.contains(id),
    ensures
        ({
            let f = m.in_flight->Some_0;
            let next = (f + 1) as usize;
            let m2 = m.spec_finish(world_copy);
            let stored = m2.snapshot_of(next)->Some_0.resources;
            &&& m2.snapshot_of(next) is Some
            &&& match m.snapshot_of(next) {
                Some(old) => m.overrides.contains(id) && old.resources.contains_key(id) ==> {
                    &&& m2.resources[id] == old.resources[id]
                    &&& stored[id] == old.resources[id]
                },
                None => true,
            }
            &&& !m.overrides.contains(id) ==> {
                &&& m2.resources[id] == m.resources[id]
                &&& stored[id] == m.resources[id]
            }
        }),
{
    let f = m.in_flight->Some_0;
    let next = (f + 1) as usize;
    let m2 = m.spec_finish(world_copy);
    assert(m2.slots[m.slot_of(next)] == m2.slots[m2.slot_of(next)]);
    let j = choose|j: int| 0 <= j < m.rollback.len() && m.rollback[j] == id;
    assert(m.resources.contains_key(m.rollback[j]));
}

/// A deterministic simulation: from a world and resources and the changes pending at
/// a frame, the world and resources at the end of that frame.
pub type FrameStep<W, V, C> = spec_fn(W, Map<ResourceId, V>, Seq<C>) -> (W, Map<ResourceId, V>);

/// Simulating frames `from` up to `to` directly from `world` and `resources`, each
/// frame with the changes pending at it.
pub open spec fn simulate_from<W, V, C>(
    world: W,
    resources: Map<ResourceId, V>,
    pending: Map<usize, Seq<C>>,
    from: usize,
    to: usize,
    sim: FrameStep<W, V, C>,
) -> (W, Map<ResourceId, V>)
    decreases to - from,
{
    if from >= to {
        (world, resources)
    } else {
        let (w, r) = sim(world, resources, spec_batch(pending, from));
        simulate_from(w, r, pending, (from + 1) as usize, to, sim)
    }
}

/// The buffer after a driver that simulates with `sim`, and copies worlds exactly, has
/// run the replay loop for at most `fuel` decisions.
pub open spec fn drive<W, V, C>(m: BufferModel<W, V, C>, sim: FrameStep<W, V, C>, fuel: nat) -> BufferModel<
    W,
    V,
    C,
>
    decreases fuel,
{
    if fuel == 0 {
        m
    } else {
        let (m1, a) = m.spec_next();
        match a {
            Ok(ActionModel::Simulate(_, batch)) => {
                let (w, r) = sim(m1.world, m1.resources, batch);
                drive(BufferModel { world: w, resources: r, ..m1 }.spec_finish(w), sim, (fuel - 1) as nat)
            },
            Ok(ActionModel::Rewound(_)) => drive(m1, sim, (fuel - 1) as nat),
            _ => m1,
        }
    }
}

/// A direct run only reads the changes pending at the frames it simulates.
proof fn lemma_simulate_ignores_earlier<W, V, C>(
    world: W,
    resources: Map<ResourceId, V>,
    pending: Map<usize, Seq<C>>,
    f: usize,
    from: usize,
    to: usize,
    sim: FrameStep<W, V, C>,
)
    requires
        f < from,
    ensures
        simulate_from(world, resources, pending.remove(f), from, to, sim) == simulate_from(
            world,
            resources,
            pending,
            from,
            to,
            sim,
        ),
    decreases to - from,
{
    if from < to {
        assert(spec_batch(pending.remove(f), from) == spec_batch(pending, from));
        let (w, r) = sim(world, resources, spec_batch(pending, from));
        lemma_simulate_ignores_earlier(w, r, pending, f, (from + 1) as usize, to, sim);
    }
}

/// Replaying from a settled frame, with an empty override list, ends caught up, with
/// the live state that a direct run from the current live state reaches.
pub proof fn lemma_replay_state_from_settled<W, V, C>(
    m: BufferModel<W, V, C>,
    sim: FrameStep<W, V, C>,
    f: usize,
)
    requires
        m.state == RollbackState::Rolledback(f),
        m.in_flight is None,
        f <= m.newest,
        m.overrides.len() == 0,
    ensures
        ({
            let d = drive(m, sim, (m.newest - f + 1) as nat);
            &&& d.is_quiescent()
            &&& d.newest == m.newest
            &&& (d.world, d.resources) == simulate_from(
                m.world,
                m.resources,
                m.pending,
                f,
                m.newest,
                sim,
            )
        }),
    decreases m.newest - f,
{
    let n = m.newest;
    let (m1, a) = m.spec_next();
    if f < n {
        let (w, r) = sim(m1.world, m1.resources, spec_batch(m.pending, f));
        let before = BufferModel { world: w, resources: r, ..m1 };
        assert(before.resources_after(f) =~= r);
        let m2 = before.spec_finish(w);
        assert(m2.state == RollbackState::Rolledback((f + 1) as usize));
        lemma_replay_state_from_settled(m2, sim, (f + 1) as usize);
        lemma_simulate_ignores_earlier(w, r, m.pending, f, (f + 1) as usize, n, sim);
        assert(drive(m, sim, (n - f + 1) as nat) == drive(m2, sim, (n - f) as nat));
    }
}

/// Rewind correctness, on the live state: with a deterministic simulation and an
/// empty override list, the replay that rewinds to frame `k` ends caught up with the
/// live state that simulating frames `k` up to the newest frame directly from the
/// stored snapshot of `k`, with the same changes, reaches.
pub proof fn lemma_rewind_reproduces_direct_run<W, V, C>(
    m: BufferModel<W, V, C>,
    sim: FrameStep<W, V, C>,
    k: usize,
)
    requires
        m.wf(),
        m.in_flight is None,
        m.state == RollbackState::Rollback(k),
        m.snapshot_of(k) is Some,
        m.overrides.len() == 0,
    ensures
        ({
            let s = m.snapshot_of(k)->Some_0;
            let d = drive(m, sim, (m.newest - k + 2) as nat);
            &&& d.is_quiescent()
            &&& (d.world, d.resources) == simulate_from(
                s.world,
                s.resources,
                m.pending,
                k,
                m.newest,
                sim,
            )
        }),
{
    let (m1, a) = m.spec_next();
    lemma_replay_state_from_settled(m1, sim, k);
    assert(drive(m, sim, (m.newest - k + 2) as nat) == drive(m1, sim, (m.newest - k + 1) as nat));
}

} // verus!
