use rollback_buffer::{ReplayAction, RollbackBuffer, RollbackError, RollbackState};

const COUNTER: u64 = 1;
const INPUT: u64 = 2;

#[derive(Debug, Clone, Copy, PartialEq)]
enum Op {
    SetCounter(i64),
    SetInput(i64),
    Mark(u32),
}

/// The world records which marks were applied, in order.
type World = Vec<u32>;
type Buffer = RollbackBuffer<World, i64, Op>;

fn apply(buffer: &mut Buffer, op: Op) {
    match op {
        Op::SetCounter(v) => buffer.set_resource(COUNTER, v),
        Op::SetInput(v) => buffer.set_resource(INPUT, v),
        Op::Mark(m) => buffer.world_mut().push(m),
    }
}

/// The simulation step: the counter grows by one, the input by ten.
fn step(buffer: &mut Buffer) {
    let c = buffer.resource(COUNTER).unwrap();
    buffer.set_resource(COUNTER, c + 1);
    if let Some(i) = buffer.resource(INPUT) {
        buffer.set_resource(INPUT, i + 10);
    }
}

/// Runs one tick to quiescence; returns the frames simulated and the changes applied.
fn advance(buffer: &mut Buffer) -> (Vec<usize>, Vec<(usize, Op)>, Vec<usize>) {
    buffer.request_tick();
    let mut simulated = Vec::new();
    let mut applied = Vec::new();
    let mut rewound = Vec::new();
    loop {
        match buffer.next_action().expect("replay failed") {
            ReplayAction::Rewound(f) => rewound.push(f),
            ReplayAction::Simulate { frame, changes } => {
                for op in changes {
                    applied.push((frame, op));
                    apply(buffer, op);
                }
                step(buffer);
                simulated.push(frame);
                let copy = buffer.world().clone();
                buffer.finish_frame(copy);
            }
            ReplayAction::Quiescent => break,
        }
    }
    (simulated, applied, rewound)
}

fn counter_buffer(capacity: usize) -> Buffer {
    let mut b: Buffer = RollbackBuffer::new(capacity, Vec::new());
    b.track_resource(COUNTER, 0);
    b.initialize(Vec::new());
    b
}

#[test]
fn new_buffer_starts_settled_at_frame_zero() {
    let b: Buffer = RollbackBuffer::new(3, vec![7]);
    assert_eq!(b.newest_frame(), 0);
    assert_eq!(b.rollback_state(), RollbackState::Rolledback(0));
    assert_eq!(b.capacity(), 3);
    assert!(!b.is_initialized());
    assert!(b.is_quiescent());
    assert_eq!(b.world(), &vec![7]);
    assert!(b.snapshot(0).is_none());
}

#[test]
fn initialize_stores_frame_zero() {
    let b = counter_buffer(4);
    assert!(b.is_initialized());
    let s = b.snapshot(0).unwrap();
    assert_eq!(s.resources.get(COUNTER), Some(0));
    assert!(b.snapshot(1).is_none());
}

#[test]
fn quiescence_after_each_tick() {
    let mut b = counter_buffer(3);
    for n in 1..=7usize {
        let (simulated, _, rewound) = advance(&mut b);
        assert_eq!(b.rollback_state(), RollbackState::Rolledback(n));
        assert_eq!(b.newest_frame(), n);
        assert!(b.is_quiescent());
        assert_eq!(simulated, vec![n - 1]);
        assert!(rewound.is_empty());
        // the ring holds exactly the frames n-2 ..= n
        for f in 0..=n {
            assert_eq!(b.snapshot(f).is_some(), f + 3 > n, "frame {} at newest {}", f, n);
        }
    }
    assert_eq!(b.resource(COUNTER), Some(7));
}

#[test]
fn quiescent_tick_runs_one_step() {
    let mut b = counter_buffer(4);
    advance(&mut b);
    advance(&mut b);
    let (simulated, applied, _) = advance(&mut b);
    assert_eq!(simulated.len(), 1);
    assert!(applied.is_empty());
    // a second look at the loop finds nothing to do
    assert!(matches!(b.next_action(), Ok(ReplayAction::Quiescent)));
    assert_eq!(b.resource(COUNTER), Some(3));
}

#[test]
fn timeout_boundary() {
    let mut b = counter_buffer(4);
    for _ in 0..6 {
        advance(&mut b);
    }
    assert_eq!(b.newest_frame(), 6);
    assert_eq!(b.past_frame_change(2, Op::Mark(1)), Err(RollbackError::FrameTimeout));
    assert_eq!(b.rollback_state(), RollbackState::Rolledback(6));
    assert!(!b.has_pending_changes(2));
    assert_eq!(b.past_frame_change(3, Op::Mark(1)), Ok(()));
    assert_eq!(b.rollback_state(), RollbackState::Rollback(3));
    assert!(b.has_pending_changes(3));
}

#[test]
fn earliest_change_wins() {
    let mut b = counter_buffer(8);
    for _ in 0..6 {
        advance(&mut b);
    }
    assert_eq!(b.past_frame_change(5, Op::Mark(50)), Ok(()));
    assert_eq!(b.rollback_state(), RollbackState::Rollback(5));
    assert_eq!(b.past_frame_change(3, Op::Mark(30)), Ok(()));
    assert_eq!(b.rollback_state(), RollbackState::Rollback(3));
    let (simulated, applied, rewound) = advance(&mut b);
    assert_eq!(rewound, vec![3]);
    assert_eq!(simulated, vec![3, 4, 5, 6]);
    assert_eq!(applied, vec![(3, Op::Mark(30)), (5, Op::Mark(50))]);
    assert_eq!(b.world(), &vec![30, 50]);
    assert!(!b.has_pending_changes(3));
    assert!(!b.has_pending_changes(5));
}

#[test]
fn later_change_keeps_earlier_rewind() {
    let mut b = counter_buffer(8);
    for _ in 0..6 {
        advance(&mut b);
    }
    assert_eq!(b.past_frame_change(2, Op::Mark(2)), Ok(()));
    assert_eq!(b.past_frame_change(4, Op::Mark(4)), Ok(()));
    assert_eq!(b.rollback_state(), RollbackState::Rollback(2));
}

#[test]
fn changes_in_one_frame_keep_their_order() {
    let mut b = counter_buffer(8);
    for _ in 0..3 {
        advance(&mut b);
    }
    b.past_frame_change(1, Op::Mark(1)).unwrap();
    b.past_frame_change(1, Op::Mark(2)).unwrap();
    b.past_frame_change(1, Op::Mark(3)).unwrap();
    let (_, applied, _) = advance(&mut b);
    assert_eq!(applied, vec![(1, Op::Mark(1)), (1, Op::Mark(2)), (1, Op::Mark(3))]);
}

/// Runs `frames` ticks from scratch, with `op` applied at frame `k`.
fn from_scratch(frames: usize, k: usize, op: Op) -> (World, Option<i64>) {
    let mut b = counter_buffer(16);
    for _ in 0..frames {
        if b.newest_frame() == k {
            b.past_frame_change(k, op).unwrap();
        }
        advance(&mut b);
    }
    (b.world().clone(), b.resource(COUNTER))
}

#[test]
fn rewind_matches_run_from_scratch() {
    for k in 0..=5usize {
        let mut b = counter_buffer(16);
        for _ in 0..5 {
            advance(&mut b);
        }
        b.past_frame_change(k, Op::SetCounter(100)).unwrap();
        advance(&mut b);
        let replayed = (b.world().clone(), b.resource(COUNTER));
        assert_eq!(replayed, from_scratch(6, k, Op::SetCounter(100)), "k = {}", k);
    }
}

#[test]
fn counter_scenario_with_capacity_four() {
    let mut b = counter_buffer(4);
    for _ in 0..5 {
        advance(&mut b);
    }
    assert_eq!(b.resource(COUNTER), Some(5));
    assert_eq!(b.past_frame_change(2, Op::SetCounter(100)), Ok(()));
    let (simulated, _, rewound) = advance(&mut b);
    assert_eq!(rewound, vec![2]);
    assert_eq!(simulated, vec![2, 3, 4, 5]);
    // 100 is set at the start of frame 2, then frames 2, 3, 4 and 5 each add one
    assert_eq!(b.resource(COUNTER), Some(104));
    assert_eq!(b.newest_frame(), 6);
}

#[test]
fn override_value_wins_over_simulation() {
    let mut b: Buffer = RollbackBuffer::new(8, Vec::new());
    b.track_resource(COUNTER, 0);
    b.override_resource(INPUT, 0);
    b.initialize(Vec::new());
    for _ in 0..4 {
        advance(&mut b);
    }
    // first pass: nothing was stored for the frames ahead, so the step's values stand
    assert_eq!(b.resource(INPUT), Some(40));
    assert_eq!(b.snapshot(2).unwrap().resources.get(INPUT), Some(20));
    // replay from frame 1 with the counter and the input changed at frame 1
    b.past_frame_change(1, Op::SetCounter(50)).unwrap();
    b.past_frame_change(1, Op::SetInput(500)).unwrap();
    advance(&mut b);
    // the overridden input ends each replayed frame with its stored value ...
    assert_eq!(b.snapshot(2).unwrap().resources.get(INPUT), Some(20));
    assert_eq!(b.snapshot(3).unwrap().resources.get(INPUT), Some(30));
    assert_eq!(b.snapshot(4).unwrap().resources.get(INPUT), Some(40));
    // ... the new frame had no stored value, so it is simulated from there
    assert_eq!(b.resource(INPUT), Some(50));
    // while the counter, only in the rollback list, keeps the simulated values
    assert_eq!(b.snapshot(2).unwrap().resources.get(COUNTER), Some(51));
    assert_eq!(b.resource(COUNTER), Some(54));
}

#[test]
fn rewinding_twice_to_one_frame_finds_the_slot_empty() {
    let mut b = counter_buffer(8);
    for _ in 0..4 {
        advance(&mut b);
    }
    b.past_frame_change(2, Op::Mark(1)).unwrap();
    advance(&mut b);
    assert!(b.snapshot(2).is_none());
    b.past_frame_change(2, Op::Mark(2)).unwrap();
    b.request_tick();
    assert!(matches!(b.next_action(), Err(RollbackError::SlotEmpty)));
    assert_eq!(b.rollback_state(), RollbackState::Rollback(2));
}

#[test]
fn rewind_restores_the_snapshot_and_empties_its_slot() {
    let mut b = counter_buffer(8);
    for _ in 0..3 {
        advance(&mut b);
    }
    b.past_frame_change(1, Op::Mark(9)).unwrap();
    assert!(matches!(b.next_action(), Ok(ReplayAction::Rewound(1))));
    assert_eq!(b.resource(COUNTER), Some(1));
    assert!(b.snapshot(1).is_none());
    assert_eq!(b.rollback_state(), RollbackState::Rolledback(1));
    assert_eq!(b.frame_in_flight(), None);
    match b.next_action() {
        Ok(ReplayAction::Simulate { frame, changes }) => {
            assert_eq!(frame, 1);
            assert_eq!(changes, vec![Op::Mark(9)]);
        }
        _ => panic!("expected a frame to simulate"),
    }
    assert_eq!(b.frame_in_flight(), Some(1));
}

#[test]
fn change_at_newest_frame_is_applied_at_next_tick() {
    let mut b = counter_buffer(4);
    advance(&mut b);
    advance(&mut b);
    b.past_frame_change(2, Op::SetCounter(10)).unwrap();
    let (simulated, applied, rewound) = advance(&mut b);
    assert_eq!(rewound, vec![2]);
    assert_eq!(simulated, vec![2]);
    assert_eq!(applied, vec![(2, Op::SetCounter(10))]);
    assert_eq!(b.resource(COUNTER), Some(11));
}

#[test]
fn capacity_one_keeps_only_the_newest_frame() {
    let mut b = counter_buffer(1);
    advance(&mut b);
    advance(&mut b);
    assert_eq!(b.past_frame_change(1, Op::Mark(1)), Err(RollbackError::FrameTimeout));
    assert_eq!(b.past_frame_change(2, Op::Mark(1)), Ok(()));
    let (simulated, _, rewound) = advance(&mut b);
    assert_eq!(rewound, vec![2]);
    assert_eq!(simulated, vec![2]);
}

#[test]
fn change_at_future_frame_waits_for_it() {
    let mut b = counter_buffer(4);
    advance(&mut b);
    assert_eq!(b.past_frame_change(3, Op::Mark(3)), Ok(()));
    assert_eq!(b.rollback_state(), RollbackState::Rolledback(1));
    assert!(b.has_pending_changes(3));
    let (_, applied, rewound) = advance(&mut b);
    assert!(applied.is_empty());
    assert!(rewound.is_empty());
    advance(&mut b);
    let (simulated, applied, rewound) = advance(&mut b);
    assert!(rewound.is_empty());
    assert_eq!(simulated, vec![3]);
    assert_eq!(applied, vec![(3, Op::Mark(3))]);
    assert_eq!(b.world(), &vec![3]);
}
