use rollback_buffer::{
    AccessError, AccessKey, DeferredChangeQueue, FetchLQuery, FetchLRes, FetchLResMut, ResourceSet,
    ResourceTrackRegistry, RollbackBuffer, RollbackError, RollbackState, SnapshotRing, SystemAccess,
    TickSignal,
};

#[test]
fn ring_stores_by_frame_modulo_capacity() {
    let mut ring: SnapshotRing<&str> = SnapshotRing::new(3);
    assert_eq!(ring.capacity(), 3);
    ring.store(1, "one");
    ring.store(4, "four");
    assert_eq!(ring.get(1), None);
    assert_eq!(ring.get(4), Some(&"four"));
    assert_eq!(ring.take(1), Err(RollbackError::SlotEmpty));
    assert_eq!(ring.take(4), Ok("four"));
    assert_eq!(ring.get(4), None);
    assert_eq!(ring.take(4), Err(RollbackError::SlotEmpty));
}

#[test]
fn queue_batches_by_frame() {
    let mut q: DeferredChangeQueue<u8> = DeferredChangeQueue::new();
    assert!(!q.contains(3));
    q.push(3, 1);
    q.push(3, 2);
    q.push(5, 9);
    assert!(q.contains(3));
    assert_eq!(q.take(3), vec![1, 2]);
    assert!(!q.contains(3));
    assert_eq!(q.take(3), Vec::<u8>::new());
    assert_eq!(q.take(5), vec![9]);
}

#[test]
fn registry_keeps_order_and_overrides_are_tracked() {
    let mut r = ResourceTrackRegistry::new();
    r.track(4);
    r.track_override(2);
    r.track(7);
    assert_eq!(r.rollback_ids(), &vec![4, 2, 7]);
    assert_eq!(r.override_ids(), &vec![2]);
}

#[test]
fn resource_set_restrict_and_override() {
    let mut live: ResourceSet<i32> = ResourceSet::new();
    live.insert(1, 10);
    live.insert(2, 20);
    live.insert(3, 30);
    let copy = live.restrict(&vec![1, 3]).ok().unwrap();
    assert_eq!(copy.get(1), Some(10));
    assert_eq!(copy.get(2), None);
    assert_eq!(copy.get(3), Some(30));
    assert!(matches!(live.restrict(&vec![1, 9]), Err(RollbackError::ResourceNotFound)));
    let mut past: ResourceSet<i32> = ResourceSet::new();
    past.insert(2, -2);
    past.insert(3, -3);
    live.override_from(&past, &vec![1, 2]);
    assert_eq!(live.get(1), Some(10));
    assert_eq!(live.get(2), Some(-2));
    assert_eq!(live.get(3), Some(30));
    assert!(live.contains(3));
}

#[test]
fn state_schedule_keeps_earliest_target() {
    assert_eq!(RollbackState::Rolledback(9).schedule(4), RollbackState::Rollback(4));
    assert_eq!(RollbackState::Rollback(4).schedule(6), RollbackState::Rollback(4));
    assert_eq!(RollbackState::Rollback(4).schedule(2), RollbackState::Rollback(2));
    assert!(RollbackState::Rolledback(3).is_caught_up(3));
    assert!(!RollbackState::Rollback(3).is_caught_up(3));
}

#[test]
fn read_conflicts_with_write_of_same_resource() {
    let mut access = SystemAccess::new();
    assert_eq!(FetchLResMut { id: 1 }.init(&mut access), Ok(()));
    assert_eq!(FetchLRes { id: 1 }.init(&mut access), Err(AccessError::ConflictingResource(1)));
    assert_eq!(FetchLRes { id: 2 }.init(&mut access), Ok(()));
    assert_eq!(FetchLResMut { id: 2 }.init(&mut access), Err(AccessError::ConflictingResource(2)));
    assert!(access.is_read(AccessKey::Buffer));
    assert!(access.is_write(AccessKey::Logical(1)));
    assert!(!access.is_write(AccessKey::Logical(2)));
}

#[test]
fn access_refused_while_buffer_is_written() {
    let mut access = SystemAccess::new();
    access.add_write(AccessKey::Buffer);
    assert_eq!(FetchLRes { id: 1 }.init(&mut access), Err(AccessError::BufferMutated));
    assert_eq!(FetchLResMut { id: 1 }.init(&mut access), Err(AccessError::BufferMutated));
    FetchLQuery.init(&mut access);
    assert_eq!(FetchLQuery.get_param(&access), Err(AccessError::BufferMutated));
    let clean = SystemAccess::new();
    assert_eq!(FetchLQuery.get_param(&clean), Ok(()));
}

#[test]
fn resource_params_read_and_write_live_state() {
    let mut b: RollbackBuffer<(), i64, ()> = RollbackBuffer::new(2, ());
    b.track_resource(5, 1);
    assert_eq!(FetchLRes { id: 5 }.get_param(&b), Some(1));
    FetchLResMut { id: 5 }.set_param(&mut b, 8);
    assert_eq!(FetchLRes { id: 5 }.get_param(&b), Some(8));
    assert_eq!(FetchLRes { id: 6 }.get_param(&b), None);
}

#[test]
fn tick_signal_decides_tick_and_recheck() {
    assert!(TickSignal::Yes.requests_tick());
    assert!(!TickSignal::Yes.asks_again());
    assert!(TickSignal::YesAndCheckAgain.requests_tick());
    assert!(TickSignal::YesAndCheckAgain.asks_again());
    assert!(!TickSignal::No.requests_tick());
    assert!(!TickSignal::NoAndCheckAgain.requests_tick());
    assert!(!TickSignal::NoAndCheckAgain.asks_again());
}
