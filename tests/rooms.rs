use videoroom::{
    ConnectionAction, ConnectionEvent, ConnectionState, ParticipantConnection, RoomError,
    RoomsRegistry, WorkerPool,
};

fn joined(
    registry: &mut RoomsRegistry,
    pool: &mut WorkerPool,
    room: videoroom::RoomHandle,
    participant: u64,
) -> ParticipantConnection {
    let mut c = ParticipantConnection::new(room, participant);
    assert_eq!(c.handle_event(registry, pool, ConnectionEvent::Upgraded), ConnectionAction::Negotiate);
    assert_eq!(c.state, ConnectionState::Negotiating);
    assert_eq!(c.handle_event(registry, pool, ConnectionEvent::Negotiated), ConnectionAction::Relay);
    assert_eq!(c.state, ConnectionState::Joined);
    c
}

#[test]
fn fresh_room_then_second_client_by_id() {
    let mut pool = WorkerPool::new(2);
    let mut reg = RoomsRegistry::new();
    let h1 = reg.create_room(&mut pool, 0xabcd).unwrap();
    assert_eq!(h1.id, 0xabcd);
    let _c1 = joined(&mut reg, &mut pool, h1, 1);
    let h2 = reg.get_or_create_room(&mut pool, h1.id).unwrap();
    assert_eq!(h2, h1);
    let _c2 = joined(&mut reg, &mut pool, h2, 2);
    assert_eq!(reg.participant_count(h1.id), Some(2));
    assert_eq!(reg.room_count(), 1);
    assert_eq!(pool.loads, vec![1, 0]);
}

#[test]
fn unknown_id_creates_room() {
    let mut pool = WorkerPool::new(1);
    let mut reg = RoomsRegistry::new();
    assert_eq!(reg.lookup(42), None);
    let h = reg.get_or_create_room(&mut pool, 42).unwrap();
    assert_eq!(h.id, 42);
    assert_eq!(reg.lookup(42), Some(h));
    assert_eq!(reg.participant_count(42), Some(0));
    let _c = joined(&mut reg, &mut pool, h, 7);
    assert_eq!(reg.participant_count(42), Some(1));
}

#[test]
fn last_participant_leaves_room_is_removed() {
    let mut pool = WorkerPool::new(1);
    let mut reg = RoomsRegistry::new();
    let h = reg.get_or_create_room(&mut pool, 5).unwrap();
    let mut c = joined(&mut reg, &mut pool, h, 1);
    assert_eq!(pool.loads, vec![1]);
    assert_eq!(c.handle_event(&mut reg, &mut pool, ConnectionEvent::Disconnected), ConnectionAction::Release);
    assert_eq!(c.state, ConnectionState::Closing);
    assert_eq!(reg.lookup(5), None);
    assert_eq!(reg.room_count(), 0);
    assert_eq!(pool.loads, vec![0]);
    assert_eq!(c.handle_event(&mut reg, &mut pool, ConnectionEvent::Released), ConnectionAction::Idle);
    assert_eq!(c.state, ConnectionState::Closed);

    let fresh = reg.get_or_create_room(&mut pool, 5).unwrap();
    assert_eq!(fresh.id, 5);
    assert_ne!(fresh, h);
    assert_eq!(reg.participant_count(5), Some(0));
    assert!(!reg.complete_join(h, 2));
    assert_eq!(reg.participant_count(5), Some(0));
}

#[test]
fn no_worker_leaves_no_room() {
    let mut pool = WorkerPool::new(0);
    let mut reg = RoomsRegistry::new();
    assert_eq!(reg.get_or_create_room(&mut pool, 9), Err(RoomError::NoWorker));
    assert_eq!(reg.create_room(&mut pool, 9), Err(RoomError::NoWorker));
    assert_eq!(reg.lookup(9), None);
    assert_eq!(reg.room_count(), 0);
}

#[test]
fn same_new_id_twice_gives_one_room() {
    let mut pool = WorkerPool::new(3);
    let mut reg = RoomsRegistry::new();
    let a = reg.get_or_create_room(&mut pool, 11).unwrap();
    let b = reg.get_or_create_room(&mut pool, 11).unwrap();
    assert_eq!(a, b);
    assert_eq!(reg.room_count(), 1);
    assert_eq!(reg.rooms.get(&11).unwrap().pending, 2);
    assert_eq!(pool.loads, vec![1, 0, 0]);
}

#[test]
fn count_follows_joins_and_leaves() {
    let mut pool = WorkerPool::new(1);
    let mut reg = RoomsRegistry::new();
    let h = reg.get_or_create_room(&mut pool, 1).unwrap();
    for _ in 0..2 {
        assert_eq!(reg.get_or_create_room(&mut pool, 1), Ok(h));
    }
    assert!(reg.complete_join(h, 10));
    assert!(reg.complete_join(h, 20));
    assert!(reg.complete_join(h, 30));
    assert!(!reg.complete_join(h, 40));
    assert_eq!(reg.participant_count(1), Some(3));
    assert!(reg.leave(&mut pool, h, 20));
    assert_eq!(reg.participant_count(1), Some(2));
    assert!(reg.leave(&mut pool, h, 10));
    assert_eq!(reg.participant_count(1), Some(1));
    assert!(reg.leave(&mut pool, h, 30));
    assert_eq!(reg.participant_count(1), None);
}

#[test]
fn leaving_twice_is_a_no_op() {
    let mut pool = WorkerPool::new(1);
    let mut reg = RoomsRegistry::new();
    let h = reg.get_or_create_room(&mut pool, 3).unwrap();
    reg.get_or_create_room(&mut pool, 3).unwrap();
    assert!(reg.complete_join(h, 1));
    assert!(reg.complete_join(h, 2));
    assert!(reg.leave(&mut pool, h, 1));
    assert!(!reg.leave(&mut pool, h, 1));
    assert_eq!(reg.participant_count(3), Some(1));
    assert_eq!(pool.loads, vec![1]);
}

#[test]
fn same_participant_cannot_join_twice() {
    let mut pool = WorkerPool::new(1);
    let mut reg = RoomsRegistry::new();
    let h = reg.get_or_create_room(&mut pool, 3).unwrap();
    reg.get_or_create_room(&mut pool, 3).unwrap();
    assert!(reg.complete_join(h, 1));
    assert!(!reg.complete_join(h, 1));
    assert_eq!(reg.participant_count(3), Some(1));
    assert_eq!(reg.rooms.get(&3).unwrap().pending, 1);
}

#[test]
fn failed_negotiation_is_not_counted_and_frees_room() {
    let mut pool = WorkerPool::new(1);
    let mut reg = RoomsRegistry::new();
    let h = reg.get_or_create_room(&mut pool, 8).unwrap();
    let mut c = ParticipantConnection::new(h, 1);
    c.handle_event(&mut reg, &mut pool, ConnectionEvent::Upgraded);
    assert_eq!(c.handle_event(&mut reg, &mut pool, ConnectionEvent::EngineFailed), ConnectionAction::Refuse);
    assert_eq!(c.state, ConnectionState::Closed);
    assert_eq!(reg.lookup(8), None);
    assert_eq!(pool.loads, vec![0]);
}

#[test]
fn abandoned_join_keeps_occupied_room() {
    let mut pool = WorkerPool::new(1);
    let mut reg = RoomsRegistry::new();
    let h = reg.get_or_create_room(&mut pool, 8).unwrap();
    let _c1 = joined(&mut reg, &mut pool, h, 1);
    reg.get_or_create_room(&mut pool, 8).unwrap();
    let mut c2 = ParticipantConnection::new(h, 2);
    assert_eq!(c2.handle_event(&mut reg, &mut pool, ConnectionEvent::Disconnected), ConnectionAction::Refuse);
    assert_eq!(reg.participant_count(8), Some(1));
    assert_eq!(reg.rooms.get(&8).unwrap().pending, 0);
    assert!(!reg.abort_join(&mut pool, h));
}

#[test]
fn join_racing_last_leave_keeps_room() {
    let mut pool = WorkerPool::new(1);
    let mut reg = RoomsRegistry::new();
    let h = reg.get_or_create_room(&mut pool, 4).unwrap();
    let mut c1 = joined(&mut reg, &mut pool, h, 1);
    let again = reg.get_or_create_room(&mut pool, 4).unwrap();
    assert_eq!(c1.handle_event(&mut reg, &mut pool, ConnectionEvent::Disconnected), ConnectionAction::Release);
    assert_eq!(reg.lookup(4), Some(h));
    assert_eq!(reg.participant_count(4), Some(0));
    let _c2 = joined(&mut reg, &mut pool, again, 2);
    assert_eq!(reg.participant_count(4), Some(1));
}

#[test]
fn duplicate_participant_connection_is_refused() {
    let mut pool = WorkerPool::new(1);
    let mut reg = RoomsRegistry::new();
    let h = reg.get_or_create_room(&mut pool, 4).unwrap();
    let _c1 = joined(&mut reg, &mut pool, h, 1);
    reg.get_or_create_room(&mut pool, 4).unwrap();
    let mut c2 = ParticipantConnection::new(h, 1);
    c2.handle_event(&mut reg, &mut pool, ConnectionEvent::Upgraded);
    assert_eq!(c2.handle_event(&mut reg, &mut pool, ConnectionEvent::Negotiated), ConnectionAction::Refuse);
    assert_eq!(c2.state, ConnectionState::Closed);
    assert_eq!(reg.participant_count(4), Some(1));
    assert_eq!(reg.rooms.get(&4).unwrap().pending, 0);
}

#[test]
fn engine_failure_while_joined_leaves_room() {
    let mut pool = WorkerPool::new(1);
    let mut reg = RoomsRegistry::new();
    let h = reg.get_or_create_room(&mut pool, 4).unwrap();
    let mut c = joined(&mut reg, &mut pool, h, 1);
    assert_eq!(c.handle_event(&mut reg, &mut pool, ConnectionEvent::EngineFailed), ConnectionAction::Release);
    assert_eq!(c.state, ConnectionState::Closing);
    assert_eq!(reg.room_count(), 0);
}

#[test]
fn events_out_of_place_change_nothing() {
    let mut pool = WorkerPool::new(1);
    let mut reg = RoomsRegistry::new();
    let h = reg.get_or_create_room(&mut pool, 4).unwrap();
    let mut c = ParticipantConnection::new(h, 1);
    assert_eq!(c.handle_event(&mut reg, &mut pool, ConnectionEvent::Negotiated), ConnectionAction::Idle);
    assert_eq!(c.handle_event(&mut reg, &mut pool, ConnectionEvent::Released), ConnectionAction::Idle);
    assert_eq!(c.state, ConnectionState::Connecting);
    assert_eq!(reg.rooms.get(&4).unwrap().pending, 1);
    c.handle_event(&mut reg, &mut pool, ConnectionEvent::Disconnected);
    assert_eq!(c.state, ConnectionState::Closed);
    assert_eq!(c.handle_event(&mut reg, &mut pool, ConnectionEvent::Upgraded), ConnectionAction::Idle);
    assert_eq!(c.state, ConnectionState::Closed);
    assert_eq!(reg.room_count(), 0);
}

#[test]
fn create_room_refuses_live_id() {
    let mut pool = WorkerPool::new(1);
    let mut reg = RoomsRegistry::new();
    let h = reg.create_room(&mut pool, 77).unwrap();
    assert_eq!(reg.create_room(&mut pool, 77), Err(RoomError::IdInUse));
    assert_eq!(reg.rooms.get(&77).unwrap().pending, 1);
    assert_eq!(pool.loads, vec![1]);
    assert_eq!(reg.lookup(77), Some(h));
}

#[test]
fn exhausted_serials_and_pending_are_reported() {
    let mut pool = WorkerPool::new(1);
    let mut reg = RoomsRegistry::new();
    let h = reg.get_or_create_room(&mut pool, 1).unwrap();
    reg.next_serial = u64::MAX;
    assert_eq!(reg.get_or_create_room(&mut pool, 2), Err(RoomError::Saturated));
    assert_eq!(pool.loads, vec![1]);
    reg.rooms.get_mut(&1).unwrap().pending = u64::MAX;
    assert_eq!(reg.get_or_create_room(&mut pool, 1), Err(RoomError::Saturated));
    assert_eq!(reg.lookup(1), Some(h));
}

#[test]
fn pool_hands_out_least_loaded_worker() {
    let mut pool = WorkerPool::new(3);
    assert_eq!(pool.size(), 3);
    assert_eq!(pool.acquire_worker(), Some(0));
    assert_eq!(pool.acquire_worker(), Some(1));
    assert_eq!(pool.acquire_worker(), Some(2));
    assert_eq!(pool.acquire_worker(), Some(0));
    assert_eq!(pool.loads, vec![2, 1, 1]);
    pool.release_worker(1);
    assert_eq!(pool.acquire_worker(), Some(1));
    pool.release_worker(9);
    assert_eq!(pool.loads, vec![2, 1, 1]);
    let mut empty = WorkerPool::new(0);
    assert_eq!(empty.acquire_worker(), None);
}

#[test]
fn rooms_spread_over_workers() {
    let mut pool = WorkerPool::new(2);
    let mut reg = RoomsRegistry::new();
    let a = reg.get_or_create_room(&mut pool, 1).unwrap();
    let b = reg.get_or_create_room(&mut pool, 2).unwrap();
    let c = reg.get_or_create_room(&mut pool, 3).unwrap();
    assert_eq!((a.worker, b.worker, c.worker), (0, 1, 0));
    assert_eq!((a.serial, b.serial, c.serial), (0, 1, 2));
    assert!(reg.abort_join(&mut pool, a));
    assert_eq!(pool.loads, vec![1, 1]);
}
