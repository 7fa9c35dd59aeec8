use std::collections::HashMap;
use std::collections::HashSet;
use vstd::prelude::*;

use crate::pool::{is_least_loaded, saturating_dec, saturating_inc, WorkerPool};
use crate::room::{handle_of, is_idle, ParticipantId, Room, RoomError, RoomHandle, RoomId};

verus! {

broadcast use vstd::std_specs::hash::group_hash_axioms;

/// All live rooms, by id. At most one room per id; every room in it has a
/// participant or a join in flight.
pub struct RoomsRegistry {
    pub rooms: HashMap<RoomId, Room>,
    /// Serial that the next room created will get.
    pub next_serial: u64,
}

/// Every room stands under its own id, has a serial already handed out, is
/// not idle, and has finitely many participants.
pub open spec fn room_ok(r: Room, id: RoomId, next_serial: u64) -> bool {
    &&& r.id == id
    &&& r.serial < next_serial
    &&& !is_idle(r)
    &&& r.participants@.finite()
}

/// `b` is `a` with other participants and another count of pending joins.
pub open spec fn same_room(a: Room, b: Room) -> bool {
    a.id == b.id && a.serial == b.serial && a.worker == b.worker
}

/// `new` differs from `old` at most under `id`.
pub open spec fn same_elsewhere(old: Map<RoomId, Room>, new: Map<RoomId, Room>, id: RoomId) -> bool {
    forall|k: RoomId| k != id ==> (#[trigger] new.contains_key(k) <==> old.contains_key(k))
        && (new.contains_key(k) ==> new[k] == old[k])
}

/// `h` names the room that is live under its id now.
pub open spec fn is_current(reg: Map<RoomId, Room>, h: RoomHandle) -> bool {
    reg.contains_key(h.id) && handle_of(reg[h.id]) == h
}

/// `h` names a live room in which a join is in flight.
pub open spec fn holds_reservation(reg: Map<RoomId, Room>, h: RoomHandle) -> bool {
    is_current(reg, h) && reg[h.id].pending > 0
}

/// What creating a room under `id` did, given that `id` was free.
pub open spec fn create_outcome(
    old: RoomsRegistry,
    pool0: Seq<u64>,
    id: RoomId,
    r: Result<RoomHandle, RoomError>,
    new: RoomsRegistry,
    pool1: Seq<u64>,
) -> bool {
    if pool0.len() == 0 || old.next_serial == u64::MAX {
        &&& r == Err::<RoomHandle, RoomError>(
            if pool0.len() == 0 { RoomError::NoWorker } else { RoomError::Saturated },
        )
        &&& new@ == old@
        &&& new.next_serial == old.next_serial
        &&& pool1 == pool0
    } else {
        &&& r is Ok
        &&& r->Ok_0.id == id
        &&& r->Ok_0.serial == old.next_serial
        &&& is_least_loaded(pool0, r->Ok_0.worker as int)
        &&& pool1 == pool0.update(
            r->Ok_0.worker as int,
            saturating_inc(pool0[r->Ok_0.worker as int]),
        )
        &&& new.next_serial == old.next_serial + 1
        &&& new@.contains_key(id)
        &&& handle_of(new@[id]) == r->Ok_0
        &&& new@[id].participants@.is_empty()
        &&& new@[id].pending == 1
        &&& same_elsewhere(old@, new@, id)
    }
}

/// What `get_or_create_room` did.
pub open spec fn get_or_create_outcome(
    old: RoomsRegistry,
    pool0: Seq<u64>,
    id: RoomId,
    r: Result<RoomHandle, RoomError>,
    new: RoomsRegistry,
    pool1: Seq<u64>,
) -> bool {
    if old@.contains_key(id) {
        let room = old@[id];
        &&& pool1 == pool0
        &&& new.next_serial == old.next_serial
        &&& if room.pending < u64::MAX {
            &&& r == Ok::<RoomHandle, RoomError>(handle_of(room))
            &&& new@.contains_key(id)
            &&& same_room(new@[id], room)
            &&& new@[id].participants@ == room.participants@
            &&& new@[id].pending == room.pending + 1
            &&& same_elsewhere(old@, new@, id)
        } else {
            r == Err::<RoomHandle, RoomError>(RoomError::Saturated) && new@ == old@
        }
    } else {
        create_outcome(old, pool0, id, r, new, pool1)
    }
}

/// `pool` after the room on worker `w` is gone.
pub open spec fn released(pool: Seq<u64>, w: usize) -> Seq<u64> {
    if w < pool.len() {
        pool.update(w as int, saturating_dec(pool[w as int]))
    } else {
        pool
    }
}

/// The room under `id` was left with `parts` and `pending`: it is removed,
/// and its worker released, exactly when that leaves it idle.
pub open spec fn settled(
    old: RoomsRegistry,
    pool0: Seq<u64>,
    id: RoomId,
    parts: Set<ParticipantId>,
    pending: u64,
    new: RoomsRegistry,
    pool1: Seq<u64>,
) -> bool {
    &&& new.next_serial == old.next_serial
    &&& if parts.is_empty() && pending == 0 {
        new@ == old@.remove(id) && pool1 == released(pool0, old@[id].worker)
    } else {
        &&& new@.contains_key(id)
        &&& same_room(new@[id], old@[id])
        &&& new@[id].participants@ == parts
        &&& new@[id].pending == pending
        &&& same_elsewhere(old@, new@, id)
        &&& pool1 == pool0
    }
}

/// What `complete_join` did.
pub open spec fn join_outcome(
    old: RoomsRegistry,
    h: RoomHandle,
    p: ParticipantId,
    ok: bool,
    new: RoomsRegistry,
) -> bool {
    &&& ok == (holds_reservation(old@, h) && !old@[h.id].participants@.contains(p))
    &&& new.next_serial == old.next_serial
    &&& if ok {
        &&& new@.contains_key(h.id)
        &&& same_room(new@[h.id], old@[h.id])
        &&& new@[h.id].participants@ == old@[h.id].participants@.insert(p)
        &&& new@[h.id].pending == old@[h.id].pending - 1
        &&& same_elsewhere(old@, new@, h.id)
    } else {
        new@ == old@
    }
}

/// What `abort_join` did.
pub open spec fn abort_outcome(
    old: RoomsRegistry,
    pool0: Seq<u64>,
    h: RoomHandle,
    ok: bool,
    new: RoomsRegistry,
    pool1: Seq<u64>,
) -> bool {
    &&& ok == holds_reservation(old@, h)
    &&& ok ==> settled(
        old,
        pool0,
        h.id,
        old@[h.id].participants@,
        (old@[h.id].pending - 1) as u64,
        new,
        pool1,
    )
    &&& !ok ==> new@ == old@ && new.next_serial == old.next_serial && pool1 == pool0
}

/// What `leave` did.
pub open spec fn leave_outcome(
    old: RoomsRegistry,
    pool0: Seq<u64>,
    h: RoomHandle,
    p: ParticipantId,
    ok: bool,
    new: RoomsRegistry,
    pool1: Seq<u64>,
) -> bool {
    &&& ok == (is_current(old@, h) && old@[h.id].participants@.contains(p))
    &&& ok ==> settled(
        old,
        pool0,
        h.id,
        old@[h.id].participants@.remove(p),
        old@[h.id].pending,
        new,
        pool1,
    )
    &&& !ok ==> new@ == old@ && new.next_serial == old.next_serial && pool1 == pool0
}

impl RoomsRegistry {
    pub open spec fn view(&self) -> Map<RoomId, Room> {
        self.rooms@
    }

    pub open spec fn wf(&self) -> bool {
        forall|id: RoomId| #[trigger] self@.contains_key(id) ==> room_ok(self@[id], id, self.next_serial)
    }

    /// An empty registry.
    pub fn new() -> (r: Self)
        ensures
            r.wf(),
            r@ == Map::<RoomId, Room>::empty(),
            r.next_serial == 0,
    {
        RoomsRegistry { rooms: HashMap::new(), next_serial: 0 }
    }

    /// The room live under `id`, if any.
    pub fn lookup(&self, id: RoomId) -> (r: Option<RoomHandle>)
        ensures
            r == (if self@.contains_key(id) { Some(handle_of(self@[id])) } else { None }),
    {
        match self.rooms.get(&id) {
            Some(room) => Some(room.handle()),
            None => None,
        }
    }

    /// Number of participants that completed their join in the room under
    /// `id`, if it is live.
    pub fn participant_count(&self, id: RoomId) -> (r: Option<usize>)
        ensures
            r == (if self@.contains_key(id) {
                Some(self@[id].participants@.len() as usize)
            } else {
                None
            }),
    {
        match self.rooms.get(&id) {
            Some(room) => Some(room.participant_count()),
            None => None,
        }
    }

    /// Number of live rooms.
    pub fn room_count(&self) -> (r: usize)
        ensures
            r == self@.len(),
    {
        self.rooms.len()
    }

    fn insert_new_room(&mut self, pool: &mut WorkerPool, id: RoomId) -> (r: Result<RoomHandle, RoomError>)
        requires
            old(self).wf(),
            !old(self)@.contains_key(id),
        ensures
            final(self).wf(),
            create_outcome(*old(self), old(pool)@, id, r, *final(self), final(pool)@),
    {
        if pool.size() == 0 {
            return Err(RoomError::NoWorker);
        }
        if self.next_serial == u64::MAX {
            return Err(RoomError::Saturated);
        }
        let worker = match pool.acquire_worker() {
            Some(w) => w,
            None => {
                return Err(RoomError::NoWorker);
            },
        };
        let serial = self.next_serial;
        let room = Room { id, serial, worker, participants: HashSet::new(), pending: 1 };
        let h = room.handle();
        self.rooms.insert(id, room);
        self.next_serial = serial + 1;
        Ok(h)
    }

    /// Resolves `id` to its live room, creating the room (with a worker from
    /// `pool`) when there is none, and reserves a place in it for one joining
    /// participant. Concurrent callers share one registry through `&mut`, so
    /// the check for a live room and the insertion of a new one are a single
    /// step.
    pub fn get_or_create_room(&mut self, pool: &mut WorkerPool, id: RoomId) -> (r: Result<
        RoomHandle,
        RoomError,
    >)
        requires
            old(self).wf(),
        ensures
            final(self).wf(),
            get_or_create_outcome(*old(self), old(pool)@, id, r, *final(self), final(pool)@),
    {
        match self.rooms.remove(&id) {
            Some(mut room) => {
                if room.pending < u64::MAX {
                    proof {
                        assert(room == old(self)@[id]);
                    }
                    room.pending = room.pending + 1;
                    let h = room.handle();
                    self.rooms.insert(id, room);
                    proof {
                        assert(self@ =~= old(self)@.insert(id, room));
                    }
                    Ok(h)
                } else {
                    self.rooms.insert(id, room);
                    proof {
                        assert(self@ =~= old(self)@);
                    }
                    Err(RoomError::Saturated)
                }
            },
            None => {
                proof {
                    assert(self@ =~= old(self)@);
                }
                self.insert_new_room(pool, id)
            },
        }
    }

    /// Creates a room under the fresh id `candidate` and reserves a place in
    /// it; fails with `IdInUse` when `candidate` is live already, in which
    /// case the caller draws another id.
    pub fn create_room(&mut self, pool: &mut WorkerPool, candidate: RoomId) -> (r: Result<
        RoomHandle,
        RoomError,
    >)
        requires
            old(self).wf(),
        ensures
            final(self).wf(),
            old(self)@.contains_key(candidate) ==> {
                &&& r == Err::<RoomHandle, RoomError>(RoomError::IdInUse)
                &&& final(self)@ == old(self)@
                &&& final(self).next_serial == old(self).next_serial
                &&& final(pool)@ == old(pool)@
            },
            !old(self)@.contains_key(candidate) ==> create_outcome(
                *old(self),
                old(pool)@,
                candidate,
                r,
                *final(self),
                final(pool)@,
            ),
    {
        if self.rooms.contains_key(&candidate) {
            return Err(RoomError::IdInUse);
        }
        self.insert_new_room(pool, candidate)
    }
    /// Puts `room`, taken out of the registry, back unless it is idle; an
    /// idle room is dropped and its worker released.
    fn settle(&mut self, pool: &mut WorkerPool, room: Room, Ghost(orig): Ghost<RoomsRegistry>)
        requires
            orig.wf(),
            orig@.contains_key(room.id),
            same_room(room, orig@[room.id]),
            room.participants@.finite(),
            old(self)@ == orig@.remove(room.id),
            old(self).next_serial == orig.next_serial,
        ensures
            final(self).wf(),
            settled(orig, old(pool)@, room.id, room.participants@, room.pending, *final(self), final(pool)@),
    {
        let id = room.id;
        if room.participants.is_empty() && room.pending == 0 {
            pool.release_worker(room.worker);
        } else {
            self.rooms.insert(id, room);
        }
    }

    /// Completes the join reserved under `h`: `p` becomes a participant.
    /// Fails, changing nothing, when `h` holds no reservation in a live room
    /// or `p` is in the room already.
    pub fn complete_join(&mut self, h: RoomHandle, p: ParticipantId) -> (ok: bool)
        requires
            old(self).wf(),
        ensures
            final(self).wf(),
            join_outcome(*old(self), h, p, ok, *final(self)),
    {
        match self.rooms.remove(&h.id) {
            None => {
                proof {
                    assert(self@ =~= old(self)@);
                }
                false
            },
            Some(mut room) => {
                proof {
                    assert(room == old(self)@[h.id]);
                }
                if room.handle() != h || room.pending == 0 || room.participants.contains(&p) {
                    self.rooms.insert(h.id, room);
                    proof {
                        assert(self@ =~= old(self)@);
                    }
                    false
                } else {
                    room.pending = room.pending - 1;
                    room.participants.insert(p);
                    proof {
                        assert(room.participants@.contains(p));
                    }
                    self.rooms.insert(h.id, room);
                    true
                }
            },
        }
    }

    /// Gives up the reservation held under `h` (negotiation failed or the
    /// socket closed first). The room goes away when that leaves it idle.
    pub fn abort_join(&mut self, pool: &mut WorkerPool, h: RoomHandle) -> (ok: bool)
        requires
            old(self).wf(),
        ensures
            final(self).wf(),
            abort_outcome(*old(self), old(pool)@, h, ok, *final(self), final(pool)@),
    {
        let ghost orig = *old(self);
        match self.rooms.remove(&h.id) {
            None => {
                proof {
                    assert(self@ =~= old(self)@);
                }
                false
            },
            Some(mut room) => {
                proof {
                    assert(room == old(self)@[h.id]);
                }
                if room.handle() != h || room.pending == 0 {
                    self.rooms.insert(h.id, room);
                    proof {
                        assert(self@ =~= old(self)@);
                    }
                    false
                } else {
                    room.pending = room.pending - 1;
                    self.settle(pool, room, Ghost(orig));
                    true
                }
            },
        }
    }

    /// Removes participant `p` from the room under `h`. The room goes away
    /// when that leaves it idle. Leaving twice changes nothing the second
    /// time.
    pub fn leave(&mut self, pool: &mut WorkerPool, h: RoomHandle, p: ParticipantId) -> (ok: bool)
        requires
            old(self).wf(),
        ensures
            final(self).wf(),
            leave_outcome(*old(self), old(pool)@, h, p, ok, *final(self), final(pool)@),
    {
        let ghost orig = *old(self);
        match self.rooms.remove(&h.id) {
            None => {
                proof {
                    assert(self@ =~= old(self)@);
                }
                false
            },
            Some(mut room) => {
                proof {
                    assert(room == old(self)@[h.id]);
                }
                if room.handle() != h || !room.participants.contains(&p) {
                    self.rooms.insert(h.id, room);
                    proof {
                        assert(self@ =~= old(self)@);
                    }
                    false
                } else {
                    room.participants.remove(&p);
                    self.settle(pool, room, Ghost(orig));
                    true
                }
            },
        }
    }
}

} // verus!
