use vstd::prelude::*;

use crate::registry::{
    abort_outcome, get_or_create_outcome, holds_reservation, is_current, join_outcome, leave_outcome, RoomsRegistry,
};
use crate::participant::{step_outcome, ConnectionAction, ConnectionEvent, ConnectionState};
use crate::room::{handle_of, ParticipantId, RoomError, RoomHandle, RoomId};

verus! {

/// A successful change to a room's participant set.
pub enum Membership {
    Join(ParticipantId),
    Leave(ParticipantId),
}

/// The participant set after applying `ops` to `start`, in order.
pub open spec fn members_after(start: Set<ParticipantId>, ops: Seq<Membership>) -> Set<ParticipantId>
    decreases ops.len(),
{
    if ops.len() == 0 {
        start
    } else {
        let rest = members_after(start, ops.drop_last());
        match ops.last() {
            Membership::Join(p) => rest.insert(p),
            Membership::Leave(p) => rest.remove(p),
        }
    }
}

/// The last operation in `ops` that concerns `p` is a join.
pub open spec fn last_joins(ops: Seq<Membership>, p: ParticipantId) -> bool {
    exists|i: int|
        0 <= i < ops.len() && #[trigger] ops[i] == Membership::Join(p) && forall|j: int|
            i < j < ops.len() ==> ops[j] != Membership::Leave(p)
}

/// Any number of `get_or_create_room` calls with one id that no live room
/// had, one after another as the registry takes them: once the first
/// succeeds, every call returns the same room, exactly one room is created,
/// no later call takes a worker, and every join is counted as in flight.
pub proof fn lemma_get_or_create_creates_once(
    regs: Seq<RoomsRegistry>,
    pools: Seq<Seq<u64>>,
    id: RoomId,
    results: Seq<Result<RoomHandle, RoomError>>,
)
    requires
        results.len() > 0,
        results.len() < u64::MAX,
        regs.len() == results.len() + 1,
        pools.len() == results.len() + 1,
        regs[0].wf(),
        !regs[0]@.contains_key(id),
        forall|i: int|
            0 <= i < results.len() ==> get_or_create_outcome(
                #[trigger] regs[i],
                pools[i],
                id,
                results[i],
                regs[i + 1],
                pools[i + 1],
            ),
        results[0] is Ok,
    ensures
        forall|i: int| 0 <= i < results.len() ==> #[trigger] results[i] == results[0],
        forall|i: int| 1 <= i < pools.len() ==> #[trigger] pools[i] == pools[1],
        regs.last().next_serial == regs[0].next_serial + 1,
        regs.last()@.dom() == regs[0]@.dom().insert(id),
        regs.last()@[id].pending == results.len(),
        results[0] == Ok::<RoomHandle, RoomError>(handle_of(regs.last()@[id])),
    decreases results.len(),
{
    let n = results.len();
    if n == 1 {
        assert(regs[1]@.dom() =~= regs[0]@.dom().insert(id));
    } else {
        let m = (n - 1) as int;
        lemma_get_or_create_creates_once(regs.take(m + 1), pools.take(m + 1), id, results.take(m));
        assert(regs.take(m + 1).last() == regs[m]);
        assert(regs[m]@.contains_key(id));
        assert(get_or_create_outcome(regs[m], pools[m], id, results[m], regs[m + 1], pools[m + 1]));
        assert(regs[m + 1]@.dom() =~= regs[m]@.dom());
        assert(results.take(m)[0] == results[0]);
        assert(pools.take(m + 1)[m] == pools[m]);
        if m > 1 {
            assert(pools.take(m + 1)[1] == pools[1]);
        }
        assert(results[m] == results[0]);
        assert(pools[m + 1] == pools[m]);
        assert forall|i: int| 0 <= i < results.len() implies #[trigger] results[i] == results[0] by {
            if i < m {
                assert(results.take(m)[i] == results[i]);
            }
        }
        assert forall|i: int| 1 <= i < pools.len() implies #[trigger] pools[i] == pools[1] by {
            if i <= m {
                assert(pools.take(m + 1)[i] == pools[i]);
            }
        }
    }
}

/// A join reserved in a room keeps it alive: a leave, even of its last
/// participant, does not remove it, so the joiner lands in the surviving
/// room.
pub proof fn lemma_reserved_room_survives_leave(
    r0: RoomsRegistry,
    pool0: Seq<u64>,
    reserved: RoomHandle,
    h: RoomHandle,
    p: ParticipantId,
    ok: bool,
    r1: RoomsRegistry,
    pool1: Seq<u64>,
)
    requires
        r0.wf(),
        holds_reservation(r0@, reserved),
        leave_outcome(r0, pool0, h, p, ok, r1, pool1),
    ensures
        holds_reservation(r1@, reserved),
{
}

/// Applying joins and leaves to an empty room: a participant is in it exactly
/// when its last operation was a join, so the count is the number of
/// participants whose join stands, and never below zero.
pub proof fn lemma_members_track_joins(ops: Seq<Membership>)
    ensures
        members_after(Set::empty(), ops).finite(),
        forall|p: ParticipantId| #[trigger]
            members_after(Set::empty(), ops).contains(p) <==> last_joins(ops, p),
    decreases ops.len(),
{
    if ops.len() > 0 {
        let init = ops.drop_last();
        lemma_members_track_joins(init);
        assert forall|p: ParticipantId| #[trigger]
            members_after(Set::empty(), ops).contains(p) <==> last_joins(ops, p) by {
            let n = ops.len() - 1;
            if last_joins(init, p) {
                let i = choose|i: int|
                    0 <= i < init.len() && #[trigger] init[i] == Membership::Join(p) && forall|
                        j: int,
                    | i < j < init.len() ==> init[j] != Membership::Leave(p);
                assert(ops[i] == Membership::Join(p));
                if ops[n] != Membership::Leave(p) {
                    assert forall|j: int| i < j < ops.len() implies ops[j] != Membership::Leave(p) by {
                        if j < n {
                            assert(init[j] == ops[j]);
                        }
                    }
                    assert(last_joins(ops, p));
                }
            }
            if ops[n] == Membership::Join(p) {
                assert(last_joins(ops, p));
            }
            if last_joins(ops, p) {
                let i = choose|i: int|
                    0 <= i < ops.len() && #[trigger] ops[i] == Membership::Join(p) && forall|
                        j: int,
                    | i < j < ops.len() ==> ops[j] != Membership::Leave(p);
                if i < n {
                    assert(init[i] == Membership::Join(p));
                    assert(last_joins(init, p));
                }
            }
        }
    }
}

/// A completed join adds exactly its participant to the room and raises the
/// count by one; a completed leave removes exactly its participant and
/// lowers the count by one, from a count of at least one: the steps of
/// `members_after`.
pub proof fn lemma_join_leave_are_member_steps(
    r0: RoomsRegistry,
    pool0: Seq<u64>,
    h: RoomHandle,
    p: ParticipantId,
    joined: bool,
    rj: RoomsRegistry,
    left: bool,
    rl: RoomsRegistry,
    pool1: Seq<u64>,
)
    requires
        r0.wf(),
        join_outcome(r0, h, p, joined, rj),
        leave_outcome(r0, pool0, h, p, left, rl, pool1),
    ensures
        joined ==> rj@[h.id].participants@.len() == r0@[h.id].participants@.len() + 1,
        left ==> r0@[h.id].participants@.len() >= 1,
        left && rl@.contains_key(h.id) ==> rl@[h.id].participants@.len()
            == r0@[h.id].participants@.len() - 1,
        joined ==> rj@[h.id].participants@ == members_after(
            r0@[h.id].participants@,
            seq![Membership::Join(p)],
        ),
        left && rl@.contains_key(h.id) ==> rl@[h.id].participants@ == members_after(
            r0@[h.id].participants@,
            seq![Membership::Leave(p)],
        ),
{
    let one_j = seq![Membership::Join(p)];
    let one_l = seq![Membership::Leave(p)];
    assert(one_j.drop_last() =~= Seq::<Membership>::empty());
    assert(one_l.drop_last() =~= Seq::<Membership>::empty());
    if joined || left {
        let s = r0@[h.id].participants@;
        if left {
            assert(s.contains(p));
            vstd::set_lib::lemma_set_empty_equivalency_len(s);
        }
        assert(members_after(s, one_j) == members_after(s, Seq::<Membership>::empty()).insert(p));
        assert(members_after(s, one_l) == members_after(s, Seq::<Membership>::empty()).remove(p));
    }
}

/// A room leaves the registry exactly when a leave or an abandoned join
/// leaves it with no participant and no join in flight.
pub proof fn lemma_removed_iff_idle(
    r0: RoomsRegistry,
    pool0: Seq<u64>,
    h: RoomHandle,
    p: ParticipantId,
    left: bool,
    rl: RoomsRegistry,
    pool_l: Seq<u64>,
    aborted: bool,
    ra: RoomsRegistry,
    pool_a: Seq<u64>,
)
    requires
        r0.wf(),
        leave_outcome(r0, pool0, h, p, left, rl, pool_l),
        abort_outcome(r0, pool0, h, aborted, ra, pool_a),
    ensures
        left ==> (!rl@.contains_key(h.id) <==> rl@ == r0@.remove(h.id) && r0@[h.id].participants@.remove(p).is_empty() && r0@[h.id].pending == 0),
        aborted ==> (!ra@.contains_key(h.id) <==> ra@ == r0@.remove(h.id) && r0@[h.id].participants@.is_empty() && r0@[h.id].pending == 1),
        !left ==> rl@ == r0@,
        !aborted ==> ra@ == r0@,
{
}

/// Once the last participant's leave removes its room, the old handle
/// reaches no room again: a later request for the same id creates a new,
/// empty room, and a join under the old handle is refused.
pub proof fn lemma_removed_room_never_revived(
    r0: RoomsRegistry,
    pool0: Seq<u64>,
    h: RoomHandle,
    p: ParticipantId,
    left: bool,
    r1: RoomsRegistry,
    pool1: Seq<u64>,
    res: Result<RoomHandle, RoomError>,
    r2: RoomsRegistry,
    pool2: Seq<u64>,
    q: ParticipantId,
    ok: bool,
    r3: RoomsRegistry,
)
    requires
        r0.wf(),
        is_current(r0@, h),
        leave_outcome(r0, pool0, h, p, left, r1, pool1),
        !r1@.contains_key(h.id),
        get_or_create_outcome(r1, pool1, h.id, res, r2, pool2),
        join_outcome(r2, h, q, ok, r3),
    ensures
        res is Ok ==> res->Ok_0 != h && r2@[h.id].participants@.is_empty(),
        !ok,
{
}

/// Leaving a second time changes nothing: no participant is counted off
/// twice and no worker is released twice.
pub proof fn lemma_leave_idempotent(
    r0: RoomsRegistry,
    pool0: Seq<u64>,
    h: RoomHandle,
    p: ParticipantId,
    ok1: bool,
    r1: RoomsRegistry,
    pool1: Seq<u64>,
    ok2: bool,
    r2: RoomsRegistry,
    pool2: Seq<u64>,
)
    requires
        r0.wf(),
        r1.wf(),
        leave_outcome(r0, pool0, h, p, ok1, r1, pool1),
        leave_outcome(r1, pool1, h, p, ok2, r2, pool2),
    ensures
        !ok2,
        r2@ == r1@,
        pool2 == pool1,
{
}

/// A connection counts in its room exactly while it is `Joined`: entering
/// that state adds its participant to the live room, and leaving it takes
/// the participant out (or the room is gone).
pub proof fn lemma_joined_state_is_membership(
    s: ConnectionState,
    e: ConnectionEvent,
    h: RoomHandle,
    p: ParticipantId,
    r0: RoomsRegistry,
    pool0: Seq<u64>,
    r1: RoomsRegistry,
    pool1: Seq<u64>,
    s1: ConnectionState,
    a: ConnectionAction,
)
    requires
        r0.wf(),
        step_outcome(s, e, h, p, r0, pool0, r1, pool1, s1, a),
    ensures
        s != ConnectionState::Joined && s1 == ConnectionState::Joined ==> is_current(r1@, h)
            && r1@[h.id].participants@.contains(p)
            && r1@[h.id].participants@.len() == r0@[h.id].participants@.len() + 1,
        s == ConnectionState::Joined && s1 != ConnectionState::Joined ==> !(is_current(r1@, h)
            && r1@[h.id].participants@.contains(p)),
{
}

} // verus!
