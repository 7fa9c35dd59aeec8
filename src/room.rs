use std::collections::HashSet;
use vstd::prelude::*;

use crate::pool::WorkerId;

verus! {

broadcast use vstd::std_specs::hash::group_hash_axioms;

/// Identifier of a room, as clients pass it around.
pub type RoomId = u128;

/// Identifier of a participant, unique within its room.
pub type ParticipantId = u64;

/// Why a room could not be handed out.
#[derive(Debug, Clone, Copy, PartialEq, Eq, Structural)]
pub enum RoomError {
    /// The worker pool has no worker to back a new room.
    NoWorker,
    /// A fresh room was asked for under an id that is already live.
    IdInUse,
    /// A counter of the registry (room serials, joins in flight) is exhausted.
    Saturated,
}

/// A reference to one incarnation of a room: a room that is removed and later
/// created again under the same id gets a new `serial`, so old handles no
/// longer reach it.
#[derive(Debug, Clone, Copy, PartialEq, Eq, Structural)]
pub struct RoomHandle {
    pub id: RoomId,
    pub serial: u64,
    pub worker: WorkerId,
}

/// One live media session.
pub struct Room {
    pub id: RoomId,
    pub serial: u64,
    pub worker: WorkerId,
    /// Participants that completed their join.
    pub participants: HashSet<ParticipantId>,
    /// Joins that reserved a place in the room and are still negotiating.
    pub pending: u64,
}

pub open spec fn handle_of(r: Room) -> RoomHandle {
    RoomHandle { id: r.id, serial: r.serial, worker: r.worker }
}

/// A room is kept only while someone is in it or on the way in.
pub open spec fn is_idle(r: Room) -> bool {
    r.participants@.is_empty() && r.pending == 0
}

impl Room {
    pub fn handle(&self) -> (h: RoomHandle)
        ensures
            h == handle_of(*self),
    {
        RoomHandle { id: self.id, serial: self.serial, worker: self.worker }
    }

    pub fn participant_count(&self) -> (n: usize)
        ensures
            n == self.participants@.len(),
    {
        self.participants.len()
    }
}

} // verus!
