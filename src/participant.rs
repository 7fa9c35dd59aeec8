use vstd::prelude::*;

use crate::pool::WorkerPool;
use crate::registry::{
    abort_outcome, holds_reservation, is_current, join_outcome, leave_outcome, RoomsRegistry,
};
use crate::room::{ParticipantId, RoomHandle};

verus! {

/// Where one WebSocket connection stands in joining its room.
#[derive(Debug, Clone, Copy, PartialEq, Eq, Structural)]
pub enum ConnectionState {
    /// Handshake accepted, room resolved and a place in it reserved.
    Connecting,
    /// The engine transport for this participant is being set up.
    Negotiating,
    /// Counted in the room; messages are relayed.
    Joined,
    /// Left the room; engine resources are being released.
    Closing,
    /// Terminal.
    Closed,
}

/// What happened to the connection.
#[derive(Debug, Clone, Copy, PartialEq, Eq, Structural)]
pub enum ConnectionEvent {
    /// The WebSocket upgrade went through.
    Upgraded,
    /// The engine admitted the participant.
    Negotiated,
    /// The engine refused the participant, or its transport died.
    EngineFailed,
    /// The socket closed, broke the protocol or went idle.
    Disconnected,
    /// Engine resources of the connection are released.
    Released,
}

/// What the server has to do next for the connection.
#[derive(Debug, Clone, Copy, PartialEq, Eq, Structural)]
pub enum ConnectionAction {
    /// Ask the engine to admit the participant.
    Negotiate,
    /// Relay signaling messages both ways.
    Relay,
    /// Report a connection-level error and close.
    Refuse,
    /// Release the engine resources of the connection.
    Release,
    /// Nothing.
    Idle,
}

/// One live WebSocket session bound to a room.
pub struct ParticipantConnection {
    pub room: RoomHandle,
    pub participant: ParticipantId,
    pub state: ConnectionState,
}

/// Registry, pool, state and action after `e` in state `s`, for the
/// connection of `p` to the room `h`.
pub open spec fn step_outcome(
    s: ConnectionState,
    e: ConnectionEvent,
    h: RoomHandle,
    p: ParticipantId,
    old: RoomsRegistry,
    pool0: Seq<u64>,
    new: RoomsRegistry,
    pool1: Seq<u64>,
    s1: ConnectionState,
    a: ConnectionAction,
) -> bool {
    let unchanged = new@ == old@ && new.next_serial == old.next_serial && pool1 == pool0;
    let abort = abort_outcome(old, pool0, h, holds_reservation(old@, h), new, pool1)
        && s1 == ConnectionState::Closed && a == ConnectionAction::Refuse;
    let is_failure = e == ConnectionEvent::EngineFailed || e == ConnectionEvent::Disconnected;
    match s {
        ConnectionState::Connecting => if e == ConnectionEvent::Upgraded {
            unchanged && s1 == ConnectionState::Negotiating && a == ConnectionAction::Negotiate
        } else if is_failure {
            abort
        } else {
            unchanged && s1 == s && a == ConnectionAction::Idle
        },
        ConnectionState::Negotiating => if e == ConnectionEvent::Negotiated {
            if holds_reservation(old@, h) && !old@[h.id].participants@.contains(p) {
                join_outcome(old, h, p, true, new) && pool1 == pool0 && s1
                    == ConnectionState::Joined && a == ConnectionAction::Relay
            } else {
                abort
            }
        } else if is_failure {
            abort
        } else {
            unchanged && s1 == s && a == ConnectionAction::Idle
        },
        ConnectionState::Joined => if is_failure {
            &&& leave_outcome(
                old,
                pool0,
                h,
                p,
                is_current(old@, h) && old@[h.id].participants@.contains(p),
                new,
                pool1,
            )
            &&& s1 == ConnectionState::Closing
            &&& a == ConnectionAction::Release
        } else {
            unchanged && s1 == s && a == ConnectionAction::Idle
        },
        ConnectionState::Closing => if e == ConnectionEvent::Released {
            unchanged && s1 == ConnectionState::Closed && a == ConnectionAction::Idle
        } else {
            unchanged && s1 == s && a == ConnectionAction::Idle
        },
        ConnectionState::Closed => unchanged && s1 == s && a == ConnectionAction::Idle,
    }
}

impl ParticipantConnection {
    /// A connection of `participant` to `room`, in which a place has been
    /// reserved for it.
    pub fn new(room: RoomHandle, participant: ParticipantId) -> (c: Self)
        ensures
            c.room == room,
            c.participant == participant,
            c.state == ConnectionState::Connecting,
    {
        ParticipantConnection { room, participant, state: ConnectionState::Connecting }
    }

    fn abort(&mut self, registry: &mut RoomsRegistry, pool: &mut WorkerPool) -> (a: ConnectionAction)
        requires
            old(registry).wf(),
        ensures
            final(registry).wf(),
            abort_outcome(
                *old(registry),
                old(pool)@,
                old(self).room,
                holds_reservation(old(registry)@, old(self).room),
                *final(registry),
                final(pool)@,
            ),
            final(self).room == old(self).room,
            final(self).participant == old(self).participant,
            final(self).state == ConnectionState::Closed,
            a == ConnectionAction::Refuse,
    {
        registry.abort_join(pool, self.room);
        self.state = ConnectionState::Closed;
        ConnectionAction::Refuse
    }

    /// Moves the connection on after `e`, joining or leaving its room in
    /// `registry` as the transition asks, and says what the server does
    /// next.
    pub fn handle_event(
        &mut self,
        registry: &mut RoomsRegistry,
        pool: &mut WorkerPool,
        e: ConnectionEvent,
    ) -> (a: ConnectionAction)
        requires
            old(registry).wf(),
        ensures
            final(registry).wf(),
            final(self).room == old(self).room,
            final(self).participant == old(self).participant,
            step_outcome(
                old(self).state,
                e,
                old(self).room,
                old(self).participant,
                *old(registry),
                old(pool)@,
                *final(registry),
                final(pool)@,
                final(self).state,
                a,
            ),
    {
        let failure = e == ConnectionEvent::EngineFailed || e == ConnectionEvent::Disconnected;
        match self.state {
            ConnectionState::Connecting => {
                if e == ConnectionEvent::Upgraded {
                    self.state = ConnectionState::Negotiating;
                    ConnectionAction::Negotiate
                } else if failure {
                    self.abort(registry, pool)
                } else {
                    ConnectionAction::Idle
                }
            },
            ConnectionState::Negotiating => {
                if e == ConnectionEvent::Negotiated {
                    if registry.complete_join(self.room, self.participant) {
                        self.state = ConnectionState::Joined;
                        ConnectionAction::Relay
                    } else {
                        self.abort(registry, pool)
                    }
                } else if failure {
                    self.abort(registry, pool)
                } else {
                    ConnectionAction::Idle
                }
            },
            ConnectionState::Joined => {
                if failure {
                    registry.leave(pool, self.room, self.participant);
                    self.state = ConnectionState::Closing;
                    ConnectionAction::Release
                } else {
                    ConnectionAction::Idle
                }
            },
            ConnectionState::Closing => {
                if e == ConnectionEvent::Released {
                    self.state = ConnectionState::Closed;
                }
                ConnectionAction::Idle
            },
            ConnectionState::Closed => ConnectionAction::Idle,
        }
    }
}

} // verus!
