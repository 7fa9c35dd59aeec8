//! Room lifecycle and connection registry of a WebRTC signaling server.
//!
//! The registry, the rooms, the worker pool and the per-connection state
//! machine are plain values; a server wraps them and performs the I/O.

pub mod laws;
pub mod participant;
pub mod pool;
pub mod registry;
pub mod room;
pub mod room_id;

pub use participant::{ConnectionAction, ConnectionEvent, ConnectionState, ParticipantConnection};
pub use pool::{WorkerId, WorkerPool};
pub use registry::RoomsRegistry;
pub use room_id::parse_room_id;
pub use room::{ParticipantId, Room, RoomError, RoomHandle, RoomId};
