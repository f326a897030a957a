//! Core of a lightweight multiplayer game: a fixed-tick application state
//! scheduler and an authoritative networked-entity synchronization protocol.
//!
//! The library owns the wire protocol (a compact binary encoding of the closed
//! message sets exchanged between client and server), username validation, the
//! server's session registry, the client's session state machine and its local
//! mirror of networked entities, and the application state scheduler. Network
//! transport, rendering and input live outside, behind plain-value interfaces.
pub mod codec;
pub mod dueling;
pub mod menu;
pub mod messages;
pub mod overworld;
pub mod position;
pub mod registry;
pub mod scheduler;
pub mod session;
pub mod validation;
pub mod world;

use vstd::prelude::*;

verus! {

/// A server-allocated unique integer identifying a networked object for its
/// entire connected lifetime. Allocated monotonically on successful connect
/// and never reused while the object is live.
#[derive(Debug, Copy, Clone, Hash, PartialEq, Eq, Structural)]
pub struct NetworkID(pub usize);

impl DeepView for NetworkID {
    type V = NetworkID;

    open spec fn deep_view(&self) -> NetworkID {
        *self
    }
}

impl NetworkID {
    pub fn new(id: usize) -> (r: Self)
        ensures
            r.0 == id,
    {
        Self(id)
    }
}

/// The kind of networked object being spawned.
#[derive(Debug, Copy, Clone, PartialEq, Eq, Structural)]
pub enum GameArchetype {
    Player,
}

} // verus!
