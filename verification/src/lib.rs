//! Coordinator for multiplayer turn-based matches.
//!
//! Players assemble into a session before play starts, then take turns
//! submitting actions under strict authority checks.  The crate holds the
//! session lifecycle (assembling, then running), the capability-token
//! authentication, the turn-authority gate, and the client's deterministic
//! interaction state machine.  Rendering, transport framing and the combat
//! rules engine are external collaborators and stay outside.
#![verifier::loop_isolation(false)]

use vstd::prelude::*;

pub mod assembly;
pub mod client;
pub mod game;
pub mod id_map;
pub mod input;
pub mod registry;
pub mod wire;

verus! {

/// The number of seats per team a freshly created session asks for.
pub const DEFAULT_TEAM_SIZE: usize = 2;

} // verus!
