//! The logical request and response shapes exchanged with the transport
//! collaborator.  Wire encoding and HTTP framing are out of scope: these
//! are plain values, and the process edge turns them into bytes.

use vstd::prelude::*;

use crate::game::{Cell, Character, Class, GameMap, Team};
use crate::id_map::Id;

verus! {

/// An action for the opaque rules engine.  The coordinator never interprets
/// the payload; it only checks who submitted it.
#[derive(Debug, Clone, PartialEq)]
pub struct WireAction(pub u64);

/// A request to enrol one character into an assembling session.
#[derive(Debug, Clone, PartialEq)]
pub struct WireNewCharRequest {
    pub name: String,
    pub class: Id<Class>,
    pub team: Id<Team>,
    pub position: Id<Cell>,
}

/// The answer to a session-creation request.
#[derive(Debug, Clone, PartialEq)]
pub struct WireCreatedGame {
    pub game_id: String,
    pub map: Id<GameMap>,
    pub team_size: usize,
    pub players: Vec<WireNewCharRequest>,
}

/// The answer to an enrolment request: the login token that authenticates
/// the character from now on, and the character's id.
#[derive(Debug, Clone, PartialEq)]
pub struct WireCreatedChar(pub String, pub Id<Character>);

/// A request to declare a new session on `map`, with `team_size` seats per
/// team.
#[derive(Debug, Clone, PartialEq)]
pub struct WireNewGameRequest {
    pub map: Id<GameMap>,
    pub team_size: usize,
}

/// The observable snapshot of a running session: which map is played and
/// which character currently holds the turn.
#[derive(Debug, Clone, PartialEq)]
pub struct RunningSnapshot {
    pub map: Id<GameMap>,
    pub turn: Id<Character>,
}

/// A running session as the transport reports it.
#[derive(Debug, Clone, PartialEq)]
pub struct WireRunningGame(pub RunningSnapshot);

/// The answer to a session lookup: absent, still assembling, or running.
#[derive(Debug, Clone, PartialEq)]
pub enum WireGetGame {
    NotFound,
    Assembling { map: Id<GameMap>, team_size: usize },
    Running(WireRunningGame),
}

} // verus!
