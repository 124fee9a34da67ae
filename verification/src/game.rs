//! The static game definition, as far as the session coordinator reads it.
//!
//! The definition is loaded once at bootstrap and is read-only for the
//! process lifetime.  Combat rules, terrain semantics and content loading
//! belong to external collaborators; the coordinator only needs to know
//! which classes exist, which maps exist, and which starting cells each
//! map offers to each team.

use vstd::prelude::*;

use crate::id_map::{Id, IdMap};

verus! {

/// Marker kind for team ids; a team id indexes a map's team list.
#[derive(Debug)]
pub struct Team;

/// Marker kind for cell ids; a cell id names a square of a map.
#[derive(Debug)]
pub struct Cell;

/// One playable class of the static roster.
#[derive(Debug, Clone)]
pub struct Class {
    pub name: String,
    pub description: String,
    pub health: u64,
    pub mana: u64,
}

/// One map: a rectangle of cells and, per team, the starting cells
/// characters of that team may claim.
#[derive(Debug, Clone)]
pub struct GameMap {
    pub name: String,
    pub width: usize,
    pub height: usize,
    /// Each entry is one team: its display name and its starting cells.
    pub teams: Vec<(String, Vec<Id<Cell>>)>,
}

impl GameMap {
    /// A usable map offers at least one team, each with at least one
    /// starting cell.
    pub open spec fn wf(self) -> bool {
        &&& self.teams@.len() >= 1
        &&& forall|t: int| 0 <= t < self.teams@.len() ==> self.teams@[t].1@.len() >= 1
    }
}

/// The static game definition: the class roster and the map catalogue.
#[derive(Debug, Clone)]
pub struct GameDefinition {
    pub classes: IdMap<Class>,
    pub maps: IdMap<GameMap>,
}

impl GameDefinition {
    /// A usable definition offers at least one class and one map, and every
    /// map is itself usable.  The loader must refuse to serve otherwise.
    pub open spec fn wf(self) -> bool {
        &&& self.classes@.len() >= 1
        &&& self.maps@.len() >= 1
        &&& forall|m: int| 0 <= m < self.maps@.len() ==> self.maps@[m].wf()
    }

    /// Whether `map` names a map of this definition.
    pub open spec fn has_map(self, map: Id<GameMap>) -> bool {
        0 <= map@ < self.maps@.len()
    }

    /// Whether `class` names a class of this definition.
    pub open spec fn has_class(self, class: Id<Class>) -> bool {
        0 <= class@ < self.classes@.len()
    }
}

/// One enrolled character.  Combat state beyond the enrolment snapshot
/// (buffs, movement, …) lives in the opaque rules engine.
#[derive(Debug, Clone)]
pub struct Character {
    pub name: String,
    pub class: Id<Class>,
    pub team: Id<Team>,
    pub position: Id<Cell>,
    pub current_health: u64,
    pub current_mana: u64,
}

} // verus!
