//! The server-side store of sessions.
//!
//! Every session is, at each observable instant, exactly one of
//! *assembling* (still gathering characters) or *running* (play started):
//! it sits in exactly one of two keyed stores.  The `add` call that fills
//! the last seat replaces the assembling entry by a running entry in the
//! same exclusive-access window, so no observer sees a torn state.
//!
//! Mutating operations take `&mut self` for their whole in-memory
//! check-act sequence; the process edge wraps the registry in its lock and
//! never holds it across transport or engine calls.

use vstd::prelude::*;

use rand::Rng;

use crate::assembly::{AddError, CharacterAssembly};
use crate::game::{Character, GameDefinition, GameMap};
use crate::id_map::{Id, IdMap};
use crate::wire::{RunningSnapshot, WireCreatedChar, WireGetGame, WireNewCharRequest, WireRunningGame};

verus! {

/// Why a session could not be created.
#[derive(Debug, Clone, Copy, PartialEq, Eq)]
pub enum CreateError {
    /// The requested map does not exist in the game definition.
    UnknownMap,
    /// A team of zero seats can never start; the request is refused.
    InvalidTeamSize,
    /// `team_size` seats for every team of the map do not fit in a machine
    /// word.
    TooManySeats,
    /// The chosen session id is already taken (the caller retries with a
    /// fresh one, never overwrites).
    IdInUse,
}

/// Why an enrolment request was refused.
#[derive(Debug, Clone, Copy, PartialEq, Eq)]
pub enum JoinError {
    /// The session id is absent from both stores.
    NoSuchSession,
    /// The session has already started; late joins are refused.
    AlreadyRunning,
    /// The referenced class does not exist.
    InvalidClass,
    /// The offered login token is already in use somewhere in the registry
    /// (the caller retries with a fresh one).
    TokenInUse,
    /// The referenced team does not exist in the session's map.
    InvalidTeam,
    /// The requested starting cell is not offered to the chosen team.
    InvalidCell,
    /// The requested starting cell is already claimed.
    CellOccupied,
    /// The assembly has no free seat.  A well-formed registry never answers
    /// this: the enrolment that fills the last seat starts the session.
    AssemblyFull,
}

/// Why an action submission was refused.
#[derive(Debug, Clone, Copy, PartialEq, Eq)]
pub enum ActionError {
    /// The session id is absent from both stores.
    NoSuchSession,
    /// The session has not started yet.
    StillAssembling,
    /// The login token is not recognised for this session.
    UnknownLogin,
    /// The authenticated character is not the current turn-holder.
    NotYourTurn,
    /// The opaque rules engine refused the action; passed through verbatim.
    Rejected,
}

/// What the opaque rules engine answered for one forwarded action.  The
/// registry never interprets action contents; it only records who holds
/// the turn afterwards.
#[derive(Debug, Clone, Copy, PartialEq, Eq)]
pub enum EngineVerdict {
    /// The engine refused the action; the session is unchanged.
    Rejected,
    /// The engine applied the action; `next_turn` now holds the turn.
    Accepted { next_turn: Id<Character> },
}

struct AssemblingSession {
    map: Id<GameMap>,
    team_size: usize,
    assembly: CharacterAssembly,
}

struct RunningSession {
    logins: Vec<(String, Id<Character>)>,
    roster: IdMap<Character>,
    map: Id<GameMap>,
    turn: Id<Character>,
}

/// The concurrent session store: a keyed store per phase, with every
/// session id in exactly one of the two.
pub struct SessionRegistry {
    assembling: Vec<(String, AssemblingSession)>,
    running: Vec<(String, RunningSession)>,
}

/// The record an accepted enrolment adds to the session: the request's
/// name, class, team and starting cell, with the class's base health and
/// mana as the character's starting stats.
pub open spec fn enrolled_character(g: GameDefinition, req: WireNewCharRequest) -> Character {
    Character {
        name: req.name,
        class: req.class,
        team: req.team,
        position: req.position,
        current_health: g.classes@[req.class@].health,
        current_mana: g.classes@[req.class@].mana,
    }
}

/// Whether the token list of a running session knows `t`.
spec fn logins_has(l: Seq<(String, Id<Character>)>, t: Seq<char>) -> bool {
    exists|i: int| 0 <= i < l.len() && l[i].0@ == t
}

/// The position of token `t` in a running session's token list.
spec fn logins_idx(l: Seq<(String, Id<Character>)>, t: Seq<char>) -> int {
    choose|i: int| 0 <= i < l.len() && l[i].0@ == t
}

impl SessionRegistry {
    /// Whether `sid` names a session still gathering characters.
    pub closed spec fn is_assembling(self, sid: Seq<char>) -> bool {
        exists|i: int| 0 <= i < self.assembling@.len() && self.assembling@[i].0@ == sid
    }

    /// Whether `sid` names a session whose play has started.
    pub closed spec fn is_running(self, sid: Seq<char>) -> bool {
        exists|i: int| 0 <= i < self.running@.len() && self.running@[i].0@ == sid
    }

    /// Whether `sid` names a session in either phase.
    pub open spec fn session_exists(self, sid: Seq<char>) -> bool {
        self.is_assembling(sid) || self.is_running(sid)
    }

    spec fn asm_idx(self, sid: Seq<char>) -> int {
        choose|i: int| 0 <= i < self.assembling@.len() && self.assembling@[i].0@ == sid
    }

    spec fn run_idx(self, sid: Seq<char>) -> int {
        choose|i: int| 0 <= i < self.running@.len() && self.running@[i].0@ == sid
    }

    /// The map an assembling session was declared on.
    pub closed spec fn asm_map(self, sid: Seq<char>) -> int {
        self.assembling@[self.asm_idx(sid)].1.map@
    }

    /// The per-team seat count an assembling session was declared with.
    pub closed spec fn asm_team_size(self, sid: Seq<char>) -> int {
        self.assembling@[self.asm_idx(sid)].1.team_size as int
    }

    /// The total seat count of an assembling session.
    pub closed spec fn asm_capacity(self, sid: Seq<char>) -> int {
        self.assembling@[self.asm_idx(sid)].1.assembly.capacity()
    }

    /// How many characters an assembling session holds so far.
    pub closed spec fn asm_count(self, sid: Seq<char>) -> int {
        self.assembling@[self.asm_idx(sid)].1.assembly.count()
    }

    /// Whether an assembling session handed out login token `t`.
    pub closed spec fn asm_has_token(self, sid: Seq<char>, t: Seq<char>) -> bool {
        self.assembling@[self.asm_idx(sid)].1.assembly.has_token(t)
    }

    /// The character id that token `t` names in an assembling session.
    pub closed spec fn asm_token_char(self, sid: Seq<char>, t: Seq<char>) -> int {
        let a = self.assembling@[self.asm_idx(sid)].1.assembly;
        choose|i: int| 0 <= i < a.tokens().len() && a.tokens()[i] == t
    }

    /// Whether some character of an assembling session already starts on
    /// cell `c`.
    pub closed spec fn asm_cell_taken(self, sid: Seq<char>, c: int) -> bool {
        self.assembling@[self.asm_idx(sid)].1.assembly.cell_taken(c)
    }

    /// The characters an assembling session enrolled so far, in id order.
    pub closed spec fn asm_chars(self, sid: Seq<char>) -> Seq<Character> {
        self.assembling@[self.asm_idx(sid)].1.assembly.chars()
    }

    /// The immutable roster of a running session, in id order: the
    /// character with id `i` is the `i`-th entry.
    pub closed spec fn run_roster(self, sid: Seq<char>) -> Seq<Character> {
        self.running@[self.run_idx(sid)].1.roster@
    }

    /// The map a running session is played on.
    pub closed spec fn run_map(self, sid: Seq<char>) -> int {
        self.running@[self.run_idx(sid)].1.map@
    }

    /// The character currently holding the turn of a running session.
    pub closed spec fn run_turn(self, sid: Seq<char>) -> int {
        self.running@[self.run_idx(sid)].1.turn@
    }

    /// Whether a running session recognises login token `t`.
    pub closed spec fn run_has_token(self, sid: Seq<char>, t: Seq<char>) -> bool {
        logins_has(self.running@[self.run_idx(sid)].1.logins@, t)
    }

    /// The character id that login token `t` authenticates in a running
    /// session.
    pub closed spec fn run_token_char(self, sid: Seq<char>, t: Seq<char>) -> int {
        let l = self.running@[self.run_idx(sid)].1.logins@;
        l[logins_idx(l, t)].1@
    }

    /// Whether `sid` knows token `t`, in whichever phase it is.
    pub open spec fn has_token_in(self, sid: Seq<char>, t: Seq<char>) -> bool {
        ||| self.is_assembling(sid) && self.asm_has_token(sid, t)
        ||| self.is_running(sid) && self.run_has_token(sid, t)
    }

    /// Whether any session of the registry, in either phase, handed out
    /// login token `t`.
    pub closed spec fn token_in_use(self, t: Seq<char>) -> bool {
        ||| exists|i: int|
            0 <= i < self.assembling@.len() && (#[trigger] self.assembling@[i].1.assembly).has_token(
                t,
            )
        ||| exists|i: int|
            0 <= i < self.running@.len() && logins_has(
                (#[trigger] self.running@[i].1.logins)@,
                t,
            )
    }

    /// The registry invariant: session ids are pairwise distinct and in
    /// exactly one store; every assembly is well-formed with a free seat;
    /// login tokens are pairwise distinct across the whole registry.
    pub closed spec fn wf(self) -> bool {
        &&& forall|i: int, j: int|
            0 <= i < j < self.assembling@.len() ==> self.assembling@[i].0@
                != self.assembling@[j].0@
        &&& forall|i: int, j: int|
            0 <= i < j < self.running@.len() ==> self.running@[i].0@ != self.running@[j].0@
        &&& forall|i: int, j: int|
            0 <= i < self.assembling@.len() && 0 <= j < self.running@.len()
                ==> self.assembling@[i].0@ != self.running@[j].0@
        &&& forall|i: int|
            0 <= i < self.assembling@.len() ==> (#[trigger] self.assembling@[i].1.assembly).wf()
        &&& forall|i: int|
            0 <= i < self.assembling@.len() ==> (#[trigger] self.assembling@[i].1.assembly).count()
                < self.assembling@[i].1.assembly.capacity()
        &&& forall|i: int|
            0 <= i < self.assembling@.len() ==> (#[trigger] self.assembling@[i].1.assembly).map_id()
                == self.assembling@[i].1.map
        &&& forall|i: int, k1: int, k2: int|
            #![trigger self.running@[i].1.logins@[k1], self.running@[i].1.logins@[k2]]
            0 <= i < self.running@.len() && 0 <= k1 < k2 < self.running@[i].1.logins@.len()
                ==> self.running@[i].1.logins@[k1].0@ != self.running@[i].1.logins@[k2].0@
        &&& forall|i: int, j: int, t: Seq<char>|
            #![trigger self.assembling@[i].1.assembly.has_token(t), self.assembling@[j].1.assembly.has_token(t)]
            0 <= i < j < self.assembling@.len() ==> !(self.assembling@[i].1.assembly.has_token(t)
                && self.assembling@[j].1.assembly.has_token(t))
        &&& forall|i: int, j: int, t: Seq<char>|
            #![trigger logins_has(self.running@[i].1.logins@, t), logins_has(self.running@[j].1.logins@, t)]
            0 <= i < j < self.running@.len() ==> !(logins_has(self.running@[i].1.logins@, t)
                && logins_has(self.running@[j].1.logins@, t))
        &&& forall|i: int, j: int, t: Seq<char>|
            #![trigger self.assembling@[i].1.assembly.has_token(t), logins_has(self.running@[j].1.logins@, t)]
            0 <= i < self.assembling@.len() && 0 <= j < self.running@.len() ==> !(
            self.assembling@[i].1.assembly.has_token(t) && logins_has(
                self.running@[j].1.logins@,
                t,
            ))
    }

    /// An empty registry: no session in either store.
    pub fn new() -> (r: Self)
        ensures
            r.wf(),
            forall|sid: Seq<char>| !r.session_exists(sid),
            forall|t: Seq<char>| !r.token_in_use(t),
    {
        SessionRegistry { assembling: Vec::new(), running: Vec::new() }
    }

    /// Find `sid` in the assembling store.
    fn find_asm(&self, sid: &String) -> (r: Option<usize>)
        ensures
            match r {
                Some(i) => i < self.assembling@.len() && self.assembling@[i as int].0@ == sid@,
                None => !self.is_assembling(sid@),
            },
    {
        let mut i: usize = 0;
        while i < self.assembling.len()
            invariant
                i <= self.assembling@.len(),
                forall|j: int| 0 <= j < i ==> self.assembling@[j].0@ != sid@,
            decreases self.assembling@.len() - i,
        {
            if self.assembling[i].0 == *sid {
                return Some(i);
            }
            i = i + 1;
        }
        None
    }

    /// Find `sid` in the running store.
    fn find_run(&self, sid: &String) -> (r: Option<usize>)
        ensures
            match r {
                Some(i) => i < self.running@.len() && self.running@[i as int].0@ == sid@,
                None => !self.is_running(sid@),
            },
    {
        let mut i: usize = 0;
        while i < self.running.len()
            invariant
                i <= self.running@.len(),
                forall|j: int| 0 <= j < i ==> self.running@[j].0@ != sid@,
            decreases self.running@.len() - i,
        {
            if self.running[i].0 == *sid {
                return Some(i);
            }
            i = i + 1;
        }
        None
    }

    /// Under distinct keys, an index whose key matches is the index every
    /// assembling lookup spec resolves to.
    proof fn lemma_asm_at(self, sid: Seq<char>, i: int)
        requires
            self.wf(),
            0 <= i < self.assembling@.len(),
            self.assembling@[i].0@ == sid,
        ensures
            self.is_assembling(sid),
            self.asm_idx(sid) == i,
    {
        assert(self.is_assembling(sid));
        let k = self.asm_idx(sid);
        assert(0 <= k < self.assembling@.len() && self.assembling@[k].0@ == sid);
        if k != i {
            if k < i {
                assert(self.assembling@[k].0@ != self.assembling@[i].0@);
            } else {
                assert(self.assembling@[i].0@ != self.assembling@[k].0@);
            }
        }
    }

    /// Under distinct keys, an index whose key matches is the index every
    /// running lookup spec resolves to.
    proof fn lemma_run_at(self, sid: Seq<char>, i: int)
        requires
            self.wf(),
            0 <= i < self.running@.len(),
            self.running@[i].0@ == sid,
        ensures
            self.is_running(sid),
            self.run_idx(sid) == i,
    {
        assert(self.is_running(sid));
        let k = self.run_idx(sid);
        assert(0 <= k < self.running@.len() && self.running@[k].0@ == sid);
        if k != i {
            if k < i {
                assert(self.running@[k].0@ != self.running@[i].0@);
            } else {
                assert(self.running@[i].0@ != self.running@[k].0@);
            }
        }
    }

    /// Declare a new assembling session under the chosen id.
    ///
    /// The session gets `team_size` seats for each team of `map`.  An id
    /// already present in either store is refused, never overwritten; the
    /// caller is expected to retry with a fresh random id, which
    /// [`SessionRegistry::create_session`] does.
    pub fn create_session_with_id(
        &mut self,
        g: &GameDefinition,
        id: String,
        map: Id<GameMap>,
        team_size: usize,
    ) -> (r: Result<(), CreateError>)
        requires
            old(self).wf(),
            g.wf(),
        ensures
            final(self).wf(),
            r == Err::<(), CreateError>(CreateError::UnknownMap) <==> !g.has_map(map),
            r == Err::<(), CreateError>(CreateError::InvalidTeamSize) <==> g.has_map(map)
                && team_size == 0,
            r == Err::<(), CreateError>(CreateError::TooManySeats) <==> g.has_map(map) && team_size
                > 0 && team_size * g.maps@[map@].teams@.len() > usize::MAX,
            r == Err::<(), CreateError>(CreateError::IdInUse) <==> g.has_map(map) && team_size > 0
                && team_size * g.maps@[map@].teams@.len() <= usize::MAX && old(self).session_exists(id@),
            r is Err ==> *final(self) == *old(self),
            r is Ok ==> {
                &&& !old(self).session_exists(id@)
                &&& final(self).is_assembling(id@)
                &&& !final(self).is_running(id@)
                &&& final(self).asm_map(id@) == map@
                &&& final(self).asm_team_size(id@) == team_size
                &&& final(self).asm_count(id@) == 0
                &&& final(self).asm_capacity(id@) == team_size * g.maps@[map@].teams@.len()
                &&& forall|s: Seq<char>|
                    #![trigger final(self).is_assembling(s)]
                    #![trigger final(self).is_running(s)]
                    s != id@ ==> final(self).is_assembling(s) == old(self).is_assembling(s) && final(self).is_running(s) == old(self).is_running(s)
                &&& forall|s: Seq<char>|
                    s != id@ && old(self).is_assembling(s) ==> final(self).asm_map(s) == old(self).asm_map(s) && final(self).asm_team_size(s) == old(self).asm_team_size(s)
                        && final(self).asm_count(s) == old(self).asm_count(s) && final(self).asm_capacity(s) == old(self).asm_capacity(s)
                &&& forall|s: Seq<char>, t: Seq<char>|
                    #![trigger final(self).has_token_in(s, t)]
                    final(self).has_token_in(s, t) == old(self).has_token_in(s, t)
                &&& forall|s: Seq<char>|
                    old(self).is_running(s) ==> final(self).run_map(s) == old(self).run_map(s)
                        && final(self).run_turn(s) == old(self).run_turn(s)
                &&& forall|t: Seq<char>|
                    #![trigger final(self).token_in_use(t)]
                    final(self).token_in_use(t) == old(self).token_in_use(t)
            },
    {
        let m = match g.maps.get(map) {
            Option::None => {
                return Err(CreateError::UnknownMap);
            },
            Option::Some(m) => m,
        };
        if team_size == 0 {
            return Err(CreateError::InvalidTeamSize);
        }
        let capacity = match team_size.checked_mul(m.teams.len()) {
            Option::None => {
                return Err(CreateError::TooManySeats);
            },
            Option::Some(c) => c,
        };
        let in_asm = self.find_asm(&id);
        let in_run = self.find_run(&id);
        match (in_asm, in_run) {
            (Option::None, Option::None) => {},
            (Option::Some(i), _) => {
                proof {
                    self.lemma_asm_at(id@, i as int);
                }
                return Err(CreateError::IdInUse);
            },
            (_, Option::Some(i)) => {
                proof {
                    self.lemma_run_at(id@, i as int);
                }
                return Err(CreateError::IdInUse);
            },
        }
        let ghost old_self = *self;
        let assembly = CharacterAssembly::new(capacity, map);
        let ghost new_assembly = assembly;
        let sess = AssemblingSession { map, team_size, assembly };
        self.assembling.push((id, sess));
        proof {
            let n = old_self.assembling@.len() as int;
            assert(self.assembling@[n].1.assembly == new_assembly);
            assert(forall|tk: Seq<char>| !self.assembling@[n].1.assembly.has_token(tk));
            assert(capacity >= 1) by (nonlinear_arith)
                requires
                    capacity == team_size * g.maps@[map@].teams@.len(),
                    team_size >= 1,
                    g.maps@[map@].teams@.len() >= 1,
            ;
            assert(self.wf()) by {
                assert forall|i: int, j: int|
                    0 <= i < j < self.assembling@.len() implies self.assembling@[i].0@
                    != self.assembling@[j].0@ by {
                    assert(self.assembling@[i] == old_self.assembling@[i]);
                    if j == n {
                        if old_self.assembling@[i].0@ == id@ {
                            assert(old_self.is_assembling(id@));
                        }
                    } else {
                        assert(self.assembling@[j] == old_self.assembling@[j]);
                    }
                }
                assert forall|i: int, j: int|
                    0 <= i < self.assembling@.len() && 0 <= j < self.running@.len() implies
                    self.assembling@[i].0@ != self.running@[j].0@ by {
                    if i == n {
                        if self.running@[j].0@ == id@ {
                            assert(old_self.is_running(id@));
                        }
                    } else {
                        assert(self.assembling@[i] == old_self.assembling@[i]);
                    }
                }
                assert forall|i: int|
                    0 <= i < self.assembling@.len() implies (
                #[trigger] self.assembling@[i].1.assembly).wf() && self.assembling@[i].1.assembly.count()
                    < self.assembling@[i].1.assembly.capacity()
                    && self.assembling@[i].1.assembly.map_id() == self.assembling@[i].1.map by {
                    if i < n {
                        assert(self.assembling@[i] == old_self.assembling@[i]);
                        assert((#[trigger] old_self.assembling@[i].1.assembly).wf());
                        assert(old_self.assembling@[i].1.assembly.count()
                            < old_self.assembling@[i].1.assembly.capacity());
                        assert(old_self.assembling@[i].1.assembly.map_id()
                            == old_self.assembling@[i].1.map);
                    } else {
                        assert(self.assembling@[i].1.assembly == new_assembly);
                    }
                }
                assert forall|i: int, j: int, t: Seq<char>|
                    0 <= i < j < self.assembling@.len() implies !((
                #[trigger] self.assembling@[i].1.assembly.has_token(t))
                    && (#[trigger] self.assembling@[j].1.assembly.has_token(t))) by {
                    if j == n {
                        assert(!self.assembling@[j].1.assembly.has_token(t));
                    } else {
                        assert(self.assembling@[i] == old_self.assembling@[i]);
                        assert(self.assembling@[j] == old_self.assembling@[j]);
                        assert(!(old_self.assembling@[i].1.assembly.has_token(t)
                            && old_self.assembling@[j].1.assembly.has_token(t)));
                    }
                }
                assert forall|i: int, j: int, t: Seq<char>|
                    0 <= i < self.assembling@.len() && 0 <= j < self.running@.len() implies !((
                #[trigger] self.assembling@[i].1.assembly.has_token(t)) && logins_has(
                    (#[trigger] self.running@[j].1.logins)@,
                    t,
                )) by {
                    if i == n {
                        assert(!self.assembling@[i].1.assembly.has_token(t));
                    } else {
                        assert(self.assembling@[i] == old_self.assembling@[i]);
                        assert(!(old_self.assembling@[i].1.assembly.has_token(t) && logins_has(
                            old_self.running@[j].1.logins@,
                            t,
                        )));
                    }
                }
            }
            self.lemma_asm_at(id@, n);
            assert forall|s: Seq<char>| s != id@ implies self.is_assembling(s)
                == old_self.is_assembling(s) by {
                if old_self.is_assembling(s) {
                    let i = old_self.asm_idx(s);
                    assert(self.assembling@[i].0@ == s);
                }
                if self.is_assembling(s) {
                    let i = self.asm_idx(s);
                    assert(0 <= i < self.assembling@.len() && self.assembling@[i].0@ == s);
                    assert(i != n);
                    assert(old_self.assembling@[i].0@ == s);
                }
            }
            assert forall|s: Seq<char>|
                s != id@ && old_self.is_assembling(s) implies self.asm_map(s) == old_self.asm_map(s)
                && self.asm_team_size(s) == old_self.asm_team_size(s) && self.asm_count(s)
                == old_self.asm_count(s) && self.asm_capacity(s) == old_self.asm_capacity(s) by {
                let i = old_self.asm_idx(s);
                assert(self.assembling@[i].0@ == s);
                self.lemma_asm_at(s, i);
            }
            assert forall|s: Seq<char>, t: Seq<char>| true implies #[trigger] self.has_token_in(
                s,
                t,
            ) == old_self.has_token_in(s, t) by {
                self.lemma_frame_tokens(old_self, s, t);
            }
            assert forall|t: Seq<char>| true implies #[trigger] self.token_in_use(t)
                == old_self.token_in_use(t) by {
                if old_self.token_in_use(t) {
                    if exists|i: int|
                        0 <= i < old_self.assembling@.len()
                            && (#[trigger] old_self.assembling@[i].1.assembly).has_token(t) {
                        let i = choose|i: int|
                            0 <= i < old_self.assembling@.len()
                                && (#[trigger] old_self.assembling@[i].1.assembly).has_token(t);
                        assert(self.assembling@[i].1.assembly.has_token(t));
                    }
                }
                if self.token_in_use(t) {
                    if exists|i: int|
                        0 <= i < self.assembling@.len()
                            && (#[trigger] self.assembling@[i].1.assembly).has_token(t) {
                        let i = choose|i: int|
                            0 <= i < self.assembling@.len()
                                && (#[trigger] self.assembling@[i].1.assembly).has_token(t);
                        if i < n {
                            assert(old_self.assembling@[i].1.assembly.has_token(t));
                        } else {
                            assert(false);
                        }
                    }
                }
            }
        }
        Ok(())
    }

    /// Both phase stores know the same sessions before and after an
    /// operation that only appended a token-free assembling entry; every
    /// per-session token fact is unchanged.
    proof fn lemma_frame_tokens(self, old_r: SessionRegistry, s: Seq<char>, t: Seq<char>)
        requires
            self.running@ == old_r.running@,
            old_r.wf(),
            self.wf(),
            self.assembling@.len() == old_r.assembling@.len() + 1,
            forall|i: int|
                0 <= i < old_r.assembling@.len() ==> self.assembling@[i] == old_r.assembling@[i],
            forall|tk: Seq<char>|
                !(#[trigger] self.assembling@[old_r.assembling@.len() as int].1.assembly.has_token(
                    tk,
                )),
        ensures
            self.has_token_in(s, t) == old_r.has_token_in(s, t),
    {
        let n = old_r.assembling@.len() as int;
        if old_r.has_token_in(s, t) {
            if old_r.is_assembling(s) && old_r.asm_has_token(s, t) {
                let i = old_r.asm_idx(s);
                assert(self.assembling@[i].0@ == s);
                self.lemma_asm_at(s, i);
            } else {
                let i = old_r.run_idx(s);
                self.lemma_run_at(s, i);
            }
        }
        if self.has_token_in(s, t) {
            if self.is_assembling(s) && self.asm_has_token(s, t) {
                let i = self.asm_idx(s);
                assert(0 <= i < self.assembling@.len() && self.assembling@[i].0@ == s);
                if i == n {
                    assert(!self.assembling@[n].1.assembly.has_token(t));
                    assert(false);
                }
                assert(old_r.assembling@[i].0@ == s);
                old_r.lemma_asm_at(s, i);
            } else {
                let i = self.run_idx(s);
                old_r.lemma_run_at(s, i);
            }
        }
    }

    /// Mint a fresh random session id and declare a session under it.
    ///
    /// Random ids that collide with an existing session are discarded and
    /// redrawn, never overwritten, so two sessions never share an id.  The
    /// other refusals do not depend on the draw and are reported exactly;
    /// only if every draw of the round collided does the call give up with
    /// `IdInUse`, leaving the registry unchanged.
    pub fn create_session(
        &mut self,
        g: &GameDefinition,
        map: Id<GameMap>,
        team_size: usize,
    ) -> (r: Result<String, CreateError>)
        requires
            old(self).wf(),
            g.wf(),
        ensures
            final(self).wf(),
            r == Err::<String, CreateError>(CreateError::UnknownMap) <==> !g.has_map(map),
            r == Err::<String, CreateError>(CreateError::InvalidTeamSize) <==> g.has_map(map)
                && team_size == 0,
            r == Err::<String, CreateError>(CreateError::TooManySeats) <==> g.has_map(map)
                && team_size > 0 && team_size * g.maps@[map@].teams@.len() > usize::MAX,
            r == Err::<String, CreateError>(CreateError::IdInUse) ==> exists|s: Seq<char>|
                old(self).session_exists(s),
            r is Err ==> *final(self) == *old(self),
            r matches Ok(id) ==> {
                &&& id@.len() == 10
                &&& !old(self).session_exists(id@)
                &&& final(self).is_assembling(id@)
                &&& !final(self).is_running(id@)
                &&& final(self).asm_map(id@) == map@
                &&& final(self).asm_team_size(id@) == team_size
                &&& final(self).asm_count(id@) == 0
                &&& final(self).asm_capacity(id@) == team_size * g.maps@[map@].teams@.len()
                &&& forall|s: Seq<char>|
                    #![trigger final(self).is_assembling(s)]
                    #![trigger final(self).is_running(s)]
                    s != id@ ==> final(self).is_assembling(s) == old(self).is_assembling(s) && final(self).is_running(s) == old(self).is_running(s)
                &&& forall|s: Seq<char>|
                    s != id@ && old(self).is_assembling(s) ==> final(self).asm_map(s) == old(self).asm_map(s) && final(self).asm_team_size(s) == old(self).asm_team_size(s)
                        && final(self).asm_count(s) == old(self).asm_count(s) && final(self).asm_capacity(s) == old(self).asm_capacity(s)
                &&& forall|s: Seq<char>, t: Seq<char>|
                    #![trigger final(self).has_token_in(s, t)]
                    final(self).has_token_in(s, t) == old(self).has_token_in(s, t)
                &&& forall|s: Seq<char>|
                    old(self).is_running(s) ==> final(self).run_map(s) == old(self).run_map(s)
                        && final(self).run_turn(s) == old(self).run_turn(s)
                &&& forall|t: Seq<char>|
                    #![trigger final(self).token_in_use(t)]
                    final(self).token_in_use(t) == old(self).token_in_use(t)
            },
    {
        let mut attempts: usize = 0;
        while attempts < 16
            invariant
                *self == *old(self),
                attempts > 0 ==> g.has_map(map) && team_size > 0 && team_size * g.maps@[map@].teams@.len() <= usize::MAX,
                attempts > 0 ==> exists|s: Seq<char>| old(self).session_exists(s),
            decreases 16 - attempts,
        {
            let id = random_token();
            let id_copy = id.clone();
            match self.create_session_with_id(g, id, map, team_size) {
                Ok(()) => {
                    return Ok(id_copy);
                },
                Err(CreateError::IdInUse) => {
                    // A colliding draw proves the registry holds a session.
                    proof {
                        assert(old(self).session_exists(id_copy@));
                    }
                },
                Err(e) => {
                    return Err(e);
                },
            }
            attempts = attempts + 1;
        }
        Err(CreateError::IdInUse)
    }

    /// Report the phase of `sid`: absent, assembling (with its map and
    /// seat count) or running (with a copied snapshot).  Read-only.
    pub fn describe(&self, sid: &String) -> (r: WireGetGame)
        requires
            self.wf(),
        ensures
            !self.session_exists(sid@) ==> r == WireGetGame::NotFound,
            self.is_assembling(sid@) ==> (r matches WireGetGame::Assembling { map, team_size }
                && map@ == self.asm_map(sid@) && team_size == self.asm_team_size(sid@)),
            self.is_running(sid@) ==> (r matches WireGetGame::Running(WireRunningGame(s))
                && s.map@ == self.run_map(sid@) && s.turn@ == self.run_turn(sid@)),
    {
        if let Some(i) = self.find_asm(sid) {
            proof {
                self.lemma_asm_at(sid@, i as int);
            }
            let e = &self.assembling[i];
            return WireGetGame::Assembling { map: e.1.map, team_size: e.1.team_size };
        }
        if let Some(i) = self.find_run(sid) {
            proof {
                self.lemma_run_at(sid@, i as int);
            }
            let e = &self.running[i];
            return WireGetGame::Running(
                WireRunningGame(RunningSnapshot { map: e.1.map, turn: e.1.turn }),
            );
        }
        WireGetGame::NotFound
    }

    /// The roster of a running session, for handing to the rules engine:
    /// the characters in id order, with the enrolment snapshot each was
    /// admitted with.  `None` until the session runs.  Read-only.
    pub fn roster(&self, sid: &String) -> (r: Option<&IdMap<Character>>)
        requires
            self.wf(),
        ensures
            self.is_running(sid@) ==> (r matches Some(m) && m@ == self.run_roster(sid@)),
            !self.is_running(sid@) ==> r is None,
    {
        match self.find_run(sid) {
            Option::Some(j) => {
                proof {
                    self.lemma_run_at(sid@, j as int);
                }
                Some(&self.running[j].1.roster)
            },
            Option::None => None,
        }
    }

    /// Whether any session of the registry, in either phase, already handed
    /// out `token`.  Read-only.
    pub fn token_taken(&self, token: &String) -> (b: bool)
        ensures
            b == self.token_in_use(token@),
    {
        let mut i: usize = 0;
        while i < self.assembling.len()
            invariant
                i <= self.assembling@.len(),
                forall|j: int|
                    0 <= j < i ==> !(#[trigger] self.assembling@[j].1.assembly).has_token(token@),
            decreases self.assembling@.len() - i,
        {
            if self.assembling[i].1.assembly.contains_token(token) {
                return true;
            }
            i = i + 1;
        }
        let mut k: usize = 0;
        while k < self.running.len()
            invariant
                k <= self.running@.len(),
                forall|j: int|
                    0 <= j < k ==> !logins_has((#[trigger] self.running@[j].1.logins)@, token@),
                forall|j: int|
                    0 <= j < self.assembling@.len() ==> !(
                    #[trigger] self.assembling@[j].1.assembly).has_token(token@),
            decreases self.running@.len() - k,
        {
            if logins_contains(&self.running[k].1.logins, token) {
                return true;
            }
            k = k + 1;
        }
        false
    }

    /// Enrol a character into session `sid` under the caller-chosen login
    /// `token`.
    ///
    /// The request is refused, and the registry left unchanged, when the
    /// session is absent or already running, the class is unknown, the
    /// token is in use anywhere in the registry, or the team or starting
    /// cell is not available; the error says which, the first in that
    /// order.  On success the character gets the next id of the session;
    /// the enrolment that fills the last seat atomically replaces the
    /// assembling entry by a running entry, whose first turn goes to the
    /// first enrolled character.  [`SessionRegistry::join`] is the variant
    /// that mints the token itself.
    pub fn join_with_token(
        &mut self,
        g: &GameDefinition,
        sid: &String,
        req: WireNewCharRequest,
        token: String,
    ) -> (r: Result<WireCreatedChar, JoinError>)
        requires
            old(self).wf(),
        ensures
            final(self).wf(),
            r == Err::<WireCreatedChar, JoinError>(JoinError::NoSuchSession) <==> !old(self).session_exists(sid@),
            r == Err::<WireCreatedChar, JoinError>(JoinError::AlreadyRunning) <==> old(self).is_running(sid@),
            r == Err::<WireCreatedChar, JoinError>(JoinError::InvalidClass) <==> (old(self).is_assembling(sid@) && !g.has_class(req.class)),
            r == Err::<WireCreatedChar, JoinError>(JoinError::TokenInUse) <==> (old(self).is_assembling(sid@) && g.has_class(req.class) && old(self).token_in_use(token@)),
            r == Err::<WireCreatedChar, JoinError>(JoinError::InvalidTeam) <==> (old(self).is_assembling(sid@) && g.has_class(req.class) && !old(self).token_in_use(token@)
                && !(0 <= old(self).asm_map(sid@) < g.maps@.len() && 0 <= req.team@ < g.maps@[old(self).asm_map(sid@)].teams@.len())),
            r == Err::<WireCreatedChar, JoinError>(JoinError::InvalidCell) <==> (old(self).is_assembling(sid@) && g.has_class(req.class) && !old(self).token_in_use(token@) && 0
                <= old(self).asm_map(sid@) < g.maps@.len() && 0 <= req.team@ < g.maps@[old(self).asm_map(sid@)].teams@.len() && !crate::assembly::cell_listed(
                g.maps@[old(self).asm_map(sid@)].teams@[req.team@].1@,
                req.position@,
            )),
            r == Err::<WireCreatedChar, JoinError>(JoinError::CellOccupied) <==> (old(self).is_assembling(sid@) && g.has_class(req.class) && !old(self).token_in_use(token@) && 0
                <= old(self).asm_map(sid@) < g.maps@.len() && 0 <= req.team@ < g.maps@[old(self).asm_map(sid@)].teams@.len() && crate::assembly::cell_listed(
                g.maps@[old(self).asm_map(sid@)].teams@[req.team@].1@,
                req.position@,
            ) && old(self).asm_cell_taken(sid@, req.position@)),
            r != Err::<WireCreatedChar, JoinError>(JoinError::AssemblyFull),
            r is Err ==> *final(self) == *old(self),
            r matches Ok(c) ==> {
                &&& c.0@ == token@
                &&& c.1@ == old(self).asm_count(sid@)
                &&& old(self).is_assembling(sid@)
                &&& !old(self).token_in_use(token@)
                &&& (old(self).asm_count(sid@) + 1 < old(self).asm_capacity(sid@) ==> {
                    &&& final(self).is_assembling(sid@)
                    &&& !final(self).is_running(sid@)
                    &&& final(self).asm_count(sid@) == old(self).asm_count(sid@) + 1
                    &&& final(self).asm_capacity(sid@) == old(self).asm_capacity(sid@)
                    &&& final(self).asm_map(sid@) == old(self).asm_map(sid@)
                    &&& final(self).asm_team_size(sid@) == old(self).asm_team_size(sid@)
                    &&& final(self).asm_has_token(sid@, token@)
                    &&& final(self).asm_chars(sid@) == old(self).asm_chars(sid@).push(
                        enrolled_character(*g, req),
                    )
                    &&& forall|cl: int|
                        #![trigger final(self).asm_cell_taken(sid@, cl)]
                        final(self).asm_cell_taken(sid@, cl) == (old(self).asm_cell_taken(sid@, cl)
                            || cl == req.position@)
                })
                &&& (old(self).asm_count(sid@) + 1 == old(self).asm_capacity(sid@) ==> {
                    &&& final(self).is_running(sid@)
                    &&& !final(self).is_assembling(sid@)
                    &&& final(self).run_map(sid@) == old(self).asm_map(sid@)
                    &&& final(self).run_turn(sid@) == 0
                    &&& final(self).run_has_token(sid@, token@)
                    &&& final(self).run_token_char(sid@, token@) == old(self).asm_count(sid@)
                    &&& final(self).run_roster(sid@) == old(self).asm_chars(sid@).push(
                        enrolled_character(*g, req),
                    )
                })
                &&& forall|s: Seq<char>|
                    #![trigger final(self).is_assembling(s)]
                    #![trigger final(self).is_running(s)]
                    s != sid@ ==> final(self).is_assembling(s) == old(self).is_assembling(s)
                        && final(self).is_running(s) == old(self).is_running(s)
                &&& forall|s: Seq<char>|
                    s != sid@ && old(self).is_assembling(s) ==> final(self).asm_map(s) == old(self).asm_map(s) && final(self).asm_team_size(s) == old(self).asm_team_size(s)
                        && final(self).asm_count(s) == old(self).asm_count(s) && final(self).asm_capacity(s) == old(self).asm_capacity(s)
                &&& forall|s: Seq<char>|
                    s != sid@ && old(self).is_running(s) ==> final(self).run_map(s) == old(self).run_map(s) && final(self).run_turn(s) == old(self).run_turn(s)
                &&& forall|t: Seq<char>|
                    #![trigger final(self).token_in_use(t)]
                    final(self).token_in_use(t) == (old(self).token_in_use(t) || t == token@)
            },
    {
        let idx = match self.find_asm(sid) {
            Option::Some(i) => i,
            Option::None => {
                match self.find_run(sid) {
                    Option::Some(j) => {
                        proof {
                            self.lemma_run_at(sid@, j as int);
                        }
                        return Err(JoinError::AlreadyRunning);
                    },
                    Option::None => {
                        return Err(JoinError::NoSuchSession);
                    },
                }
            },
        };
        proof {
            self.lemma_asm_at(sid@, idx as int);
        }
        let (class_health, class_mana) = match g.classes.get(req.class) {
            Option::None => {
                return Err(JoinError::InvalidClass);
            },
            Option::Some(c) => (c.health, c.mana),
        };
        if self.token_taken(&token) {
            return Err(JoinError::TokenInUse);
        }
        let map_id = self.assembling[idx].1.map;
        let m = match g.maps.get(map_id) {
            Option::None => {
                return Err(JoinError::InvalidTeam);
            },
            Option::Some(m) => m,
        };
        let team = req.team.raw();
        if team >= m.teams.len() {
            return Err(JoinError::InvalidTeam);
        }
        if !crate::assembly::cell_listed_exec(&m.teams[team].1, req.position) {
            return Err(JoinError::InvalidCell);
        }
        if self.assembling[idx].1.assembly.cell_occupied(req.position) {
            return Err(JoinError::CellOccupied);
        }
        let token_copy = token.clone();
        let character = Character {
            name: req.name,
            class: req.class,
            team: req.team,
            position: req.position,
            current_health: class_health,
            current_mana: class_mana,
        };
        let mut entry = self.assembling.remove(idx);
        let ghost pre_assembly = entry.1.assembly;
        proof {
            assert(!pre_assembly.has_token(token@)) by {
                if pre_assembly.has_token(token@) {
                    assert((old(self).assembling@[idx as int].1.assembly).has_token(token@));
                }
            }
        }
        let add_result = entry.1.assembly.add(g, character, token);
        let id = match add_result {
            Ok(id) => id,
            Err(_) => {
                // Unreachable: every refusal of `add` was ruled out by the
                // checks above and by the invariant that an assembling
                // session always has a free seat.
                proof {
                    assert(false);
                }
                return Err(JoinError::AssemblyFull);
            },
        };
        let ghost post_assembly = entry.1.assembly;
        proof {
            assert(character == enrolled_character(*g, req));
            crate::assembly::lemma_has_token_push(pre_assembly, post_assembly, token@);
            crate::assembly::lemma_cell_taken_push(pre_assembly, post_assembly, character);
        }
        if entry.1.assembly.can_build() {
            let sid_key = entry.0;
            let session_map = entry.1.map;
            let (roster, logins) = entry.1.assembly.build();
            let run = RunningSession { logins, roster, map: session_map, turn: Id::new(0) };
            self.running.push((sid_key, run));
            proof {
                self.finish_full_join(
                    *old(self),
                    idx as int,
                    sid@,
                    token@,
                    pre_assembly,
                    post_assembly,
                    character,
                );
            }
            Ok(WireCreatedChar(token_copy, id))
        } else {
            let ghost new_entry = entry;
            self.assembling.insert(idx, entry);
            proof {
                assert(self.assembling@ =~= old(self).assembling@.update(idx as int, new_entry));
                self.finish_partial_join(
                    *old(self),
                    idx as int,
                    sid@,
                    token@,
                    pre_assembly,
                    post_assembly,
                    character,
                );
            }
            Ok(WireCreatedChar(token_copy, id))
        }
    }

    /// Enrol a character into session `sid`, minting a fresh random login
    /// token for it.
    ///
    /// A drawn token that is already in use anywhere in the registry is
    /// discarded and redrawn, so no two characters ever share a login
    /// token.  The refusals that do not depend on the draw are reported
    /// exactly; only if every draw of the round collided does the call
    /// give up with `TokenInUse`, leaving the registry unchanged.
    pub fn join(&mut self, g: &GameDefinition, sid: &String, req: WireNewCharRequest) -> (r: Result<
        WireCreatedChar,
        JoinError,
    >)
        requires
            old(self).wf(),
        ensures
            final(self).wf(),
            r == Err::<WireCreatedChar, JoinError>(JoinError::NoSuchSession) <==> !old(self).session_exists(sid@),
            r == Err::<WireCreatedChar, JoinError>(JoinError::AlreadyRunning) <==> old(self).is_running(sid@),
            r == Err::<WireCreatedChar, JoinError>(JoinError::InvalidClass) <==> (old(self).is_assembling(sid@) && !g.has_class(req.class)),
            r != Err::<WireCreatedChar, JoinError>(JoinError::AssemblyFull),
            r == Err::<WireCreatedChar, JoinError>(JoinError::TokenInUse) ==> (old(self).is_assembling(sid@) && g.has_class(req.class)),
            r == Err::<WireCreatedChar, JoinError>(JoinError::TokenInUse) ==> exists|t: Seq<char>|
                old(self).token_in_use(t),
            r == Err::<WireCreatedChar, JoinError>(JoinError::InvalidTeam) ==> !(0 <= old(self).asm_map(sid@) < g.maps@.len() && 0 <= req.team@ < g.maps@[old(self).asm_map(
                sid@,
            )].teams@.len()),
            r == Err::<WireCreatedChar, JoinError>(JoinError::InvalidCell)
                ==> !crate::assembly::cell_listed(
                g.maps@[old(self).asm_map(sid@)].teams@[req.team@].1@,
                req.position@,
            ),
            r == Err::<WireCreatedChar, JoinError>(JoinError::CellOccupied) ==> old(self).asm_cell_taken(sid@, req.position@),
            r is Err ==> *final(self) == *old(self),
            r matches Ok(c) ==> {
                &&& c.0@.len() == 10
                &&& !old(self).token_in_use(c.0@)
                &&& c.1@ == old(self).asm_count(sid@)
                &&& old(self).is_assembling(sid@)
                &&& (old(self).asm_count(sid@) + 1 < old(self).asm_capacity(sid@) ==> {
                    &&& final(self).is_assembling(sid@)
                    &&& !final(self).is_running(sid@)
                    &&& final(self).asm_count(sid@) == old(self).asm_count(sid@) + 1
                    &&& final(self).asm_capacity(sid@) == old(self).asm_capacity(sid@)
                    &&& final(self).asm_map(sid@) == old(self).asm_map(sid@)
                    &&& final(self).asm_team_size(sid@) == old(self).asm_team_size(sid@)
                    &&& final(self).asm_has_token(sid@, c.0@)
                    &&& final(self).asm_chars(sid@) == old(self).asm_chars(sid@).push(
                        enrolled_character(*g, req),
                    )
                    &&& forall|cl: int|
                        #![trigger final(self).asm_cell_taken(sid@, cl)]
                        final(self).asm_cell_taken(sid@, cl) == (old(self).asm_cell_taken(sid@, cl)
                            || cl == req.position@)
                })
                &&& (old(self).asm_count(sid@) + 1 == old(self).asm_capacity(sid@) ==> {
                    &&& final(self).is_running(sid@)
                    &&& !final(self).is_assembling(sid@)
                    &&& final(self).run_map(sid@) == old(self).asm_map(sid@)
                    &&& final(self).run_turn(sid@) == 0
                    &&& final(self).run_has_token(sid@, c.0@)
                    &&& final(self).run_token_char(sid@, c.0@) == old(self).asm_count(sid@)
                    &&& final(self).run_roster(sid@) == old(self).asm_chars(sid@).push(
                        enrolled_character(*g, req),
                    )
                })
                &&& forall|s: Seq<char>|
                    #![trigger final(self).is_assembling(s)]
                    #![trigger final(self).is_running(s)]
                    s != sid@ ==> final(self).is_assembling(s) == old(self).is_assembling(s)
                        && final(self).is_running(s) == old(self).is_running(s)
                &&& forall|s: Seq<char>|
                    s != sid@ && old(self).is_running(s) ==> final(self).run_map(s) == old(self).run_map(s) && final(self).run_turn(s) == old(self).run_turn(s)
                &&& forall|t: Seq<char>|
                    #![trigger final(self).token_in_use(t)]
                    final(self).token_in_use(t) == (old(self).token_in_use(t) || t == c.0@)
            },
    {
        let mut attempts: usize = 0;
        while attempts < 16
            invariant
                *self == *old(self),
                attempts > 0 ==> old(self).is_assembling(sid@) && g.has_class(req.class),
                attempts > 0 ==> exists|t: Seq<char>| old(self).token_in_use(t),
            decreases 16 - attempts,
        {
            let token = random_token();
            let ghost drawn = token@;
            let req_again = WireNewCharRequest {
                name: req.name.clone(),
                class: req.class,
                team: req.team,
                position: req.position,
            };
            proof {
                assert(enrolled_character(*g, req_again) == enrolled_character(*g, req));
            }
            match self.join_with_token(g, sid, req_again, token) {
                Ok(c) => {
                    return Ok(c);
                },
                Err(JoinError::TokenInUse) => {
                    // A colliding draw proves some token is already out.
                    proof {
                        assert(old(self).token_in_use(drawn));
                    }
                },
                Err(e) => {
                    return Err(e);
                },
            }
            attempts = attempts + 1;
        }
        Err(JoinError::TokenInUse)
    }

    /// What the turn-authority gate answers for one claim, as a function
    /// of the registry state: the claim passes exactly when the session is
    /// running, the token is recognised there, and the character it names
    /// holds the turn.
    pub open spec fn spec_authorize(self, sid: Seq<char>, t: Seq<char>) -> Result<
        int,
        ActionError,
    > {
        if !self.session_exists(sid) {
            Err(ActionError::NoSuchSession)
        } else if self.is_assembling(sid) {
            Err(ActionError::StillAssembling)
        } else if !self.run_has_token(sid, t) {
            Err(ActionError::UnknownLogin)
        } else if self.run_token_char(sid, t) != self.run_turn(sid) {
            Err(ActionError::NotYourTurn)
        } else {
            Ok(self.run_token_char(sid, t))
        }
    }

    /// Check a claim to act without changing anything: resolve the login
    /// token and compare the resolved character against the current
    /// turn-holder.  Read-only; the engine is only consulted after this
    /// gate passes.
    pub fn authorize_action(&self, sid: &String, token: &String) -> (r: Result<
        Id<Character>,
        ActionError,
    >)
        requires
            self.wf(),
        ensures
            r matches Ok(id) ==> self.spec_authorize(sid@, token@) == Ok::<int, ActionError>(id@),
            r matches Err(e) ==> self.spec_authorize(sid@, token@) == Err::<int, ActionError>(e),
    {
        if let Option::Some(i) = self.find_asm(sid) {
            proof {
                self.lemma_asm_at(sid@, i as int);
            }
            return Err(ActionError::StillAssembling);
        }
        let j = match self.find_run(sid) {
            Option::None => {
                return Err(ActionError::NoSuchSession);
            },
            Option::Some(j) => j,
        };
        proof {
            self.lemma_run_at(sid@, j as int);
        }
        let e = &self.running[j];
        let k = match logins_find(&e.1.logins, token) {
            Option::None => {
                return Err(ActionError::UnknownLogin);
            },
            Option::Some(k) => k,
        };
        proof {
            lemma_logins_at(e.1.logins@, token@, k as int);
        }
        let cid = e.1.logins[k].1;
        if cid == e.1.turn {
            Ok(cid)
        } else {
            Err(ActionError::NotYourTurn)
        }
    }

    /// Record the opaque engine's verdict for an authorized action.
    ///
    /// The claim is re-checked under the same exclusive access; an
    /// unauthorized claim fails exactly as
    /// [`SessionRegistry::authorize_action`] says and changes nothing.  An
    /// authorized claim whose verdict is `Rejected` is passed through as
    /// such, changing nothing; an accepted verdict moves the turn to the
    /// character the engine named, and changes nothing else.
    pub fn submit_action(&mut self, sid: &String, token: &String, verdict: EngineVerdict) -> (r:
        Result<(), ActionError>)
        requires
            old(self).wf(),
        ensures
            final(self).wf(),
            r matches Err(e) ==> (e == ActionError::Rejected || old(self).spec_authorize(
                sid@,
                token@,
            ) == Err::<int, ActionError>(e)),
            r == Err::<(), ActionError>(ActionError::Rejected) <==> (old(self).spec_authorize(
                sid@,
                token@,
            ) is Ok && verdict == EngineVerdict::Rejected),
            r is Ok <==> (old(self).spec_authorize(sid@, token@) is Ok && verdict matches
                EngineVerdict::Accepted { .. }),
            r is Err ==> *final(self) == *old(self),
            r is Ok ==> {
                &&& (verdict matches EngineVerdict::Accepted { next_turn } ==> final(self).run_turn(
                    sid@,
                ) == next_turn@)
                &&& final(self).is_running(sid@)
                &&& final(self).run_map(sid@) == old(self).run_map(sid@)
                &&& forall|s: Seq<char>|
                    #![trigger final(self).is_assembling(s)]
                    #![trigger final(self).is_running(s)]
                    final(self).is_assembling(s) == old(self).is_assembling(s) && final(self).is_running(s) == old(self).is_running(s)
                &&& forall|s: Seq<char>|
                    old(self).is_assembling(s) ==> final(self).asm_map(s) == old(self).asm_map(s)
                        && final(self).asm_team_size(s) == old(self).asm_team_size(s) && final(self).asm_count(s) == old(self).asm_count(s) && final(self).asm_capacity(s) == old(self).asm_capacity(s)
                &&& forall|s: Seq<char>|
                    s != sid@ && old(self).is_running(s) ==> final(self).run_map(s) == old(self).run_map(s) && final(self).run_turn(s) == old(self).run_turn(s)
                &&& forall|t: Seq<char>|
                    #![trigger final(self).run_has_token(sid@, t)]
                    final(self).run_has_token(sid@, t) == old(self).run_has_token(sid@, t) && (old(self).run_has_token(sid@, t) ==> final(self).run_token_char(sid@, t) == old(self).run_token_char(sid@, t))
                &&& forall|s: Seq<char>|
                    old(self).is_running(s) ==> final(self).run_roster(s) == old(self).run_roster(
                        s,
                    )
                &&& forall|t: Seq<char>|
                    #![trigger final(self).token_in_use(t)]
                    final(self).token_in_use(t) == old(self).token_in_use(t)
            },
    {
        if let Option::Some(i) = self.find_asm(sid) {
            proof {
                self.lemma_asm_at(sid@, i as int);
            }
            return Err(ActionError::StillAssembling);
        }
        let j = match self.find_run(sid) {
            Option::None => {
                return Err(ActionError::NoSuchSession);
            },
            Option::Some(j) => j,
        };
        proof {
            self.lemma_run_at(sid@, j as int);
        }
        let k = match logins_find(&self.running[j].1.logins, token) {
            Option::None => {
                return Err(ActionError::UnknownLogin);
            },
            Option::Some(k) => k,
        };
        proof {
            lemma_logins_at(self.running@[j as int].1.logins@, token@, k as int);
        }
        let cid = self.running[j].1.logins[k].1;
        if !(cid == self.running[j].1.turn) {
            return Err(ActionError::NotYourTurn);
        }
        match verdict {
            EngineVerdict::Rejected => Err(ActionError::Rejected),
            EngineVerdict::Accepted { next_turn } => {
                let mut entry = self.running.remove(j);
                entry.1.turn = next_turn;
                let ghost new_entry = entry;
                self.running.insert(j, entry);
                proof {
                    assert(self.running@ =~= old(self).running@.update(j as int, new_entry));
                    self.finish_turn_update(*old(self), j as int, sid@);
                }
                Ok(())
            },
        }
    }

    /// Invariant preservation and frame facts for a turn handoff: only the
    /// turn field of the addressed running entry changed.
    proof fn finish_turn_update(self, pre: SessionRegistry, j: int, sid: Seq<char>)
        requires
            pre.wf(),
            0 <= j < pre.running@.len(),
            pre.running@[j].0@ == sid,
            self.assembling@ == pre.assembling@,
            self.running@.len() == pre.running@.len(),
            forall|i: int| 0 <= i < pre.running@.len() && i != j ==> self.running@[i]
                == pre.running@[i],
            self.running@[j].0@ == sid,
            self.running@[j].1.logins == pre.running@[j].1.logins,
            self.running@[j].1.map == pre.running@[j].1.map,
            self.running@[j].1.roster == pre.running@[j].1.roster,
        ensures
            self.wf(),
            self.is_running(sid),
            self.run_turn(sid) == self.running@[j].1.turn@,
            self.run_map(sid) == pre.run_map(sid),
            forall|s: Seq<char>|
                pre.is_running(s) ==> self.run_roster(s) == pre.run_roster(s),
            forall|s: Seq<char>|
                #![trigger self.is_assembling(s)]
                #![trigger self.is_running(s)]
                self.is_assembling(s) == pre.is_assembling(s) && self.is_running(s)
                    == pre.is_running(s),
            forall|s: Seq<char>|
                pre.is_assembling(s) ==> self.asm_map(s) == pre.asm_map(s) && self.asm_team_size(s)
                    == pre.asm_team_size(s) && self.asm_count(s) == pre.asm_count(s)
                    && self.asm_capacity(s) == pre.asm_capacity(s),
            forall|s: Seq<char>|
                s != sid && pre.is_running(s) ==> self.run_map(s) == pre.run_map(s)
                    && self.run_turn(s) == pre.run_turn(s),
            forall|t: Seq<char>|
                #![trigger self.run_has_token(sid, t)]
                self.run_has_token(sid, t) == pre.run_has_token(sid, t) && (pre.run_has_token(
                    sid,
                    t,
                ) ==> self.run_token_char(sid, t) == pre.run_token_char(sid, t)),
            forall|t: Seq<char>|
                #![trigger self.token_in_use(t)]
                self.token_in_use(t) == pre.token_in_use(t),
    {
        pre.lemma_run_at(sid, j);
        assert(forall|i: int|
            0 <= i < self.running@.len() ==> (#[trigger] self.running@[i]).0@
                == pre.running@[i].0@);
        assert(forall|i: int|
            0 <= i < self.running@.len() ==> (#[trigger] self.running@[i]).1.logins
                == pre.running@[i].1.logins);
        assert(self.wf()) by {
            assert forall|i: int, k1: int, k2: int|
                #![trigger self.running@[i].1.logins@[k1], self.running@[i].1.logins@[k2]]
                0 <= i < self.running@.len() && 0 <= k1 < k2 < self.running@[i].1.logins@.len()
                    implies self.running@[i].1.logins@[k1].0@
                != self.running@[i].1.logins@[k2].0@ by {
                assert(self.running@[i].1.logins == pre.running@[i].1.logins);
                assert(pre.running@[i].1.logins@[k1].0@ != pre.running@[i].1.logins@[k2].0@);
            }
            assert forall|i: int, jx: int, t: Seq<char>|
                #![trigger logins_has(self.running@[i].1.logins@, t), logins_has(self.running@[jx].1.logins@, t)]
                0 <= i < jx < self.running@.len() implies !(logins_has(
                self.running@[i].1.logins@,
                t,
            ) && logins_has(self.running@[jx].1.logins@, t)) by {
                assert(self.running@[i].1.logins == pre.running@[i].1.logins);
                assert(self.running@[jx].1.logins == pre.running@[jx].1.logins);
                assert(!(logins_has(pre.running@[i].1.logins@, t) && logins_has(
                    pre.running@[jx].1.logins@,
                    t,
                )));
            }
            assert forall|i: int, jx: int, t: Seq<char>|
                #![trigger self.assembling@[i].1.assembly.has_token(t), logins_has(self.running@[jx].1.logins@, t)]
                0 <= i < self.assembling@.len() && 0 <= jx < self.running@.len() implies !((
            self.assembling@[i].1.assembly.has_token(t)) && logins_has(
                self.running@[jx].1.logins@,
                t,
            )) by {
                assert(self.running@[jx].1.logins == pre.running@[jx].1.logins);
                assert(!(pre.assembling@[i].1.assembly.has_token(t) && logins_has(
                    pre.running@[jx].1.logins@,
                    t,
                )));
            }
        }
        self.lemma_run_at(sid, j);
        assert forall|s: Seq<char>| true implies #[trigger] self.is_running(s) == pre.is_running(
            s,
        ) by {
            if pre.is_running(s) {
                let i = pre.run_idx(s);
                assert(self.running@[i].0@ == s);
            }
            if self.is_running(s) {
                let i = self.run_idx(s);
                assert(pre.running@[i].0@ == s);
            }
        }
        assert forall|s: Seq<char>|
            s != sid && pre.is_running(s) implies self.run_map(s) == pre.run_map(s)
            && self.run_turn(s) == pre.run_turn(s) by {
            let i = pre.run_idx(s);
            assert(i != j);
            assert(self.running@[i] == pre.running@[i]);
            self.lemma_run_at(s, i);
        }
        assert forall|s: Seq<char>| pre.is_running(s) implies self.run_roster(s) == pre.run_roster(
            s,
        ) by {
            let i = pre.run_idx(s);
            assert(self.running@[i].0@ == s);
            self.lemma_run_at(s, i);
            assert(self.running@[i].1.roster == pre.running@[i].1.roster);
        }
        assert forall|t: Seq<char>| true implies #[trigger] self.run_has_token(sid, t)
            == pre.run_has_token(sid, t) && (pre.run_has_token(sid, t) ==> self.run_token_char(
            sid,
            t,
        ) == pre.run_token_char(sid, t)) by {
            assert(self.running@[j].1.logins == pre.running@[j].1.logins);
        }
        assert forall|t: Seq<char>| true implies #[trigger] self.token_in_use(t)
            == pre.token_in_use(t) by {
            if self.token_in_use(t) {
                if exists|i: int|
                    0 <= i < self.running@.len() && logins_has(
                        (#[trigger] self.running@[i].1.logins)@,
                        t,
                    ) {
                    let i = choose|i: int|
                        0 <= i < self.running@.len() && logins_has(
                            (#[trigger] self.running@[i].1.logins)@,
                            t,
                        );
                    assert(logins_has(pre.running@[i].1.logins@, t));
                }
            }
            if pre.token_in_use(t) {
                if exists|i: int|
                    0 <= i < pre.running@.len() && logins_has(
                        (#[trigger] pre.running@[i].1.logins)@,
                        t,
                    ) {
                    let i = choose|i: int|
                        0 <= i < pre.running@.len() && logins_has(
                            (#[trigger] pre.running@[i].1.logins)@,
                            t,
                        );
                    assert(logins_has(self.running@[i].1.logins@, t));
                }
            }
        }
    }

    /// Invariant preservation and frame facts for an enrolment that leaves
    /// the session assembling: only the addressed entry changed, by one
    /// more character and one more token.
    proof fn finish_partial_join(
        self,
        pre: SessionRegistry,
        idx: int,
        sid: Seq<char>,
        tk: Seq<char>,
        pre_assembly: CharacterAssembly,
        post_assembly: CharacterAssembly,
        ch: Character,
    )
        requires
            post_assembly.chars() == pre_assembly.chars().push(ch),
            forall|c: int|
                post_assembly.cell_taken(c) == (pre_assembly.cell_taken(c) || c == ch.position@),
            pre.wf(),
            0 <= idx < pre.assembling@.len(),
            pre.assembling@[idx].0@ == sid,
            pre_assembly == pre.assembling@[idx].1.assembly,
            !pre.token_in_use(tk),
            self.running@ == pre.running@,
            self.assembling@.len() == pre.assembling@.len(),
            forall|i: int|
                0 <= i < pre.assembling@.len() && i != idx ==> self.assembling@[i]
                    == pre.assembling@[i],
            self.assembling@[idx].0@ == sid,
            self.assembling@[idx].1.map == pre.assembling@[idx].1.map,
            self.assembling@[idx].1.team_size == pre.assembling@[idx].1.team_size,
            self.assembling@[idx].1.assembly == post_assembly,
            post_assembly.wf(),
            post_assembly.capacity() == pre_assembly.capacity(),
            post_assembly.map_id() == pre_assembly.map_id(),
            post_assembly.count() == pre_assembly.count() + 1,
            post_assembly.count() < post_assembly.capacity(),
            forall|t: Seq<char>|
                post_assembly.has_token(t) == (pre_assembly.has_token(t) || t == tk),
        ensures
            self.wf(),
            self.is_assembling(sid),
            !self.is_running(sid),
            self.asm_count(sid) == pre.asm_count(sid) + 1,
            self.asm_capacity(sid) == pre.asm_capacity(sid),
            self.asm_map(sid) == pre.asm_map(sid),
            self.asm_team_size(sid) == pre.asm_team_size(sid),
            self.asm_has_token(sid, tk),
            self.asm_chars(sid) == pre.asm_chars(sid).push(ch),
            forall|c: int|
                #![trigger self.asm_cell_taken(sid, c)]
                self.asm_cell_taken(sid, c) == (pre.asm_cell_taken(sid, c) || c == ch.position@),
            forall|s: Seq<char>|
                #![trigger self.is_assembling(s)]
                #![trigger self.is_running(s)]
                s != sid ==> self.is_assembling(s) == pre.is_assembling(s) && self.is_running(s)
                    == pre.is_running(s),
            forall|s: Seq<char>|
                s != sid && pre.is_assembling(s) ==> self.asm_map(s) == pre.asm_map(s)
                    && self.asm_team_size(s) == pre.asm_team_size(s) && self.asm_count(s)
                    == pre.asm_count(s) && self.asm_capacity(s) == pre.asm_capacity(s),
            forall|s: Seq<char>|
                s != sid && pre.is_running(s) ==> self.run_map(s) == pre.run_map(s)
                    && self.run_turn(s) == pre.run_turn(s),
            forall|t: Seq<char>|
                #![trigger self.token_in_use(t)]
                self.token_in_use(t) == (pre.token_in_use(t) || t == tk),
    {
        pre.lemma_asm_at(sid, idx);
        assert(forall|i: int|
            0 <= i < self.assembling@.len() ==> (#[trigger] self.assembling@[i]).0@
                == pre.assembling@[i].0@);
        assert(self.wf()) by {
            assert forall|i: int|
                0 <= i < self.assembling@.len() implies (
            #[trigger] self.assembling@[i].1.assembly).wf() && self.assembling@[i].1.assembly.count()
                < self.assembling@[i].1.assembly.capacity() && self.assembling@[i].1.assembly.map_id()
                == self.assembling@[i].1.map by {
                if i != idx {
                    assert(self.assembling@[i] == pre.assembling@[i]);
                    assert((#[trigger] pre.assembling@[i].1.assembly).wf());
                    assert(pre.assembling@[i].1.assembly.count()
                        < pre.assembling@[i].1.assembly.capacity());
                    assert(pre.assembling@[i].1.assembly.map_id() == pre.assembling@[i].1.map);
                } else {
                    assert(pre_assembly.map_id() == pre.assembling@[idx].1.map);
                }
            }
            assert forall|i: int, j: int, t: Seq<char>|
                0 <= i < j < self.assembling@.len() implies !((
            #[trigger] self.assembling@[i].1.assembly.has_token(t))
                && (#[trigger] self.assembling@[j].1.assembly.has_token(t))) by {
                if self.assembling@[i].1.assembly.has_token(t)
                    && self.assembling@[j].1.assembly.has_token(t) {
                    if i != idx && j != idx {
                        assert(self.assembling@[i] == pre.assembling@[i]);
                        assert(self.assembling@[j] == pre.assembling@[j]);
                        assert(!(pre.assembling@[i].1.assembly.has_token(t)
                            && pre.assembling@[j].1.assembly.has_token(t)));
                    } else {
                        let other = if i == idx {
                            j
                        } else {
                            i
                        };
                        assert(self.assembling@[other] == pre.assembling@[other]);
                        assert(pre.assembling@[other].1.assembly.has_token(t));
                        if pre_assembly.has_token(t) {
                            assert(pre.assembling@[idx].1.assembly.has_token(t));
                            assert(!(pre.assembling@[idx].1.assembly.has_token(t)
                                && pre.assembling@[other].1.assembly.has_token(t)));
                            assert(!(pre.assembling@[other].1.assembly.has_token(t)
                                && pre.assembling@[idx].1.assembly.has_token(t)));
                        } else {
                            assert(t == tk);
                            assert(pre.token_in_use(t));
                        }
                    }
                }
            }
            assert forall|i: int, j: int, t: Seq<char>|
                #![trigger self.assembling@[i].1.assembly.has_token(t), logins_has(self.running@[j].1.logins@, t)]
                0 <= i < self.assembling@.len() && 0 <= j < self.running@.len() implies !((
            self.assembling@[i].1.assembly.has_token(t)) && logins_has(
                self.running@[j].1.logins@,
                t,
            )) by {
                if self.assembling@[i].1.assembly.has_token(t) && logins_has(
                    self.running@[j].1.logins@,
                    t,
                ) {
                    assert(pre.running@[j] == self.running@[j]);
                    if i != idx {
                        assert(self.assembling@[i] == pre.assembling@[i]);
                        assert(!(pre.assembling@[i].1.assembly.has_token(t) && logins_has(
                            pre.running@[j].1.logins@,
                            t,
                        )));
                    } else {
                        if pre_assembly.has_token(t) {
                            assert(pre.assembling@[idx].1.assembly.has_token(t));
                            assert(!(pre.assembling@[idx].1.assembly.has_token(t) && logins_has(
                                pre.running@[j].1.logins@,
                                t,
                            )));
                        } else {
                            assert(t == tk);
                            assert(pre.token_in_use(t));
                        }
                    }
                }
            }
        }
        self.lemma_asm_at(sid, idx);
        assert(self.asm_has_token(sid, tk));
        assert(!self.is_running(sid)) by {
            if self.is_running(sid) {
                let j = self.run_idx(sid);
                assert(pre.running@[j].0@ == sid);
                assert(pre.assembling@[idx].0@ != pre.running@[j].0@);
            }
        }
        assert forall|s: Seq<char>| s != sid implies self.is_assembling(s) == pre.is_assembling(s)
            && self.is_running(s) == pre.is_running(s) by {
            if pre.is_assembling(s) {
                let i = pre.asm_idx(s);
                assert(self.assembling@[i].0@ == s);
            }
            if self.is_assembling(s) {
                let i = self.asm_idx(s);
                assert(pre.assembling@[i].0@ == s);
            }
        }
        assert forall|s: Seq<char>|
            s != sid && pre.is_assembling(s) implies self.asm_map(s) == pre.asm_map(s)
            && self.asm_team_size(s) == pre.asm_team_size(s) && self.asm_count(s) == pre.asm_count(
            s,
        ) && self.asm_capacity(s) == pre.asm_capacity(s) by {
            let i = pre.asm_idx(s);
            assert(i != idx);
            assert(self.assembling@[i] == pre.assembling@[i]);
            self.lemma_asm_at(s, i);
        }
        assert forall|s: Seq<char>|
            s != sid && pre.is_running(s) implies self.run_map(s) == pre.run_map(s)
            && self.run_turn(s) == pre.run_turn(s) by {
            let j = pre.run_idx(s);
            self.lemma_run_at(s, j);
        }
        assert forall|t: Seq<char>| true implies #[trigger] self.token_in_use(t) == (
        pre.token_in_use(t) || t == tk) by {
            if self.token_in_use(t) {
                if exists|i: int|
                    0 <= i < self.assembling@.len()
                        && (#[trigger] self.assembling@[i].1.assembly).has_token(t) {
                    let i = choose|i: int|
                        0 <= i < self.assembling@.len()
                            && (#[trigger] self.assembling@[i].1.assembly).has_token(t);
                    if i == idx {
                        if pre_assembly.has_token(t) {
                            assert(pre.assembling@[idx].1.assembly.has_token(t));
                        }
                    } else {
                        assert(pre.assembling@[i].1.assembly.has_token(t));
                    }
                }
            }
            if pre.token_in_use(t) {
                if exists|i: int|
                    0 <= i < pre.assembling@.len()
                        && (#[trigger] pre.assembling@[i].1.assembly).has_token(t) {
                    let i = choose|i: int|
                        0 <= i < pre.assembling@.len()
                            && (#[trigger] pre.assembling@[i].1.assembly).has_token(t);
                    if i == idx {
                        assert(post_assembly.has_token(t));
                        assert(self.assembling@[idx].1.assembly.has_token(t));
                    } else {
                        assert(self.assembling@[i].1.assembly.has_token(t));
                    }
                }
            }
            if t == tk {
                assert(post_assembly.has_token(t));
                assert(self.assembling@[idx].1.assembly.has_token(t));
            }
        }
    }

    /// Invariant preservation and frame facts for the enrolment that fills
    /// the last seat: the assembling entry disappears and a running entry
    /// with the same id, the same map and the accumulated logins appears.
    proof fn finish_full_join(
        self,
        pre: SessionRegistry,
        idx: int,
        sid: Seq<char>,
        tk: Seq<char>,
        pre_assembly: CharacterAssembly,
        post_assembly: CharacterAssembly,
        ch: Character,
    )
        requires
            post_assembly.chars() == pre_assembly.chars().push(ch),
            self.running@[pre.running@.len() as int].1.roster@ == post_assembly.chars(),
            pre.wf(),
            0 <= idx < pre.assembling@.len(),
            pre.assembling@[idx].0@ == sid,
            pre_assembly == pre.assembling@[idx].1.assembly,
            !pre.token_in_use(tk),
            post_assembly.wf(),
            post_assembly.tokens() == pre_assembly.tokens().push(tk),
            forall|t: Seq<char>|
                post_assembly.has_token(t) == (pre_assembly.has_token(t) || t == tk),
            post_assembly.count() == pre_assembly.count() + 1,
            self.assembling@ == pre.assembling@.remove(idx),
            self.running@.len() == pre.running@.len() + 1,
            forall|j: int| 0 <= j < pre.running@.len() ==> self.running@[j] == pre.running@[j],
            self.running@[pre.running@.len() as int].0@ == sid,
            self.running@[pre.running@.len() as int].1.map == pre.assembling@[idx].1.map,
            self.running@[pre.running@.len() as int].1.turn@ == 0,
            self.running@[pre.running@.len() as int].1.logins@.len() == post_assembly.count(),
            forall|k: int|
                0 <= k < post_assembly.count() ==> (
                #[trigger] self.running@[pre.running@.len() as int].1.logins@[k]).0@
                    == post_assembly.tokens()[k]
                    && self.running@[pre.running@.len() as int].1.logins@[k].1@ == k,
        ensures
            self.wf(),
            self.is_running(sid),
            !self.is_assembling(sid),
            self.run_map(sid) == pre.asm_map(sid),
            self.run_turn(sid) == 0,
            self.run_has_token(sid, tk),
            self.run_token_char(sid, tk) == pre.asm_count(sid),
            self.run_roster(sid) == pre.asm_chars(sid).push(ch),
            forall|s: Seq<char>|
                #![trigger self.is_assembling(s)]
                #![trigger self.is_running(s)]
                s != sid ==> self.is_assembling(s) == pre.is_assembling(s) && self.is_running(s)
                    == pre.is_running(s),
            forall|s: Seq<char>|
                s != sid && pre.is_assembling(s) ==> self.asm_map(s) == pre.asm_map(s)
                    && self.asm_team_size(s) == pre.asm_team_size(s) && self.asm_count(s)
                    == pre.asm_count(s) && self.asm_capacity(s) == pre.asm_capacity(s),
            forall|s: Seq<char>|
                s != sid && pre.is_running(s) ==> self.run_map(s) == pre.run_map(s)
                    && self.run_turn(s) == pre.run_turn(s),
            forall|t: Seq<char>|
                #![trigger self.token_in_use(t)]
                self.token_in_use(t) == (pre.token_in_use(t) || t == tk),
    {
        let na = pre.assembling@.len() as int;
        let nr = pre.running@.len() as int;
        let logins = self.running@[nr].1.logins@;
        pre.lemma_asm_at(sid, idx);
        crate::assembly::lemma_wf_tokens_distinct(post_assembly);
        crate::assembly::lemma_tokens_len(post_assembly);
        crate::assembly::lemma_tokens_len(pre_assembly);
        assert(forall|i: int| 0 <= i < idx ==> self.assembling@[i] == pre.assembling@[i]);
        assert(forall|i: int|
            idx <= i < na - 1 ==> self.assembling@[i] == pre.assembling@[i + 1]);
        assert(forall|k1: int, k2: int|
            #![trigger logins[k1], logins[k2]]
            0 <= k1 < k2 < logins.len() ==> logins[k1].0@ != logins[k2].0@);
        assert(self.wf()) by {
            assert forall|i: int, j: int|
                0 <= i < j < self.running@.len() implies self.running@[i].0@
                != self.running@[j].0@ by {
                if j == nr {
                    if pre.running@[i].0@ == sid {
                        assert(pre.assembling@[idx].0@ != pre.running@[i].0@);
                    }
                }
            }
            assert forall|i: int, j: int|
                0 <= i < self.assembling@.len() && 0 <= j < self.running@.len() implies
                self.assembling@[i].0@ != self.running@[j].0@ by {
                let ip: int = if i < idx {
                    i
                } else {
                    i + 1
                };
                assert(self.assembling@[i] == pre.assembling@[ip]);
                if j == nr {
                    if pre.assembling@[ip].0@ == sid {
                        if ip < idx {
                            assert(pre.assembling@[ip].0@ != pre.assembling@[idx].0@);
                        } else {
                            assert(pre.assembling@[idx].0@ != pre.assembling@[ip].0@);
                        }
                    }
                } else {
                    assert(pre.assembling@[ip].0@ != pre.running@[j].0@);
                }
            }
            assert forall|i: int|
                0 <= i < self.assembling@.len() implies (
            #[trigger] self.assembling@[i].1.assembly).wf() && self.assembling@[i].1.assembly.count()
                < self.assembling@[i].1.assembly.capacity() && self.assembling@[i].1.assembly.map_id()
                == self.assembling@[i].1.map by {
                let ip: int = if i < idx {
                    i
                } else {
                    i + 1
                };
                assert(self.assembling@[i] == pre.assembling@[ip]);
                assert((#[trigger] pre.assembling@[ip].1.assembly).wf());
                assert(pre.assembling@[ip].1.assembly.count()
                    < pre.assembling@[ip].1.assembly.capacity());
                assert(pre.assembling@[ip].1.assembly.map_id() == pre.assembling@[ip].1.map);
            }
            assert forall|i: int, j: int|
                0 <= i < j < self.assembling@.len() implies self.assembling@[i].0@
                != self.assembling@[j].0@ by {
                let ip: int = if i < idx {
                    i
                } else {
                    i + 1
                };
                let jp: int = if j < idx {
                    j
                } else {
                    j + 1
                };
                assert(self.assembling@[i] == pre.assembling@[ip]);
                assert(self.assembling@[j] == pre.assembling@[jp]);
                assert(pre.assembling@[ip].0@ != pre.assembling@[jp].0@);
            }
            assert forall|i: int, j: int, t: Seq<char>|
                0 <= i < j < self.assembling@.len() implies !((
            #[trigger] self.assembling@[i].1.assembly.has_token(t))
                && (#[trigger] self.assembling@[j].1.assembly.has_token(t))) by {
                let ip: int = if i < idx {
                    i
                } else {
                    i + 1
                };
                let jp: int = if j < idx {
                    j
                } else {
                    j + 1
                };
                assert(self.assembling@[i] == pre.assembling@[ip]);
                assert(self.assembling@[j] == pre.assembling@[jp]);
                assert(!(pre.assembling@[ip].1.assembly.has_token(t)
                    && pre.assembling@[jp].1.assembly.has_token(t)));
            }
            assert forall|i: int, k1: int, k2: int|
                #![trigger self.running@[i].1.logins@[k1], self.running@[i].1.logins@[k2]]
                0 <= i < self.running@.len() && 0 <= k1 < k2 < self.running@[i].1.logins@.len()
                    implies self.running@[i].1.logins@[k1].0@
                != self.running@[i].1.logins@[k2].0@ by {
                if i < nr {
                    assert(self.running@[i] == pre.running@[i]);
                    assert(pre.running@[i].1.logins@[k1].0@ != pre.running@[i].1.logins@[k2].0@);
                }
            }
            assert forall|i: int, j: int, t: Seq<char>|
                #![trigger logins_has(self.running@[i].1.logins@, t), logins_has(self.running@[j].1.logins@, t)]
                0 <= i < j < self.running@.len() implies !(logins_has(
                self.running@[i].1.logins@,
                t,
            ) && logins_has(self.running@[j].1.logins@, t)) by {
                if logins_has(self.running@[i].1.logins@, t) && logins_has(
                    self.running@[j].1.logins@,
                    t,
                ) {
                    assert(self.running@[i] == pre.running@[i]);
                    if j < nr {
                        assert(self.running@[j] == pre.running@[j]);
                        assert(!(logins_has(pre.running@[i].1.logins@, t) && logins_has(
                            pre.running@[j].1.logins@,
                            t,
                        )));
                    } else {
                        let k = logins_idx(logins, t);
                        assert(logins[k].0@ == t);
                        assert(t == post_assembly.tokens()[k]);
                        if k < pre_assembly.tokens().len() {
                            assert(pre_assembly.has_token(t)) by {
                                assert(pre_assembly.tokens()[k] == t);
                            }
                            assert(pre.assembling@[idx].1.assembly.has_token(t));
                            assert(!(pre.assembling@[idx].1.assembly.has_token(t) && logins_has(
                                pre.running@[i].1.logins@,
                                t,
                            )));
                        } else {
                            assert(t == tk);
                            assert(pre.token_in_use(t));
                        }
                    }
                }
            }
            assert forall|i: int, j: int, t: Seq<char>|
                #![trigger self.assembling@[i].1.assembly.has_token(t), logins_has(self.running@[j].1.logins@, t)]
                0 <= i < self.assembling@.len() && 0 <= j < self.running@.len() implies !((
            self.assembling@[i].1.assembly.has_token(t)) && logins_has(
                self.running@[j].1.logins@,
                t,
            )) by {
                if self.assembling@[i].1.assembly.has_token(t) && logins_has(
                    self.running@[j].1.logins@,
                    t,
                ) {
                    let ip: int = if i < idx {
                        i
                    } else {
                        i + 1
                    };
                    assert(self.assembling@[i] == pre.assembling@[ip]);
                    assert(pre.assembling@[ip].1.assembly.has_token(t));
                    if j < nr {
                        assert(self.running@[j] == pre.running@[j]);
                        assert(!(pre.assembling@[ip].1.assembly.has_token(t) && logins_has(
                            pre.running@[j].1.logins@,
                            t,
                        )));
                    } else {
                        let k = logins_idx(logins, t);
                        assert(logins[k].0@ == t);
                        assert(t == post_assembly.tokens()[k]);
                        if k < pre_assembly.tokens().len() {
                            assert(pre_assembly.has_token(t)) by {
                                assert(pre_assembly.tokens()[k] == t);
                            }
                            assert(pre.assembling@[idx].1.assembly.has_token(t));
                            assert(!(pre.assembling@[ip].1.assembly.has_token(t)
                                && pre.assembling@[idx].1.assembly.has_token(t)));
                            assert(!(pre.assembling@[idx].1.assembly.has_token(t)
                                && pre.assembling@[ip].1.assembly.has_token(t)));
                        } else {
                            assert(t == tk);
                            assert(pre.token_in_use(t));
                        }
                    }
                }
            }
        }
        self.lemma_run_at(sid, nr);
        assert(!self.is_assembling(sid)) by {
            if self.is_assembling(sid) {
                let i = self.asm_idx(sid);
                let ip: int = if i < idx {
                    i
                } else {
                    i + 1
                };
                assert(self.assembling@[i] == pre.assembling@[ip]);
                assert(pre.assembling@[ip].0@ == sid);
                if ip < idx {
                    assert(pre.assembling@[ip].0@ != pre.assembling@[idx].0@);
                } else {
                    assert(pre.assembling@[idx].0@ != pre.assembling@[ip].0@);
                }
            }
        }
        assert(self.run_has_token(sid, tk) && self.run_token_char(sid, tk) == pre.asm_count(
            sid,
        )) by {
            let last = post_assembly.count() - 1;
            assert(logins[last].0@ == post_assembly.tokens()[last]);
            assert(post_assembly.tokens()[last] == tk);
            lemma_logins_at(logins, tk, last);
            assert(logins[last].1@ == last);
        }
        assert forall|s: Seq<char>| s != sid implies self.is_assembling(s) == pre.is_assembling(s)
            && self.is_running(s) == pre.is_running(s) by {
            if pre.is_assembling(s) {
                let i = pre.asm_idx(s);
                assert(i != idx);
                let im: int = if i < idx {
                    i
                } else {
                    i - 1
                };
                assert(self.assembling@[im] == pre.assembling@[i]);
            }
            if self.is_assembling(s) {
                let i = self.asm_idx(s);
                let ip: int = if i < idx {
                    i
                } else {
                    i + 1
                };
                assert(pre.assembling@[ip] == self.assembling@[i]);
            }
            if pre.is_running(s) {
                let j = pre.run_idx(s);
                assert(self.running@[j].0@ == s);
            }
            if self.is_running(s) {
                let j = self.run_idx(s);
                assert(j != nr);
                assert(pre.running@[j].0@ == s);
            }
        }
        assert forall|s: Seq<char>|
            s != sid && pre.is_assembling(s) implies self.asm_map(s) == pre.asm_map(s)
            && self.asm_team_size(s) == pre.asm_team_size(s) && self.asm_count(s) == pre.asm_count(
            s,
        ) && self.asm_capacity(s) == pre.asm_capacity(s) by {
            let i = pre.asm_idx(s);
            assert(i != idx);
            let im: int = if i < idx {
                i
            } else {
                i - 1
            };
            assert(self.assembling@[im] == pre.assembling@[i]);
            self.lemma_asm_at(s, im);
        }
        assert forall|s: Seq<char>|
            s != sid && pre.is_running(s) implies self.run_map(s) == pre.run_map(s)
            && self.run_turn(s) == pre.run_turn(s) by {
            let j = pre.run_idx(s);
            assert(self.running@[j] == pre.running@[j]);
            self.lemma_run_at(s, j);
        }
        assert forall|t: Seq<char>| true implies #[trigger] self.token_in_use(t) == (
        pre.token_in_use(t) || t == tk) by {
            if self.token_in_use(t) {
                if exists|i: int|
                    0 <= i < self.assembling@.len()
                        && (#[trigger] self.assembling@[i].1.assembly).has_token(t) {
                    let i = choose|i: int|
                        0 <= i < self.assembling@.len()
                            && (#[trigger] self.assembling@[i].1.assembly).has_token(t);
                    let ip: int = if i < idx {
                        i
                    } else {
                        i + 1
                    };
                    assert(self.assembling@[i] == pre.assembling@[ip]);
                    assert(pre.assembling@[ip].1.assembly.has_token(t));
                } else {
                    let j = choose|j: int|
                        0 <= j < self.running@.len() && logins_has(
                            (#[trigger] self.running@[j].1.logins)@,
                            t,
                        );
                    if j < nr {
                        assert(logins_has(pre.running@[j].1.logins@, t));
                    } else {
                        let k = logins_idx(logins, t);
                        assert(logins[k].0@ == t);
                        assert(t == post_assembly.tokens()[k]);
                        if k < pre_assembly.tokens().len() {
                            assert(pre_assembly.has_token(t)) by {
                                assert(pre_assembly.tokens()[k] == t);
                            }
                            assert(pre.assembling@[idx].1.assembly.has_token(t));
                        } else {
                            assert(t == tk);
                        }
                    }
                }
            }
            if pre.token_in_use(t) {
                if exists|i: int|
                    0 <= i < pre.assembling@.len()
                        && (#[trigger] pre.assembling@[i].1.assembly).has_token(t) {
                    let i = choose|i: int|
                        0 <= i < pre.assembling@.len()
                            && (#[trigger] pre.assembling@[i].1.assembly).has_token(t);
                    if i == idx {
                        assert(post_assembly.has_token(t));
                        let k = choose|k: int|
                            0 <= k < post_assembly.tokens().len() && post_assembly.tokens()[k]
                                == t;
                        assert(logins[k].0@ == t);
                        assert(logins_has(logins, t));
                        assert(logins_has(self.running@[nr].1.logins@, t));
                    } else {
                        let im: int = if i < idx {
                            i
                        } else {
                            i - 1
                        };
                        assert(self.assembling@[im] == pre.assembling@[i]);
                        assert(self.assembling@[im].1.assembly.has_token(t));
                    }
                } else {
                    let j = choose|j: int|
                        0 <= j < pre.running@.len() && logins_has(
                            (#[trigger] pre.running@[j].1.logins)@,
                            t,
                        );
                    assert(logins_has(self.running@[j].1.logins@, t));
                }
            }
            if t == tk {
                let last = post_assembly.count() - 1;
                assert(post_assembly.tokens()[last] == tk);
                assert(logins[last].0@ == tk);
                assert(logins_has(self.running@[nr].1.logins@, t));
            }
        }
    }
}

/// Linear scan deciding [`logins_has`].
fn logins_contains(l: &Vec<(String, Id<Character>)>, token: &String) -> (b: bool)
    ensures
        b == logins_has(l@, token@),
{
    let mut i: usize = 0;
    while i < l.len()
        invariant
            i <= l@.len(),
            forall|j: int| 0 <= j < i ==> l@[j].0@ != token@,
        decreases l@.len() - i,
    {
        if l[i].0 == *token {
            return true;
        }
        i = i + 1;
    }
    false
}

/// Linear search for a token in a running session's login list.
fn logins_find(l: &Vec<(String, Id<Character>)>, token: &String) -> (r: Option<usize>)
    ensures
        match r {
            Some(i) => i < l@.len() && l@[i as int].0@ == token@,
            None => !logins_has(l@, token@),
        },
{
    let mut i: usize = 0;
    while i < l.len()
        invariant
            i <= l@.len(),
            forall|j: int| 0 <= j < i ==> l@[j].0@ != token@,
        decreases l@.len() - i,
    {
        if l[i].0 == *token {
            return Some(i);
        }
        i = i + 1;
    }
    None
}

/// A session id names, at every observable instant, at most one phase:
/// never an assembling and a running session at once.
pub proof fn lemma_phases_disjoint(r: SessionRegistry, sid: Seq<char>)
    requires
        r.wf(),
    ensures
        !(r.is_assembling(sid) && r.is_running(sid)),
{
    if r.is_assembling(sid) && r.is_running(sid) {
        let i = r.asm_idx(sid);
        let j = r.run_idx(sid);
        r.lemma_asm_at(sid, i);
        r.lemma_run_at(sid, j);
    }
}

/// Login tokens are capabilities for one session only: a token known to
/// session `a` is unknown to every other session `b`, in either phase.
/// In particular, two sessions never share a login token, and a token
/// valid for one session, replayed against a running other session, is
/// refused as an unknown login.
pub proof fn lemma_token_not_shared(
    r: SessionRegistry,
    a: Seq<char>,
    b: Seq<char>,
    t: Seq<char>,
)
    requires
        r.wf(),
        a != b,
        r.has_token_in(a, t),
    ensures
        !r.has_token_in(b, t),
        r.is_running(b) ==> r.spec_authorize(b, t) == Err::<int, ActionError>(
            ActionError::UnknownLogin,
        ),
{
    if r.has_token_in(b, t) {
        if r.is_assembling(a) && r.asm_has_token(a, t) {
            let ia = r.asm_idx(a);
            r.lemma_asm_at(a, ia);
            if r.is_assembling(b) && r.asm_has_token(b, t) {
                let ib = r.asm_idx(b);
                r.lemma_asm_at(b, ib);
                assert(ia != ib);
                if ia < ib {
                    assert(!(r.assembling@[ia].1.assembly.has_token(t)
                        && r.assembling@[ib].1.assembly.has_token(t)));
                } else {
                    assert(!(r.assembling@[ib].1.assembly.has_token(t)
                        && r.assembling@[ia].1.assembly.has_token(t)));
                }
            } else {
                let jb = r.run_idx(b);
                r.lemma_run_at(b, jb);
                assert(!(r.assembling@[ia].1.assembly.has_token(t) && logins_has(
                    r.running@[jb].1.logins@,
                    t,
                )));
            }
        } else {
            let ja = r.run_idx(a);
            r.lemma_run_at(a, ja);
            if r.is_assembling(b) && r.asm_has_token(b, t) {
                let ib = r.asm_idx(b);
                r.lemma_asm_at(b, ib);
                assert(!(r.assembling@[ib].1.assembly.has_token(t) && logins_has(
                    r.running@[ja].1.logins@,
                    t,
                )));
            } else {
                let jb = r.run_idx(b);
                r.lemma_run_at(b, jb);
                assert(ja != jb);
                if ja < jb {
                    assert(!(logins_has(r.running@[ja].1.logins@, t) && logins_has(
                        r.running@[jb].1.logins@,
                        t,
                    )));
                } else {
                    assert(!(logins_has(r.running@[jb].1.logins@, t) && logins_has(
                        r.running@[ja].1.logins@,
                        t,
                    )));
                }
            }
        }
    }
    if r.is_running(b) {
        lemma_phases_disjoint(r, b);
        assert(!r.run_has_token(b, t));
    }
}

/// Turn authority: after a valid action by character `c1` hands the turn
/// to a different character `c2`, an immediate repeat claim through
/// `c1`'s login token is refused as `NotYourTurn`.
pub proof fn lemma_repeat_claim_refused(
    r: SessionRegistry,
    sid: Seq<char>,
    t1: Seq<char>,
    c1: int,
    c2: int,
)
    requires
        r.wf(),
        r.is_running(sid),
        r.run_turn(sid) == c2,
        r.run_has_token(sid, t1),
        r.run_token_char(sid, t1) == c1,
        c1 != c2,
    ensures
        r.spec_authorize(sid, t1) == Err::<int, ActionError>(ActionError::NotYourTurn),
{
    lemma_phases_disjoint(r, sid);
}

/// Under distinct keys, an index whose key matches is the index every
/// login lookup spec resolves to.
proof fn lemma_logins_at(l: Seq<(String, Id<Character>)>, t: Seq<char>, i: int)
    requires
        forall|k1: int, k2: int|
            #![trigger l[k1], l[k2]]
            0 <= k1 < k2 < l.len() ==> l[k1].0@ != l[k2].0@,
        0 <= i < l.len(),
        l[i].0@ == t,
    ensures
        logins_has(l, t),
        logins_idx(l, t) == i,
{
    assert(logins_has(l, t));
    let k = logins_idx(l, t);
    assert(0 <= k < l.len() && l[k].0@ == t);
    if k != i {
        if k < i {
            assert(l[k].0@ != l[i].0@);
        } else {
            assert(l[i].0@ != l[k].0@);
        }
    }
}

/// Relies on rand's `thread_rng` with the `Alphanumeric` distribution: ten
/// independently drawn ASCII alphanumeric characters.  Nothing is assumed
/// about which characters come back, only how many.
#[verifier::external_body]
fn random_token() -> (r: String)
    ensures
        r@.len() == 10,
{
    rand::thread_rng().sample_iter(&rand::distributions::Alphanumeric).take(10).map(
        char::from,
    ).collect()
}

} // verus!
