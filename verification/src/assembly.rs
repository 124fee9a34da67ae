//! Capacity-gated accumulation of participants for a not-yet-started match.
//!
//! A `CharacterAssembly` is created when a session is declared, mutated by
//! [`CharacterAssembly::add`], and consumed exactly once by
//! [`CharacterAssembly::build`], which is only callable once the assembly is
//! full.  Each successful `add` mints a fresh character id together with the
//! login token that authenticates the character from then on.

use vstd::prelude::*;

use crate::game::{Cell, Character, GameDefinition, GameMap};
use crate::id_map::{Id, IdMap, IdMapBuilder};

verus! {

/// Why an [`CharacterAssembly::add`] call was refused.
#[derive(Debug, Clone, Copy, PartialEq, Eq)]
pub enum AddError {
    /// The assembly already holds `capacity` characters.
    Full,
    /// The offered login token is already taken in this assembly.
    TokenInUse,
    /// The referenced class does not exist in the game definition.
    UnknownClass,
    /// The referenced team does not exist in the chosen map (an absent map
    /// offers no teams at all).
    UnknownTeam,
    /// The requested starting cell is not one the chosen team may start on.
    UnknownCell,
    /// The requested starting cell is already claimed by an earlier
    /// character.
    CellOccupied,
}

/// Accumulates participants for one not-yet-started match.
pub struct CharacterAssembly {
    capacity: usize,
    map: Id<GameMap>,
    roster: Vec<(String, Id<Character>)>,
    partial: IdMapBuilder<Character>,
}

impl CharacterAssembly {
    /// The number of seats this assembly was declared with.
    pub closed spec fn capacity(self) -> int {
        self.capacity as int
    }

    /// The map the assembly was declared for.
    pub closed spec fn map_id(self) -> Id<GameMap> {
        self.map
    }

    /// How many characters were enrolled so far.
    pub closed spec fn count(self) -> int {
        self.roster@.len() as int
    }

    /// The characters enrolled so far, in id order.
    pub closed spec fn chars(self) -> Seq<Character> {
        self.partial@
    }

    /// The login tokens handed out so far, in enrolment order: the token at
    /// position `i` authenticates the character with id `i`.
    pub closed spec fn tokens(self) -> Seq<Seq<char>> {
        self.roster@.map_values(|p: (String, Id<Character>)| p.0@)
    }

    /// Whether `t` is a login token handed out by this assembly.
    pub open spec fn has_token(self, t: Seq<char>) -> bool {
        exists|i: int| 0 <= i < self.tokens().len() && self.tokens()[i] == t
    }

    /// Whether some enrolled character already starts on cell `c`.
    pub open spec fn cell_taken(self, c: int) -> bool {
        exists|i: int| 0 <= i < self.chars().len() && self.chars()[i].position@ == c
    }

    /// The assembly invariant: the roster never exceeds capacity, tokens are
    /// pairwise distinct, the token at position `i` names character id `i`,
    /// and no two characters share a starting cell.
    pub closed spec fn wf(self) -> bool {
        &&& self.roster@.len() == self.partial@.len()
        &&& self.roster@.len() <= self.capacity
        &&& forall|i: int, j: int|
            0 <= i < j < self.roster@.len() ==> self.roster@[i].0@ != self.roster@[j].0@
        &&& forall|i: int| 0 <= i < self.roster@.len() ==> (#[trigger] self.roster@[i].1)@ == i
        &&& forall|i: int, j: int|
            0 <= i < j < self.partial@.len()
                ==> self.partial@[i].position@ != self.partial@[j].position@
    }

    /// The assembly is complete exactly when every seat is filled.
    pub open spec fn spec_can_build(self) -> bool {
        self.count() == self.capacity()
    }

    /// Declare an empty assembly with `capacity` seats on map `map`.
    pub fn new(capacity: usize, map: Id<GameMap>) -> (r: Self)
        ensures
            r.wf(),
            r.capacity() == capacity,
            r.map_id() == map,
            r.count() == 0,
            r.chars() =~= Seq::<Character>::empty(),
            forall|t: Seq<char>| !r.has_token(t),
    {
        CharacterAssembly {
            capacity,
            map,
            roster: Vec::new(),
            partial: IdMapBuilder::new(),
        }
    }

    /// Whether every seat is filled.  The caller that fills the last seat
    /// must check this under the same exclusive access window, so exactly
    /// one caller observes and acts on the completion.
    pub fn can_build(&self) -> (r: bool)
        ensures
            r == self.spec_can_build(),
    {
        self.roster.len() == self.capacity
    }

    /// Whether `token` was already handed out by this assembly.
    pub fn contains_token(&self, token: &String) -> (r: bool)
        ensures
            r == self.has_token(token@),
    {
        let mut i: usize = 0;
        while i < self.roster.len()
            invariant
                i <= self.roster@.len(),
                forall|j: int| 0 <= j < i ==> self.roster@[j].0@ != token@,
            decreases self.roster@.len() - i,
        {
            if self.roster[i].0 == *token {
                assert(self.tokens()[i as int] == token@);
                return true;
            }
            i = i + 1;
        }
        assert(forall|i: int|
            0 <= i < self.tokens().len() ==> self.tokens()[i] == self.roster@[i].0@);
        false
    }

    /// Whether some enrolled character already starts on cell `c`.
    pub(crate) fn cell_occupied(&self, c: Id<Cell>) -> (r: bool)
        ensures
            r == self.cell_taken(c@),
    {
        let chars = self.partial.entries();
        let mut i: usize = 0;
        while i < chars.len()
            invariant
                i <= chars@.len(),
                chars@ == self.chars(),
                forall|j: int| 0 <= j < i ==> self.chars()[j].position@ != c@,
            decreases chars@.len() - i,
        {
            if chars[i].position == c {
                return true;
            }
            i = i + 1;
        }
        false
    }

    /// Enrol `character` under the login `token`.
    ///
    /// The call fails, leaving the assembly unchanged, when the capacity is
    /// already reached, the token is taken, the referenced class, team or
    /// starting cell does not exist in the chosen map, or the cell is
    /// already claimed; the error says which, the first in that order.  On
    /// success the character receives the next id in sequence and the token
    /// is recorded beside it.
    pub fn add(&mut self, g: &GameDefinition, character: Character, token: String) -> (r: Result<
        Id<Character>,
        AddError,
    >)
        requires
            old(self).wf(),
        ensures
            final(self).wf(),
            final(self).capacity() == old(self).capacity(),
            final(self).map_id() == old(self).map_id(),
            r == Err::<Id<Character>, AddError>(AddError::Full) <==> old(self).count() == old(
                self,
            ).capacity(),
            r is Err ==> *final(self) == *old(self),
            r matches Err(e) && e != AddError::Full ==> old(self).count() < old(self).capacity(),
            r == Err::<Id<Character>, AddError>(AddError::TokenInUse) <==> (old(self).count() < old(
                self,
            ).capacity() && old(self).has_token(token@)),
            r == Err::<Id<Character>, AddError>(AddError::UnknownClass) <==> (old(self).count()
                < old(self).capacity() && !old(self).has_token(token@) && !g.has_class(
                character.class,
            )),
            r == Err::<Id<Character>, AddError>(AddError::UnknownTeam) <==> (old(self).count() < old(
                self,
            ).capacity() && !old(self).has_token(token@) && g.has_class(character.class) && !(
            g.has_map(old(self).map_id()) && 0 <= character.team@ < g.maps@[old(
                self,
            ).map_id()@].teams@.len())),
            r == Err::<Id<Character>, AddError>(AddError::UnknownCell) <==> (old(self).count() < old(
                self,
            ).capacity() && !old(self).has_token(token@) && g.has_class(character.class)
                && g.has_map(old(self).map_id()) && 0 <= character.team@ < g.maps@[old(
                self,
            ).map_id()@].teams@.len() && !cell_listed(
                g.maps@[old(self).map_id()@].teams@[character.team@].1@,
                character.position@,
            )),
            r == Err::<Id<Character>, AddError>(AddError::CellOccupied) <==> (old(self).count()
                < old(self).capacity() && !old(self).has_token(token@) && g.has_class(
                character.class,
            ) && g.has_map(old(self).map_id()) && 0 <= character.team@ < g.maps@[old(
                self,
            ).map_id()@].teams@.len() && cell_listed(
                g.maps@[old(self).map_id()@].teams@[character.team@].1@,
                character.position@,
            ) && old(self).cell_taken(character.position@)),
            r matches Ok(id) ==> {
                &&& id@ == old(self).count()
                &&& final(self).count() == old(self).count() + 1
                &&& final(self).chars() == old(self).chars().push(character)
                &&& final(self).tokens() == old(self).tokens().push(token@)
                &&& (final(self).spec_can_build() <==> old(self).count() + 1 == old(
                    self,
                ).capacity())
            },
    {
        if self.roster.len() == self.capacity {
            return Err(AddError::Full);
        }
        if self.contains_token(&token) {
            return Err(AddError::TokenInUse);
        }
        if g.classes.get(character.class).is_none() {
            return Err(AddError::UnknownClass);
        }
        let m = match g.maps.get(self.map) {
            Option::None => {
                return Err(AddError::UnknownTeam);
            },
            Option::Some(m) => m,
        };
        let t = character.team.raw();
        if t >= m.teams.len() {
            return Err(AddError::UnknownTeam);
        }
        if !cell_listed_exec(&m.teams[t].1, character.position) {
            return Err(AddError::UnknownCell);
        }
        if self.cell_occupied(character.position) {
            return Err(AddError::CellOccupied);
        }
        let ghost old_tokens = self.tokens();
        let id = self.partial.add(character);
        self.roster.push((token, id));
        proof {
            assert(self.tokens() =~= old_tokens.push(token@));
            assert(forall|i: int|
                0 <= i < old(self).roster@.len() ==> (#[trigger] old(self).roster@[i]).0@ == old(
                    self,
                ).tokens()[i]);
            assert forall|i: int, j: int|
                0 <= i < j < self.roster@.len() implies self.roster@[i].0@
                != self.roster@[j].0@ by {
                if j == self.roster@.len() - 1 {
                    assert(self.roster@[i] == old(self).roster@[i]);
                    assert(!old(self).has_token(token@));
                } else {
                    assert(self.roster@[i] == old(self).roster@[i]);
                    assert(self.roster@[j] == old(self).roster@[j]);
                }
            }
            assert forall|i: int, j: int|
                0 <= i < j < self.partial@.len() implies self.partial@[i].position@
                != self.partial@[j].position@ by {
                if j == self.partial@.len() - 1 {
                    assert(self.partial@[i] == old(self).chars()[i]);
                    assert(!old(self).cell_taken(character.position@));
                } else {
                    assert(self.partial@[i] == old(self).chars()[i]);
                    assert(self.partial@[j] == old(self).chars()[j]);
                }
            }
        }
        Ok(id)
    }

    /// Consume the full assembly into the immutable character roster and
    /// the token-to-character mapping it accumulated.
    pub fn build(self) -> (r: (IdMap<Character>, Vec<(String, Id<Character>)>))
        requires
            self.wf(),
            self.spec_can_build(),
        ensures
            r.0@ == self.chars(),
            r.1@.len() == self.count(),
            forall|i: int|
                0 <= i < r.1@.len() ==> (#[trigger] r.1@[i]).0@ == self.tokens()[i]
                    && r.1@[i].1@ == i,
    {
        let CharacterAssembly { capacity: _, map: _, roster, partial } = self;
        (partial.build(), roster)
    }
}

/// An assembly holds exactly one login token per enrolled character.
pub proof fn lemma_tokens_len(a: CharacterAssembly)
    ensures
        a.tokens().len() == a.count(),
{
}

/// After one enrolment, exactly the starting cells taken before are
/// taken, plus the new character's.
pub proof fn lemma_cell_taken_push(pre: CharacterAssembly, post: CharacterAssembly, ch: Character)
    requires
        post.chars() == pre.chars().push(ch),
    ensures
        forall|c: int| post.cell_taken(c) == (pre.cell_taken(c) || c == ch.position@),
{
    assert forall|c: int| post.cell_taken(c) == (pre.cell_taken(c) || c == ch.position@) by {
        if post.cell_taken(c) {
            let i = choose|i: int| 0 <= i < post.chars().len() && post.chars()[i].position@ == c;
            if i < pre.chars().len() {
                assert(pre.chars()[i].position@ == c);
            }
        }
        if pre.cell_taken(c) {
            let i = choose|i: int| 0 <= i < pre.chars().len() && pre.chars()[i].position@ == c;
            assert(post.chars()[i].position@ == c);
        }
        if c == ch.position@ {
            assert(post.chars()[pre.chars().len() as int].position@ == c);
        }
    }
}

/// A well-formed assembly never hands the same login token out twice.
pub proof fn lemma_wf_tokens_distinct(a: CharacterAssembly)
    requires
        a.wf(),
    ensures
        forall|i: int, j: int| 0 <= i < j < a.tokens().len() ==> a.tokens()[i] != a.tokens()[j],
{
    assert forall|i: int, j: int|
        0 <= i < j < a.tokens().len() implies a.tokens()[i] != a.tokens()[j] by {
        assert(a.tokens()[i] == a.roster@[i].0@);
        assert(a.tokens()[j] == a.roster@[j].0@);
    }
}

/// After one enrolment, an assembly knows exactly the tokens it knew
/// before, plus the newly minted one.
pub proof fn lemma_has_token_push(pre: CharacterAssembly, post: CharacterAssembly, tk: Seq<char>)
    requires
        post.tokens() == pre.tokens().push(tk),
    ensures
        forall|t: Seq<char>| post.has_token(t) == (pre.has_token(t) || t == tk),
{
    assert forall|t: Seq<char>| post.has_token(t) == (pre.has_token(t) || t == tk) by {
        if post.has_token(t) {
            let i = choose|i: int| 0 <= i < post.tokens().len() && post.tokens()[i] == t;
            if i < pre.tokens().len() {
                assert(pre.tokens()[i] == t);
            }
        }
        if pre.has_token(t) {
            let i = choose|i: int| 0 <= i < pre.tokens().len() && pre.tokens()[i] == t;
            assert(post.tokens()[i] == t);
        }
        if t == tk {
            assert(post.tokens()[pre.tokens().len() as int] == t);
        }
    }
}

/// Whether the cell `c` is one of the listed starting cells.
pub open spec fn cell_listed(cells: Seq<Id<Cell>>, c: int) -> bool {
    exists|i: int| 0 <= i < cells.len() && cells[i]@ == c
}

/// Linear scan deciding [`cell_listed`].
pub(crate) fn cell_listed_exec(cells: &Vec<Id<Cell>>, c: Id<Cell>) -> (r: bool)
    ensures
        r == cell_listed(cells@, c@),
{
    let mut i: usize = 0;
    while i < cells.len()
        invariant
            i <= cells@.len(),
            forall|j: int| 0 <= j < i ==> cells@[j]@ != c@,
        decreases cells@.len() - i,
    {
        if cells[i] == c {
            return true;
        }
        i = i + 1;
    }
    false
}

} // verus!
