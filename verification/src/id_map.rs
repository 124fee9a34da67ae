//! Typed numeric handles and their owning collections.
//!
//! An [`Id<T>`] is an opaque, copyable handle tagged by entity kind: ids of
//! different kinds are different types and can never be compared or mixed,
//! even when numerically equal.  An [`IdMap<T>`] owns the id-to-value
//! mapping; ids are allocated by an [`IdMapBuilder<T>`] with a monotonically
//! increasing counter, starting at zero, and are never reused (no removal
//! exists).  Lookups on unknown ids return an absent result, never a fault.

use core::marker::PhantomData;
use vstd::prelude::*;

verus! {

/// An opaque numeric handle for one entity of kind `T` within one arena.
///
/// The handle does not own the entity; it is only valid against the arena
/// that minted it, which is an obligation on the caller, not a runtime check.
#[derive(Debug)]
pub struct Id<T> {
    value: usize,
    kind: PhantomData<T>,
}

impl<T> View for Id<T> {
    type V = int;

    closed spec fn view(&self) -> int {
        self.value as int
    }
}

impl<T> Id<T> {
    pub fn new(id: usize) -> (r: Self)
        ensures
            r@ == id,
    {
        Id { value: id, kind: PhantomData }
    }

    pub fn raw(self) -> (r: usize)
        ensures
            r == self@,
    {
        self.value
    }
}

impl<T> Copy for Id<T> {

}

impl<T> Clone for Id<T> {
    fn clone(&self) -> (r: Self)
        ensures
            r == *self,
    {
        *self
    }
}

impl<T> PartialEq for Id<T> {
    fn eq(&self, other: &Self) -> (r: bool) {
        self.value == other.value
    }
}

impl<T> Eq for Id<T> {

}

impl<T> vstd::std_specs::cmp::PartialEqSpecImpl for Id<T> {
    open spec fn obeys_eq_spec() -> bool {
        true
    }

    open spec fn eq_spec(&self, other: &Self) -> bool {
        self@ == other@
    }
}

/// Two ids of the same kind are the same value exactly when their raw
/// numbers agree.
pub proof fn lemma_id_eq<T>(a: Id<T>, b: Id<T>)
    ensures
        a == b <==> a@ == b@,
{
}

/// An id-to-value mapping, keyed by the ids an [`IdMapBuilder`] minted.
///
/// Its view is the sequence of values in id order: id `i` names the `i`-th
/// entry.
#[derive(Debug, Clone)]
pub struct IdMap<T> {
    entries: Vec<T>,
}

impl<T> View for IdMap<T> {
    type V = Seq<T>;

    closed spec fn view(&self) -> Seq<T> {
        self.entries@
    }
}

impl<T> IdMap<T> {
    /// Checked lookup: an unknown id yields `None`, never a fault.
    pub fn get(&self, id: Id<T>) -> (r: Option<&T>)
        ensures
            0 <= id@ < self@.len() ==> (r matches Some(v) && *v == self@[id@]),
            !(0 <= id@ < self@.len()) ==> r is None,
    {
        let i = id.raw();
        if i < self.entries.len() {
            Some(&self.entries[i])
        } else {
            None
        }
    }

    /// Checked mutable lookup; an unknown id yields `None`, never a fault.
    pub fn get_mut(&mut self, id: Id<T>) -> (r: Option<&mut T>)
        ensures
            0 <= id@ < old(self)@.len() ==> (r matches Some(v) && *v == old(self)@[id@]
                && final(self)@ == old(self)@.update(id@, *final(v))),
            !(0 <= id@ < old(self)@.len()) ==> r is None && final(self)@ == old(self)@,
    {
        let i = id.raw();
        if i < self.entries.len() {
            Some(&mut self.entries[i])
        } else {
            None
        }
    }

    /// The entries in id order: id `i` names the `i`-th value.
    pub fn iter(&self) -> (r: &Vec<T>)
        ensures
            r@ == self@,
    {
        &self.entries
    }

    /// All ids this map holds, in increasing order.
    pub fn ids(&self) -> (r: Vec<Id<T>>)
        ensures
            r@.len() == self@.len(),
            forall|i: int| 0 <= i < r@.len() ==> r@[i]@ == i,
    {
        let mut out: Vec<Id<T>> = Vec::new();
        let mut i: usize = 0;
        while i < self.entries.len()
            invariant
                i <= self.entries.len(),
                out@.len() == i,
                forall|j: int| 0 <= j < i ==> out@[j]@ == j,
            decreases self.entries.len() - i,
        {
            out.push(Id::new(i));
            i = i + 1;
        }
        out
    }

    /// How many entries the map holds.
    pub fn len(&self) -> (r: usize)
        ensures
            r == self@.len(),
    {
        self.entries.len()
    }
}

/// Insert-only allocator of ids: each `add` mints the next id in sequence.
pub struct IdMapBuilder<T> {
    entries: Vec<T>,
}

impl<T> View for IdMapBuilder<T> {
    type V = Seq<T>;

    closed spec fn view(&self) -> Seq<T> {
        self.entries@
    }
}

impl<T> IdMapBuilder<T> {
    pub fn new() -> (r: Self)
        ensures
            r@ =~= Seq::<T>::empty(),
    {
        IdMapBuilder { entries: Vec::new() }
    }

    /// Allocation never fails; the minted id is the number of values added
    /// before this one, so ids start at 0, strictly increase and are never
    /// reused.
    pub fn add(&mut self, t: T) -> (r: Id<T>)
        ensures
            r@ == old(self)@.len(),
            final(self)@ == old(self)@.push(t),
    {
        let id = Id::new(self.entries.len());
        self.entries.push(t);
        id
    }

    /// The values added so far, in id order.
    pub fn entries(&self) -> (r: &Vec<T>)
        ensures
            r@ == self@,
    {
        &self.entries
    }

    /// How many values were added so far (also the next id to be minted).
    pub fn len(&self) -> (r: usize)
        ensures
            r == self@.len(),
    {
        self.entries.len()
    }

    /// Freeze the builder into the immutable map it accumulated.
    pub fn build(self) -> (r: IdMap<T>)
        ensures
            r@ == self@,
    {
        IdMap { entries: self.entries }
    }
}

} // verus!
