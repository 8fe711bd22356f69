//! A scoped view of a [`StableVec`] whose slot tokens cannot outlive it.
//!
//! A slot number stays valid until the vector is compacted. A
//! [`JailedStableVec`] borrows the vector exclusively, so for as long as the
//! guard lives nothing else can reach the vector, and the guard itself offers
//! no compaction. Every [`Index`] that the guard hands out carries the guard's
//! lifetime: the vector stays borrowed for as long as such a token can still
//! be used, and once the vector is free to be compacted again, no token of
//! that guard can be presented to anything.
//!
//! ```
//! use stable_vec::StableVec;
//!
//! let mut sv = StableVec::new();
//! {
//!     let mut jailed = sv.jail();
//!     let one = jailed.push(1);
//!     let two = jailed.push(2);
//!     assert_eq!(*jailed.index(one) + *jailed.index(two), 3);
//!     jailed.remove(one);
//! }
//! sv.make_compact();
//! assert_eq!(sv.into_vec(), vec![2]);
//! ```
//!
//! A token cannot cross a compaction. The borrow taken by `jail` lasts as
//! long as the token does, and `make_compact` needs the vector for itself:
//!
//! ```compile_fail
//! use stable_vec::StableVec;
//!
//! let mut sv = StableVec::<i32>::new();
//! let idx = sv.jail().push(5);
//! sv.make_compact();
//! let value = *sv.jail().index(idx);
//! ```
//!
//! # Two layers of confinement
//!
//! The lifetime is what the compiler enforces for every caller. It ties a
//! token to the borrow of its own vector; it does not tell two guards over
//! two different vectors apart when both borrows are alive at once.
//!
//! Contracts go further. Each guard stands for a scope, each token belongs
//! to the scope of the guard that pushed it, and `remove`, `index` and
//! `index_mut` require the two to agree. A verified caller can meet that
//! requirement only with a token of the guard it calls.
//!
//! # After a removal
//!
//! A slot that gave up its value stays a tombstone until the vector is
//! compacted, and no later `push` takes its number. A token whose slot was
//! removed or popped can be given to `remove` again, which then returns
//! `None`. Giving it to `index` or `index_mut` is outside their contract;
//! called all the same, they panic.

use crate::slots;
use crate::StableVec;
use std::marker::PhantomData;
use vstd::prelude::*;

verus! {

/// Exclusive access to one [`StableVec`] for the length of a scope.
pub struct JailedStableVec<'a, T>(&'a mut StableVec<T>, Ghost<int>);

/// The token of one slot, bound to the scope of the guard that handed it out.
#[derive(Clone, Copy)]
pub struct Index<'a>(usize, Ghost<int>, PhantomData<&'a mut &'a ()>);

impl<'a> Index<'a> {
    /// The number of the slot that the token names.
    pub closed spec fn slot(&self) -> int {
        self.0 as int
    }

    /// The scope that the token belongs to: that of the guard whose `push`
    /// returned it.
    pub closed spec fn scope(&self) -> int {
        self.1@
    }
}

impl<'a> PartialEq for Index<'a> {
    /// Two tokens of one scope are equal when they name the same slot.
    fn eq(&self, other: &Self) -> (same: bool) {
        self.0 == other.0
    }
}

impl<'a> Eq for Index<'a> {}

impl<'a> vstd::std_specs::cmp::PartialEqSpecImpl for Index<'a> {
    open spec fn obeys_eq_spec() -> bool {
        true
    }

    open spec fn eq_spec(&self, other: &Self) -> bool {
        self.slot() == other.slot()
    }
}

impl<T> StableVec<T> {
    /// Opens a scope on the vector. Until the guard is dropped the vector
    /// can be reached through the guard alone; what the guard leaves behind
    /// is what the vector then is. [`JailedStableVec::lemma_released`] says
    /// what the guard leaves behind.
    pub fn jail<'a>(&'a mut self) -> (jailed: JailedStableVec<'a, T>)
        requires
            old(self).wf(),
        ensures
            jailed.wf(),
            jailed@ == old(self)@,
            *final(self) == *final(jailed.lease()),
    {
        JailedStableVec(self, Ghost(arbitrary()))
    }
}

impl<'a, T> JailedStableVec<'a, T> {
    /// The exclusive borrow that the guard holds. Its current value is the
    /// vector as it stands; its final value is the vector as the scope
    /// leaves it.
    pub closed spec fn lease(&self) -> &'a mut StableVec<T> {
        self.0
    }

    /// The scope that the guard stands for. It exists in contracts only.
    /// Nothing says which scope a new guard stands for, so the only tokens
    /// that can be shown to belong to a guard's scope are those that the
    /// guard's own `push` returned.
    pub closed spec fn scope(&self) -> int {
        self.1@
    }

    /// The slots of the vector as it stands.
    pub open spec fn view(&self) -> Seq<Option<T>> {
        self.lease()@
    }

    /// The vector as it stands is well formed.
    pub open spec fn wf(&self) -> bool {
        self.lease().wf()
    }

    /// A guard that will not be used again leaves the vector as the guard
    /// last saw it: closing the scope changes nothing. With this fact brought
    /// in by `broadcast use`, what was done in a scope is known of the vector
    /// once the guard is gone.
    pub broadcast proof fn lemma_released(self)
        ensures
            #[trigger] has_resolved(self) ==> *final(self.lease()) == *self.lease(),
    {
    }

    /// Appends `value` in a new slot at the end and returns the token of
    /// that slot, which resolves to `value`.
    pub fn push(&mut self, value: T) -> (token: Index<'a>)
        requires
            old(self).wf(),
        ensures
            final(self).wf(),
            final(self)@ == old(self)@.push(Some(value)),
            token.slot() == old(self)@.len(),
            slots::held(final(self)@, token.slot()) == Some(value),
            token.scope() == old(self).scope(),
            final(self).scope() == old(self).scope(),
            *final(final(self).lease()) == *final(old(self).lease()),
    {
        let idx = self.0.push(value);
        self.mint(idx)
    }

    /// Takes the value out of the last slot that holds one and leaves a
    /// tombstone there. Returns `None`, and changes nothing, when no slot
    /// holds a value.
    pub fn pop(&mut self) -> (popped: Option<T>)
        requires
            old(self).wf(),
        ensures
            final(self).wf(),
            popped == slots::pop_value(old(self)@),
            final(self)@ == slots::popped(old(self)@),
            final(self).scope() == old(self).scope(),
            *final(final(self).lease()) == *final(old(self).lease()),
    {
        self.0.pop()
    }

    /// Takes the value out of the slot that `idx` names and leaves a
    /// tombstone there. Returns `None`, and changes nothing, when that slot
    /// holds no value any more.
    pub fn remove(&mut self, idx: Index<'a>) -> (removed: Option<T>)
        requires
            old(self).wf(),
            idx.scope() == old(self).scope(),
        ensures
            final(self).wf(),
            removed == slots::held(old(self)@, idx.slot()),
            final(self)@ == slots::vacated(old(self)@, idx.slot()),
            final(self).scope() == old(self).scope(),
            *final(final(self).lease()) == *final(old(self).lease()),
    {
        self.0.remove(idx.0)
    }

    /// Whether no slot is a tombstone.
    pub fn is_compact(&self) -> (compact: bool)
        requires
            self.wf(),
        ensures
            compact == slots::is_compact(self@),
    {
        self.0.is_compact()
    }

    /// The number of slots that hold a value.
    pub fn num_elements(&self) -> (n: usize)
        requires
            self.wf(),
        ensures
            n == slots::occupied(self@),
    {
        self.0.num_elements()
    }

    /// The value in the slot that `index` names. The token must be one of
    /// this guard, and its slot must still hold its value.
    pub fn index(&self, index: Index<'a>) -> (value: &T)
        requires
            index.scope() == self.scope(),
            slots::held(self@, index.slot()) is Some,
        ensures
            Some(*value) == self@[index.slot()],
    {
        self.0.get(index.0).unwrap()
    }

    /// The value in the slot that `index` names, for writing. The token must
    /// be one of this guard, and its slot must still hold its value.
    /// Whatever is written, that slot keeps holding a value and every other
    /// slot stays as it is.
    pub fn index_mut(&mut self, index: Index<'a>) -> (value: &mut T)
        requires
            index.scope() == old(self).scope(),
            slots::held(old(self)@, index.slot()) is Some,
        ensures
            Some(*value) == old(self)@[index.slot()],
            final(self)@ == old(self)@.update(index.slot(), Some(*final(value))),
            old(self).wf() ==> final(self).wf(),
            final(self).scope() == old(self).scope(),
            *final(final(self).lease()) == *final(old(self).lease()),
    {
        self.0.get_mut(index.0).unwrap()
    }

    fn mint(&self, idx: usize) -> (token: Index<'a>)
        ensures
            token.slot() == idx,
            token.scope() == self.scope(),
    {
        Index(idx, self.1, PhantomData)
    }
}

} // verus!
