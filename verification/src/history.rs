//! What a scope can do to the slots of a vector, as a sequence of
//! operations, and what holds of every such sequence.
//!
//! The guard's `push`, `pop` and `remove` state their effect with the same
//! functions of [`crate::slots`] that [`ScopeOp::apply`] and
//! [`ScopeOp::yields`] are made of, so what is proved here of a replay holds
//! of the calls made through a guard. Writing through a token changes the
//! value in its slot and nothing else; it is not among the operations that
//! are replayed here.

use crate::slots;
use vstd::prelude::*;

verus! {

/// One operation made through a guard.
pub enum ScopeOp<T> {
    /// `push` of the value.
    Push(T),
    /// `pop`.
    Pop,
    /// `remove` with the token of the slot of this number.
    Remove(int),
}

impl<T> ScopeOp<T> {
    /// The slots after the operation was made on `s`.
    pub open spec fn apply(self, s: Seq<Option<T>>) -> Seq<Option<T>> {
        match self {
            ScopeOp::Push(value) => s.push(Some(value)),
            ScopeOp::Pop => slots::popped(s),
            ScopeOp::Remove(slot) => slots::vacated(s, slot),
        }
    }

    /// The value that the operation, made on `s`, takes out and hands to
    /// the caller.
    pub open spec fn yields(self, s: Seq<Option<T>>) -> Option<T> {
        match self {
            ScopeOp::Push(_) => None,
            ScopeOp::Pop => slots::pop_value(s),
            ScopeOp::Remove(slot) => slots::held(s, slot),
        }
    }

    /// Whether the operation, made on `s`, is aimed at slot `slot`: a
    /// `remove` with its token, or a `pop` while it is the last occupied one.
    pub open spec fn vacates(self, s: Seq<Option<T>>, slot: int) -> bool {
        match self {
            ScopeOp::Push(_) => false,
            ScopeOp::Pop => slots::last_occupied(s) == Some(slot),
            ScopeOp::Remove(aimed) => aimed == slot,
        }
    }
}

/// The slots after the operations `ops` were made, in order, starting
/// from `s`.
pub open spec fn replay<T>(s: Seq<Option<T>>, ops: Seq<ScopeOp<T>>) -> Seq<Option<T>>
    decreases ops.len(),
{
    if ops.len() == 0 {
        s
    } else {
        ops.last().apply(replay(s, ops.drop_last()))
    }
}

/// How many of the operations are a `push`.
pub open spec fn pushes<T>(ops: Seq<ScopeOp<T>>) -> nat
    decreases ops.len(),
{
    if ops.len() == 0 {
        0
    } else {
        pushes(ops.drop_last()) + if ops.last() is Push {
            1nat
        } else {
            0nat
        }
    }
}

/// How many of the operations, made in order starting from `s`, handed out
/// a value.
pub open spec fn removals<T>(s: Seq<Option<T>>, ops: Seq<ScopeOp<T>>) -> nat
    decreases ops.len(),
{
    if ops.len() == 0 {
        0
    } else {
        removals(s, ops.drop_last()) + if ops.last().yields(replay(s, ops.drop_last())) is Some {
            1nat
        } else {
            0nat
        }
    }
}

/// One operation leaves every slot it is not aimed at as it was, keeps every
/// slot in place, and can only empty the slot it is aimed at.
pub proof fn lemma_step_frame<T>(s: Seq<Option<T>>, op: ScopeOp<T>, slot: int)
    requires
        0 <= slot < s.len(),
    ensures
        op.apply(s).len() >= s.len(),
        !op.vacates(s, slot) ==> op.apply(s)[slot] == s[slot],
        op.apply(s)[slot] == s[slot] || op.apply(s)[slot] is None,
{
    slots::lemma_last_occupied(s);
}

/// One operation changes the number of values held by what it puts in and
/// what it hands out.
pub proof fn lemma_step_count<T>(s: Seq<Option<T>>, op: ScopeOp<T>)
    ensures
        slots::occupied(op.apply(s)) + (if op.yields(s) is Some {
            1nat
        } else {
            0nat
        }) == slots::occupied(s) + (if op is Push {
            1nat
        } else {
            0nat
        }),
{
    slots::lemma_last_occupied(s);
    match op {
        ScopeOp::Push(value) => {
            slots::lemma_occupied_push(s, Some(value));
        },
        ScopeOp::Pop => {
            if let Some(last) = slots::last_occupied(s) {
                slots::lemma_occupied_update(s, last, None);
            }
        },
        ScopeOp::Remove(slot) => {
            if 0 <= slot < s.len() {
                slots::lemma_occupied_update(s, slot, None);
            }
        },
    }
}

/// A value stays in its slot for as long as no operation is aimed at that
/// slot: if slot `slot` of `s` holds a value and none of `ops` vacates the
/// slot, the slot holds the same value after all of them.
pub proof fn lemma_value_stays<T>(s: Seq<Option<T>>, ops: Seq<ScopeOp<T>>, slot: int)
    requires
        slots::held(s, slot) is Some,
        forall|k: int|
            0 <= k < ops.len() ==> !(#[trigger] ops[k]).vacates(replay(s, ops.take(k)), slot),
    ensures
        slots::held(replay(s, ops), slot) == slots::held(s, slot),
    decreases ops.len(),
{
    if ops.len() > 0 {
        let earlier = ops.drop_last();
        assert forall|k: int| 0 <= k < earlier.len() implies !(#[trigger] earlier[k]).vacates(
            replay(s, earlier.take(k)),
            slot,
        ) by {
            assert(earlier.take(k) =~= ops.take(k));
            assert(!ops[k].vacates(replay(s, ops.take(k)), slot));
        }
        lemma_value_stays(s, earlier, slot);
        assert(ops.take(ops.len() - 1) =~= earlier);
        assert(!ops[ops.len() - 1].vacates(replay(s, earlier), slot));
        lemma_step_frame(replay(s, earlier), ops.last(), slot);
    }
}

/// The token that `push` returns resolves to the pushed value until its slot
/// is removed: after `value` was pushed on `s`, and whatever operations
/// followed, if none of them vacated the new slot, that slot holds `value`.
pub proof fn lemma_token_resolves<T>(s: Seq<Option<T>>, value: T, ops: Seq<ScopeOp<T>>)
    requires
        forall|k: int|
            0 <= k < ops.len() ==> !(#[trigger] ops[k]).vacates(
                replay(s.push(Some(value)), ops.take(k)),
                s.len() as int,
            ),
    ensures
        slots::held(replay(s.push(Some(value)), ops), s.len() as int) == Some(value),
{
    lemma_value_stays(s.push(Some(value)), ops, s.len() as int);
}

/// A second `remove` with the same token hands out nothing and changes
/// nothing, and the first one touched no other slot.
pub proof fn lemma_remove_twice<T>(s: Seq<Option<T>>, slot: int)
    ensures
        slots::held(slots::vacated(s, slot), slot) is None,
        slots::vacated(slots::vacated(s, slot), slot) == slots::vacated(s, slot),
        slots::vacated(s, slot).len() == s.len(),
        forall|other: int|
            other != slot ==> slots::held(slots::vacated(s, slot), other) == slots::held(s, other),
{
    assert(slots::vacated(slots::vacated(s, slot), slot) =~= slots::vacated(s, slot));
}

/// The number of values held is what it was when the operations began, plus
/// the pushes, minus the removals that handed out a value. Starting from an
/// empty vector it is the pushes minus those removals.
pub proof fn lemma_count_balance<T>(s: Seq<Option<T>>, ops: Seq<ScopeOp<T>>)
    ensures
        slots::occupied(replay(s, ops)) + removals(s, ops) == slots::occupied(s) + pushes(ops),
        s.len() == 0 ==> slots::occupied(replay(s, ops)) == pushes(ops) - removals(s, ops),
    decreases ops.len(),
{
    if ops.len() > 0 {
        lemma_count_balance(s, ops.drop_last());
        lemma_step_count(replay(s, ops.drop_last()), ops.last());
    }
}

/// No operation of a scope renumbers: whatever operations are made, every
/// slot is still there, and it holds what it held before them or nothing. A
/// tombstone stays a tombstone, and a token can never come to name another
/// value.
pub proof fn lemma_referents_fixed<T>(s: Seq<Option<T>>, ops: Seq<ScopeOp<T>>, slot: int)
    requires
        0 <= slot < s.len(),
    ensures
        replay(s, ops).len() >= s.len(),
        replay(s, ops)[slot] == s[slot] || replay(s, ops)[slot] is None,
    decreases ops.len(),
{
    if ops.len() > 0 {
        lemma_referents_fixed(s, ops.drop_last(), slot);
        lemma_step_frame(replay(s, ops.drop_last()), ops.last(), slot);
    }
}

} // verus!
