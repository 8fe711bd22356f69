//! The mathematical model of a stable vector: a sequence of slots, each of
//! which either holds a value or is a tombstone.
//!
//! Everything here is ghost code. The executable types state their contracts
//! over these functions.

use vstd::multiset::Multiset;
use vstd::prelude::*;

verus! {

/// The number of slots that hold a value.
pub open spec fn occupied<T>(s: Seq<Option<T>>) -> nat
    decreases s.len(),
{
    if s.len() == 0 {
        0
    } else {
        occupied(s.drop_last()) + if s.last() is Some {
            1nat
        } else {
            0nat
        }
    }
}

/// The values held, in slot order, with the tombstones left out.
pub open spec fn survivors<T>(s: Seq<Option<T>>) -> Seq<T>
    decreases s.len(),
{
    if s.len() == 0 {
        Seq::empty()
    } else if s.last() is Some {
        survivors(s.drop_last()).push(s.last()->0)
    } else {
        survivors(s.drop_last())
    }
}

/// The values held, without regard to where they are held.
pub open spec fn contents<T>(s: Seq<Option<T>>) -> Multiset<T> {
    survivors(s).to_multiset()
}

/// No slot is a tombstone.
pub open spec fn is_compact<T>(s: Seq<Option<T>>) -> bool {
    forall|i: int| 0 <= i < s.len() ==> (#[trigger] s[i]) is Some
}

/// The slot sequence in which every value of `v` holds the slot of its own
/// position.
pub open spec fn packed<T>(v: Seq<T>) -> Seq<Option<T>> {
    Seq::new(v.len(), |i: int| Some(v[i]))
}

/// What slot `i` holds. A slot number past the end holds nothing.
pub open spec fn held<T>(s: Seq<Option<T>>, i: int) -> Option<T> {
    if 0 <= i < s.len() {
        s[i]
    } else {
        None
    }
}

/// The slots after slot `i` gave up its value. Every other slot keeps its
/// number and its value; the tombstone stays in place.
pub open spec fn vacated<T>(s: Seq<Option<T>>, i: int) -> Seq<Option<T>> {
    if 0 <= i < s.len() {
        s.update(i, None)
    } else {
        s
    }
}

/// The number of the last slot that holds a value, if any slot does.
pub open spec fn last_occupied<T>(s: Seq<Option<T>>) -> Option<int>
    decreases s.len(),
{
    if s.len() == 0 {
        None
    } else if s.last() is Some {
        Some(s.len() - 1)
    } else {
        last_occupied(s.drop_last())
    }
}

/// The value that a pop hands out: that of the last occupied slot.
pub open spec fn pop_value<T>(s: Seq<Option<T>>) -> Option<T> {
    match last_occupied(s) {
        Some(i) => s[i],
        None => None,
    }
}

/// The slots after a pop: the last occupied slot became a tombstone.
pub open spec fn popped<T>(s: Seq<Option<T>>) -> Seq<Option<T>> {
    match last_occupied(s) {
        Some(i) => s.update(i, None),
        None => s,
    }
}

/// No more slots hold a value than there are slots.
pub proof fn lemma_occupied_bound<T>(s: Seq<Option<T>>)
    ensures
        occupied(s) <= s.len(),
    decreases s.len(),
{
    if s.len() > 0 {
        lemma_occupied_bound(s.drop_last());
    }
}

/// A slot added at the end counts when it holds a value.
pub proof fn lemma_occupied_push<T>(s: Seq<Option<T>>, slot: Option<T>)
    ensures
        occupied(s.push(slot)) == occupied(s) + if slot is Some {
            1nat
        } else {
            0nat
        },
{
    assert(s.push(slot).drop_last() =~= s);
}

/// Rewriting one slot changes the count by what the slot held and what it
/// holds now.
pub proof fn lemma_occupied_update<T>(s: Seq<Option<T>>, i: int, slot: Option<T>)
    requires
        0 <= i < s.len(),
    ensures
        occupied(s.update(i, slot)) + (if s[i] is Some {
            1nat
        } else {
            0nat
        }) == occupied(s) + (if slot is Some {
            1nat
        } else {
            0nat
        }),
    decreases s.len(),
{
    if i == s.len() - 1 {
        assert(s.update(i, slot).drop_last() =~= s.drop_last());
    } else {
        lemma_occupied_update(s.drop_last(), i, slot);
        assert(s.update(i, slot).drop_last() =~= s.drop_last().update(i, slot));
    }
}

/// There are as many survivors as occupied slots.
pub proof fn lemma_survivors_len<T>(s: Seq<Option<T>>)
    ensures
        survivors(s).len() == occupied(s),
    decreases s.len(),
{
    if s.len() > 0 {
        lemma_survivors_len(s.drop_last());
    }
}

/// A sequence is compact exactly when every slot counts as occupied.
pub proof fn lemma_compact_count<T>(s: Seq<Option<T>>)
    ensures
        is_compact(s) <==> occupied(s) == s.len(),
    decreases s.len(),
{
    if s.len() > 0 {
        let front = s.drop_last();
        lemma_compact_count(front);
        lemma_occupied_bound(front);
        if is_compact(s) {
            assert forall|i: int| 0 <= i < front.len() implies (#[trigger] front[i]) is Some by {
                assert(s[i] is Some);
            }
            assert(s[s.len() - 1] is Some);
        }
        if occupied(s) == s.len() {
            assert forall|i: int| 0 <= i < s.len() implies (#[trigger] s[i]) is Some by {
                if i < front.len() {
                    assert(front[i] is Some);
                }
            }
        }
    }
}

/// A packed sequence is compact, and its survivors are the values it was
/// packed from.
pub proof fn lemma_packed<T>(v: Seq<T>)
    ensures
        is_compact(packed(v)),
        occupied(packed(v)) == v.len(),
        survivors(packed(v)) == v,
    decreases v.len(),
{
    lemma_compact_count(packed(v));
    if v.len() > 0 {
        lemma_packed(v.drop_last());
        assert(packed(v).drop_last() =~= packed(v.drop_last()));
        assert(v.drop_last().push(v.last()) =~= v);
    }
}

/// Survivors are gathered slot by slot: one more slot adds its value, if it
/// holds one, at the end.
pub proof fn lemma_survivors_step<T>(s: Seq<Option<T>>, n: int)
    requires
        0 <= n < s.len(),
    ensures
        survivors(s.take(n + 1)) == if s[n] is Some {
            survivors(s.take(n)).push(s[n]->0)
        } else {
            survivors(s.take(n))
        },
{
    assert(s.take(n + 1).drop_last() =~= s.take(n));
}

/// Dropping the last slot takes its value, if it holds one, out of the
/// contents.
pub proof fn lemma_contents_drop_last<T>(s: Seq<Option<T>>)
    requires
        s.len() > 0,
    ensures
        contents(s) == if s.last() is Some {
            contents(s.drop_last()).insert(s.last()->0)
        } else {
            contents(s.drop_last())
        },
{
    broadcast use vstd::seq_lib::to_multiset_build;

}

/// Filling a tombstone adds the value to the contents.
pub proof fn lemma_contents_fill<T>(s: Seq<Option<T>>, i: int, v: T)
    requires
        0 <= i < s.len(),
        s[i] is None,
    ensures
        contents(s.update(i, Some(v))) == contents(s).insert(v),
    decreases s.len(),
{
    let filled = s.update(i, Some(v));
    lemma_contents_drop_last(s);
    lemma_contents_drop_last(filled);
    if i == s.len() - 1 {
        assert(filled.drop_last() =~= s.drop_last());
    } else {
        lemma_contents_fill(s.drop_last(), i, v);
        assert(filled.drop_last() =~= s.drop_last().update(i, Some(v)));
        assert(contents(filled) =~= contents(s).insert(v));
    }
}

/// The last occupied slot holds a value and only tombstones follow it; there
/// is none exactly when nothing is held.
pub proof fn lemma_last_occupied<T>(s: Seq<Option<T>>)
    ensures
        match last_occupied(s) {
            Some(i) => {
                &&& 0 <= i < s.len()
                &&& s[i] is Some
                &&& forall|j: int| i < j < s.len() ==> (#[trigger] s[j]) is None
            },
            None => {
                &&& occupied(s) == 0
                &&& forall|j: int| 0 <= j < s.len() ==> (#[trigger] s[j]) is None
            },
        },
        last_occupied(s) is None <==> occupied(s) == 0,
    decreases s.len(),
{
    if s.len() > 0 && s.last() is None {
        let front = s.drop_last();
        lemma_last_occupied(front);
        match last_occupied(front) {
            Some(i) => {
                assert forall|j: int| i < j < s.len() implies (#[trigger] s[j]) is None by {
                    if j < front.len() {
                        assert(front[j] is None);
                    }
                }
            },
            None => {
                assert forall|j: int| 0 <= j < s.len() implies (#[trigger] s[j]) is None by {
                    if j < front.len() {
                        assert(front[j] is None);
                    }
                }
            },
        }
    }
}

} // verus!
