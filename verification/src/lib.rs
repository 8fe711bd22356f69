//! A vector whose elements keep their slot number when other elements are
//! removed, and a scoped view of it that hands out slot tokens which cannot
//! outlive the scope.
//!
//! Removing an element leaves a tombstone in its slot, so the slot numbers of
//! all other elements stay what they were. Only compaction reclaims
//! tombstones, and compaction renumbers. [`jailed::JailedStableVec`] borrows a
//! vector exclusively for a scope: while it lives, nothing can compact the
//! vector, and the tokens it hands out are bound to its lifetime.

use vstd::prelude::*;

pub mod history;
pub mod jailed;
pub mod slots;

verus! {

/// A growable sequence of slots. A slot holds a value or is a tombstone.
pub struct StableVec<T> {
    data: Vec<Option<T>>,
    used: usize,
}

impl<T> StableVec<T> {
    /// The slots, in order.
    pub closed spec fn view(&self) -> Seq<Option<T>> {
        self.data@
    }

    /// The stored element count agrees with the slots.
    pub closed spec fn wf(&self) -> bool {
        self.used == slots::occupied(self.data@)
    }

    /// An empty vector.
    pub fn new() -> (sv: Self)
        ensures
            sv.wf(),
            sv@ == Seq::<Option<T>>::empty(),
    {
        StableVec { data: Vec::new(), used: 0 }
    }

    /// Appends `value` in a new slot at the end and returns the slot's number.
    pub fn push(&mut self, value: T) -> (slot: usize)
        requires
            old(self).wf(),
        ensures
            final(self).wf(),
            final(self)@ == old(self)@.push(Some(value)),
            slot == old(self)@.len(),
    {
        let slot = self.data.len();
        self.data.push(Some(value));
        proof {
            slots::lemma_occupied_push(old(self).data@, Some(value));
            slots::lemma_occupied_bound(old(self).data@);
            assert(self.data.len() == old(self).data@.len() + 1);
        }
        self.used = self.used + 1;
        slot
    }

    /// The number of slots that hold a value.
    pub fn num_elements(&self) -> (n: usize)
        requires
            self.wf(),
        ensures
            n == slots::occupied(self@),
    {
        self.used
    }

    /// Whether no slot is a tombstone.
    pub fn is_compact(&self) -> (compact: bool)
        requires
            self.wf(),
        ensures
            compact == slots::is_compact(self@),
    {
        proof {
            slots::lemma_compact_count(self.data@);
        }
        self.used == self.data.len()
    }

    /// The value in slot `index`, or `None` when the slot holds no value or
    /// `index` is past the end.
    pub fn get(&self, index: usize) -> (value: Option<&T>)
        ensures
            match value {
                Some(v) => slots::held(self@, index as int) == Some(*v),
                None => slots::held(self@, index as int) is None,
            },
    {
        if index < self.data.len() {
            self.data[index].as_ref()
        } else {
            None
        }
    }

    /// The value in slot `index` for writing, or `None` when the slot holds
    /// no value or `index` is past the end. Whatever is written, the slot
    /// keeps holding a value and every other slot stays as it is.
    pub fn get_mut(&mut self, index: usize) -> (value: Option<&mut T>)
        ensures
            match value {
                Some(v) => {
                    &&& slots::held(old(self)@, index as int) == Some(*v)
                    &&& final(self)@ == old(self)@.update(index as int, Some(*final(v)))
                },
                None => {
                    &&& slots::held(old(self)@, index as int) is None
                    &&& final(self)@ == old(self)@
                },
            },
            old(self).wf() ==> final(self).wf(),
    {
        proof {
            if index < self.data@.len() && self.data@[index as int] is Some {
                assert forall|v: T|
                    slots::occupied(#[trigger] self.data@.update(index as int, Some(v)))
                        == slots::occupied(self.data@) by {
                    slots::lemma_occupied_update(self.data@, index as int, Some(v));
                }
            }
        }
        if index < self.data.len() {
            self.data[index].as_mut()
        } else {
            None
        }
    }

    /// Takes the value out of slot `index` and leaves a tombstone there.
    /// Returns `None`, and changes nothing, when the slot holds no value or
    /// `index` is past the end.
    pub fn remove(&mut self, index: usize) -> (removed: Option<T>)
        requires
            old(self).wf(),
        ensures
            final(self).wf(),
            removed == slots::held(old(self)@, index as int),
            final(self)@ == slots::vacated(old(self)@, index as int),
    {
        if index >= self.data.len() {
            return None;
        }
        let mut removed: Option<T> = None;
        std::mem::swap(&mut self.data[index], &mut removed);
        proof {
            slots::lemma_occupied_update(old(self).data@, index as int, None);
        }
        if removed.is_some() {
            self.used = self.used - 1;
        }
        removed
    }

    /// Takes the value out of the last slot that holds one and leaves a
    /// tombstone there, as `remove` does. Returns `None`, and changes
    /// nothing, when no slot holds a value.
    pub fn pop(&mut self) -> (popped: Option<T>)
        requires
            old(self).wf(),
        ensures
            final(self).wf(),
            popped == slots::pop_value(old(self)@),
            final(self)@ == slots::popped(old(self)@),
    {
        let mut i: usize = self.data.len();
        while i > 0
            invariant
                *self == *old(self),
                self.wf(),
                i <= self.data.len(),
                forall|j: int| i <= j < self.data.len() ==> (#[trigger] self.data@[j]) is None,
            decreases i,
        {
            i = i - 1;
            if self.data[i].is_some() {
                proof {
                    slots::lemma_last_occupied(self.data@);
                }
                return self.remove(i);
            }
        }
        proof {
            slots::lemma_last_occupied(self.data@);
        }
        None
    }

    /// Reclaims every tombstone. The values keep their order and move down
    /// to the slots `0, 1, 2, ...`, so a slot number from before the call no
    /// longer names the value it named.
    pub fn make_compact(&mut self)
        requires
            old(self).wf(),
        ensures
            final(self).wf(),
            final(self)@ == slots::packed(slots::survivors(old(self)@)),
    {
        let len = self.data.len();
        let mut write: usize = 0;
        let mut read: usize = 0;
        while read < len
            invariant
                self.used == old(self).used,
                self.data@.len() == len,
                old(self).data@.len() == len,
                write <= read <= len,
                write == slots::survivors(old(self).data@.take(read as int)).len(),
                forall|k: int|
                    0 <= k < write ==> (#[trigger] self.data@[k]) == Some(
                        slots::survivors(old(self).data@.take(read as int))[k],
                    ),
                forall|k: int| write <= k < read ==> (#[trigger] self.data@[k]) is None,
                forall|k: int| read <= k < len ==> (#[trigger] self.data@[k]) == old(self).data@[k],
            decreases len - read,
        {
            proof {
                slots::lemma_survivors_step(old(self).data@, read as int);
            }
            if self.data[read].is_some() {
                if write != read {
                    let mut moved: Option<T> = None;
                    std::mem::swap(&mut self.data[read], &mut moved);
                    self.data[write] = moved;
                }
                write = write + 1;
            }
            read = read + 1;
        }
        self.data.truncate(write);
        proof {
            let kept = slots::survivors(old(self).data@);
            assert(old(self).data@.take(len as int) =~= old(self).data@);
            assert(self.data@ =~= slots::packed(kept));
            slots::lemma_packed(kept);
            slots::lemma_survivors_len(old(self).data@);
        }
    }

    /// Reclaims every tombstone by moving values from the back into the
    /// tombstones at the front. The same values are held afterwards, each as
    /// often as before, in no particular order.
    pub fn reorder_make_compact(&mut self)
        requires
            old(self).wf(),
        ensures
            final(self).wf(),
            slots::is_compact(final(self)@),
            slots::contents(final(self)@) == slots::contents(old(self)@),
            final(self)@.len() == slots::occupied(old(self)@),
    {
        let mut hole: usize = 0;
        while hole < self.data.len()
            invariant
                self.wf(),
                self.used == old(self).used,
                old(self).wf(),
                slots::contents(self.data@) == slots::contents(old(self).data@),
                hole <= self.data.len(),
                forall|k: int| 0 <= k < hole ==> (#[trigger] self.data@[k]) is Some,
            decreases self.data.len() - hole,
        {
            if self.data[hole].is_some() {
                hole = hole + 1;
            } else {
                let ghost before = self.data@;
                proof {
                    slots::lemma_contents_drop_last(before);
                }
                let last = self.data.pop();
                if let Some(Some(value)) = last {
                    proof {
                        slots::lemma_contents_fill(before.drop_last(), hole as int, value);
                        slots::lemma_occupied_update(before.drop_last(), hole as int, Some(value));
                    }
                    self.data[hole] = Some(value);
                    hole = hole + 1;
                }
            }
        }
        proof {
            slots::lemma_compact_count(self.data@);
        }
    }

    /// Consumes the vector and returns the values it holds, in slot order.
    pub fn into_vec(self) -> (values: Vec<T>)
        ensures
            values@ == slots::survivors(self@),
    {
        let mut data = self.data;
        let mut values: Vec<T> = Vec::new();
        let mut i: usize = 0;
        while i < data.len()
            invariant
                data@.len() == self.data@.len(),
                i <= data@.len(),
                values@ == slots::survivors(self.data@.take(i as int)),
                forall|k: int| i <= k < data@.len() ==> (#[trigger] data@[k]) == self.data@[k],
            decreases data@.len() - i,
        {
            proof {
                slots::lemma_survivors_step(self.data@, i as int);
            }
            let mut slot: Option<T> = None;
            std::mem::swap(&mut data[i], &mut slot);
            if let Some(value) = slot {
                values.push(value);
            }
            i = i + 1;
        }
        proof {
            assert(self.data@.take(i as int) =~= self.data@);
        }
        values
    }
}

} // verus!
