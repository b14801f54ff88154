//! A builder for arrays whose fill order is data-dependent.
//!
//! The element type need not have a default value, so the buffer keeps each
//! slot as an `Option` that starts out empty. An operation writes every slot
//! of a fresh buffer and then collapses it into the finished array in one
//! step; `finalize` demands that every slot has been written, so a partially
//! built array can never escape.

use vstd::prelude::*;
use vstd::pervasive::VecAdditionalExecFns;

verus! {

/// A fixed-capacity buffer of slots, each either empty or holding one
/// element of the array under construction.
pub(crate) struct SlotBuffer<T: Copy> {
    slots: Vec<Option<T>>,
}

impl<T: Copy> SlotBuffer<T> {
    /// The number of slots the buffer was allocated with.
    pub(crate) closed spec fn capacity(&self) -> nat {
        self.slots@.len()
    }

    /// The state of slot `i`: `None` while it is still empty, `Some(v)`
    /// once `v` has been written there.
    pub(crate) closed spec fn slot(&self, i: int) -> Option<T> {
        self.slots@[i]
    }

    /// Whether slot `i` has been written.
    pub(crate) open spec fn is_filled(&self, i: int) -> bool {
        self.slot(i) is Some
    }

    /// The value most recently written to slot `i`.
    pub(crate) open spec fn slot_value(&self, i: int) -> T
        recommends
            0 <= i < self.capacity(),
            self.is_filled(i),
    {
        self.slot(i)->Some_0
    }

    /// Allocates a buffer of `n` empty slots.
    pub(crate) fn allocate(n: usize) -> (buf: Self)
        ensures
            buf.capacity() == n,
            forall|i: int| 0 <= i < n ==> !buf.is_filled(i),
    {
        let mut slots: Vec<Option<T>> = Vec::new();
        while slots.len() < n
            invariant
                slots@.len() <= n,
                forall|i: int| 0 <= i < slots@.len() ==> slots@[i] is None,
            decreases n - slots@.len(),
        {
            slots.push(None);
        }
        SlotBuffer { slots }
    }

    /// Writes `value` into slot `index`, leaving every other slot as it was.
    /// Writing a slot twice keeps only the later value.
    pub(crate) fn write(&mut self, index: usize, value: T)
        requires
            index < old(self).capacity(),
        ensures
            final(self).capacity() == old(self).capacity(),
            final(self).slot(index as int) == Some(value),
            forall|i: int|
                0 <= i < old(self).capacity() && i != index ==> final(self).slot(i) == old(
                    self,
                ).slot(i),
    {
        self.slots.set(index, Some(value));
    }

    /// Collapses a fully written buffer into the finished array. Every slot
    /// must have been written first, so the result is fully initialized.
    pub(crate) fn finalize(self) -> (r: Vec<T>)
        requires
            forall|i: int| 0 <= i < self.capacity() ==> self.is_filled(i),
        ensures
            r@.len() == self.capacity(),
            forall|i: int| 0 <= i < self.capacity() ==> r@[i] == self.slot_value(i),
    {
        let n: usize = self.slots.len();
        let mut out: Vec<T> = Vec::new();
        let mut pos: usize = 0;
        while pos < n
            invariant
                n == self.capacity(),
                pos <= n,
                forall|i: int| 0 <= i < self.capacity() ==> self.is_filled(i),
                out@.len() == pos,
                forall|i: int| 0 <= i < pos ==> out@[i] == self.slot_value(i),
            decreases n - pos,
        {
            assert(self.is_filled(pos as int));
            let v = self.slots[pos].unwrap();
            out.push(v);
            pos += 1;
        }
        out
    }
}

} // verus!
