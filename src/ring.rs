use vstd::prelude::*;
use crate::error::RollbackError;

verus! {

/// A fixed-capacity ring of snapshots: frame `f` lives in slot `f % capacity`.
/// Each slot remembers the frame of the snapshot that it holds, so that a slot
/// overwritten by a later frame is never mistaken for an older one.
pub struct SnapshotRing<T> {
    slots: Vec<Option<(usize, T)>>,
}

impl<T> View for SnapshotRing<T> {
    type V = Seq<Option<(usize, T)>>;

    closed spec fn view(&self) -> Seq<Option<(usize, T)>> {
        self.slots@
    }
}

impl<T> SnapshotRing<T> {
    /// The slot that frame `frame` maps to.
    pub open spec fn slot_of(&self, frame: usize) -> int {
        frame as int % self@.len() as int
    }

    /// The snapshot of `frame`, if the ring still holds it.
    pub open spec fn spec_get(&self, frame: usize) -> Option<T> {
        match self@[self.slot_of(frame)] {
            Some(entry) => if entry.0 == frame { Some(entry.1) } else { None },
            None => None,
        }
    }

    /// The ring after `snapshot` has been stored for `frame`.
    pub open spec fn spec_store(&self, frame: usize, snapshot: T) -> Seq<Option<(usize, T)>> {
        self@.update(self.slot_of(frame), Some((frame, snapshot)))
    }

    /// An empty ring of `capacity` slots.
    pub fn new(capacity: usize) -> (r: Self)
        requires
            capacity > 0,
        ensures
            r@.len() == capacity,
            forall|i: int| 0 <= i < capacity ==> r@[i] is None,
    {
        let mut slots: Vec<Option<(usize, T)>> = Vec::new();
        let mut i: usize = 0;
        while i < capacity
            invariant
                i <= capacity,
                slots@.len() == i,
                forall|j: int| 0 <= j < i ==> slots@[j] is None,
            decreases capacity - i,
        {
            slots.push(None);
            i = i + 1;
        }
        SnapshotRing { slots }
    }

    pub fn capacity(&self) -> (r: usize)
        ensures
            r == self@.len(),
    {
        self.slots.len()
    }

    /// Stores `snapshot` as the snapshot of `frame`, overwriting whatever its slot held.
    pub fn store(&mut self, frame: usize, snapshot: T)
        requires
            old(self)@.len() > 0,
        ensures
            final(self)@ == old(self).spec_store(frame, snapshot),
    {
        let i = frame % self.slots.len();
        self.slots.set(i, Some((frame, snapshot)));
    }

    /// Removes and returns the snapshot of `frame`, leaving its slot empty.
    /// Fails with `SlotEmpty`, changing nothing, when the slot holds no snapshot of `frame`.
    pub fn take(&mut self, frame: usize) -> (r: Result<T, RollbackError>)
        requires
            old(self)@.len() > 0,
        ensures
            match old(self).spec_get(frame) {
                Some(s) => r == Ok::<T, RollbackError>(s) && final(self)@ == old(self)@.update(
                    old(self).slot_of(frame),
                    None,
                ),
                None => r == Err::<T, RollbackError>(RollbackError::SlotEmpty) && final(self)@
                    == old(self)@,
            },
    {
        let i = frame % self.slots.len();
        let held = match &self.slots[i] {
            Some(entry) => entry.0 == frame,
            None => false,
        };
        if !held {
            return Err(RollbackError::SlotEmpty);
        }
        let mut slot: Option<(usize, T)> = None;
        self.slots.set_and_swap(i, &mut slot);
        match slot {
            Some(entry) => Ok(entry.1),
            None => Err(RollbackError::SlotEmpty),
        }
    }

    /// The snapshot of `frame`, if the ring still holds it.
    pub fn get(&self, frame: usize) -> (r: Option<&T>)
        requires
            self@.len() > 0,
        ensures
            match self.spec_get(frame) {
                Some(s) => r == Some(&s),
                None => r is None,
            },
    {
        let i = frame % self.slots.len();
        match &self.slots[i] {
            Some(entry) => {
                if entry.0 == frame {
                    Some(&entry.1)
                } else {
                    None
                }
            },
            None => None,
        }
    }
}

} // verus!
