use vstd::prelude::*;
use std::collections::HashMap;

verus! {

broadcast use vstd::std_specs::hash::group_hash_axioms;

/// Changes waiting to be applied, batched by the frame they target. A batch keeps
/// the order in which its changes were scheduled; a frame with nothing pending has
/// no entry at all.
pub struct DeferredChangeQueue<C> {
    batches: HashMap<usize, Vec<C>>,
}

impl<C> View for DeferredChangeQueue<C> {
    type V = Map<usize, Seq<C>>;

    closed spec fn view(&self) -> Map<usize, Seq<C>> {
        Map::new(|f: usize| self.batches@.contains_key(f), |f: usize| self.batches@[f]@)
    }
}

/// The batch pending at `frame` (empty when there is none).
pub open spec fn spec_batch<C>(pending: Map<usize, Seq<C>>, frame: usize) -> Seq<C> {
    if pending.contains_key(frame) {
        pending[frame]
    } else {
        Seq::empty()
    }
}

/// `pending` with `op` appended to the batch of `frame`.
pub open spec fn spec_push<C>(pending: Map<usize, Seq<C>>, frame: usize, op: C) -> Map<
    usize,
    Seq<C>,
> {
    pending.insert(frame, spec_batch(pending, frame).push(op))
}

impl<C> DeferredChangeQueue<C> {
    /// No frame is present with an empty batch.
    pub open spec fn wf(&self) -> bool {
        forall|f: usize| #[trigger] self@.contains_key(f) ==> self@[f].len() > 0
    }

    pub fn new() -> (r: Self)
        ensures
            r.wf(),
            r@ == Map::<usize, Seq<C>>::empty(),
    {
        let r = DeferredChangeQueue { batches: HashMap::new() };
        proof {
            assert(r@ =~= Map::<usize, Seq<C>>::empty());
        }
        r
    }

    /// Appends `op` to the batch of `frame`, creating the batch if absent.
    pub fn push(&mut self, frame: usize, op: C)
        requires
            old(self).wf(),
        ensures
            final(self).wf(),
            final(self)@ == spec_push(old(self)@, frame, op),
    {
        let mut batch = match self.batches.remove(&frame) {
            Some(b) => b,
            None => Vec::new(),
        };
        batch.push(op);
        self.batches.insert(frame, batch);
        proof {
            assert(self@ =~= spec_push(old(self)@, frame, op));
        }
    }

    /// Removes and returns the batch of `frame`, in scheduling order (empty when none).
    pub fn take(&mut self, frame: usize) -> (r: Vec<C>)
        requires
            old(self).wf(),
        ensures
            final(self).wf(),
            r@ == spec_batch(old(self)@, frame),
            final(self)@ == old(self)@.remove(frame),
    {
        let r = match self.batches.remove(&frame) {
            Some(b) => b,
            None => Vec::new(),
        };
        proof {
            assert(self@ =~= old(self)@.remove(frame));
        }
        r
    }

    /// Whether a batch is pending at `frame`.
    pub fn contains(&self, frame: usize) -> (r: bool)
        ensures
            r == self@.contains_key(frame),
    {
        self.batches.contains_key(&frame)
    }
}

} // verus!
