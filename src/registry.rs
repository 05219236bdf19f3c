use vstd::prelude::*;
use crate::resources::ResourceId;

verus! {

/// The resources that snapshots capture (the rollback list), and among them those whose
/// stored value wins over the simulated one when a frame is replayed (the override list).
/// Both lists keep registration order.
pub struct ResourceTrackRegistry {
    rollback: Vec<ResourceId>,
    overrides: Vec<ResourceId>,
}

impl ResourceTrackRegistry {
    /// The ids of the rollback list, in registration order.
    pub closed spec fn rollback_list(&self) -> Seq<ResourceId> {
        self.rollback@
    }

    /// The ids of the override list, in registration order.
    pub closed spec fn override_list(&self) -> Seq<ResourceId> {
        self.overrides@
    }

    /// Every resource of the override list is in the rollback list.
    pub open spec fn wf(&self) -> bool {
        forall|i: int|
            0 <= i < self.override_list().len() ==> self.rollback_list().contains(
                #[trigger] self.override_list()[i],
            )
    }

    pub fn new() -> (r: Self)
        ensures
            r.wf(),
            r.rollback_list() == Seq::<ResourceId>::empty(),
            r.override_list() == Seq::<ResourceId>::empty(),
    {
        ResourceTrackRegistry { rollback: Vec::new(), overrides: Vec::new() }
    }

    /// Registers `id` in the rollback list.
    pub fn track(&mut self, id: ResourceId)
        requires
            old(self).wf(),
        ensures
            final(self).wf(),
            final(self).rollback_list() == old(self).rollback_list().push(id),
            final(self).override_list() == old(self).override_list(),
    {
        self.rollback.push(id);
        proof {
            assert forall|i: int| 0 <= i < self.override_list().len() implies self.rollback_list().contains(
                #[trigger] self.override_list()[i],
            ) by {
                assert(old(self).override_list()[i] == self.override_list()[i]);
                assert(old(self).rollback_list().contains(old(self).override_list()[i]));
                let j = choose|j: int|
                    0 <= j < old(self).rollback_list().len() && old(self).rollback_list()[j]
                        == self.override_list()[i];
                assert(self.rollback_list()[j] == self.override_list()[i]);
            }
        }
    }

    /// Registers `id` in both lists.
    pub fn track_override(&mut self, id: ResourceId)
        requires
            old(self).wf(),
        ensures
            final(self).wf(),
            final(self).rollback_list() == old(self).rollback_list().push(id),
            final(self).override_list() == old(self).override_list().push(id),
    {
        self.track(id);
        self.overrides.push(id);
        proof {
            assert(self.rollback_list()[self.rollback_list().len() - 1] == id);
            assert forall|i: int| 0 <= i < self.override_list().len() implies self.rollback_list().contains(
                #[trigger] self.override_list()[i],
            ) by {
                if i < self.override_list().len() - 1 {
                    assert(self.override_list()[i] == old(self).override_list()[i]);
                }
            }
        }
    }

    /// The ids of the rollback list, in registration order.
    pub fn rollback_ids(&self) -> (r: &Vec<ResourceId>)
        ensures
            r@ == self.rollback_list(),
    {
        &self.rollback
    }

    /// The ids of the override list, in registration order.
    pub fn override_ids(&self) -> (r: &Vec<ResourceId>)
        ensures
            r@ == self.override_list(),
    {
        &self.overrides
    }
}

} // verus!
