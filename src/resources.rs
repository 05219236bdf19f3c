use vstd::prelude::*;
use std::collections::HashMap;
use crate::error::RollbackError;

verus! {

broadcast use vstd::std_specs::hash::group_hash_axioms;

/// Identifies one resource type among the resources that a simulation holds.
pub type ResourceId = u64;

/// A set of resource values, at most one per resource id.
pub struct ResourceSet<V> {
    values: HashMap<ResourceId, V>,
}

impl<V> View for ResourceSet<V> {
    type V = Map<ResourceId, V>;

    closed spec fn view(&self) -> Map<ResourceId, V> {
        self.values@
    }
}

/// The resources of `live` whose ids are in `ids`.
pub open spec fn spec_restrict<V>(live: Map<ResourceId, V>, ids: Seq<ResourceId>) -> Map<
    ResourceId,
    V,
> {
    Map::new(|id: ResourceId| ids.contains(id) && live.contains_key(id), |id: ResourceId| live[id])
}

/// `live` with each resource of `ids` that `past` holds replaced by its value in `past`.
pub open spec fn spec_override<V>(
    live: Map<ResourceId, V>,
    past: Map<ResourceId, V>,
    ids: Seq<ResourceId>,
) -> Map<ResourceId, V> {
    Map::new(
        |id: ResourceId| live.contains_key(id) || (ids.contains(id) && past.contains_key(id)),
        |id: ResourceId|
            if ids.contains(id) && past.contains_key(id) {
                past[id]
            } else {
                live[id]
            },
    )
}

/// Whether every id of `ids` has a value in `live`.
pub open spec fn spec_holds_all<V>(live: Map<ResourceId, V>, ids: Seq<ResourceId>) -> bool {
    forall|i: int| 0 <= i < ids.len() ==> live.contains_key(#[trigger] ids[i])
}

/// Whether `id` occurs among the first `n` ids of `ids`.
pub open spec fn spec_in_prefix(ids: Seq<ResourceId>, n: int, id: ResourceId) -> bool {
    exists|j: int| 0 <= j < n && #[trigger] ids[j] == id
}

/// `spec_override` over the first `n` ids of `ids`.
pub open spec fn spec_override_prefix<V>(
    live: Map<ResourceId, V>,
    past: Map<ResourceId, V>,
    ids: Seq<ResourceId>,
    n: int,
) -> Map<ResourceId, V> {
    Map::new(
        |id: ResourceId|
            live.contains_key(id) || (spec_in_prefix(ids, n, id) && past.contains_key(id)),
        |id: ResourceId|
            if spec_in_prefix(ids, n, id) && past.contains_key(id) {
                past[id]
            } else {
                live[id]
            },
    )
}

impl<V: Copy> ResourceSet<V> {
    pub fn new() -> (r: Self)
        ensures
            r@ == Map::<ResourceId, V>::empty(),
    {
        ResourceSet { values: HashMap::new() }
    }

    /// The value held for `id`.
    pub fn get(&self, id: ResourceId) -> (r: Option<V>)
        ensures
            match r {
                Some(v) => self@.contains_key(id) && self@[id] == v,
                None => !self@.contains_key(id),
            },
    {
        match self.values.get(&id) {
            Some(v) => Some(*v),
            None => None,
        }
    }

    pub fn contains(&self, id: ResourceId) -> (r: bool)
        ensures
            r == self@.contains_key(id),
    {
        self.values.contains_key(&id)
    }

    /// Sets the value held for `id`.
    pub fn insert(&mut self, id: ResourceId, value: V)
        ensures
            final(self)@ == old(self)@.insert(id, value),
    {
        self.values.insert(id, value);
    }

    /// A copy of the resources whose ids are in `ids`; fails with `ResourceNotFound`
    /// when one of them is missing.
    pub fn restrict(&self, ids: &Vec<ResourceId>) -> (r: Result<ResourceSet<V>, RollbackError>)
        ensures
            spec_holds_all(self@, ids@) ==> (r matches Ok(set) && set@ == spec_restrict(
                self@,
                ids@,
            )),
            !spec_holds_all(self@, ids@) ==> r == Err::<ResourceSet<V>, RollbackError>(
                RollbackError::ResourceNotFound,
            ),
    {
        let mut out: ResourceSet<V> = ResourceSet::new();
        let mut i: usize = 0;
        while i < ids.len()
            invariant
                i <= ids@.len(),
                forall|k: int| 0 <= k < i ==> self@.contains_key(#[trigger] ids@[k]),
                forall|id: ResourceId| out@.contains_key(id) <==> spec_in_prefix(ids@, i as int, id),
                forall|id: ResourceId|
                    out@.contains_key(id) ==> self@.contains_key(id) && out@[id] == self@[id],
            decreases ids@.len() - i,
        {
            let id = ids[i];
            let ghost prev = out@;
            match self.get(id) {
                Some(v) => {
                    out.insert(id, v);
                },
                None => {
                    return Err(RollbackError::ResourceNotFound);
                },
            }
            proof {
                assert forall|x: ResourceId|
                    spec_in_prefix(ids@, i + 1, x) <==> (spec_in_prefix(ids@, i as int, x) || x
                        == id) by {
                    if spec_in_prefix(ids@, i + 1, x) && x != id {
                        let j = choose|j: int| 0 <= j < i + 1 && #[trigger] ids@[j] == x;
                        assert(j < i);
                    }
                    if x == id {
                        assert(ids@[i as int] == x);
                    }
                }
                assert forall|x: ResourceId|
                    out@.contains_key(x) <==> spec_in_prefix(ids@, i + 1, x) by {
                    assert(prev.contains_key(x) <==> spec_in_prefix(ids@, i as int, x));
                }
            }
            i = i + 1;
        }
        proof {
            assert forall|x: ResourceId| ids@.contains(x) <==> spec_in_prefix(ids@, ids@.len() as int, x) by {
                if ids@.contains(x) {
                    let j = choose|j: int| 0 <= j < ids@.len() && ids@[j] == x;
                    assert(spec_in_prefix(ids@, ids@.len() as int, x));
                }
            }
            assert(out@ =~= spec_restrict(self@, ids@));
        }
        Ok(out)
    }

    /// Replaces each resource of `ids` that `past` holds by its value in `past`.
    pub fn override_from(&mut self, past: &ResourceSet<V>, ids: &Vec<ResourceId>)
        ensures
            final(self)@ == spec_override(old(self)@, past@, ids@),
    {
        let mut i: usize = 0;
        while i < ids.len()
            invariant
                i <= ids@.len(),
                self@ == spec_override_prefix(old(self)@, past@, ids@, i as int),
            decreases ids@.len() - i,
        {
            let id = ids[i];
            match past.get(id) {
                Some(v) => {
                    self.insert(id, v);
                },
                None => {},
            }
            proof {
                assert forall|x: ResourceId|
                    spec_in_prefix(ids@, i + 1, x) <==> (spec_in_prefix(ids@, i as int, x) || x
                        == id) by {
                    if spec_in_prefix(ids@, i + 1, x) && x != id {
                        let j = choose|j: int| 0 <= j < i + 1 && #[trigger] ids@[j] == x;
                        assert(j < i);
                    }
                    if x == id {
                        assert(ids@[i as int] == x);
                    }
                }
                assert(self@ =~= spec_override_prefix(old(self)@, past@, ids@, i + 1));
            }
            i = i + 1;
        }
        proof {
            assert forall|x: ResourceId| ids@.contains(x) <==> spec_in_prefix(ids@, ids@.len() as int, x) by {
                if ids@.contains(x) {
                    let j = choose|j: int| 0 <= j < ids@.len() && ids@[j] == x;
                    assert(spec_in_prefix(ids@, ids@.len() as int, x));
                }
            }
            assert(self@ =~= spec_override(old(self)@, past@, ids@));
        }
    }
}

} // verus!
