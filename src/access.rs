use vstd::prelude::*;
use crate::buffer::RollbackBuffer;
use crate::resources::ResourceId;

verus! {

/// What a system may read or write: the rollback buffer itself, or one resource of
/// its live state.
#[derive(Debug, Clone, Copy, PartialEq, Eq, Structural)]
pub enum AccessKey {
    Buffer,
    Logical(ResourceId),
}

/// Why a system's parameters cannot be granted together.
#[derive(Debug, Clone, Copy, PartialEq, Eq, Structural)]
pub enum AccessError {
    /// Another parameter of the system already has conflicting access to this resource.
    ConflictingResource(ResourceId),
    /// The system mutates the rollback buffer while also reading the state it holds.
    BufferMutated,
}

/// The reads and writes that a system's parameters declare.
pub struct SystemAccess {
    reads: Vec<AccessKey>,
    writes: Vec<AccessKey>,
    queries: usize,
}

impl SystemAccess {
    pub closed spec fn reads(&self) -> Seq<AccessKey> {
        self.reads@
    }

    pub closed spec fn writes(&self) -> Seq<AccessKey> {
        self.writes@
    }

    /// The number of queries over the live world that the system declares.
    pub closed spec fn queries(&self) -> nat {
        self.queries as nat
    }

    pub fn new() -> (r: Self)
        ensures
            r.reads() == Seq::<AccessKey>::empty(),
            r.writes() == Seq::<AccessKey>::empty(),
            r.queries() == 0,
    {
        SystemAccess { reads: Vec::new(), writes: Vec::new(), queries: 0 }
    }

    pub fn is_read(&self, key: AccessKey) -> (r: bool)
        ensures
            r == self.reads().contains(key),
    {
        vec_contains(&self.reads, key)
    }

    pub fn is_write(&self, key: AccessKey) -> (r: bool)
        ensures
            r == self.writes().contains(key),
    {
        vec_contains(&self.writes, key)
    }

    /// Declares a read of `key`.
    pub fn add_read(&mut self, key: AccessKey)
        ensures
            final(self).reads() == old(self).reads().push(key),
            final(self).writes() == old(self).writes(),
            final(self).queries() == old(self).queries(),
    {
        self.reads.push(key);
    }

    /// Declares a write of `key`.
    pub fn add_write(&mut self, key: AccessKey)
        ensures
            final(self).writes() == old(self).writes().push(key),
            final(self).reads() == old(self).reads(),
            final(self).queries() == old(self).queries(),
    {
        self.writes.push(key);
    }
}

fn vec_contains(v: &Vec<AccessKey>, key: AccessKey) -> (r: bool)
    ensures
        r == v@.contains(key),
{
    let mut i: usize = 0;
    while i < v.len()
        invariant
            i <= v@.len(),
            forall|j: int| 0 <= j < i ==> v@[j] != key,
        decreases v@.len() - i,
    {
        if v[i] == key {
            return true;
        }
        i = i + 1;
    }
    false
}

/// Read access to one resource of the live state of a rollback buffer.
pub struct FetchLRes {
    pub id: ResourceId,
}

impl FetchLRes {
    /// Declares a read of the resource (and of the buffer that holds it). Fails when
    /// another parameter writes that resource, or when the system writes the buffer.
    pub fn init(&self, access: &mut SystemAccess) -> (r: Result<(), AccessError>)
        ensures
            ({
                let key = AccessKey::Logical(self.id);
                let taken = old(access).writes().contains(key);
                let busy = old(access).writes().contains(AccessKey::Buffer);
                &&& taken ==> r == Err::<(), AccessError>(AccessError::ConflictingResource(self.id))
                &&& !taken && busy ==> r == Err::<(), AccessError>(AccessError::BufferMutated)
                &&& r is Err ==> *final(access) == *old(access)
                &&& r is Ok <==> !taken && !busy
                &&& r is Ok ==> {
                    &&& final(access).reads() == old(access).reads().push(AccessKey::Buffer).push(key)
                    &&& final(access).writes() == old(access).writes()
                    &&& final(access).queries() == old(access).queries()
                }
            }),
    {
        if access.is_write(AccessKey::Logical(self.id)) {
            return Err(AccessError::ConflictingResource(self.id));
        }
        if access.is_write(AccessKey::Buffer) {
            return Err(AccessError::BufferMutated);
        }
        access.add_read(AccessKey::Buffer);
        access.add_read(AccessKey::Logical(self.id));
        Ok(())
    }

    /// The live value of the resource.
    pub fn get_param<W, V: Copy, C>(&self, buffer: &RollbackBuffer<W, V, C>) -> (r: Option<V>)
        ensures
            match r {
                Some(v) => buffer@.resources.contains_key(self.id) && buffer@.resources[self.id]
                    == v,
                None => !buffer@.resources.contains_key(self.id),
            },
    {
        buffer.resource(self.id)
    }
}

/// Write access to one resource of the live state of a rollback buffer.
pub struct FetchLResMut {
    pub id: ResourceId,
}

impl FetchLResMut {
    /// Declares a write of the resource (and a read of the buffer that holds it). Fails
    /// when another parameter reads or writes that resource, or when the system writes
    /// the buffer.
    pub fn init(&self, access: &mut SystemAccess) -> (r: Result<(), AccessError>)
        ensures
            ({
                let key = AccessKey::Logical(self.id);
                let taken = old(access).reads().contains(key) || old(access).writes().contains(key);
                &&& taken ==> r == Err::<(), AccessError>(AccessError::ConflictingResource(self.id))
                &&& !taken && old(access).writes().contains(AccessKey::Buffer) ==> r == Err::<
                    (),
                    AccessError,
                >(AccessError::BufferMutated)
                &&& r is Err ==> *final(access) == *old(access)
                &&& r is Ok <==> !taken && !old(access).writes().contains(AccessKey::Buffer)
                &&& r is Ok ==> {
                    &&& final(access).reads() == old(access).reads().push(AccessKey::Buffer)
                    &&& final(access).writes() == old(access).writes().push(key)
                    &&& final(access).queries() == old(access).queries()
                }
            }),
    {
        let key = AccessKey::Logical(self.id);
        if access.is_read(key) || access.is_write(key) {
            return Err(AccessError::ConflictingResource(self.id));
        }
        if access.is_write(AccessKey::Buffer) {
            return Err(AccessError::BufferMutated);
        }
        access.add_read(AccessKey::Buffer);
        access.add_write(key);
        Ok(())
    }

    /// Sets the live value of the resource.
    pub fn set_param<W, V: Copy, C>(&self, buffer: &mut RollbackBuffer<W, V, C>, value: V)
        requires
            old(buffer).inv(),
        ensures
            final(buffer).inv(),
            final(buffer)@ == (crate::model::BufferModel {
                resources: old(buffer)@.resources.insert(self.id, value),
                ..old(buffer)@
            }),
    {
        buffer.set_resource(self.id, value);
    }
}

/// Access to the live world of a rollback buffer, through a query.
pub struct FetchLQuery;

impl FetchLQuery {
    /// Declares one more query over the live world.
    pub fn init(&self, access: &mut SystemAccess)
        requires
            old(access).queries() < usize::MAX,
        ensures
            final(access).queries() == old(access).queries() + 1,
            final(access).reads() == old(access).reads(),
            final(access).writes() == old(access).writes(),
    {
        access.queries = access.queries + 1;
    }

    /// Grants the query, unless the system writes the buffer.
    pub fn get_param(&self, access: &SystemAccess) -> (r: Result<(), AccessError>)
        ensures
            r == (if access.writes().contains(AccessKey::Buffer) {
                Err::<(), AccessError>(AccessError::BufferMutated)
            } else {
                Ok::<(), AccessError>(())
            }),
    {
        if access.is_write(AccessKey::Buffer) {
            Err(AccessError::BufferMutated)
        } else {
            Ok(())
        }
    }
}

} // verus!
