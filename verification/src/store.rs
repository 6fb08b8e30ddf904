//! The arena that owns every entity.
//!
//! An identifier is the position of a slot. Slots are only ever appended, and
//! a destroyed entity leaves its slot empty for good, so an identifier is
//! never handed out twice and enumeration is in order of creation.

use vstd::prelude::*;
use crate::entity::{Capabilities, Entity};
use crate::geometry::Vec2;

verus! {

/// The identifier of an entity: the index of its slot.
#[derive(Clone, Copy, Debug, PartialEq, Eq, Structural)]
pub struct EntityId(pub usize);

/// Why the store refused an operation.
#[derive(Clone, Copy, Debug, PartialEq, Eq, Structural)]
pub enum StoreError {
    /// A half-extent is zero or negative.
    DegenerateCollider,
    /// A coordinate, half-extent or velocity component is beyond the
    /// coordinate range.
    OutOfRange,
    /// The identifier names no living entity: it was never handed out, or its
    /// entity has been destroyed already.
    NoSuchEntity,
}

/// The owner of all entities.
#[derive(Clone, Debug)]
pub struct EntityStore {
    slots: Vec<Option<Entity>>,
}

/// Whether slot `i` of `slots` holds a living entity.
pub open spec fn alive(slots: Seq<Option<Entity>>, i: int) -> bool {
    0 <= i < slots.len() && slots[i] is Some
}

/// The identifiers below `n` whose entity lives and holds every attribute in
/// `want`, in order of creation.
pub open spec fn matching(slots: Seq<Option<Entity>>, want: Capabilities, n: nat) -> Seq<EntityId>
    decreases n,
{
    if n == 0 || n > slots.len() {
        Seq::empty()
    } else {
        let before = matching(slots, want, (n - 1) as nat);
        match slots[n - 1] {
            Some(e) => if e.has(want) {
                before.push(EntityId((n - 1) as usize))
            } else {
                before
            },
            None => before,
        }
    }
}

/// The half-extents are what `create` objects to first.
pub open spec fn degenerate(e: Entity) -> bool {
    e.half.x <= 0 || e.half.y <= 0
}

impl EntityStore {
    /// The slots, one per identifier ever handed out: the entity, or nothing
    /// once it has been destroyed.
    pub closed spec fn view(&self) -> Seq<Option<Entity>> {
        self.slots@
    }

    /// Every living entity is valid, and every slot index is an identifier.
    pub open spec fn wf(&self) -> bool {
        &&& self@.len() <= usize::MAX
        &&& forall|i: int| alive(self@, i) ==> (#[trigger] self@[i]).unwrap().valid()
    }

    /// What a query for `want` yields.
    pub open spec fn query_spec(&self, want: Capabilities) -> Seq<EntityId> {
        matching(self@, want, self@.len())
    }

    /// An empty store.
    pub fn new() -> (store: EntityStore)
        ensures
            store@.len() == 0,
            store.wf(),
    {
        EntityStore { slots: Vec::new() }
    }

    /// The number of identifiers handed out so far.
    pub fn len(&self) -> (n: usize)
        ensures
            n == self@.len(),
    {
        self.slots.len()
    }

    /// Adds an entity and returns its fresh identifier. An entity with a
    /// half-extent that is not strictly positive is refused as degenerate,
    /// any other invalid entity as out of range; the store is then unchanged.
    pub fn create(&mut self, e: Entity) -> (r: Result<EntityId, StoreError>)
        requires
            old(self).wf(),
        ensures
            final(self).wf(),
            e.valid() ==> r == Ok::<EntityId, StoreError>(EntityId(old(self)@.len() as usize))
                && final(self)@ == old(self)@.push(Some(e)),
            degenerate(e) ==> r == Err::<EntityId, StoreError>(StoreError::DegenerateCollider),
            !e.valid() && !degenerate(e) ==> r == Err::<EntityId, StoreError>(
                StoreError::OutOfRange,
            ),
            !e.valid() ==> final(self)@ == old(self)@,
    {
        if e.half.x <= 0 || e.half.y <= 0 {
            return Err(StoreError::DegenerateCollider);
        }
        if !e.is_valid() {
            return Err(StoreError::OutOfRange);
        }
        let id = EntityId(self.slots.len());
        self.slots.push(Some(e));
        proof {
            assert(self.slots.len() <= usize::MAX);
        }
        Ok(id)
    }

    /// Removes a living entity with all its attributes. An identifier that
    /// names no living entity is an error and changes nothing.
    pub fn destroy(&mut self, id: EntityId) -> (r: Result<(), StoreError>)
        requires
            old(self).wf(),
        ensures
            final(self).wf(),
            alive(old(self)@, id.0 as int) ==> r is Ok && final(self)@ == old(self)@.update(
                id.0 as int,
                None,
            ),
            !alive(old(self)@, id.0 as int) ==> r == Err::<(), StoreError>(
                StoreError::NoSuchEntity,
            ) && final(self)@ == old(self)@,
    {
        if id.0 >= self.slots.len() {
            return Err(StoreError::NoSuchEntity);
        }
        if self.slots[id.0].is_none() {
            return Err(StoreError::NoSuchEntity);
        }
        self.slots[id.0] = None;
        Ok(())
    }

    /// The entity behind an identifier, if it lives.
    pub fn get(&self, id: EntityId) -> (r: Option<Entity>)
        ensures
            alive(self@, id.0 as int) ==> r == self@[id.0 as int],
            !alive(self@, id.0 as int) ==> r is None,
    {
        if id.0 >= self.slots.len() {
            return None;
        }
        self.slots[id.0]
    }

    /// Whether the identifier names a living entity.
    pub fn contains(&self, id: EntityId) -> (r: bool)
        ensures
            r == alive(self@, id.0 as int),
    {
        id.0 < self.slots.len() && self.slots[id.0].is_some()
    }

    /// Moves a living entity to `position`, which must lie within the
    /// coordinate range.
    pub fn set_position(&mut self, id: EntityId, position: Vec2) -> (r: Result<(), StoreError>)
        requires
            old(self).wf(),
        ensures
            final(self).wf(),
            r is Ok <==> alive(old(self)@, id.0 as int) && position.bounded(),
            r is Ok ==> final(self)@ == old(self)@.update(
                id.0 as int,
                Some(Entity { position, ..old(self)@[id.0 as int].unwrap() }),
            ),
            !alive(old(self)@, id.0 as int) ==> r == Err::<(), StoreError>(
                StoreError::NoSuchEntity,
            ),
            alive(old(self)@, id.0 as int) && !position.bounded() ==> r == Err::<(), StoreError>(
                StoreError::OutOfRange,
            ),
            r is Err ==> final(self)@ == old(self)@,
    {
        if id.0 >= self.slots.len() {
            return Err(StoreError::NoSuchEntity);
        }
        match self.slots[id.0] {
            None => Err(StoreError::NoSuchEntity),
            Some(e) => {
                if !position.is_bounded() {
                    return Err(StoreError::OutOfRange);
                }
                self.slots[id.0] = Some(Entity { position, ..e });
                Ok(())
            },
        }
    }

    /// Gives a living entity the velocity `velocity`, which must lie within
    /// the coordinate range.
    pub fn set_velocity(&mut self, id: EntityId, velocity: Vec2) -> (r: Result<(), StoreError>)
        requires
            old(self).wf(),
        ensures
            final(self).wf(),
            r is Ok <==> alive(old(self)@, id.0 as int) && velocity.bounded(),
            r is Ok ==> final(self)@ == old(self)@.update(
                id.0 as int,
                Some(Entity { velocity: Some(velocity), ..old(self)@[id.0 as int].unwrap() }),
            ),
            !alive(old(self)@, id.0 as int) ==> r == Err::<(), StoreError>(
                StoreError::NoSuchEntity,
            ),
            alive(old(self)@, id.0 as int) && !velocity.bounded() ==> r == Err::<(), StoreError>(
                StoreError::OutOfRange,
            ),
            r is Err ==> final(self)@ == old(self)@,
    {
        if id.0 >= self.slots.len() {
            return Err(StoreError::NoSuchEntity);
        }
        match self.slots[id.0] {
            None => Err(StoreError::NoSuchEntity),
            Some(e) => {
                if !velocity.is_bounded() {
                    return Err(StoreError::OutOfRange);
                }
                self.slots[id.0] = Some(Entity { velocity: Some(velocity), ..e });
                Ok(())
            },
        }
    }

    /// Takes the velocity from a living entity, which then stays where it is.
    pub fn clear_velocity(&mut self, id: EntityId) -> (r: Result<(), StoreError>)
        requires
            old(self).wf(),
        ensures
            final(self).wf(),
            alive(old(self)@, id.0 as int) ==> r is Ok && final(self)@ == old(self)@.update(
                id.0 as int,
                Some(Entity { velocity: None, ..old(self)@[id.0 as int].unwrap() }),
            ),
            !alive(old(self)@, id.0 as int) ==> r == Err::<(), StoreError>(
                StoreError::NoSuchEntity,
            ) && final(self)@ == old(self)@,
    {
        if id.0 >= self.slots.len() {
            return Err(StoreError::NoSuchEntity);
        }
        match self.slots[id.0] {
            None => Err(StoreError::NoSuchEntity),
            Some(e) => {
                self.slots[id.0] = Some(Entity { velocity: None, ..e });
                Ok(())
            },
        }
    }

    /// The identifiers of the living entities that hold every attribute in
    /// `want`, in order of creation.
    pub fn query(&self, want: Capabilities) -> (ids: Vec<EntityId>)
        ensures
            ids@ == self.query_spec(want),
    {
        let mut ids: Vec<EntityId> = Vec::new();
        let n: usize = self.slots.len();
        let mut i: usize = 0;
        while i < n
            invariant
                n == self.slots@.len(),
                i <= n,
                ids@ == matching(self@, want, i as nat),
            decreases n - i,
        {
            match self.slots[i] {
                Some(e) => {
                    if e.matches(want) {
                        ids.push(EntityId(i));
                    }
                },
                None => {},
            }
            i = i + 1;
        }
        ids
    }
}

/// Every identifier that a query yields names a living entity with the
/// requested attributes.
pub proof fn lemma_matching_sound(slots: Seq<Option<Entity>>, want: Capabilities, n: nat, k: int)
    requires
        n <= slots.len() <= usize::MAX,
        0 <= k < matching(slots, want, n).len(),
    ensures
        matching(slots, want, n)[k].0 < n,
        alive(slots, matching(slots, want, n)[k].0 as int),
        slots[matching(slots, want, n)[k].0 as int].unwrap().has(want),
    decreases n,
{
    if n > 0 {
        let before = matching(slots, want, (n - 1) as nat);
        if k < before.len() {
            lemma_matching_sound(slots, want, (n - 1) as nat, k);
        }
    }
}

/// Every living entity with the requested attributes is yielded by the query.
pub proof fn lemma_matching_complete(
    slots: Seq<Option<Entity>>,
    want: Capabilities,
    n: nat,
    i: int,
)
    requires
        n <= slots.len() <= usize::MAX,
        0 <= i < n,
        alive(slots, i),
        slots[i].unwrap().has(want),
    ensures
        matching(slots, want, n).contains(EntityId(i as usize)),
    decreases n,
{
    let before = matching(slots, want, (n - 1) as nat);
    if i == n - 1 {
        let s = before.push(EntityId(i as usize));
        assert(s[before.len() as int] == EntityId(i as usize));
    } else {
        lemma_matching_complete(slots, want, (n - 1) as nat, i);
        let k = choose|k: int| 0 <= k < before.len() && before[k] == EntityId(i as usize);
        assert(matching(slots, want, n)[k] == EntityId(i as usize));
    }
}

/// Once an entity is destroyed, no query yields its identifier again,
/// whatever is asked for.
pub proof fn lemma_destroyed_is_absent(store: EntityStore, want: Capabilities, id: EntityId)
    requires
        store.wf(),
        !alive(store@, id.0 as int),
    ensures
        !store.query_spec(want).contains(id),
{
    let ids = store.query_spec(want);
    if ids.contains(id) {
        let k = choose|k: int| 0 <= k < ids.len() && ids[k] == id;
        lemma_matching_sound(store@, want, store@.len(), k);
    }
}

} // verus!
