//! The bounded object registry: a pool of positioned objects keyed by
//! recycled numeric identifiers.
//!
//! Identifier rule: a freed-id pool and a monotonically increasing
//! allocation counter. Creation prefers the pool; only with the pool empty
//! is the counter extended, and never past the fixed capacity.

use crate::component::Component;
use crate::game_object::{GameObject, GameObjectError};
use crate::position::Position;
use vstd::prelude::*;

verus! {

/// The pool of freed identifiers awaiting reuse. Holds each id at most
/// once; reuse takes the most recently freed id first.
pub struct IdPool {
    ids: Vec<usize>,
}

impl View for IdPool {
    type V = Seq<usize>;

    closed spec fn view(&self) -> Seq<usize> {
        self.ids@
    }
}

impl IdPool {
    /// Creates an empty pool.
    pub fn new() -> (r: Self)
        ensures
            r@ == Seq::<usize>::empty(),
    {
        IdPool { ids: Vec::new() }
    }

    /// Whether the pool holds no id.
    pub fn is_empty(&self) -> (r: bool)
        ensures
            r == (self@.len() == 0),
    {
        self.ids.len() == 0
    }

    /// How many ids await reuse.
    pub fn len(&self) -> (r: usize)
        ensures
            r == self@.len(),
    {
        self.ids.len()
    }

    /// Whether `id` awaits reuse.
    pub fn contains(&self, id: usize) -> (r: bool)
        ensures
            r == self@.contains(id),
    {
        let mut i: usize = 0;
        while i < self.ids.len()
            invariant
                i <= self.ids@.len(),
                forall|j: int| 0 <= j < i ==> self.ids@[j] != id,
            decreases self.ids@.len() - i,
        {
            if self.ids[i] == id {
                return true;
            }
            i = i + 1;
        }
        false
    }

    /// Returns `id` to the pool. Reports whether the pool changed: an id
    /// already present is not added twice.
    pub fn insert(&mut self, id: usize) -> (r: bool)
        ensures
            r == !old(self)@.contains(id),
            r ==> final(self)@ == old(self)@.push(id),
            !r ==> final(self)@ == old(self)@,
    {
        if self.contains(id) {
            false
        } else {
            self.ids.push(id);
            true
        }
    }

    /// Takes the most recently freed id out of the pool.
    pub fn pop(&mut self) -> (r: usize)
        requires
            old(self)@.len() > 0,
        ensures
            r == old(self)@.last(),
            final(self)@ == old(self)@.drop_last(),
    {
        self.ids.pop().unwrap()
    }
}

/// Issues identifiers for game objects: freed ids are reused before the
/// monotonic counter grows, and the counter never exceeds the capacity.
pub struct GameObjectFactory {
    /// Freed identifiers awaiting reuse.
    pub uids: IdPool,
    /// Fixed capacity: the number of simultaneously issued ids never
    /// exceeds it.
    pub max_objects: usize,
    /// How many ids the monotonic counter has handed out so far.
    pub allocated_objects: usize,
}

impl GameObjectFactory {
    /// Every freed id was once allocated, no id is freed twice, and the
    /// counter respects the capacity.
    pub open spec fn wf(self) -> bool {
        &&& self.allocated_objects <= self.max_objects
        &&& forall|i: int|
            0 <= i < self.uids@.len() ==> 1 <= #[trigger] self.uids@[i]
                <= self.allocated_objects
        &&& forall|i: int, j: int|
            0 <= i < j < self.uids@.len() ==> self.uids@[i] != self.uids@[j]
    }

    /// Whether another object can be created: a freed id is available, or
    /// the counter has room under the capacity.
    pub open spec fn can_create(self) -> bool {
        self.uids@.len() > 0 || self.allocated_objects < self.max_objects
    }

    /// The id the next creation will hand out.
    pub open spec fn next_uid(self) -> usize {
        if self.uids@.len() > 0 {
            self.uids@.last()
        } else {
            (self.allocated_objects + 1) as usize
        }
    }

    /// Whether another object can be created right now. Callers must
    /// consult this before `create_object`: exceeding the capacity is a
    /// fatal precondition violation, not a recoverable error.
    pub fn has_capacity(&self) -> (r: bool)
        ensures
            r == self.can_create(),
    {
        !self.uids.is_empty() || self.allocated_objects < self.max_objects
    }

    /// Creates a factory for at most `max_objects` simultaneous objects.
    pub fn new(max_objects: usize) -> (r: Self)
        ensures
            r.wf(),
            r.uids@ == Seq::<usize>::empty(),
            r.max_objects == max_objects,
            r.allocated_objects == 0,
    {
        GameObjectFactory { uids: IdPool::new(), max_objects, allocated_objects: 0 }
    }

    /// Issues an id and wraps the components and position into a fresh game
    /// object. Exceeding the capacity is a fatal precondition violation,
    /// not a recoverable error: callers must check `can_create` first.
    pub fn create_object(&mut self, components: Vec<Component>, position: Position) -> (r: (
        usize,
        GameObject,
    ))
        requires
            old(self).wf(),
            old(self).can_create(),
        ensures
            final(self).wf(),
            r.0 == old(self).next_uid(),
            r.1.components == components,
            r.1.script is None,
            r.1.position == position,
            final(self).max_objects == old(self).max_objects,
            old(self).uids@.len() > 0 ==> {
                &&& final(self).uids@ == old(self).uids@.drop_last()
                &&& final(self).allocated_objects == old(self).allocated_objects
            },
            old(self).uids@.len() == 0 ==> {
                &&& final(self).uids@ == old(self).uids@
                &&& final(self).allocated_objects == old(self).allocated_objects + 1
            },
    {
        if !self.uids.is_empty() {
            let uid = self.uids.pop();
            return (uid, GameObject::new(components, None, position));
        }
        self.allocated_objects = self.allocated_objects + 1;
        (self.allocated_objects, GameObject::new(components, None, position))
    }
}

/// Dense storage of live objects keyed by their issued id, in insertion
/// order. The registry's callers never depend on the order: the compositor
/// re-sorts by depth.
pub struct ObjectTable {
    entries: Vec<(usize, GameObject)>,
}

impl View for ObjectTable {
    type V = Seq<(usize, GameObject)>;

    closed spec fn view(&self) -> Seq<(usize, GameObject)> {
        self.entries@
    }
}

impl ObjectTable {
    /// Whether some entry carries the key `uid`.
    pub open spec fn spec_contains_key(self, uid: usize) -> bool {
        exists|i: int| 0 <= i < self@.len() && (#[trigger] self@[i]).0 == uid
    }

    /// Creates an empty table.
    pub fn new() -> (r: Self)
        ensures
            r@ == Seq::<(usize, GameObject)>::empty(),
    {
        ObjectTable { entries: Vec::new() }
    }

    /// How many objects are stored.
    pub fn len(&self) -> (r: usize)
        ensures
            r == self@.len(),
    {
        self.entries.len()
    }

    /// Whether an object is stored under `uid`.
    pub fn contains_key(&self, uid: &usize) -> (r: bool)
        ensures
            r == self.spec_contains_key(*uid),
    {
        let mut i: usize = 0;
        while i < self.entries.len()
            invariant
                i <= self.entries@.len(),
                forall|j: int| 0 <= j < i ==> (#[trigger] self.entries@[j]).0 != *uid,
            decreases self.entries@.len() - i,
        {
            if self.entries[i].0 == *uid {
                assert((self@[i as int]).0 == *uid);
                return true;
            }
            i = i + 1;
        }
        false
    }

    /// The object stored under `uid`, if any.
    pub fn get(&self, uid: &usize) -> (r: Option<&GameObject>)
        ensures
            match r {
                Some(obj) => exists|i: int|
                    0 <= i < self@.len() && #[trigger] self@[i] == (*uid, *obj),
                None => !self.spec_contains_key(*uid),
            },
    {
        let mut i: usize = 0;
        while i < self.entries.len()
            invariant
                i <= self.entries@.len(),
                forall|j: int| 0 <= j < i ==> (#[trigger] self.entries@[j]).0 != *uid,
            decreases self.entries@.len() - i,
        {
            if self.entries[i].0 == *uid {
                assert(self@[i as int] == (*uid, self.entries@[i as int].1));
                return Some(&self.entries[i].1);
            }
            i = i + 1;
        }
        None
    }

    /// The entry at storage index `i`.
    pub fn entry_at(&self, i: usize) -> (r: &(usize, GameObject))
        requires
            i < self@.len(),
        ensures
            *r == self@[i as int],
    {
        &self.entries[i]
    }

    /// Stores `obj` under the fresh key `uid` at the end of the table.
    pub fn insert(&mut self, uid: usize, obj: GameObject)
        requires
            !old(self).spec_contains_key(uid),
        ensures
            final(self)@ == old(self)@.push((uid, obj)),
    {
        self.entries.push((uid, obj));
    }

    /// Takes the object stored under `uid` out of the table; the table is
    /// unchanged when no entry carries that key.
    pub fn take(&mut self, uid: &usize) -> (r: Option<GameObject>)
        ensures
            match r {
                Some(obj) => exists|i: int|
                    {
                        &&& 0 <= i < old(self)@.len()
                        &&& #[trigger] old(self)@[i] == (*uid, obj)
                        &&& final(self)@ == old(self)@.remove(i)
                    },
                None => {
                    &&& !old(self).spec_contains_key(*uid)
                    &&& *final(self) == *old(self)
                },
            },
    {
        let mut i: usize = 0;
        while i < self.entries.len()
            invariant
                i <= self.entries@.len(),
                *self == *old(self),
                forall|j: int| 0 <= j < i ==> (#[trigger] self.entries@[j]).0 != *uid,
            decreases self.entries@.len() - i,
        {
            if self.entries[i].0 == *uid {
                let ghost gi: int = i as int;
                assert(old(self)@[gi] == ((*uid, old(self)@[gi].1)));
                let entry = self.entries.remove(i);
                assert(old(self)@[gi] == ((*uid, entry.1)));
                return Some(entry.1);
            }
            i = i + 1;
        }
        assert(!old(self).spec_contains_key(*uid));
        None
    }
}

/// The registry of live game objects: stored objects keyed by issued ids,
/// together with the factory that issues and recycles those ids.
pub struct GameObjectManager {
    /// The live objects, keyed by their ids.
    pub game_objects: ObjectTable,
    /// Issues fresh ids and recycles freed ones.
    pub factory: GameObjectFactory,
}

impl GameObjectManager {
    /// Registry invariant: the factory is well formed, every live key was
    /// issued once and only once, no live key awaits reuse, and every
    /// issued id is either live or freed.
    pub open spec fn wf(self) -> bool {
        &&& self.factory.wf()
        &&& forall|i: int|
            0 <= i < self.game_objects@.len() ==> 1 <= (#[trigger] self.game_objects@[i]).0
                <= self.factory.allocated_objects
        &&& forall|i: int, j: int|
            0 <= i < j < self.game_objects@.len() ==> (self.game_objects@[i]).0 != (
            self.game_objects@[j]).0
        &&& forall|i: int, j: int|
            0 <= i < self.game_objects@.len() && 0 <= j < self.factory.uids@.len() ==> (
            #[trigger] self.game_objects@[i]).0 != #[trigger] self.factory.uids@[j]
        &&& self.game_objects@.len() + self.factory.uids@.len() == self.factory.allocated_objects
    }

    /// Creates an empty registry for at most `max_objects` simultaneous
    /// objects.
    pub fn new(max_objects: usize) -> (r: Self)
        ensures
            r.wf(),
            r.game_objects@ == Seq::<(usize, GameObject)>::empty(),
            r.factory.uids@ == Seq::<usize>::empty(),
            r.factory.max_objects == max_objects,
            r.factory.allocated_objects == 0,
    {
        GameObjectManager { game_objects: ObjectTable::new(), factory: GameObjectFactory::new(
            max_objects,
        ) }
    }

    /// Creates a game object from the components and position and stores it
    /// under the next issued id. Exceeding the capacity is a fatal
    /// precondition violation: callers must check `can_create` first.
    pub fn add_game_object(&mut self, components: Vec<Component>, position: Position)
        requires
            old(self).wf(),
            old(self).factory.can_create(),
        ensures
            final(self).wf(),
            final(self).game_objects@ == old(self).game_objects@.push(
                (
                    old(self).factory.next_uid(),
                    GameObject { components, script: None, position },
                ),
            ),
            final(self).factory.max_objects == old(self).factory.max_objects,
            old(self).factory.uids@.len() > 0 ==> {
                &&& final(self).factory.uids@ == old(self).factory.uids@.drop_last()
                &&& final(self).factory.allocated_objects == old(self).factory.allocated_objects
            },
            old(self).factory.uids@.len() == 0 ==> {
                &&& final(self).factory.uids@ == old(self).factory.uids@
                &&& final(self).factory.allocated_objects == old(self).factory.allocated_objects
                    + 1
            },
    {
        let (uid, object) = self.factory.create_object(components, position);
        proof {
            if old(self).factory.uids@.len() > 0 {
                assert forall|i: int|
                    0 <= i < self.game_objects@.len() implies (
                #[trigger] self.game_objects@[i]).0 != uid by {
                    assert((old(self).game_objects@[i]).0 != old(self).factory.uids@[old(
                        self,
                    ).factory.uids@.len() - 1]);
                }
            }
            assert(!self.game_objects.spec_contains_key(uid));
        }
        self.game_objects.insert(uid, object);
    }

    /// Removes the object stored under `uid` and returns its id to the
    /// reuse pool. An unknown id is reported as an error and leaves the
    /// registry unchanged.
    pub fn remove(&mut self, uid: usize) -> (r: Result<(), GameObjectError>)
        requires
            old(self).wf(),
        ensures
            final(self).wf(),
            old(self).game_objects.spec_contains_key(uid) ==> {
                &&& r is Ok
                &&& exists|i: int|
                    {
                        &&& 0 <= i < old(self).game_objects@.len()
                        &&& (#[trigger] old(self).game_objects@[i]).0 == uid
                        &&& final(self).game_objects@ == old(self).game_objects@.remove(i)
                    }
                &&& final(self).factory.uids@ == old(self).factory.uids@.push(uid)
                &&& final(self).factory.allocated_objects == old(self).factory.allocated_objects
                &&& final(self).factory.max_objects == old(self).factory.max_objects
            },
            !old(self).game_objects.spec_contains_key(uid) ==> {
                &&& r matches Err(GameObjectError::UIDError(_))
                &&& *final(self) == *old(self)
            },
    {
        match self.game_objects.take(&uid) {
            Some(_) => {
                proof {
                    let oi = choose|i: int|
                        0 <= i < old(self).game_objects@.len() && (#[trigger] old(
                            self,
                        ).game_objects@[i]).0 == uid && self.game_objects@ == old(
                            self,
                        ).game_objects@.remove(i);
                    assert(!old(self).factory.uids@.contains(uid)) by {
                        if old(self).factory.uids@.contains(uid) {
                            let j = choose|j: int|
                                0 <= j < old(self).factory.uids@.len() && old(
                                    self,
                                ).factory.uids@[j] == uid;
                            assert((old(self).game_objects@[oi]).0 != old(self).factory.uids@[j]);
                        }
                    }
                }
                let inserted = self.factory.uids.insert(uid);
                proof {
                    let oi = choose|i: int|
                        0 <= i < old(self).game_objects@.len() && (#[trigger] old(
                            self,
                        ).game_objects@[i]).0 == uid && self.game_objects@ == old(
                            self,
                        ).game_objects@.remove(i);
                    assert forall|i: int|
                        0 <= i < self.game_objects@.len() implies 1 <= (
                    #[trigger] self.game_objects@[i]).0 <= self.factory.allocated_objects
                        && (self.game_objects@[i]).0 != uid by {
                        if i < oi {
                            assert(self.game_objects@[i] == old(self).game_objects@[i]);
                        } else {
                            assert(self.game_objects@[i] == old(self).game_objects@[i + 1]);
                        }
                    }
                    assert forall|i: int, j: int|
                        0 <= i < j < self.game_objects@.len() implies (self.game_objects@[i]).0
                        != (self.game_objects@[j]).0 by {
                        let i0: int = if i < oi {
                            i
                        } else {
                            i + 1
                        };
                        let j0: int = if j < oi {
                            j
                        } else {
                            j + 1
                        };
                        assert(self.game_objects@[i] == old(self).game_objects@[i0]);
                        assert(self.game_objects@[j] == old(self).game_objects@[j0]);
                    }
                }
                Ok(())
            },
            None => Err(GameObjectError::UIDError("no object with this uid".to_string())),
        }
    }
}

/// Id reuse law: creation prefers the reuse pool over extending the
/// monotonic counter, so when the pool holds exactly the freed id `k` —
/// as it does right after `k` alone was removed — the next created object
/// receives id `k` again.
pub proof fn lemma_id_reuse(m: GameObjectManager, k: usize)
    requires
        m.factory.uids@ == seq![k],
    ensures
        m.factory.next_uid() == k,
{
}

/// Reuse priority law: whenever any freed id awaits reuse, the next
/// creation hands out one of the freed ids rather than a fresh one.
pub proof fn lemma_reuse_priority(m: GameObjectManager)
    requires
        m.factory.uids@.len() > 0,
    ensures
        m.factory.uids@.contains(m.factory.next_uid()),
{
    assert(m.factory.uids@[m.factory.uids@.len() - 1] == m.factory.next_uid());
}

/// Capacity guard law: while the registry holds fewer live objects than
/// its capacity, another object can be created; with exactly
/// `max_objects` live objects, creation is impossible until one is
/// removed.
pub proof fn lemma_capacity_guard(m: GameObjectManager)
    requires
        m.wf(),
    ensures
        m.game_objects@.len() < m.factory.max_objects ==> m.factory.can_create(),
        m.game_objects@.len() == m.factory.max_objects ==> !m.factory.can_create(),
{
}

} // verus!
