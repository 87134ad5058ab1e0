//! The component store: for each kind of component one [`Storage`], a dense
//! table with one slot per entity.
use vstd::prelude::*;

verus! {

/// An entity: nothing but a number that components are filed under.
#[derive(Clone, Copy, PartialEq, Eq, Structural, Debug, Hash)]
pub struct Entity {
    pub id: usize,
}

/// The components of one kind, one slot per entity, and the removals that
/// wait for the next commit.
pub struct Storage<T> {
    pub slots: Vec<Option<T>>,
    pub doomed: Vec<Entity>,
}

/// Slot `id` of `slots`, where a slot past the end counts as empty.
pub open spec fn slot<T>(slots: Seq<Option<T>>, id: int) -> Option<T> {
    if 0 <= id < slots.len() {
        slots[id]
    } else {
        None
    }
}

/// `slots` with `doomed[0..n]` emptied.
pub open spec fn without<T>(slots: Seq<Option<T>>, doomed: Seq<Entity>, n: int) -> Seq<Option<T>>
    decreases n,
{
    if n <= 0 {
        slots
    } else {
        let rest = without(slots, doomed, n - 1);
        let id = doomed[n - 1].id as int;
        if id < rest.len() {
            rest.update(id, None)
        } else {
            rest
        }
    }
}

/// One of `doomed[0..n]` is the entity with the id `id`.
pub open spec fn dooms(doomed: Seq<Entity>, n: int, id: int) -> bool {
    exists|k: int| 0 <= k < n && #[trigger] doomed[k].id == id
}

/// Emptying slots keeps the number of slots, empties every doomed slot and
/// leaves the others alone.
pub proof fn lemma_without<T>(slots: Seq<Option<T>>, doomed: Seq<Entity>, n: int)
    requires
        0 <= n <= doomed.len(),
    ensures
        without(slots, doomed, n).len() == slots.len(),
        forall|id: int|
            0 <= id < slots.len() && dooms(doomed, n, id) ==> (#[trigger] without(
                slots,
                doomed,
                n,
            )[id]).is_none(),
        forall|id: int|
            0 <= id < slots.len() && !dooms(doomed, n, id) ==> #[trigger] without(slots, doomed, n)[id]
                == slots[id],
    decreases n,
{
    if n > 0 {
        lemma_without(slots, doomed, n - 1);
        let last = doomed[n - 1].id as int;
        assert forall|id: int| 0 <= id < slots.len() implies dooms(doomed, n, id) == (id == last
            || dooms(doomed, n - 1, id)) by {
            if id == last {
                assert(doomed[n - 1].id == id);
            } else if dooms(doomed, n - 1, id) {
                let k = choose|k: int| 0 <= k < n - 1 && #[trigger] doomed[k].id == id;
                assert(0 <= k < n && doomed[k].id == id);
            } else if dooms(doomed, n, id) {
                let k = choose|k: int| 0 <= k < n && #[trigger] doomed[k].id == id;
                assert(0 <= k < n - 1 && doomed[k].id == id);
            }
        }
    }
}

impl<T> View for Storage<T> {
    type V = Seq<Option<T>>;

    /// The slots, entity by entity.
    open spec fn view(&self) -> Seq<Option<T>> {
        self.slots@
    }
}

impl<T> Storage<T> {
    /// The removals that wait for the next commit, oldest first.
    pub open spec fn pending(&self) -> Seq<Entity> {
        self.doomed@
    }

    /// `entity` has a component here.
    pub open spec fn has(&self, entity: Entity) -> bool {
        slot(self@, entity.id as int).is_some()
    }

    /// The component of `entity`.
    pub open spec fn at(&self, entity: Entity) -> T
        recommends
            self.has(entity),
    {
        slot(self@, entity.id as int).unwrap()
    }

    /// The slots can be counted.
    pub proof fn lemma_countable(&self)
        ensures
            self@.len() <= usize::MAX,
    {
        vstd::std_specs::vec::axiom_spec_len(&self.slots);
    }

    /// A storage without components.
    pub fn new() -> (storage: Storage<T>)
        ensures
            storage@ == Seq::<Option<T>>::empty(),
            storage.pending() == Seq::<Entity>::empty(),
    {
        Storage { slots: Vec::new(), doomed: Vec::new() }
    }

    /// The number of slots: every entity with a component here has a smaller id.
    pub fn len(&self) -> (len: usize)
        ensures
            len == self@.len(),
    {
        self.slots.len()
    }

    /// Whether `entity` has a component here.
    pub fn contains(&self, entity: Entity) -> (found: bool)
        ensures
            found == self.has(entity),
    {
        entity.id < self.slots.len() && self.slots[entity.id].is_some()
    }

    /// The component of `entity`, if it has one.
    pub fn get(&self, entity: Entity) -> (component: Option<&T>)
        ensures
            component.is_some() == self.has(entity),
            self.has(entity) ==> *component.unwrap() == self.at(entity),
    {
        if entity.id < self.slots.len() {
            self.slots[entity.id].as_ref()
        } else {
            None
        }
    }

    /// Files `component` under `entity` and hands back what was there before.
    /// Every other entity keeps what it has.
    pub fn insert(&mut self, entity: Entity, component: T) -> (previous: Option<T>)
        ensures
            previous == slot(old(self)@, entity.id as int),
            final(self)@.len() == if entity.id < old(self)@.len() {
                old(self)@.len() as int
            } else {
                entity.id + 1
            },
            forall|id: int|
                0 <= id < final(self)@.len() ==> #[trigger] final(self)@[id] == if id
                    == entity.id {
                    Some(component)
                } else {
                    slot(old(self)@, id)
                },
            final(self).pending() == old(self).pending(),
    {
        while self.slots.len() <= entity.id
            invariant
                self.doomed == old(self).doomed,
                old(self)@.len() <= self.slots@.len(),
                self.slots@.len() > old(self)@.len() ==> self.slots@.len() <= entity.id + 1,
                forall|id: int|
                    0 <= id < self.slots@.len() ==> #[trigger] self.slots@[id] == slot(
                        old(self)@,
                        id,
                    ),
            decreases entity.id + 1 - self.slots@.len(),
        {
            self.slots.push(None);
        }
        let mut previous = Some(component);
        std::mem::swap(&mut self.slots[entity.id], &mut previous);
        previous
    }

    /// Takes the component of `entity` out at once and hands it back.
    pub fn remove(&mut self, entity: Entity) -> (removed: Option<T>)
        ensures
            removed == slot(old(self)@, entity.id as int),
            final(self)@ == if entity.id < old(self)@.len() {
                old(self)@.update(entity.id as int, None)
            } else {
                old(self)@
            },
            final(self).pending() == old(self).pending(),
    {
        if entity.id < self.slots.len() {
            let mut removed = None;
            std::mem::swap(&mut self.slots[entity.id], &mut removed);
            assert(self@ =~= old(self)@.update(entity.id as int, None));
            removed
        } else {
            None
        }
    }

    /// Notes that the component of `entity` is to go at the next commit.
    /// Until then the storage reads as before.
    pub fn remove_later(&mut self, entity: Entity)
        ensures
            final(self)@ == old(self)@,
            final(self).pending() == old(self).pending().push(entity),
    {
        self.doomed.push(entity);
    }

    /// Carries out the removals that were noted since the last commit.
    pub fn commit(&mut self)
        ensures
            final(self)@ == without(old(self)@, old(self).pending(), old(self).pending().len() as int),
            final(self).pending() == Seq::<Entity>::empty(),
    {
        let mut k: usize = 0;
        while k < self.doomed.len()
            invariant
                self.doomed == old(self).doomed,
                k <= self.doomed@.len(),
                self.slots@ == without(old(self)@, old(self).pending(), k as int),
            decreases self.doomed@.len() - k,
        {
            let id = self.doomed[k].id;
            if id < self.slots.len() {
                let mut gone = None;
                std::mem::swap(&mut self.slots[id], &mut gone);
            }
            k = k + 1;
        }
        self.doomed.clear();
    }
}

/// The first `n` entities that have a component in both storages, in rising
/// order of id.
pub open spec fn joined_below<A, B>(a: Seq<Option<A>>, b: Seq<Option<B>>, n: int) -> Seq<Entity>
    decreases n,
{
    if n <= 0 {
        Seq::empty()
    } else if slot(a, n - 1).is_some() && slot(b, n - 1).is_some() {
        joined_below(a, b, n - 1).push(Entity { id: (n - 1) as usize })
    } else {
        joined_below(a, b, n - 1)
    }
}

/// The entities that have a component in both storages, in rising order of id.
pub open spec fn joined<A, B>(a: Seq<Option<A>>, b: Seq<Option<B>>) -> Seq<Entity> {
    joined_below(a, b, a.len() as int)
}

/// `list` holds exactly the entities under `n` that have a component in
/// both `a` and `b`, each once, in rising order of id.
pub open spec fn is_join<A, B>(
    list: Seq<Entity>,
    a: Seq<Option<A>>,
    b: Seq<Option<B>>,
    n: int,
) -> bool {
    &&& forall|k: int|
        0 <= k < list.len() ==> {
            let id = (#[trigger] list[k]).id as int;
            id < n && slot(a, id).is_some() && slot(b, id).is_some()
        }
    &&& forall|j: int, k: int| 0 <= j < k < list.len() ==> list[j].id < list[k].id
    &&& forall|id: int|
        0 <= id < n && slot(a, id).is_some() && slot(b, id).is_some() ==> list.contains(
            Entity { id: id as usize },
        )
}

/// The inner join: `joined_below` lists exactly the entities under `n` that
/// both storages hold, each once, in rising order.
pub proof fn lemma_joined_below<A, B>(a: Seq<Option<A>>, b: Seq<Option<B>>, n: int)
    requires
        0 <= n <= usize::MAX,
    ensures
        is_join(joined_below(a, b, n), a, b, n),
    decreases n,
{
    if n > 0 {
        lemma_joined_below(a, b, n - 1);
        let before = joined_below(a, b, n - 1);
        let now = joined_below(a, b, n);
        assert forall|id: int|
            0 <= id < n && slot(a, id).is_some() && slot(b, id).is_some() implies now.contains(
            Entity { id: id as usize },
        ) by {
            if id < n - 1 {
                let k = choose|k: int|
                    0 <= k < before.len() && before[k] == (Entity { id: id as usize });
                assert(now[k] == Entity { id: id as usize });
            } else {
                assert(now[now.len() - 1] == Entity { id: id as usize });
            }
        }
    }
}

/// Lists the entities that have a component in both storages, in rising
/// order of id: the order in which every stage visits them.
pub fn join<A, B>(a: &Storage<A>, b: &Storage<B>) -> (entities: Vec<Entity>)
    ensures
        entities@ == joined(a@, b@),
{
    let mut entities: Vec<Entity> = Vec::new();
    let n = a.slots.len();
    let mut id: usize = 0;
    while id < n
        invariant
            n == a@.len(),
            id <= n,
            entities@ == joined_below(a@, b@, id as int),
        decreases n - id,
    {
        if a.slots[id].is_some() && id < b.slots.len() && b.slots[id].is_some() {
            entities.push(Entity { id });
        }
        id = id + 1;
    }
    entities
}

} // verus!
