//! Cached graphics data and the generation-tagged slot table that holds it.
use vstd::prelude::*;
use crate::properties::{DependencyScope, PropertyStore, PropertyTracker, snapshot};

verus! {

/// A piece of backend data computed from properties, with the tracker that tells
/// whether the data must be computed again.
pub struct CachedGraphicsData<T> {
    /// The backend specific data.
    pub data: T,
    /// The tracker of the properties that `data` was computed from.
    pub dependency_tracker: PropertyTracker,
}

impl<T> CachedGraphicsData<T> {
    /// Computes the data once with `update_fn`, recording the properties of `store`
    /// that it reads.
    pub fn new<F: FnOnce(DependencyScope) -> (T, DependencyScope)>(
        store: &PropertyStore,
        update_fn: F,
    ) -> (r: Self)
        requires
            forall|s: DependencyScope| s@.len() == 0 ==> update_fn.requires((s,)),
        ensures
            exists|s: DependencyScope, out: (T, DependencyScope)|
                s@.len() == 0 && update_fn.ensures((s,), out) && out.0 == r.data
                    && r.dependency_tracker@ == snapshot(out.1@, store@),
    {
        let mut dependency_tracker = PropertyTracker::new();
        let data = dependency_tracker.evaluate(store, update_fn);
        CachedGraphicsData { data, dependency_tracker }
    }
}

/// Slots of cached graphics data, addressed by index, with a generation that
/// grows each time the whole cache is cleared.
pub struct RenderingCache<T> {
    slots: Vec<Option<CachedGraphicsData<T>>>,
    vacant: Vec<usize>,
    generation: usize,
}

impl<T> RenderingCache<T> {
    /// The occupied slots, by index.
    pub closed spec fn entries(&self) -> Map<usize, CachedGraphicsData<T>> {
        Map::new(
            |i: usize| (i as int) < self.slots@.len() && self.slots@[i as int] is Some,
            |i: usize| self.slots@[i as int]->Some_0,
        )
    }

    /// The freed slots that the next insertions reuse, the last one first.
    pub closed spec fn free_list(&self) -> Seq<usize> {
        self.vacant@
    }

    /// The number of slots, occupied or free.
    pub closed spec fn slot_count(&self) -> nat {
        self.slots@.len()
    }

    /// The current generation.
    pub closed spec fn current_generation(&self) -> nat {
        self.generation as nat
    }

    /// Each free slot is listed once, and is empty; the generation is positive.
    pub closed spec fn wf(&self) -> bool {
        &&& self.generation >= 1
        &&& forall|k: int|
            0 <= k < self.vacant@.len() ==> {
                let i = #[trigger] self.vacant@[k];
                (i as int) < self.slots@.len() && self.slots@[i as int] is None
            }
        &&& forall|k: int, l: int|
            0 <= k < l < self.vacant@.len() ==> self.vacant@[k] != self.vacant@[l]
    }

    /// An empty cache in generation 1.
    pub fn new() -> (r: Self)
        ensures
            r.wf(),
            r.entries() == Map::<usize, CachedGraphicsData<T>>::empty(),
            r.free_list() == Seq::<usize>::empty(),
            r.slot_count() == 0,
            r.current_generation() == 1,
    {
        let r = RenderingCache { slots: Vec::new(), vacant: Vec::new(), generation: 1 };
        assert(r.entries() =~= Map::<usize, CachedGraphicsData<T>>::empty());
        r
    }

    /// Stores `data` in a free slot, the one freed last, or in a new slot when
    /// none is free, and returns the slot's index.
    pub fn insert(&mut self, data: CachedGraphicsData<T>) -> (index: usize)
        requires
            old(self).wf(),
        ensures
            final(self).wf(),
            !old(self).entries().contains_key(index),
            final(self).entries() == old(self).entries().insert(index, data),
            final(self).current_generation() == old(self).current_generation(),
            old(self).free_list().len() > 0 ==> {
                &&& index == old(self).free_list().last()
                &&& final(self).free_list() == old(self).free_list().drop_last()
                &&& final(self).slot_count() == old(self).slot_count()
            },
            old(self).free_list().len() == 0 ==> {
                &&& index as nat == old(self).slot_count()
                &&& final(self).free_list() == old(self).free_list()
                &&& final(self).slot_count() == old(self).slot_count() + 1
            },
    {
        let ghost before = self.entries();
        match self.vacant.pop() {
            Some(index) => {
                assert(self.vacant@ == old(self).vacant@.drop_last());
                assert(index == old(self).vacant@[old(self).vacant@.len() - 1]);
                self.slots.set(index, Some(data));
                assert(self.entries() =~= before.insert(index, data));
                assert forall|k: int| 0 <= k < self.vacant@.len() implies {
                    let i = #[trigger] self.vacant@[k];
                    (i as int) < self.slots@.len() && self.slots@[i as int] is None
                } by {
                    assert(old(self).vacant@[k] == self.vacant@[k]);
                    assert(self.vacant@[k] != index);
                }
                index
            },
            None => {
                let index = self.slots.len();
                self.slots.push(Some(data));
                assert(self.entries() =~= before.insert(index, data));
                index
            },
        }
    }

    /// The data at `index`, or `None` when that slot is not occupied.
    pub fn get(&self, index: usize) -> (r: Option<&CachedGraphicsData<T>>)
        ensures
            r is Some <==> self.entries().contains_key(index),
            r is Some ==> *r.unwrap() == self.entries()[index],
    {
        if index < self.slots.len() {
            self.slots[index].as_ref()
        } else {
            None
        }
    }

    /// A mutable reference to the data at `index`, or `None` when that slot is not
    /// occupied.
    pub fn get_mut(&mut self, index: usize) -> (r: Option<&mut CachedGraphicsData<T>>)
        requires
            old(self).wf(),
        ensures
            r is Some <==> old(self).entries().contains_key(index),
            r is Some ==> *r.unwrap() == old(self).entries()[index],
            r is Some ==> final(self).entries() == old(self).entries().insert(
                index,
                *final(r.unwrap()),
            ),
            r is None ==> final(self).entries() == old(self).entries(),
            final(self).wf(),
            final(self).free_list() == old(self).free_list(),
            final(self).slot_count() == old(self).slot_count(),
            final(self).current_generation() == old(self).current_generation(),
    {
        if index < self.slots.len() {
            self.slots[index].as_mut()
        } else {
            None
        }
    }

    /// Takes the data out of the occupied slot `index` and frees the slot.
    pub fn remove(&mut self, index: usize) -> (r: CachedGraphicsData<T>)
        requires
            old(self).wf(),
            old(self).entries().contains_key(index),
        ensures
            final(self).wf(),
            r == old(self).entries()[index],
            final(self).entries() == old(self).entries().remove(index),
            final(self).free_list() == old(self).free_list().push(index),
            final(self).slot_count() == old(self).slot_count(),
            final(self).current_generation() == old(self).current_generation(),
    {
        let ghost before = self.entries();
        let taken = self.slots[index].take();
        assert(self.entries() =~= before.remove(index));
        assert forall|k: int| 0 <= k < old(self).vacant@.len() implies old(self).vacant@[k]
            != index by {
            let i = old(self).vacant@[k];
            assert((i as int) < old(self).slots@.len() && old(self).slots@[i as int] is None);
        }
        self.vacant.push(index);
        taken.unwrap()
    }

    /// Empties the cache and moves it to the next generation, so that indices
    /// handed out before can be told apart from those handed out after.
    pub fn clear(&mut self)
        requires
            old(self).wf(),
            old(self).current_generation() < usize::MAX,
        ensures
            final(self).wf(),
            final(self).entries() == Map::<usize, CachedGraphicsData<T>>::empty(),
            final(self).free_list() == Seq::<usize>::empty(),
            final(self).slot_count() == 0,
            final(self).current_generation() == old(self).current_generation() + 1,
    {
        self.slots.clear();
        self.vacant.clear();
        self.generation = self.generation + 1;
        assert(self.entries() =~= Map::<usize, CachedGraphicsData<T>>::empty());
    }

    /// Returns the generation of the cache: it starts at 1 and grows by one with
    /// each `clear`.
    pub fn generation(&self) -> (r: usize)
        ensures
            r as nat == self.current_generation(),
    {
        self.generation
    }
}

/// Indices handed out by a run of insertions with no removal or clear between
/// them are pairwise distinct. `states[k]` is the set of occupied indices before
/// the insertion that returned `indices[k]`.
pub proof fn lemma_insertions_distinct(indices: Seq<usize>, states: Seq<Set<usize>>)
    requires
        states.len() == indices.len() + 1,
        forall|k: int|
            0 <= k < indices.len() ==> !states[k].contains(#[trigger] indices[k])
                && states[k + 1] == states[k].insert(indices[k]),
    ensures
        forall|i: int, j: int| 0 <= i < j < indices.len() ==> indices[i] != indices[j],
{
    assert forall|i: int, j: int| 0 <= i < j < indices.len() implies indices[i] != indices[j] by {
        lemma_inserted_stays(indices, states, i, j);
    }
}

proof fn lemma_inserted_stays(indices: Seq<usize>, states: Seq<Set<usize>>, i: int, j: int)
    requires
        states.len() == indices.len() + 1,
        forall|k: int|
            0 <= k < indices.len() ==> !states[k].contains(#[trigger] indices[k])
                && states[k + 1] == states[k].insert(indices[k]),
        0 <= i < j <= indices.len(),
    ensures
        states[j].contains(indices[i]),
    decreases j - i,
{
    if j > i + 1 {
        lemma_inserted_stays(indices, states, i, j - 1);
        assert(states[j] == states[j - 1].insert(indices[j - 1]));
    } else {
        assert(states[i + 1] == states[i].insert(indices[i]));
    }
}

/// Clearing forgets every index: after `clear`, no index is found, and the
/// generation differs from the one in which any earlier index was handed out.
pub proof fn lemma_clear_forgets<T>(
    before: RenderingCache<T>,
    after: RenderingCache<T>,
    index: usize,
)
    requires
        after.entries() == Map::<usize, CachedGraphicsData<T>>::empty(),
        after.current_generation() == before.current_generation() + 1,
    ensures
        !after.entries().contains_key(index),
        after.current_generation() != before.current_generation(),
{
}

/// An index that is not found stays not found through insertions at other
/// indices and through removals, so an index that no insertion returned, or that
/// was removed and not handed out again, is not found.
pub proof fn lemma_absent_stays_absent<V>(m: Map<usize, V>, index: usize, other: usize, v: V)
    requires
        !m.contains_key(index),
        other != index,
    ensures
        !m.insert(other, v).contains_key(index),
        !m.remove(other).contains_key(index),
{
}

/// Right after an index is removed, it is not found.
pub proof fn lemma_removed_not_found<V>(m: Map<usize, V>, index: usize)
    ensures
        !m.remove(index).contains_key(index),
{
}

impl<T> Default for RenderingCache<T> {
    /// An empty cache in generation 1.
    fn default() -> (r: Self)
        ensures
            r.wf(),
            r.entries() == Map::<usize, CachedGraphicsData<T>>::empty(),
            r.free_list() == Seq::<usize>::empty(),
            r.slot_count() == 0,
            r.current_generation() == 1,
    {
        RenderingCache::new()
    }
}

} // verus!
