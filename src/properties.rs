//! Reactive properties and the tracker that remembers which of them a
//! computation read, so that the computation's result can later be found stale.
use vstd::prelude::*;

verus! {

/// The snapshot that a tracker keeps after reading the properties `ids` from `store`:
/// each id that names a property, with the value that the property held then.
pub open spec fn snapshot(ids: Seq<usize>, store: Seq<i64>) -> Seq<(usize, i64)>
    decreases ids.len(),
{
    if ids.len() == 0 {
        Seq::empty()
    } else {
        let id = ids.last();
        let rest = snapshot(ids.drop_last(), store);
        if (id as int) < store.len() {
            rest.push((id, store[id as int]))
        } else {
            rest
        }
    }
}

/// Whether a dependency recorded as `dep` no longer agrees with `store`.
pub open spec fn dep_stale(dep: (usize, i64), store: Seq<i64>) -> bool {
    !((dep.0 as int) < store.len() && store[dep.0 as int] == dep.1)
}

/// Whether any of the recorded dependencies `deps` has changed in `store`.
pub open spec fn is_stale(deps: Seq<(usize, i64)>, store: Seq<i64>) -> bool {
    exists|k: int| 0 <= k < deps.len() && #[trigger] dep_stale(deps[k], store)
}

/// A set of reactive properties, each identified by its position and holding an `i64`.
pub struct PropertyStore {
    values: Vec<i64>,
}

impl View for PropertyStore {
    type V = Seq<i64>;

    closed spec fn view(&self) -> Seq<i64> {
        self.values@
    }
}

impl PropertyStore {
    /// A store without properties.
    pub fn new() -> (r: PropertyStore)
        ensures
            r@ == Seq::<i64>::empty(),
    {
        PropertyStore { values: Vec::new() }
    }

    /// Adds a property holding `value` and returns its id.
    pub fn add(&mut self, value: i64) -> (id: usize)
        ensures
            id as int == old(self)@.len(),
            final(self)@ == old(self)@.push(value),
    {
        let id = self.values.len();
        self.values.push(value);
        id
    }

    /// The number of properties.
    pub fn len(&self) -> (r: usize)
        ensures
            r as int == self@.len(),
    {
        self.values.len()
    }

    /// The value of property `id`.
    pub fn get(&self, id: usize) -> (r: i64)
        requires
            (id as int) < self@.len(),
        ensures
            r == self@[id as int],
    {
        self.values[id]
    }

    /// Gives property `id` a new value.
    pub fn set(&mut self, id: usize, value: i64)
        requires
            (id as int) < old(self)@.len(),
        ensures
            final(self)@ == old(self)@.update(id as int, value),
    {
        self.values.set(id, value);
    }
}

/// The properties read during one computation, in the order of reading.
pub struct DependencyScope {
    reads: Vec<usize>,
}

impl View for DependencyScope {
    type V = Seq<usize>;

    closed spec fn view(&self) -> Seq<usize> {
        self.reads@
    }
}

impl DependencyScope {
    /// A scope in which nothing has been read yet.
    pub fn new() -> (r: DependencyScope)
        ensures
            r@ == Seq::<usize>::empty(),
    {
        DependencyScope { reads: Vec::new() }
    }

    /// Reads property `id` of `store` and records the read.
    pub fn read(&mut self, store: &PropertyStore, id: usize) -> (r: i64)
        requires
            (id as int) < store@.len(),
        ensures
            r == store@[id as int],
            final(self)@ == old(self)@.push(id),
    {
        self.reads.push(id);
        store.get(id)
    }
}

/// Remembers the properties that a computation read, with the values they held,
/// and answers whether any of them has changed since.
pub struct PropertyTracker {
    deps: Vec<(usize, i64)>,
}

impl View for PropertyTracker {
    type V = Seq<(usize, i64)>;

    closed spec fn view(&self) -> Seq<(usize, i64)> {
        self.deps@
    }
}

impl PropertyTracker {
    /// A tracker with no dependencies.
    pub fn new() -> (r: PropertyTracker)
        ensures
            r@ == Seq::<(usize, i64)>::empty(),
    {
        PropertyTracker { deps: Vec::new() }
    }

    /// Replaces the dependencies by those read in `scope`, with their values in `store`.
    fn record(&mut self, scope: &DependencyScope, store: &PropertyStore)
        ensures
            final(self)@ == snapshot(scope@, store@),
    {
        let mut deps: Vec<(usize, i64)> = Vec::new();
        let mut i: usize = 0;
        while i < scope.reads.len()
            invariant
                i <= scope@.len(),
                deps@ == snapshot(scope@.take(i as int), store@),
            decreases scope@.len() - i,
        {
            let id = scope.reads[i];
            assert(scope@.take(i + 1).drop_last() == scope@.take(i as int));
            if id < store.len() {
                deps.push((id, store.get(id)));
            }
            i = i + 1;
        }
        assert(scope@.take(scope@.len() as int) == scope@);
        self.deps = deps;
    }

    /// Runs `compute` with a fresh scope and makes the properties that it read,
    /// with their current values in `store`, the tracker's dependencies.
    pub fn evaluate<T, F: FnOnce(DependencyScope) -> (T, DependencyScope)>(
        &mut self,
        store: &PropertyStore,
        compute: F,
    ) -> (r: T)
        requires
            forall|s: DependencyScope| s@.len() == 0 ==> compute.requires((s,)),
        ensures
            exists|s: DependencyScope, out: (T, DependencyScope)|
                s@.len() == 0 && compute.ensures((s,), out) && out.0 == r
                    && final(self)@ == snapshot(out.1@, store@),
            !is_stale(final(self)@, store@),
    {
        let scope = DependencyScope::new();
        let (value, scope) = compute(scope);
        self.record(&scope, store);
        proof {
            lemma_snapshot_fresh(scope@, store@);
        }
        value
    }

    /// Whether any property that the tracker depends on holds another value in
    /// `store` than when it was read.
    pub fn is_dirty(&self, store: &PropertyStore) -> (r: bool)
        ensures
            r == is_stale(self@, store@),
    {
        let mut i: usize = 0;
        while i < self.deps.len()
            invariant
                i <= self@.len(),
                forall|k: int| 0 <= k < i ==> !#[trigger] dep_stale(self@[k], store@),
            decreases self@.len() - i,
        {
            let (id, value) = self.deps[i];
            if id >= store.len() || store.get(id) != value {
                assert(dep_stale(self@[i as int], store@));
                return true;
            }
            i = i + 1;
        }
        false
    }
}

/// A snapshot taken from `store` agrees with `store`.
pub proof fn lemma_snapshot_fresh(ids: Seq<usize>, store: Seq<i64>)
    ensures
        !is_stale(snapshot(ids, store), store),
    decreases ids.len(),
{
    if ids.len() > 0 {
        lemma_snapshot_fresh(ids.drop_last(), store);
        let rest = snapshot(ids.drop_last(), store);
        let id = ids.last();
        if (id as int) < store.len() {
            let full = rest.push((id, store[id as int]));
            assert forall|k: int| 0 <= k < full.len() implies !#[trigger] dep_stale(full[k], store) by {
                if k < rest.len() {
                    assert(full[k] == rest[k]);
                    assert(!dep_stale(rest[k], store));
                }
            }
        }
    }
}

/// A computation that read no property depends on nothing: whatever values the
/// properties take later, its tracker never reports it dirty.
pub proof fn lemma_no_reads_never_dirty(reads: Seq<usize>, at: Seq<i64>, later: Seq<i64>)
    requires
        reads.len() == 0,
    ensures
        !is_stale(snapshot(reads, at), later),
{
    assert(snapshot(reads, at).len() == 0);
}

/// A computation that read property `id` is dirty once that property takes
/// another value, and clean again right after it is recomputed against the new
/// values, whatever it reads then.
pub proof fn lemma_dirty_until_recomputed(
    reads: Seq<usize>,
    at: Seq<i64>,
    id: usize,
    value: i64,
    rereads: Seq<usize>,
)
    requires
        reads.contains(id),
        (id as int) < at.len(),
        at[id as int] != value,
    ensures
        is_stale(snapshot(reads, at), at.update(id as int, value)),
        !is_stale(snapshot(rereads, at.update(id as int, value)), at.update(id as int, value)),
{
    lemma_changed_read_is_stale(reads, at, id, value);
    lemma_snapshot_fresh(rereads, at.update(id as int, value));
}

proof fn lemma_changed_read_is_stale(reads: Seq<usize>, at: Seq<i64>, id: usize, value: i64)
    requires
        reads.contains(id),
        (id as int) < at.len(),
        at[id as int] != value,
    ensures
        is_stale(snapshot(reads, at), at.update(id as int, value)),
    decreases reads.len(),
{
    let changed = at.update(id as int, value);
    let rest = snapshot(reads.drop_last(), at);
    if reads.last() == id {
        let full = rest.push((id, at[id as int]));
        assert(dep_stale(full[rest.len() as int], changed));
    } else {
        let k = choose|k: int| 0 <= k < reads.len() && reads[k] == id;
        assert(reads.drop_last()[k] == id);
        lemma_changed_read_is_stale(reads.drop_last(), at, id, value);
        let j = choose|j: int| 0 <= j < rest.len() && #[trigger] dep_stale(rest[j], changed);
        let last = reads.last();
        if (last as int) < at.len() {
            assert(snapshot(reads, at)[j] == rest[j]);
        }
        assert(dep_stale(snapshot(reads, at)[j], changed));
    }
}

} // verus!
