//! The lifecycle store: lifecycles by id, plus the three lookup indexes the
//! correlator reads (resource id, business key, event id), and an in-memory
//! implementation.

use vstd::prelude::*;
use crate::lifecycle::types::{Closure, Lifecycle, LifecycleView, opt_str, clone_lifecycle};
use crate::table::{table_map, keys_distinct, table_keys, table_get, table_put, lemma_table_absent, lemma_table_dom, lemma_table_entry, lemma_table_len};

verus! {

/// What a map holds under `k`, if anything.
pub open spec fn map_get(m: Map<Seq<char>, Seq<char>>, k: Seq<char>) -> Option<Seq<char>> {
    if m.contains_key(k) { Some(m[k]) } else { None }
}

/// An index after binding `key`, when there is one, to `id`.
pub open spec fn bind_opt(m: Map<Seq<char>, Seq<char>>, key: Option<Seq<char>>, id: Seq<char>) -> Map<Seq<char>, Seq<char>> {
    match key {
        Some(k) => m.insert(k, id),
        None => m,
    }
}

/// An index after binding every key of `keys` to `id`.
pub open spec fn bind_all(m: Map<Seq<char>, Seq<char>>, keys: Seq<Seq<char>>, id: Seq<char>) -> Map<Seq<char>, Seq<char>> {
    Map::new(
        |k: Seq<char>| m.contains_key(k) || keys.contains(k),
        |k: Seq<char>| if keys.contains(k) { id } else { m[k] },
    )
}

/// The ids of the lifecycles that are still open.
pub open spec fn open_ids(m: Map<Seq<char>, LifecycleView>) -> Set<Seq<char>> {
    m.dom().filter(|k: Seq<char>| m[k].closure == Closure::Open)
}

/// Every lifecycle is stored under its own id.
pub open spec fn ids_match(m: Map<Seq<char>, LifecycleView>) -> bool {
    forall|k: Seq<char>| #[trigger] m.contains_key(k) ==> m[k].id == k
}

/// A store of lifecycles and of the indexes that correlation reads.
pub trait LifecycleStore {
    /// The store's own consistency condition.
    spec fn store_inv(&self) -> bool;

    /// Lifecycles by id.
    spec fn lifecycle_map(&self) -> Map<Seq<char>, LifecycleView>;

    /// Lifecycle id by resource id.
    spec fn resource_index(&self) -> Map<Seq<char>, Seq<char>>;

    /// Lifecycle id by business key.
    spec fn business_index(&self) -> Map<Seq<char>, Seq<char>>;

    /// Lifecycle id by bound event id.
    spec fn event_index(&self) -> Map<Seq<char>, Seq<char>>;

    /// A consistent store keeps each lifecycle under its own id.
    proof fn lemma_ids_match(&self)
        requires
            self.store_inv(),
        ensures
            ids_match(self.lifecycle_map()),
    ;

    fn get(&self, id: &str) -> (r: Option<Lifecycle>)
        requires
            self.store_inv(),
        ensures
            r is Some <==> self.lifecycle_map().contains_key(id@),
            r matches Some(lc) ==> lc@ == self.lifecycle_map()[id@],
    ;

    fn find_by_resource(&self, r: &str) -> (o: Option<String>)
        requires
            self.store_inv(),
        ensures
            opt_str(o) == map_get(self.resource_index(), r@),
    ;

    fn find_by_business_key(&self, k: &str) -> (o: Option<String>)
        requires
            self.store_inv(),
        ensures
            opt_str(o) == map_get(self.business_index(), k@),
    ;

    fn find_by_event(&self, event_id: &str) -> (o: Option<String>)
        requires
            self.store_inv(),
        ensures
            opt_str(o) == map_get(self.event_index(), event_id@),
    ;

    /// Inserts or replaces a lifecycle; its resource id, business key and
    /// every one of its events are (re)bound to it.
    fn upsert(&mut self, lc: &Lifecycle)
        requires
            old(self).store_inv(),
        ensures
            final(self).store_inv(),
            final(self).lifecycle_map() == old(self).lifecycle_map().insert(lc.id@, lc@),
            final(self).resource_index() == bind_opt(old(self).resource_index(), lc@.resource_id, lc.id@),
            final(self).business_index() == bind_opt(old(self).business_index(), lc@.business_key, lc.id@),
            final(self).event_index() == bind_all(old(self).event_index(), lc@.event_ids, lc.id@),
    ;

    /// Binds an event to a lifecycle for causation lookups.
    fn record_event(&mut self, event_id: &str, lifecycle_id: &str)
        requires
            old(self).store_inv(),
        ensures
            final(self).store_inv(),
            final(self).lifecycle_map() == old(self).lifecycle_map(),
            final(self).resource_index() == old(self).resource_index(),
            final(self).business_index() == old(self).business_index(),
            final(self).event_index() == old(self).event_index().insert(event_id@, lifecycle_id@),
    ;

    /// Every open lifecycle, once each, in no particular order.
    fn all_open(&self) -> (r: Vec<Lifecycle>)
        requires
            self.store_inv(),
        ensures
            forall|i: int| 0 <= i < r@.len() ==> {
                &&& self.lifecycle_map().contains_key(#[trigger] r@[i].id@)
                &&& self.lifecycle_map()[r@[i].id@] == r@[i]@
                &&& r@[i].closure == Closure::Open
            },
            forall|k: Seq<char>| #[trigger] open_ids(self.lifecycle_map()).contains(k)
                ==> exists|i: int| 0 <= i < r@.len() && r@[i].id@ == k,
            forall|i: int, j: int| 0 <= i < j < r@.len() ==> r@[i].id@ != r@[j].id@,
    ;

    /// How many lifecycles the store holds.
    fn count(&self) -> (n: usize)
        requires
            self.store_inv(),
        ensures
            n == self.lifecycle_map().dom().len(),
    ;

    /// How many of them are open.
    fn count_open(&self) -> (n: usize)
        requires
            self.store_inv(),
        ensures
            n == open_ids(self.lifecycle_map()).len(),
    ;
}

/// A lifecycle store held in memory.
pub struct InMemoryStore {
    lifecycles: Vec<(String, Lifecycle)>,
    by_resource: Vec<(String, String)>,
    by_business_key: Vec<(String, String)>,
    by_event: Vec<(String, String)>,
}

/// Each collected lifecycle is an open entry of `s` below `bound`, at the recorded position.
pub open spec fn picked(r: Seq<Lifecycle>, idx: Seq<int>, s: Seq<(String, Lifecycle)>, bound: int) -> bool {
    forall|j: int| 0 <= j < idx.len() ==> 0 <= #[trigger] idx[j] < bound && r[j]@ == s[idx[j]].1@
        && r[j].closure == Closure::Open
}

/// How many entries of a lifecycle table are open.
pub open spec fn open_count(s: Seq<(String, Lifecycle)>) -> nat
    decreases s.len(),
{
    if s.len() == 0 {
        0
    } else {
        open_count(s.drop_last()) + if s.last().1.closure == Closure::Open { 1nat } else { 0nat }
    }
}

proof fn lemma_open_count(s: Seq<(String, Lifecycle)>)
    requires
        keys_distinct(s),
    ensures
        open_ids(table_map(s)).finite(),
        open_ids(table_map(s)).len() == open_count(s),
    decreases s.len(),
{
    if s.len() == 0 {
        assert(open_ids(table_map(s)) =~= Set::empty());
    } else {
        let p = s.drop_last();
        let k = s.last().0@;
        assert(keys_distinct(p));
        lemma_open_count(p);
        assert forall|i: int| 0 <= i < p.len() implies p[i].0@ != k by {
            assert(s[i].0@ != s[s.len() - 1].0@);
        }
        lemma_table_absent(p, k);
        if s.last().1.closure == Closure::Open {
            assert(open_ids(table_map(s)) =~= open_ids(table_map(p)).insert(k));
        } else {
            assert(open_ids(table_map(s)) =~= open_ids(table_map(p)));
        }
    }
}

impl InMemoryStore {
    pub fn new() -> (s: Self)
        ensures
            s.store_inv(),
            s.lifecycle_map() == Map::<Seq<char>, LifecycleView>::empty(),
            s.resource_index() == Map::<Seq<char>, Seq<char>>::empty(),
            s.business_index() == Map::<Seq<char>, Seq<char>>::empty(),
            s.event_index() == Map::<Seq<char>, Seq<char>>::empty(),
    {
        let s = InMemoryStore {
            lifecycles: Vec::new(),
            by_resource: Vec::new(),
            by_business_key: Vec::new(),
            by_event: Vec::new(),
        };
        assert(s.lifecycle_map() =~= Map::<Seq<char>, LifecycleView>::empty());
        s
    }

    fn bind_events(&mut self, ids: &Vec<String>, id: &String)
        requires
            keys_distinct(old(self).by_event@),
        ensures
            keys_distinct(final(self).by_event@),
            table_map(final(self).by_event@) == bind_all(table_map(old(self).by_event@), ids@.map_values(|s: String| s@), id@),
            final(self).lifecycles == old(self).lifecycles,
            final(self).by_resource == old(self).by_resource,
            final(self).by_business_key == old(self).by_business_key,
    {
        let ghost m0 = table_map(self.by_event@);
        let ghost keys = ids@.map_values(|s: String| s@);
        let mut i: usize = 0;
        assert(bind_all(m0, keys.subrange(0, 0), id@) =~= m0);
        while i < ids.len()
            invariant
                i <= ids@.len(),
                keys == ids@.map_values(|s: String| s@),
                keys_distinct(self.by_event@),
                table_map(self.by_event@) == bind_all(m0, keys.subrange(0, i as int), id@),
                self.lifecycles == old(self).lifecycles,
                self.by_resource == old(self).by_resource,
                self.by_business_key == old(self).by_business_key,
            decreases ids@.len() - i,
        {
            let ghost before = table_map(self.by_event@);
            table_put(&mut self.by_event, ids[i].clone(), id.clone());
            assert(bind_all(m0, keys.subrange(0, i + 1), id@) =~= before.insert(keys[i as int], id@)) by {
                let ks = keys.subrange(0, i as int);
                let kp = keys.subrange(0, i + 1);
                assert(kp =~= ks.push(keys[i as int]));
                assert forall|k: Seq<char>| kp.contains(k) <==> (ks.contains(k) || k == keys[i as int]) by {
                    if kp.contains(k) {
                        let t = choose|t: int| 0 <= t < kp.len() && kp[t] == k;
                        if t < ks.len() {
                            assert(ks[t] == k);
                        }
                    }
                    if ks.contains(k) {
                        let t = choose|t: int| 0 <= t < ks.len() && ks[t] == k;
                        assert(kp[t] == k);
                    }
                    if k == keys[i as int] {
                        assert(kp[i as int] == k);
                    }
                }
            }
            i = i + 1;
        }
        assert(keys.subrange(0, ids@.len() as int) =~= keys);
    }
}

impl Default for InMemoryStore {
    /// An empty store.
    fn default() -> (s: Self)
        ensures
            s.store_inv(),
            s.lifecycle_map() == Map::<Seq<char>, LifecycleView>::empty(),
            s.resource_index() == Map::<Seq<char>, Seq<char>>::empty(),
            s.business_index() == Map::<Seq<char>, Seq<char>>::empty(),
            s.event_index() == Map::<Seq<char>, Seq<char>>::empty(),
    {
        InMemoryStore::new()
    }
}

impl LifecycleStore for InMemoryStore {
    closed spec fn store_inv(&self) -> bool {
        &&& keys_distinct(self.lifecycles@)
        &&& keys_distinct(self.by_resource@)
        &&& keys_distinct(self.by_business_key@)
        &&& keys_distinct(self.by_event@)
        &&& forall|k: Seq<char>| #[trigger] table_map(self.lifecycles@).contains_key(k)
            ==> table_map(self.lifecycles@)[k].id == k
    }

    closed spec fn lifecycle_map(&self) -> Map<Seq<char>, LifecycleView> {
        table_map(self.lifecycles@)
    }

    closed spec fn resource_index(&self) -> Map<Seq<char>, Seq<char>> {
        table_map(self.by_resource@)
    }

    closed spec fn business_index(&self) -> Map<Seq<char>, Seq<char>> {
        table_map(self.by_business_key@)
    }

    closed spec fn event_index(&self) -> Map<Seq<char>, Seq<char>> {
        table_map(self.by_event@)
    }

    proof fn lemma_ids_match(&self) {
    }

    fn get(&self, id: &str) -> (r: Option<Lifecycle>) {
        match table_get(&self.lifecycles, id) {
            Some(lc) => Some(clone_lifecycle(lc)),
            None => None,
        }
    }

    fn find_by_resource(&self, r: &str) -> (o: Option<String>) {
        match table_get(&self.by_resource, r) {
            Some(v) => Some(v.clone()),
            None => None,
        }
    }

    fn find_by_business_key(&self, k: &str) -> (o: Option<String>) {
        match table_get(&self.by_business_key, k) {
            Some(v) => Some(v.clone()),
            None => None,
        }
    }

    fn find_by_event(&self, event_id: &str) -> (o: Option<String>) {
        match table_get(&self.by_event, event_id) {
            Some(v) => Some(v.clone()),
            None => None,
        }
    }

    fn upsert(&mut self, lc: &Lifecycle) {
        let id = lc.id.clone();
        if let Some(r) = &lc.resource_id {
            table_put(&mut self.by_resource, r.clone(), id.clone());
        }
        if let Some(k) = &lc.business_key {
            table_put(&mut self.by_business_key, k.clone(), id.clone());
        }
        self.bind_events(&lc.event_ids, &id);
        let ghost before = table_map(self.lifecycles@);
        table_put(&mut self.lifecycles, id, clone_lifecycle(lc));
        assert forall|k: Seq<char>| #[trigger] table_map(self.lifecycles@).contains_key(k)
            implies table_map(self.lifecycles@)[k].id == k by {
            if k != lc.id@ {
                assert(before.contains_key(k));
            }
        }
    }

    fn record_event(&mut self, event_id: &str, lifecycle_id: &str) {
        table_put(&mut self.by_event, event_id.to_owned(), lifecycle_id.to_owned());
    }

    fn all_open(&self) -> (r: Vec<Lifecycle>) {
        let ghost s = self.lifecycles@;
        let ghost m = table_map(s);
        let mut r: Vec<Lifecycle> = Vec::new();
        let ghost mut idx: Seq<int> = Seq::empty();
        let n = self.lifecycles.len();
        let mut i: usize = 0;
        while i < n
            invariant
                n == s.len(),
                s == self.lifecycles@,
                m == table_map(s),
                self.store_inv(),
                i <= n,
                idx.len() == r@.len(),
                picked(r@, idx, s, i as int),
                forall|a: int, b: int| 0 <= a < b < idx.len() ==> idx[a] < idx[b],
                forall|t: int| 0 <= t < i && #[trigger] s[t].1.closure == Closure::Open
                    ==> exists|j: int| 0 <= j < idx.len() && idx[j] == t,
            decreases n - i,
        {
            let ghost idx0 = idx;
            let ghost r0 = r@;
            if self.lifecycles[i].1.closure == Closure::Open {
                let c = clone_lifecycle(&self.lifecycles[i].1);
                let ghost cv = c;
                r.push(c);
                proof {
                    idx = idx.push(i as int);
                    assert(idx[idx.len() - 1] == i as int);
                    assert forall|j: int| 0 <= j < idx.len() implies 0 <= #[trigger] idx[j] < i + 1
                        && r@[j]@ == s[idx[j]].1@ && r@[j].closure == Closure::Open by {
                        if j < idx0.len() {
                            assert(idx0[j] == idx[j]);
                            assert(r0[j] == r@[j]);
                        } else {
                            assert(idx[j] == i as int);
                            assert(r@[j] == cv);
                        }
                    }
                }
            } else {
                proof {
                    assert forall|j: int| 0 <= j < idx.len() implies 0 <= #[trigger] idx[j] < i + 1
                        && r@[j]@ == s[idx[j]].1@ && r@[j].closure == Closure::Open by {
                        assert(idx0[j] == idx[j]);
                        assert(r0[j] == r@[j]);
                    }
                }
            }
            proof {
                assert(picked(r@, idx, s, i + 1));
                assert forall|t: int| 0 <= t < i + 1 && #[trigger] s[t].1.closure == Closure::Open
                    implies exists|j: int| 0 <= j < idx.len() && idx[j] == t by {
                    if t < i {
                        let j = choose|j: int| 0 <= j < idx0.len() && idx0[j] == t;
                        assert(idx[j] == t);
                    } else {
                        assert(idx[idx.len() - 1] == t);
                    }
                }
            }
            i = i + 1;
        }
        proof {
            assert forall|j: int| 0 <= j < r@.len() implies {
                &&& m.contains_key(#[trigger] r@[j].id@)
                &&& m[r@[j].id@] == r@[j]@
                &&& r@[j].closure == Closure::Open
            } by {
                let t = idx[j];
                lemma_table_entry(s, t);
                assert(m[s[t].0@].id == s[t].0@);
            }
            assert forall|k: Seq<char>| #[trigger] open_ids(m).contains(k)
                implies exists|j: int| 0 <= j < r@.len() && r@[j].id@ == k by {
                lemma_table_dom(s);
                assert(table_keys(s).contains(k));
                let t = choose|t: int| 0 <= t < s.len() && s[t].0@ == k;
                lemma_table_entry(s, t);
                assert(s[t].1.closure == Closure::Open);
                let j = choose|j: int| 0 <= j < idx.len() && idx[j] == t;
                assert(m[k].id == k);
                assert(r@[j].id@ == k);
            }
            assert forall|a: int, b: int| 0 <= a < b < r@.len() implies r@[a].id@ != r@[b].id@ by {
                let ta = idx[a];
                let tb = idx[b];
                lemma_table_entry(s, ta);
                lemma_table_entry(s, tb);
                assert(m[s[ta].0@].id == s[ta].0@);
                assert(m[s[tb].0@].id == s[tb].0@);
                assert(s[ta].0@ != s[tb].0@);
            }
        }
        r
    }

    fn count(&self) -> (n: usize) {
        proof {
            lemma_table_len(self.lifecycles@);
        }
        self.lifecycles.len()
    }

    fn count_open(&self) -> (n: usize) {
        let ghost s = self.lifecycles@;
        let mut c: usize = 0;
        let mut i: usize = 0;
        while i < self.lifecycles.len()
            invariant
                s == self.lifecycles@,
                i <= s.len(),
                c == open_count(s.subrange(0, i as int)),
                c <= i,
            decreases s.len() - i,
        {
            assert(s.subrange(0, i + 1).drop_last() =~= s.subrange(0, i as int));
            if self.lifecycles[i].1.closure == Closure::Open {
                c = c + 1;
            }
            i = i + 1;
        }
        proof {
            assert(s.subrange(0, s.len() as int) =~= s);
            lemma_open_count(s);
        }
        c
    }
}

} // verus!
