//! The staleness scanner: open lifecycles that saw no event for their
//! staleness threshold are closed as uncertain, with a timeout state.

use vstd::prelude::*;
use crate::lifecycle::store::{LifecycleStore, open_ids};
use crate::lifecycle::engine::{StoreView, store_view, spec_upsert};
use crate::lifecycle::types::{Closure, Lifecycle, LifecycleView, State, clone_lifecycle, spec_is_terminal};

verus! {

/// One lifecycle closed by a sweep.
#[derive(Debug, Clone, PartialEq, Eq)]
pub struct StalenessResult {
    pub lifecycle_id: String,
    pub at_ms: u64,
    pub was_state: State,
    pub new_state: State,
}

/// The state a lifecycle times out into: an unstarted payment is abandoned,
/// one in flight (or unknown) times out, any other keeps its state.
pub open spec fn timeout_state(s: State) -> State {
    match s {
        State::Started => State::Abandoned,
        State::Processing | State::Pending | State::Unknown => State::Timeout,
        other => other,
    }
}

/// Time since the last event, zero if the clock is behind it.
pub open spec fn age(lc: LifecycleView, now_ms: u64) -> int {
    if now_ms >= lc.last_event_at_ms { now_ms - lc.last_event_at_ms } else { 0 }
}

/// A lifecycle is stale once its age reaches its threshold.
pub open spec fn is_stale(lc: LifecycleView, now_ms: u64) -> bool {
    age(lc, now_ms) >= lc.staleness_ms
}

/// A stale lifecycle as a sweep closes it.
pub open spec fn closed_stale(lc: LifecycleView, now_ms: u64) -> LifecycleView {
    LifecycleView {
        state: timeout_state(lc.state),
        closure: Closure::ClosedWithUncertainty,
        closed_at_ms: Some(now_ms),
        ..lc
    }
}

/// What a sweep makes of a lifecycle.
pub open spec fn swept(lc: LifecycleView, now_ms: u64) -> LifecycleView {
    if lc.closure == Closure::Open && is_stale(lc, now_ms) { closed_stale(lc, now_ms) } else { lc }
}

/// The store after writing back each lifecycle of `ls`, in order.
pub open spec fn upsert_all(st: StoreView, ls: Seq<LifecycleView>) -> StoreView
    decreases ls.len(),
{
    if ls.len() == 0 {
        st
    } else {
        spec_upsert(upsert_all(st, ls.drop_last()), ls.last())
    }
}

/// Each listed lifecycle is open and is what the map holds under its id.
pub open spec fn listed_open(m: Map<Seq<char>, LifecycleView>, ls: Seq<Lifecycle>) -> bool {
    forall|t: int| 0 <= t < ls.len() ==> {
        &&& m.contains_key(#[trigger] ls[t].id@)
        &&& m[ls[t].id@] == ls[t]@
        &&& ls[t].closure == Closure::Open
    }
}

fn timeout_state_for(current: State) -> (s: State)
    ensures
        s == timeout_state(current),
{
    match current {
        State::Started => State::Abandoned,
        State::Processing | State::Pending | State::Unknown => State::Timeout,
        other => other,
    }
}

/// Closes stale lifecycles.
pub struct StalenessScanner;

impl StalenessScanner {
    /// Closes every open lifecycle whose age has reached its threshold as
    /// `ClosedWithUncertainty`, and reports each, in no particular order.
    pub fn sweep<S: LifecycleStore>(store: &mut S, now_ms: u64) -> (r: Vec<StalenessResult>)
        requires
            old(store).store_inv(),
        ensures
            final(store).store_inv(),
            final(store).lifecycle_map().dom() == old(store).lifecycle_map().dom(),
            forall|k: Seq<char>| #[trigger] old(store).lifecycle_map().contains_key(k)
                ==> final(store).lifecycle_map()[k] == swept(old(store).lifecycle_map()[k], now_ms),
            forall|i: int| 0 <= i < r@.len() ==> {
                &&& open_ids(old(store).lifecycle_map()).contains(#[trigger] r@[i].lifecycle_id@)
                &&& is_stale(old(store).lifecycle_map()[r@[i].lifecycle_id@], now_ms)
                &&& r@[i].was_state == old(store).lifecycle_map()[r@[i].lifecycle_id@].state
                &&& r@[i].new_state == timeout_state(r@[i].was_state)
                &&& r@[i].at_ms == now_ms
            },
            forall|k: Seq<char>| #[trigger] open_ids(old(store).lifecycle_map()).contains(k)
                && is_stale(old(store).lifecycle_map()[k], now_ms)
                ==> exists|i: int| 0 <= i < r@.len() && r@[i].lifecycle_id@ == k,
            forall|i: int, j: int| 0 <= i < j < r@.len() ==> r@[i].lifecycle_id@ != r@[j].lifecycle_id@,
            store_view(final(store)) == upsert_all(
                store_view(old(store)),
                r@.map_values(|x: StalenessResult| swept(old(store).lifecycle_map()[x.lifecycle_id@], now_ms)),
            ),
    {
        let ghost st0 = store_view(&*store);
        let ghost m0 = store.lifecycle_map();
        proof {
            store.lemma_ids_match();
        }
        let opens = store.all_open();
        assert(opens@.len() > 0 ==> m0.contains_key(opens@[0].id@));
        assert(opens@.len() > 0 ==> store.lifecycle_map().contains_key(opens@[0].id@));
        assert(listed_open(m0, opens@));
        let mut results: Vec<StalenessResult> = Vec::new();
        let ghost mut idx: Seq<int> = Seq::empty();
        let n = opens.len();
        let mut i: usize = 0;
        assert(results@.map_values(|x: StalenessResult| swept(m0[x.lifecycle_id@], now_ms)) =~= Seq::<LifecycleView>::empty());
        while i < n
            invariant
                n == opens@.len(),
                i <= n,
                store.store_inv(),
                listed_open(m0, opens@),
                forall|a: int, b: int| 0 <= a < b < opens@.len() ==> opens@[a].id@ != opens@[b].id@,
                forall|k: Seq<char>| #[trigger] m0.contains_key(k) ==> m0[k].id == k,
                store.lifecycle_map().dom() == m0.dom(),
                idx.len() == results@.len(),
                forall|j: int| 0 <= j < idx.len() ==> {
                    &&& 0 <= #[trigger] idx[j] < i
                    &&& results@[j].lifecycle_id@ == opens@[idx[j]].id@
                    &&& is_stale(opens@[idx[j]]@, now_ms)
                    &&& results@[j].was_state == opens@[idx[j]].state
                    &&& results@[j].new_state == timeout_state(results@[j].was_state)
                    &&& results@[j].at_ms == now_ms
                },
                forall|a: int, b: int| 0 <= a < b < idx.len() ==> idx[a] < idx[b],
                forall|t: int| 0 <= t < i && is_stale(#[trigger] opens@[t]@, now_ms)
                    ==> exists|j: int| 0 <= j < idx.len() && idx[j] == t,
                forall|k: Seq<char>| #[trigger] m0.contains_key(k) ==> store.lifecycle_map()[k] == (
                    if exists|t: int| 0 <= t < i && opens@[t].id@ == k && is_stale(opens@[t]@, now_ms) {
                        closed_stale(m0[k], now_ms)
                    } else {
                        m0[k]
                    }),
                store_view(&*store) == upsert_all(
                    st0,
                    results@.map_values(|x: StalenessResult| swept(m0[x.lifecycle_id@], now_ms)),
                ),
            decreases n - i,
        {
            let ghost idx0 = idx;
            let ghost res0 = results@;
            let ghost map_before = store.lifecycle_map();
            let ghost view_before = store_view(&*store);
            let lc = &opens[i];
            let age = now_ms.saturating_sub(lc.last_event_at_ms);
            if age >= lc.staleness_ms {
                let was_state = lc.state;
                let new_state = timeout_state_for(lc.state);
                let mut closed = clone_lifecycle(lc);
                closed.state = new_state;
                closed.closure = Closure::ClosedWithUncertainty;
                closed.closed_at_ms = Some(now_ms);
                assert(closed@ == closed_stale(lc@, now_ms));
                assert(closed@ == swept(m0[lc.id@], now_ms));
                store.upsert(&closed);
                let x = StalenessResult {
                    lifecycle_id: lc.id.clone(),
                    at_ms: now_ms,
                    was_state,
                    new_state,
                };
                results.push(x);
                proof {
                    idx = idx.push(i as int);
                    let old_ls = res0.map_values(|x: StalenessResult| swept(m0[x.lifecycle_id@], now_ms));
                    let new_ls = results@.map_values(|x: StalenessResult| swept(m0[x.lifecycle_id@], now_ms));
                    assert(new_ls =~= old_ls.push(closed@));
                    assert(new_ls.drop_last() =~= old_ls);
                    assert(upsert_all(st0, new_ls) == spec_upsert(upsert_all(st0, old_ls), closed@));
                }
            }
            proof {
                assert forall|j: int| 0 <= j < idx.len() implies {
                    &&& 0 <= #[trigger] idx[j] < i + 1
                    &&& results@[j].lifecycle_id@ == opens@[idx[j]].id@
                    &&& is_stale(opens@[idx[j]]@, now_ms)
                    &&& results@[j].was_state == opens@[idx[j]].state
                    &&& results@[j].new_state == timeout_state(results@[j].was_state)
                    &&& results@[j].at_ms == now_ms
                } by {
                    if j < idx0.len() {
                        assert(idx0[j] == idx[j]);
                        assert(res0[j] == results@[j]);
                    }
                }
                assert forall|t: int| 0 <= t < i + 1 && is_stale(#[trigger] opens@[t]@, now_ms)
                    implies exists|j: int| 0 <= j < idx.len() && idx[j] == t by {
                    if t < i {
                        let j = choose|j: int| 0 <= j < idx0.len() && idx0[j] == t;
                        assert(idx[j] == t);
                    } else {
                        assert(idx[idx.len() - 1] == t);
                    }
                }
                assert forall|k: Seq<char>| #[trigger] m0.contains_key(k) implies store.lifecycle_map()[k] == (
                    if exists|t: int| 0 <= t < i + 1 && opens@[t].id@ == k && is_stale(opens@[t]@, now_ms) {
                        closed_stale(m0[k], now_ms)
                    } else {
                        m0[k]
                    }) by {
                    let cur = opens@[i as int];
                    if k == cur.id@ && is_stale(cur@, now_ms) {
                        assert(exists|t: int| 0 <= t < i + 1 && opens@[t].id@ == k && is_stale(opens@[t]@, now_ms)) by {
                            assert(opens@[i as int].id@ == k);
                        }
                    } else {
                        if exists|t: int| 0 <= t < i + 1 && opens@[t].id@ == k && is_stale(opens@[t]@, now_ms) {
                            let t = choose|t: int| 0 <= t < i + 1 && opens@[t].id@ == k && is_stale(opens@[t]@, now_ms);
                            if t == i {
                                assert(false);
                            }
                        }
                    }
                }
            }
            i = i + 1;
        }
        proof {
            let mf = store.lifecycle_map();
            assert forall|k: Seq<char>| #[trigger] m0.contains_key(k) implies mf[k] == swept(m0[k], now_ms) by {
                if open_ids(m0).contains(k) && is_stale(m0[k], now_ms) {
                    let t = choose|t: int| 0 <= t < opens@.len() && opens@[t].id@ == k;
                    assert(opens@[t]@ == m0[k]);
                } else if exists|t: int| 0 <= t < n && opens@[t].id@ == k && is_stale(opens@[t]@, now_ms) {
                    let t = choose|t: int| 0 <= t < n && opens@[t].id@ == k && is_stale(opens@[t]@, now_ms);
                    assert(m0[opens@[t].id@] == opens@[t]@);
                    assert(open_ids(m0).contains(k));
                }
            }
            assert(mf.dom() =~= m0.dom());
            assert forall|j: int| 0 <= j < results@.len() implies {
                &&& open_ids(m0).contains(#[trigger] results@[j].lifecycle_id@)
                &&& is_stale(m0[results@[j].lifecycle_id@], now_ms)
                &&& results@[j].was_state == m0[results@[j].lifecycle_id@].state
                &&& results@[j].new_state == timeout_state(results@[j].was_state)
                &&& results@[j].at_ms == now_ms
            } by {
                let t = idx[j];
                assert(m0[opens@[t].id@] == opens@[t]@);
            }
            assert forall|k: Seq<char>| #[trigger] open_ids(m0).contains(k) && is_stale(m0[k], now_ms)
                implies exists|j: int| 0 <= j < results@.len() && results@[j].lifecycle_id@ == k by {
                let t = choose|t: int| 0 <= t < opens@.len() && opens@[t].id@ == k;
                assert(opens@[t]@ == m0[k]);
                assert(is_stale(opens@[t]@, now_ms));
                let j = choose|j: int| 0 <= j < idx.len() && idx[j] == t;
                assert(results@[j].lifecycle_id@ == k);
            }
            assert forall|a: int, b: int| 0 <= a < b < results@.len() implies
                results@[a].lifecycle_id@ != results@[b].lifecycle_id@ by {
                assert(idx[a] < idx[b]);
            }
        }
        results
    }
}

/// After a sweep at `now_ms` no open lifecycle is stale, and a lifecycle
/// that was already closed is left exactly as it was.
pub proof fn lemma_sweep_leaves_nothing_stale(lc: LifecycleView, now_ms: u64)
    ensures
        swept(lc, now_ms).closure == Closure::Open ==> !is_stale(swept(lc, now_ms), now_ms),
        lc.closure != Closure::Open ==> swept(lc, now_ms) == lc,
        lc.closure == Closure::Open && is_stale(lc, now_ms) ==> swept(lc, now_ms).closure == Closure::ClosedWithUncertainty,
{
}

/// A stale open lifecycle is closed with uncertainty at the sweep's time and
/// never left in flight: one that had not gone past its start is abandoned,
/// one that was processing, pending or unknown times out, both terminal;
/// any other state is kept. Its events and history are kept.
pub proof fn lemma_stale_lifecycle_ends_terminal(lc: LifecycleView, now_ms: u64)
    requires
        lc.closure == Closure::Open,
        is_stale(lc, now_ms),
    ensures
        swept(lc, now_ms).closure == Closure::ClosedWithUncertainty,
        swept(lc, now_ms).closed_at_ms == Some(now_ms),
        lc.state == State::Started ==> swept(lc, now_ms).state == State::Abandoned,
        lc.state == State::Processing || lc.state == State::Pending || lc.state == State::Unknown
            ==> swept(lc, now_ms).state == State::Timeout,
        lc.state == State::Started || lc.state == State::Processing || lc.state == State::Pending
            || lc.state == State::Unknown ==> spec_is_terminal(swept(lc, now_ms).state),
        !(lc.state == State::Started || lc.state == State::Processing || lc.state == State::Pending
            || lc.state == State::Unknown) ==> swept(lc, now_ms).state == lc.state,
        swept(lc, now_ms).event_ids == lc.event_ids,
        swept(lc, now_ms).last_event_at_ms == lc.last_event_at_ms,
{
}

} // verus!
