//! The lifecycle engine: binds each event to a lifecycle (explicit operation
//! id, business id, causation, resource id, in this order) or opens a new
//! one, classifies events that arrive after closure without reopening, and
//! otherwise runs the lifecycle type's state machine.

use vstd::prelude::*;
use vstd::string::StringExecFns;
use crate::event::{Event, get_pair, lookup_pair};
use crate::lifecycle::store::{LifecycleStore, bind_opt, bind_all, ids_match};
use crate::lifecycle::types::{
    Closure, InferenceTier, LateEvent, LateEventClass, LateEventView, Lifecycle, LifecycleType,
    LifecycleView, State, opt_str, spec_is_terminal, spec_lifecycle_type_of, staleness_for,
};
use crate::text::{str_eq};

verus! {

/// A lifecycle store as plain values.
pub struct StoreView {
    pub lifecycles: Map<Seq<char>, LifecycleView>,
    pub resources: Map<Seq<char>, Seq<char>>,
    pub business: Map<Seq<char>, Seq<char>>,
    pub events: Map<Seq<char>, Seq<char>>,
}

pub open spec fn store_view<S: LifecycleStore>(s: &S) -> StoreView {
    StoreView {
        lifecycles: s.lifecycle_map(),
        resources: s.resource_index(),
        business: s.business_index(),
        events: s.event_index(),
    }
}

/// The store after inserting or replacing `lc`.
pub open spec fn spec_upsert(st: StoreView, lc: LifecycleView) -> StoreView {
    StoreView {
        lifecycles: st.lifecycles.insert(lc.id, lc),
        resources: bind_opt(st.resources, lc.resource_id, lc.id),
        business: bind_opt(st.business, lc.business_key, lc.id),
        events: bind_all(st.events, lc.event_ids, lc.id),
    }
}

/// The store after binding one event to a lifecycle.
pub open spec fn spec_record(st: StoreView, event_id: Seq<char>, id: Seq<char>) -> StoreView {
    StoreView { events: st.events.insert(event_id, id), ..st }
}

/// The `business_id` key of the customer correlation ids.
pub open spec fn business_id_key() -> Seq<char> {
    seq!['b', 'u', 's', 'i', 'n', 'e', 's', 's', '_', 'i', 'd']
}

pub open spec fn business_id_of(e: Event) -> Option<Seq<char>> {
    lookup_pair(e.causality.customer_correlation_ids@, business_id_key())
}

pub open spec fn operation_id_of(e: Event) -> Option<Seq<char>> {
    match e.operation {
        Some(op) => opt_str(op.operation_id),
        None => None,
    }
}

/// The event's parent, or failing that its causation id.
pub open spec fn parent_of(e: Event) -> Option<Seq<char>> {
    match e.causality.parent_event_id {
        Some(p) => Some(p@),
        None => opt_str(e.causality.causation_id),
    }
}

pub open spec fn resource_id_of(e: Event) -> Option<Seq<char>> {
    match e.resource {
        Some(r) => opt_str(r.id),
        None => None,
    }
}

/// How an event relates to the lifecycles already known.
pub enum CorrView {
    Match { lifecycle_id: Seq<char>, tier: InferenceTier },
    New { lifecycle_type: LifecycleType, resource_id: Option<Seq<char>>, business_key: Option<Seq<char>> },
    Unbound,
}

/// Correlation: the first of the four tiers that finds a lifecycle; else a
/// new lifecycle when the event has a resource id (or, failing that, a
/// business id) and a lifecycle type; else none.
pub open spec fn spec_correlate(st: StoreView, e: Event) -> CorrView {
    let op = operation_id_of(e);
    let bid = business_id_of(e);
    let parent = parent_of(e);
    let rid = resource_id_of(e);
    let t = spec_lifecycle_type_of(e.event_type@);
    if op is Some && st.business.contains_key(op->0) {
        CorrView::Match { lifecycle_id: st.business[op->0], tier: InferenceTier::Explicit }
    } else if bid is Some && st.business.contains_key(bid->0) {
        CorrView::Match { lifecycle_id: st.business[bid->0], tier: InferenceTier::BusinessId }
    } else if parent is Some && st.events.contains_key(parent->0) {
        CorrView::Match { lifecycle_id: st.events[parent->0], tier: InferenceTier::Causation }
    } else if rid is Some && st.resources.contains_key(rid->0) {
        CorrView::Match { lifecycle_id: st.resources[rid->0], tier: InferenceTier::ResourceId }
    } else if rid is Some && t is Some {
        CorrView::New {
            lifecycle_type: t->0,
            resource_id: rid,
            business_key: if bid is Some { bid } else { op },
        }
    } else if bid is Some && t is Some {
        CorrView::New { lifecycle_type: t->0, resource_id: None, business_key: bid }
    } else {
        CorrView::Unbound
    }
}

/// The payment state machine: the state and closure an event type leads to.
pub open spec fn spec_transition(t: LifecycleType, ty: Seq<char>) -> Option<(State, Closure)> {
    match t {
        LifecycleType::Payment => if ty == "payment.create"@ {
            Some((State::Started, Closure::Open))
        } else if ty == "payment.process"@ || ty == "payment.processing"@ {
            Some((State::Processing, Closure::Open))
        } else if ty == "payment.pending"@ {
            Some((State::Pending, Closure::Open))
        } else if ty == "payment.retry"@ {
            Some((State::Processing, Closure::Open))
        } else if ty == "payment.settle"@ || ty == "payment.success"@ || ty == "payment.completed"@ {
            Some((State::Success, Closure::Closed))
        } else if ty == "payment.fail"@ || ty == "payment.failed"@ || ty == "payment.error"@ {
            Some((State::Failed, Closure::ClosedWithException))
        } else if ty == "payment.cancel"@ || ty == "payment.cancelled"@ {
            Some((State::Cancelled, Closure::Closed))
        } else if ty == "payment.reverse"@ || ty == "payment.reversed"@ {
            Some((State::Reversed, Closure::ClosedWithException))
        } else {
            None
        },
    }
}

/// How an event that arrives after closure is classified.
pub open spec fn spec_classify(lc: LifecycleView, e: Event) -> LateEventClass {
    if lc.event_ids.contains(e.event_id@) {
        LateEventClass::Duplicate
    } else {
        match spec_transition(lc.lifecycle_type, e.event_type@) {
            Some((s, _)) => if spec_is_terminal(s) && s != lc.state {
                LateEventClass::Conflict
            } else {
                LateEventClass::Amendment
            },
            None => LateEventClass::LateInformation,
        }
    }
}

/// What applying one event did.
#[derive(Debug, Clone, PartialEq, Eq)]
pub enum ApplyOutcome {
    Created { lifecycle_id: String, lifecycle_type: LifecycleType, state: State, closure: Closure },
    Updated { lifecycle_id: String, tier: InferenceTier, state: State, closure: Closure },
    LateEvent { lifecycle_id: String, tier: InferenceTier, class: LateEventClass },
    Unbound,
}

pub enum ApplyOutcomeView {
    Created { lifecycle_id: Seq<char>, lifecycle_type: LifecycleType, state: State, closure: Closure },
    Updated { lifecycle_id: Seq<char>, tier: InferenceTier, state: State, closure: Closure },
    LateEvent { lifecycle_id: Seq<char>, tier: InferenceTier, class: LateEventClass },
    Unbound,
}

impl View for ApplyOutcome {
    type V = ApplyOutcomeView;

    open spec fn view(&self) -> ApplyOutcomeView {
        match self {
            ApplyOutcome::Created { lifecycle_id, lifecycle_type, state, closure } =>
                ApplyOutcomeView::Created { lifecycle_id: lifecycle_id@, lifecycle_type: *lifecycle_type, state: *state, closure: *closure },
            ApplyOutcome::Updated { lifecycle_id, tier, state, closure } =>
                ApplyOutcomeView::Updated { lifecycle_id: lifecycle_id@, tier: *tier, state: *state, closure: *closure },
            ApplyOutcome::LateEvent { lifecycle_id, tier, class } =>
                ApplyOutcomeView::LateEvent { lifecycle_id: lifecycle_id@, tier: *tier, class: *class },
            ApplyOutcome::Unbound => ApplyOutcomeView::Unbound,
        }
    }
}

/// The id of a lifecycle opened by an event: `lc_` and the event id.
pub open spec fn new_lifecycle_id(e: Event) -> Seq<char> {
    seq!['l', 'c', '_'] + e.event_id@
}

/// The lifecycle with a late event appended.
pub open spec fn with_late_event(lc: LifecycleView, e: Event, now_ms: u64) -> LifecycleView {
    LifecycleView {
        late_events: lc.late_events.push(LateEventView {
            event_id: e.event_id@,
            event_type: e.event_type@,
            arrived_at_ms: now_ms,
            class: spec_classify(lc, e),
        }),
        ..lc
    }
}

/// The state and closure an event moves an open lifecycle to (unchanged when
/// the event type has no transition).
pub open spec fn next_state(lc: LifecycleView, e: Event) -> (State, Closure) {
    match spec_transition(lc.lifecycle_type, e.event_type@) {
        Some(p) => p,
        None => (lc.state, lc.closure),
    }
}

/// An open lifecycle after one more event.
pub open spec fn advanced(lc: LifecycleView, e: Event, tier: InferenceTier, now_ms: u64) -> LifecycleView {
    let (state, closure) = next_state(lc, e);
    LifecycleView {
        event_ids: lc.event_ids.push(e.event_id@),
        tiers: lc.tiers.push(tier),
        last_event_at_ms: now_ms,
        state,
        closure,
        closed_at_ms: if closure != Closure::Open { Some(now_ms) } else { lc.closed_at_ms },
        ..lc
    }
}

/// The lifecycle an event opens.
pub open spec fn opened(
    e: Event,
    t: LifecycleType,
    rid: Option<Seq<char>>,
    bk: Option<Seq<char>>,
    now_ms: u64,
) -> LifecycleView {
    let (state, closure) = match spec_transition(t, e.event_type@) {
        Some(p) => p,
        None => (State::Started, Closure::Open),
    };
    LifecycleView {
        id: new_lifecycle_id(e),
        tenant_id: e.tenant_id@,
        lifecycle_type: t,
        business_key: bk,
        resource_id: rid,
        state,
        closure,
        started_at_ms: now_ms,
        last_event_at_ms: now_ms,
        closed_at_ms: if closure != Closure::Open { Some(now_ms) } else { None },
        event_ids: seq![e.event_id@],
        late_events: seq![],
        staleness_ms: 3_600_000,
        tiers: seq![InferenceTier::ResourceId],
    }
}

/// Applying one event: the store afterwards and what is reported.
pub open spec fn spec_apply(st: StoreView, e: Event, now_ms: u64) -> (StoreView, ApplyOutcomeView) {
    match spec_correlate(st, e) {
        CorrView::Match { lifecycle_id: id, tier } => if !st.lifecycles.contains_key(id) {
            (st, ApplyOutcomeView::Unbound)
        } else {
            let lc = st.lifecycles[id];
            if lc.closure != Closure::Open {
                (
                    spec_upsert(st, with_late_event(lc, e, now_ms)),
                    ApplyOutcomeView::LateEvent { lifecycle_id: id, tier, class: spec_classify(lc, e) },
                )
            } else {
                let lc2 = advanced(lc, e, tier, now_ms);
                (
                    spec_record(spec_upsert(st, lc2), e.event_id@, id),
                    ApplyOutcomeView::Updated { lifecycle_id: id, tier, state: lc2.state, closure: lc2.closure },
                )
            }
        },
        CorrView::New { lifecycle_type: t, resource_id: rid, business_key: bk } => {
            let lc = opened(e, t, rid, bk, now_ms);
            (
                spec_record(spec_upsert(st, lc), e.event_id@, lc.id),
                ApplyOutcomeView::Created { lifecycle_id: lc.id, lifecycle_type: t, state: lc.state, closure: lc.closure },
            )
        },
        CorrView::Unbound => (st, ApplyOutcomeView::Unbound),
    }
}

enum Corr {
    Match { lifecycle_id: String, tier: InferenceTier },
    New { lifecycle_type: LifecycleType, resource_id: Option<String>, business_key: Option<String> },
    Unbound,
}

impl Corr {
    spec fn view(&self) -> CorrView {
        match self {
            Corr::Match { lifecycle_id, tier } => CorrView::Match { lifecycle_id: lifecycle_id@, tier: *tier },
            Corr::New { lifecycle_type, resource_id, business_key } =>
                CorrView::New { lifecycle_type: *lifecycle_type, resource_id: opt_str(*resource_id), business_key: opt_str(*business_key) },
            Corr::Unbound => CorrView::Unbound,
        }
    }
}

fn business_id(e: &Event) -> (r: Option<&String>)
    ensures
        opt_str(match r { Some(s) => Some(*s), None => None }) == business_id_of(*e),
{
    proof {
        reveal_strlit("business_id");
    }
    assert("business_id"@ =~= business_id_key());
    get_pair(&e.causality.customer_correlation_ids, "business_id")
}

fn operation_id(e: &Event) -> (r: Option<&String>)
    ensures
        opt_str(match r { Some(s) => Some(*s), None => None }) == operation_id_of(*e),
{
    match &e.operation {
        Some(op) => match &op.operation_id {
            Some(id) => Some(id),
            None => None,
        },
        None => None,
    }
}

fn correlate<S: LifecycleStore>(store: &S, e: &Event) -> (c: Corr)
    requires
        store.store_inv(),
    ensures
        c.view() == spec_correlate(store_view(store), *e),
{
    let op = operation_id(e);
    let bid = business_id(e);
    if let Some(op_id) = op {
        if let Some(lc_id) = store.find_by_business_key(op_id.as_str()) {
            return Corr::Match { lifecycle_id: lc_id, tier: InferenceTier::Explicit };
        }
    }
    if let Some(b) = bid {
        if let Some(lc_id) = store.find_by_business_key(b.as_str()) {
            return Corr::Match { lifecycle_id: lc_id, tier: InferenceTier::BusinessId };
        }
    }
    let parent = match &e.causality.parent_event_id {
        Some(p) => Some(p),
        None => match &e.causality.causation_id {
            Some(c) => Some(c),
            None => None,
        },
    };
    if let Some(p) = parent {
        if let Some(lc_id) = store.find_by_event(p.as_str()) {
            return Corr::Match { lifecycle_id: lc_id, tier: InferenceTier::Causation };
        }
    }
    if let Some(r) = &e.resource {
        if let Some(rid) = &r.id {
            if let Some(lc_id) = store.find_by_resource(rid.as_str()) {
                return Corr::Match { lifecycle_id: lc_id, tier: InferenceTier::ResourceId };
            }
            if let Some(lct) = LifecycleType::from_event_type(e.event_type.as_str()) {
                let business_key = match bid {
                    Some(b) => Some(b.clone()),
                    None => match op {
                        Some(o) => Some(o.clone()),
                        None => None,
                    },
                };
                return Corr::New { lifecycle_type: lct, resource_id: Some(rid.clone()), business_key };
            }
        }
    }
    if let Some(b) = bid {
        if let Some(lct) = LifecycleType::from_event_type(e.event_type.as_str()) {
            return Corr::New { lifecycle_type: lct, resource_id: None, business_key: Some(b.clone()) };
        }
    }
    Corr::Unbound
}

fn transition_for(t: LifecycleType, event_type: &str) -> (r: Option<(State, Closure)>)
    ensures
        r == spec_transition(t, event_type@),
{
    match t {
        LifecycleType::Payment => {
            let ty = event_type;
            if str_eq(ty, "payment.create") {
                Some((State::Started, Closure::Open))
            } else if str_eq(ty, "payment.process") || str_eq(ty, "payment.processing") {
                Some((State::Processing, Closure::Open))
            } else if str_eq(ty, "payment.pending") {
                Some((State::Pending, Closure::Open))
            } else if str_eq(ty, "payment.retry") {
                Some((State::Processing, Closure::Open))
            } else if str_eq(ty, "payment.settle") || str_eq(ty, "payment.success") || str_eq(ty, "payment.completed") {
                Some((State::Success, Closure::Closed))
            } else if str_eq(ty, "payment.fail") || str_eq(ty, "payment.failed") || str_eq(ty, "payment.error") {
                Some((State::Failed, Closure::ClosedWithException))
            } else if str_eq(ty, "payment.cancel") || str_eq(ty, "payment.cancelled") {
                Some((State::Cancelled, Closure::Closed))
            } else if str_eq(ty, "payment.reverse") || str_eq(ty, "payment.reversed") {
                Some((State::Reversed, Closure::ClosedWithException))
            } else {
                None
            }
        },
    }
}

fn contains_str(v: &Vec<String>, s: &String) -> (r: bool)
    ensures
        r == v@.map_values(|x: String| x@).contains(s@),
{
    let mut i: usize = 0;
    while i < v.len()
        invariant
            i <= v@.len(),
            forall|j: int| 0 <= j < i ==> v@[j]@ != s@,
        decreases v@.len() - i,
    {
        if v[i] == *s {
            assert(v@.map_values(|x: String| x@)[i as int] == s@);
            return true;
        }
        i = i + 1;
    }
    proof {
        if v@.map_values(|x: String| x@).contains(s@) {
            let vs = v@.map_values(|x: String| x@);
            let j = choose|j: int| 0 <= j < vs.len() && #[trigger] vs[j] == s@;
            assert(v@[j]@ == s@);
        }
    }
    false
}

fn classify_late_event(lc: &Lifecycle, e: &Event) -> (c: LateEventClass)
    ensures
        c == spec_classify(lc@, *e),
{
    if contains_str(&lc.event_ids, &e.event_id) {
        return LateEventClass::Duplicate;
    }
    match transition_for(lc.lifecycle_type, e.event_type.as_str()) {
        Some((new_state, _)) => {
            if new_state.is_terminal() && new_state != lc.state {
                LateEventClass::Conflict
            } else {
                LateEventClass::Amendment
            }
        },
        None => LateEventClass::LateInformation,
    }
}

/// Applies events to lifecycles held in a store.
pub struct LifecycleEngine;

impl LifecycleEngine {
    pub fn new() -> (e: Self)
        ensures
            e == LifecycleEngine,
    {
        LifecycleEngine
    }

    /// Correlates `event` to a lifecycle, or opens one, and records it: an
    /// event for a closed lifecycle is kept as a classified late event and
    /// changes nothing else; otherwise the state machine runs.
    pub fn apply<S: LifecycleStore>(&self, store: &mut S, event: &Event, now_ms: u64) -> (r: ApplyOutcome)
        requires
            old(store).store_inv(),
        ensures
            final(store).store_inv(),
            (store_view(final(store)), r@) == spec_apply(store_view(old(store)), *event, now_ms),
    {
        let corr = correlate(&*store, event);
        match corr {
            Corr::Match { lifecycle_id, tier } => {
                let got = store.get(lifecycle_id.as_str());
                let mut lc = match got {
                    Some(lc) => lc,
                    None => {
                        return ApplyOutcome::Unbound;
                    },
                };
                if lc.closure.is_closed() {
                    let class = classify_late_event(&lc, event);
                    let ghost before = lc@;
                    lc.late_events.push(LateEvent {
                        event_id: event.event_id.clone(),
                        event_type: event.event_type.clone(),
                        arrived_at_ms: now_ms,
                        class,
                    });
                    assert(lc@ == with_late_event(before, *event, now_ms)) by {
                        assert(lc@.late_events =~= before.late_events.push(LateEventView {
                            event_id: event.event_id@,
                            event_type: event.event_type@,
                            arrived_at_ms: now_ms,
                            class: spec_classify(before, *event),
                        }));
                    }
                    store.upsert(&lc);
                    return ApplyOutcome::LateEvent { lifecycle_id, tier, class };
                }
                let ghost before = lc@;
                let (state, closure) = match transition_for(lc.lifecycle_type, event.event_type.as_str()) {
                    Some(p) => p,
                    None => (lc.state, lc.closure),
                };
                lc.event_ids.push(event.event_id.clone());
                lc.tiers.push(tier);
                lc.last_event_at_ms = now_ms;
                lc.state = state;
                lc.closure = closure;
                if closure.is_closed() {
                    lc.closed_at_ms = Some(now_ms);
                }
                assert(lc@ == advanced(before, *event, tier, now_ms)) by {
                    assert(lc@.event_ids =~= before.event_ids.push(event.event_id@));
                    assert(lc@.tiers =~= before.tiers.push(tier));
                }
                store.upsert(&lc);
                store.record_event(event.event_id.as_str(), lifecycle_id.as_str());
                ApplyOutcome::Updated { lifecycle_id, tier, state, closure }
            },
            Corr::New { lifecycle_type, resource_id, business_key } => {
                let mut lifecycle_id = String::new();
                lifecycle_id.append("lc_");
                lifecycle_id.append(event.event_id.as_str());
                proof {
                    reveal_strlit("lc_");
                }
                assert(lifecycle_id@ =~= new_lifecycle_id(*event));
                let (state, closure) = match transition_for(lifecycle_type, event.event_type.as_str()) {
                    Some(p) => p,
                    None => (State::Started, Closure::Open),
                };
                let closed_at = if closure.is_closed() { Some(now_ms) } else { None };
                let mut event_ids: Vec<String> = Vec::new();
                event_ids.push(event.event_id.clone());
                let mut tiers: Vec<InferenceTier> = Vec::new();
                tiers.push(InferenceTier::ResourceId);
                let lc = Lifecycle {
                    id: lifecycle_id.clone(),
                    tenant_id: event.tenant_id.clone(),
                    lifecycle_type,
                    business_key,
                    resource_id,
                    state,
                    closure,
                    started_at_ms: now_ms,
                    last_event_at_ms: now_ms,
                    closed_at_ms: closed_at,
                    event_ids,
                    late_events: Vec::new(),
                    staleness_ms: staleness_for(lifecycle_type),
                    tiers,
                };
                assert(lc@.event_ids =~= seq![event.event_id@]);
                assert(lc@.late_events =~= Seq::<LateEventView>::empty());
                store.upsert(&lc);
                store.record_event(event.event_id.as_str(), lifecycle_id.as_str());
                ApplyOutcome::Created { lifecycle_id, lifecycle_type, state, closure }
            },
            Corr::Unbound => ApplyOutcome::Unbound,
        }
    }
}

impl Default for LifecycleEngine {
    fn default() -> (e: Self)
        ensures
            e == LifecycleEngine,
    {
        LifecycleEngine::new()
    }
}

/// Once closed, a lifecycle keeps its state, closure and events whatever
/// event is applied next: a late event is only recorded beside it. (The one
/// exception is an event whose new lifecycle id, `lc_` and its own id,
/// already names a stored lifecycle, which the new one replaces.)
pub proof fn lemma_closed_lifecycle_is_never_reopened(st: StoreView, e: Event, now_ms: u64, k: Seq<char>)
    requires
        ids_match(st.lifecycles),
        st.lifecycles.contains_key(k),
        st.lifecycles[k].closure != Closure::Open,
        spec_correlate(st, e) is New ==> !st.lifecycles.contains_key(new_lifecycle_id(e)),
    ensures
        spec_apply(st, e, now_ms).0.lifecycles.contains_key(k),
        spec_apply(st, e, now_ms).0.lifecycles[k].state == st.lifecycles[k].state,
        spec_apply(st, e, now_ms).0.lifecycles[k].closure == st.lifecycles[k].closure,
        spec_apply(st, e, now_ms).0.lifecycles[k].event_ids == st.lifecycles[k].event_ids,
        spec_apply(st, e, now_ms).0.lifecycles[k].closed_at_ms == st.lifecycles[k].closed_at_ms,
{
    match spec_correlate(st, e) {
        CorrView::Match { lifecycle_id: id, tier } => {
            if st.lifecycles.contains_key(id) {
                assert(st.lifecycles[id].id == id);
            }
        },
        _ => {},
    }
}

/// An event that reaches a closed lifecycle is reported as a late event,
/// appended to that lifecycle's late events with its classification, and
/// changes nothing else about it.
pub proof fn lemma_late_event_is_recorded_not_applied(st: StoreView, e: Event, now_ms: u64)
    requires
        ids_match(st.lifecycles),
        spec_correlate(st, e) is Match,
        st.lifecycles.contains_key(spec_correlate(st, e)->lifecycle_id),
        st.lifecycles[spec_correlate(st, e)->lifecycle_id].closure != Closure::Open,
    ensures
        ({
            let id = spec_correlate(st, e)->lifecycle_id;
            let lc = st.lifecycles[id];
            let after = spec_apply(st, e, now_ms);
            &&& after.1 == (ApplyOutcomeView::LateEvent {
                lifecycle_id: id,
                tier: spec_correlate(st, e)->tier,
                class: spec_classify(lc, e),
            })
            &&& after.0.lifecycles[id] == with_late_event(lc, e, now_ms)
            &&& after.0.lifecycles[id].late_events.len() == lc.late_events.len() + 1
        }),
{
    let id = spec_correlate(st, e)->lifecycle_id;
    assert(st.lifecycles[id].id == id);
}

/// The state machine closes a lifecycle exactly on a terminal state.
pub proof fn lemma_transition_closes_iff_terminal(t: LifecycleType, ty: Seq<char>)
    ensures
        spec_transition(t, ty) matches Some((s, c)) ==> ((c != Closure::Open) == spec_is_terminal(s)),
{
}

/// An event bound to a lifecycle (opened or advanced) becomes findable by
/// its id for causation lookups.
pub proof fn lemma_applied_event_is_bound(st: StoreView, e: Event, now_ms: u64)
    ensures
        ({
            let after = spec_apply(st, e, now_ms);
            &&& after.1 matches ApplyOutcomeView::Created { lifecycle_id, .. }
                ==> after.0.events.contains_key(e.event_id@) && after.0.events[e.event_id@] == lifecycle_id
            &&& after.1 matches ApplyOutcomeView::Updated { lifecycle_id, .. }
                ==> after.0.events.contains_key(e.event_id@) && after.0.events[e.event_id@] == lifecycle_id
        }),
{
}

/// An event that correlates to nothing leaves the store as it was.
pub proof fn lemma_unbound_changes_nothing(st: StoreView, e: Event, now_ms: u64)
    requires
        spec_apply(st, e, now_ms).1 is Unbound,
    ensures
        spec_apply(st, e, now_ms).0 == st,
{
}

/// An event that correlates to an open payment lifecycle moves it as the
/// payment state machine says, and the outcome reports it: a reversal closes
/// it as Reversed with an exception, a failure as Failed with an exception,
/// a settlement as Success, a cancellation as Cancelled, all at the event's
/// time; a pending event keeps it open as Pending and a processing event as
/// Processing.
pub proof fn lemma_payment_events_move_lifecycle(st: StoreView, e: Event, now_ms: u64)
    requires
        spec_correlate(st, e) is Match,
        st.lifecycles.contains_key(spec_correlate(st, e)->lifecycle_id),
        st.lifecycles[spec_correlate(st, e)->lifecycle_id].closure == Closure::Open,
        st.lifecycles[spec_correlate(st, e)->lifecycle_id].lifecycle_type == LifecycleType::Payment,
        st.lifecycles[spec_correlate(st, e)->lifecycle_id].id == spec_correlate(st, e)->lifecycle_id,
    ensures
        ({
            let id = spec_correlate(st, e)->lifecycle_id;
            let lc = spec_apply(st, e, now_ms).0.lifecycles[id];
            let out = spec_apply(st, e, now_ms).1;
            let ty = e.event_type@;
            &&& out is Updated && out->Updated_lifecycle_id == id
            &&& out->Updated_state == lc.state && out->Updated_closure == lc.closure
            &&& lc.event_ids == st.lifecycles[id].event_ids.push(e.event_id@)
            &&& (ty == "payment.reverse"@ || ty == "payment.reversed"@) ==> lc.state == State::Reversed
                && lc.closure == Closure::ClosedWithException && lc.closed_at_ms == Some(now_ms)
            &&& (ty == "payment.fail"@ || ty == "payment.failed"@ || ty == "payment.error"@) ==> lc.state == State::Failed
                && lc.closure == Closure::ClosedWithException && lc.closed_at_ms == Some(now_ms)
            &&& (ty == "payment.settle"@ || ty == "payment.success"@ || ty == "payment.completed"@)
                ==> lc.state == State::Success && lc.closure == Closure::Closed && lc.closed_at_ms == Some(now_ms)
            &&& (ty == "payment.cancel"@ || ty == "payment.cancelled"@) ==> lc.state == State::Cancelled
                && lc.closure == Closure::Closed && lc.closed_at_ms == Some(now_ms)
            &&& ty == "payment.pending"@ ==> lc.state == State::Pending && lc.closure == Closure::Open
            &&& (ty == "payment.process"@ || ty == "payment.processing"@ || ty == "payment.retry"@)
                ==> lc.state == State::Processing && lc.closure == Closure::Open
        }),
{
    let id = spec_correlate(st, e)->lifecycle_id;
    reveal_strlit("payment.create");
    reveal_strlit("payment.process");
    reveal_strlit("payment.processing");
    reveal_strlit("payment.pending");
    reveal_strlit("payment.retry");
    reveal_strlit("payment.settle");
    reveal_strlit("payment.success");
    reveal_strlit("payment.completed");
    reveal_strlit("payment.fail");
    reveal_strlit("payment.failed");
    reveal_strlit("payment.error");
    reveal_strlit("payment.cancel");
    reveal_strlit("payment.cancelled");
    reveal_strlit("payment.reverse");
    reveal_strlit("payment.reversed");
    let lc0 = st.lifecycles[id];
    let lc2 = advanced(lc0, e, spec_correlate(st, e)->tier, now_ms);
    assert(spec_upsert(st, lc2).lifecycles[id] == lc2);
    let r = spec_apply(st, e, now_ms);
    assert(r.0 == spec_record(spec_upsert(st, lc2), e.event_id@, id));
    assert(r.0.lifecycles[id] == lc2);
    assert(r.1 == ApplyOutcomeView::Updated { lifecycle_id: id, tier: spec_correlate(st, e)->tier, state: lc2.state, closure: lc2.closure });
    assert(lc2.state == next_state(lc0, e).0 && lc2.closure == next_state(lc0, e).1);
    let ty = e.event_type@;
    if ty == "payment.create"@ {
        assert(ty != "payment.process"@) by { assert(ty[8] == 'c' && "payment.process"@[8] == 'p'); }
        assert(ty != "payment.processing"@) by { assert(ty[8] == 'c' && "payment.processing"@[8] == 'p'); }
        assert(ty != "payment.pending"@) by { assert(ty[8] == 'c' && "payment.pending"@[8] == 'p'); }
        assert(ty != "payment.retry"@) by { assert(ty[8] == 'c' && "payment.retry"@[8] == 'r'); }
        assert(ty != "payment.settle"@) by { assert(ty[8] == 'c' && "payment.settle"@[8] == 's'); }
        assert(ty != "payment.success"@) by { assert(ty[8] == 'c' && "payment.success"@[8] == 's'); }
        assert(ty != "payment.completed"@) by { assert(ty[9] == 'r' && "payment.completed"@[9] == 'o'); }
        assert(ty != "payment.fail"@) by { assert(ty[8] == 'c' && "payment.fail"@[8] == 'f'); }
        assert(ty != "payment.failed"@) by { assert(ty[8] == 'c' && "payment.failed"@[8] == 'f'); }
        assert(ty != "payment.error"@) by { assert(ty[8] == 'c' && "payment.error"@[8] == 'e'); }
        assert(ty != "payment.cancel"@) by { assert(ty[9] == 'r' && "payment.cancel"@[9] == 'a'); }
        assert(ty != "payment.cancelled"@) by { assert(ty[9] == 'r' && "payment.cancelled"@[9] == 'a'); }
        assert(ty != "payment.reverse"@) by { assert(ty[8] == 'c' && "payment.reverse"@[8] == 'r'); }
        assert(ty != "payment.reversed"@) by { assert(ty[8] == 'c' && "payment.reversed"@[8] == 'r'); }
    }
    if ty == "payment.process"@ {
        assert(ty != "payment.create"@) by { assert(ty[8] == 'p' && "payment.create"@[8] == 'c'); }
        assert(ty != "payment.processing"@) by { assert(ty.len() == 15 && "payment.processing"@.len() == 18); }
        assert(ty != "payment.pending"@) by { assert(ty[9] == 'r' && "payment.pending"@[9] == 'e'); }
        assert(ty != "payment.retry"@) by { assert(ty[8] == 'p' && "payment.retry"@[8] == 'r'); }
        assert(ty != "payment.settle"@) by { assert(ty[8] == 'p' && "payment.settle"@[8] == 's'); }
        assert(ty != "payment.success"@) by { assert(ty[8] == 'p' && "payment.success"@[8] == 's'); }
        assert(ty != "payment.completed"@) by { assert(ty[8] == 'p' && "payment.completed"@[8] == 'c'); }
        assert(ty != "payment.fail"@) by { assert(ty[8] == 'p' && "payment.fail"@[8] == 'f'); }
        assert(ty != "payment.failed"@) by { assert(ty[8] == 'p' && "payment.failed"@[8] == 'f'); }
        assert(ty != "payment.error"@) by { assert(ty[8] == 'p' && "payment.error"@[8] == 'e'); }
        assert(ty != "payment.cancel"@) by { assert(ty[8] == 'p' && "payment.cancel"@[8] == 'c'); }
        assert(ty != "payment.cancelled"@) by { assert(ty[8] == 'p' && "payment.cancelled"@[8] == 'c'); }
        assert(ty != "payment.reverse"@) by { assert(ty[8] == 'p' && "payment.reverse"@[8] == 'r'); }
        assert(ty != "payment.reversed"@) by { assert(ty[8] == 'p' && "payment.reversed"@[8] == 'r'); }
    }
    if ty == "payment.processing"@ {
        assert(ty != "payment.create"@) by { assert(ty[8] == 'p' && "payment.create"@[8] == 'c'); }
        assert(ty != "payment.process"@) by { assert(ty.len() == 18 && "payment.process"@.len() == 15); }
        assert(ty != "payment.pending"@) by { assert(ty[9] == 'r' && "payment.pending"@[9] == 'e'); }
        assert(ty != "payment.retry"@) by { assert(ty[8] == 'p' && "payment.retry"@[8] == 'r'); }
        assert(ty != "payment.settle"@) by { assert(ty[8] == 'p' && "payment.settle"@[8] == 's'); }
        assert(ty != "payment.success"@) by { assert(ty[8] == 'p' && "payment.success"@[8] == 's'); }
        assert(ty != "payment.completed"@) by { assert(ty[8] == 'p' && "payment.completed"@[8] == 'c'); }
        assert(ty != "payment.fail"@) by { assert(ty[8] == 'p' && "payment.fail"@[8] == 'f'); }
        assert(ty != "payment.failed"@) by { assert(ty[8] == 'p' && "payment.failed"@[8] == 'f'); }
        assert(ty != "payment.error"@) by { assert(ty[8] == 'p' && "payment.error"@[8] == 'e'); }
        assert(ty != "payment.cancel"@) by { assert(ty[8] == 'p' && "payment.cancel"@[8] == 'c'); }
        assert(ty != "payment.cancelled"@) by { assert(ty[8] == 'p' && "payment.cancelled"@[8] == 'c'); }
        assert(ty != "payment.reverse"@) by { assert(ty[8] == 'p' && "payment.reverse"@[8] == 'r'); }
        assert(ty != "payment.reversed"@) by { assert(ty[8] == 'p' && "payment.reversed"@[8] == 'r'); }
    }
    if ty == "payment.pending"@ {
        assert(ty != "payment.create"@) by { assert(ty[8] == 'p' && "payment.create"@[8] == 'c'); }
        assert(ty != "payment.process"@) by { assert(ty[9] == 'e' && "payment.process"@[9] == 'r'); }
        assert(ty != "payment.processing"@) by { assert(ty[9] == 'e' && "payment.processing"@[9] == 'r'); }
        assert(ty != "payment.retry"@) by { assert(ty[8] == 'p' && "payment.retry"@[8] == 'r'); }
        assert(ty != "payment.settle"@) by { assert(ty[8] == 'p' && "payment.settle"@[8] == 's'); }
        assert(ty != "payment.success"@) by { assert(ty[8] == 'p' && "payment.success"@[8] == 's'); }
        assert(ty != "payment.completed"@) by { assert(ty[8] == 'p' && "payment.completed"@[8] == 'c'); }
        assert(ty != "payment.fail"@) by { assert(ty[8] == 'p' && "payment.fail"@[8] == 'f'); }
        assert(ty != "payment.failed"@) by { assert(ty[8] == 'p' && "payment.failed"@[8] == 'f'); }
        assert(ty != "payment.error"@) by { assert(ty[8] == 'p' && "payment.error"@[8] == 'e'); }
        assert(ty != "payment.cancel"@) by { assert(ty[8] == 'p' && "payment.cancel"@[8] == 'c'); }
        assert(ty != "payment.cancelled"@) by { assert(ty[8] == 'p' && "payment.cancelled"@[8] == 'c'); }
        assert(ty != "payment.reverse"@) by { assert(ty[8] == 'p' && "payment.reverse"@[8] == 'r'); }
        assert(ty != "payment.reversed"@) by { assert(ty[8] == 'p' && "payment.reversed"@[8] == 'r'); }
    }
    if ty == "payment.retry"@ {
        assert(ty != "payment.create"@) by { assert(ty[8] == 'r' && "payment.create"@[8] == 'c'); }
        assert(ty != "payment.process"@) by { assert(ty[8] == 'r' && "payment.process"@[8] == 'p'); }
        assert(ty != "payment.processing"@) by { assert(ty[8] == 'r' && "payment.processing"@[8] == 'p'); }
        assert(ty != "payment.pending"@) by { assert(ty[8] == 'r' && "payment.pending"@[8] == 'p'); }
        assert(ty != "payment.settle"@) by { assert(ty[8] == 'r' && "payment.settle"@[8] == 's'); }
        assert(ty != "payment.success"@) by { assert(ty[8] == 'r' && "payment.success"@[8] == 's'); }
        assert(ty != "payment.completed"@) by { assert(ty[8] == 'r' && "payment.completed"@[8] == 'c'); }
        assert(ty != "payment.fail"@) by { assert(ty[8] == 'r' && "payment.fail"@[8] == 'f'); }
        assert(ty != "payment.failed"@) by { assert(ty[8] == 'r' && "payment.failed"@[8] == 'f'); }
        assert(ty != "payment.error"@) by { assert(ty[8] == 'r' && "payment.error"@[8] == 'e'); }
        assert(ty != "payment.cancel"@) by { assert(ty[8] == 'r' && "payment.cancel"@[8] == 'c'); }
        assert(ty != "payment.cancelled"@) by { assert(ty[8] == 'r' && "payment.cancelled"@[8] == 'c'); }
        assert(ty != "payment.reverse"@) by { assert(ty[10] == 't' && "payment.reverse"@[10] == 'v'); }
        assert(ty != "payment.reversed"@) by { assert(ty[10] == 't' && "payment.reversed"@[10] == 'v'); }
    }
    if ty == "payment.settle"@ {
        assert(ty != "payment.create"@) by { assert(ty[8] == 's' && "payment.create"@[8] == 'c'); }
        assert(ty != "payment.process"@) by { assert(ty[8] == 's' && "payment.process"@[8] == 'p'); }
        assert(ty != "payment.processing"@) by { assert(ty[8] == 's' && "payment.processing"@[8] == 'p'); }
        assert(ty != "payment.pending"@) by { assert(ty[8] == 's' && "payment.pending"@[8] == 'p'); }
        assert(ty != "payment.retry"@) by { assert(ty[8] == 's' && "payment.retry"@[8] == 'r'); }
        assert(ty != "payment.success"@) by { assert(ty[9] == 'e' && "payment.success"@[9] == 'u'); }
        assert(ty != "payment.completed"@) by { assert(ty[8] == 's' && "payment.completed"@[8] == 'c'); }
        assert(ty != "payment.fail"@) by { assert(ty[8] == 's' && "payment.fail"@[8] == 'f'); }
        assert(ty != "payment.failed"@) by { assert(ty[8] == 's' && "payment.failed"@[8] == 'f'); }
        assert(ty != "payment.error"@) by { assert(ty[8] == 's' && "payment.error"@[8] == 'e'); }
        assert(ty != "payment.cancel"@) by { assert(ty[8] == 's' && "payment.cancel"@[8] == 'c'); }
        assert(ty != "payment.cancelled"@) by { assert(ty[8] == 's' && "payment.cancelled"@[8] == 'c'); }
        assert(ty != "payment.reverse"@) by { assert(ty[8] == 's' && "payment.reverse"@[8] == 'r'); }
        assert(ty != "payment.reversed"@) by { assert(ty[8] == 's' && "payment.reversed"@[8] == 'r'); }
    }
    if ty == "payment.success"@ {
        assert(ty != "payment.create"@) by { assert(ty[8] == 's' && "payment.create"@[8] == 'c'); }
        assert(ty != "payment.process"@) by { assert(ty[8] == 's' && "payment.process"@[8] == 'p'); }
        assert(ty != "payment.processing"@) by { assert(ty[8] == 's' && "payment.processing"@[8] == 'p'); }
        assert(ty != "payment.pending"@) by { assert(ty[8] == 's' && "payment.pending"@[8] == 'p'); }
        assert(ty != "payment.retry"@) by { assert(ty[8] == 's' && "payment.retry"@[8] == 'r'); }
        assert(ty != "payment.settle"@) by { assert(ty[9] == 'u' && "payment.settle"@[9] == 'e'); }
        assert(ty != "payment.completed"@) by { assert(ty[8] == 's' && "payment.completed"@[8] == 'c'); }
        assert(ty != "payment.fail"@) by { assert(ty[8] == 's' && "payment.fail"@[8] == 'f'); }
        assert(ty != "payment.failed"@) by { assert(ty[8] == 's' && "payment.failed"@[8] == 'f'); }
        assert(ty != "payment.error"@) by { assert(ty[8] == 's' && "payment.error"@[8] == 'e'); }
        assert(ty != "payment.cancel"@) by { assert(ty[8] == 's' && "payment.cancel"@[8] == 'c'); }
        assert(ty != "payment.cancelled"@) by { assert(ty[8] == 's' && "payment.cancelled"@[8] == 'c'); }
        assert(ty != "payment.reverse"@) by { assert(ty[8] == 's' && "payment.reverse"@[8] == 'r'); }
        assert(ty != "payment.reversed"@) by { assert(ty[8] == 's' && "payment.reversed"@[8] == 'r'); }
    }
    if ty == "payment.completed"@ {
        assert(ty != "payment.create"@) by { assert(ty[9] == 'o' && "payment.create"@[9] == 'r'); }
        assert(ty != "payment.process"@) by { assert(ty[8] == 'c' && "payment.process"@[8] == 'p'); }
        assert(ty != "payment.processing"@) by { assert(ty[8] == 'c' && "payment.processing"@[8] == 'p'); }
        assert(ty != "payment.pending"@) by { assert(ty[8] == 'c' && "payment.pending"@[8] == 'p'); }
        assert(ty != "payment.retry"@) by { assert(ty[8] == 'c' && "payment.retry"@[8] == 'r'); }
        assert(ty != "payment.settle"@) by { assert(ty[8] == 'c' && "payment.settle"@[8] == 's'); }
        assert(ty != "payment.success"@) by { assert(ty[8] == 'c' && "payment.success"@[8] == 's'); }
        assert(ty != "payment.fail"@) by { assert(ty[8] == 'c' && "payment.fail"@[8] == 'f'); }
        assert(ty != "payment.failed"@) by { assert(ty[8] == 'c' && "payment.failed"@[8] == 'f'); }
        assert(ty != "payment.error"@) by { assert(ty[8] == 'c' && "payment.error"@[8] == 'e'); }
        assert(ty != "payment.cancel"@) by { assert(ty[9] == 'o' && "payment.cancel"@[9] == 'a'); }
        assert(ty != "payment.cancelled"@) by { assert(ty[9] == 'o' && "payment.cancelled"@[9] == 'a'); }
        assert(ty != "payment.reverse"@) by { assert(ty[8] == 'c' && "payment.reverse"@[8] == 'r'); }
        assert(ty != "payment.reversed"@) by { assert(ty[8] == 'c' && "payment.reversed"@[8] == 'r'); }
    }
    if ty == "payment.fail"@ {
        assert(ty != "payment.create"@) by { assert(ty[8] == 'f' && "payment.create"@[8] == 'c'); }
        assert(ty != "payment.process"@) by { assert(ty[8] == 'f' && "payment.process"@[8] == 'p'); }
        assert(ty != "payment.processing"@) by { assert(ty[8] == 'f' && "payment.processing"@[8] == 'p'); }
        assert(ty != "payment.pending"@) by { assert(ty[8] == 'f' && "payment.pending"@[8] == 'p'); }
        assert(ty != "payment.retry"@) by { assert(ty[8] == 'f' && "payment.retry"@[8] == 'r'); }
        assert(ty != "payment.settle"@) by { assert(ty[8] == 'f' && "payment.settle"@[8] == 's'); }
        assert(ty != "payment.success"@) by { assert(ty[8] == 'f' && "payment.success"@[8] == 's'); }
        assert(ty != "payment.completed"@) by { assert(ty[8] == 'f' && "payment.completed"@[8] == 'c'); }
        assert(ty != "payment.failed"@) by { assert(ty.len() == 12 && "payment.failed"@.len() == 14); }
        assert(ty != "payment.error"@) by { assert(ty[8] == 'f' && "payment.error"@[8] == 'e'); }
        assert(ty != "payment.cancel"@) by { assert(ty[8] == 'f' && "payment.cancel"@[8] == 'c'); }
        assert(ty != "payment.cancelled"@) by { assert(ty[8] == 'f' && "payment.cancelled"@[8] == 'c'); }
        assert(ty != "payment.reverse"@) by { assert(ty[8] == 'f' && "payment.reverse"@[8] == 'r'); }
        assert(ty != "payment.reversed"@) by { assert(ty[8] == 'f' && "payment.reversed"@[8] == 'r'); }
    }
    if ty == "payment.failed"@ {
        assert(ty != "payment.create"@) by { assert(ty[8] == 'f' && "payment.create"@[8] == 'c'); }
        assert(ty != "payment.process"@) by { assert(ty[8] == 'f' && "payment.process"@[8] == 'p'); }
        assert(ty != "payment.processing"@) by { assert(ty[8] == 'f' && "payment.processing"@[8] == 'p'); }
        assert(ty != "payment.pending"@) by { assert(ty[8] == 'f' && "payment.pending"@[8] == 'p'); }
        assert(ty != "payment.retry"@) by { assert(ty[8] == 'f' && "payment.retry"@[8] == 'r'); }
        assert(ty != "payment.settle"@) by { assert(ty[8] == 'f' && "payment.settle"@[8] == 's'); }
        assert(ty != "payment.success"@) by { assert(ty[8] == 'f' && "payment.success"@[8] == 's'); }
        assert(ty != "payment.completed"@) by { assert(ty[8] == 'f' && "payment.completed"@[8] == 'c'); }
        assert(ty != "payment.fail"@) by { assert(ty.len() == 14 && "payment.fail"@.len() == 12); }
        assert(ty != "payment.error"@) by { assert(ty[8] == 'f' && "payment.error"@[8] == 'e'); }
        assert(ty != "payment.cancel"@) by { assert(ty[8] == 'f' && "payment.cancel"@[8] == 'c'); }
        assert(ty != "payment.cancelled"@) by { assert(ty[8] == 'f' && "payment.cancelled"@[8] == 'c'); }
        assert(ty != "payment.reverse"@) by { assert(ty[8] == 'f' && "payment.reverse"@[8] == 'r'); }
        assert(ty != "payment.reversed"@) by { assert(ty[8] == 'f' && "payment.reversed"@[8] == 'r'); }
    }
    if ty == "payment.error"@ {
        assert(ty != "payment.create"@) by { assert(ty[8] == 'e' && "payment.create"@[8] == 'c'); }
        assert(ty != "payment.process"@) by { assert(ty[8] == 'e' && "payment.process"@[8] == 'p'); }
        assert(ty != "payment.processing"@) by { assert(ty[8] == 'e' && "payment.processing"@[8] == 'p'); }
        assert(ty != "payment.pending"@) by { assert(ty[8] == 'e' && "payment.pending"@[8] == 'p'); }
        assert(ty != "payment.retry"@) by { assert(ty[8] == 'e' && "payment.retry"@[8] == 'r'); }
        assert(ty != "payment.settle"@) by { assert(ty[8] == 'e' && "payment.settle"@[8] == 's'); }
        assert(ty != "payment.success"@) by { assert(ty[8] == 'e' && "payment.success"@[8] == 's'); }
        assert(ty != "payment.completed"@) by { assert(ty[8] == 'e' && "payment.completed"@[8] == 'c'); }
        assert(ty != "payment.fail"@) by { assert(ty[8] == 'e' && "payment.fail"@[8] == 'f'); }
        assert(ty != "payment.failed"@) by { assert(ty[8] == 'e' && "payment.failed"@[8] == 'f'); }
        assert(ty != "payment.cancel"@) by { assert(ty[8] == 'e' && "payment.cancel"@[8] == 'c'); }
        assert(ty != "payment.cancelled"@) by { assert(ty[8] == 'e' && "payment.cancelled"@[8] == 'c'); }
        assert(ty != "payment.reverse"@) by { assert(ty[8] == 'e' && "payment.reverse"@[8] == 'r'); }
        assert(ty != "payment.reversed"@) by { assert(ty[8] == 'e' && "payment.reversed"@[8] == 'r'); }
    }
    if ty == "payment.cancel"@ {
        assert(ty != "payment.create"@) by { assert(ty[9] == 'a' && "payment.create"@[9] == 'r'); }
        assert(ty != "payment.process"@) by { assert(ty[8] == 'c' && "payment.process"@[8] == 'p'); }
        assert(ty != "payment.processing"@) by { assert(ty[8] == 'c' && "payment.processing"@[8] == 'p'); }
        assert(ty != "payment.pending"@) by { assert(ty[8] == 'c' && "payment.pending"@[8] == 'p'); }
        assert(ty != "payment.retry"@) by { assert(ty[8] == 'c' && "payment.retry"@[8] == 'r'); }
        assert(ty != "payment.settle"@) by { assert(ty[8] == 'c' && "payment.settle"@[8] == 's'); }
        assert(ty != "payment.success"@) by { assert(ty[8] == 'c' && "payment.success"@[8] == 's'); }
        assert(ty != "payment.completed"@) by { assert(ty[9] == 'a' && "payment.completed"@[9] == 'o'); }
        assert(ty != "payment.fail"@) by { assert(ty[8] == 'c' && "payment.fail"@[8] == 'f'); }
        assert(ty != "payment.failed"@) by { assert(ty[8] == 'c' && "payment.failed"@[8] == 'f'); }
        assert(ty != "payment.error"@) by { assert(ty[8] == 'c' && "payment.error"@[8] == 'e'); }
        assert(ty != "payment.cancelled"@) by { assert(ty.len() == 14 && "payment.cancelled"@.len() == 17); }
        assert(ty != "payment.reverse"@) by { assert(ty[8] == 'c' && "payment.reverse"@[8] == 'r'); }
        assert(ty != "payment.reversed"@) by { assert(ty[8] == 'c' && "payment.reversed"@[8] == 'r'); }
    }
    if ty == "payment.cancelled"@ {
        assert(ty != "payment.create"@) by { assert(ty[9] == 'a' && "payment.create"@[9] == 'r'); }
        assert(ty != "payment.process"@) by { assert(ty[8] == 'c' && "payment.process"@[8] == 'p'); }
        assert(ty != "payment.processing"@) by { assert(ty[8] == 'c' && "payment.processing"@[8] == 'p'); }
        assert(ty != "payment.pending"@) by { assert(ty[8] == 'c' && "payment.pending"@[8] == 'p'); }
        assert(ty != "payment.retry"@) by { assert(ty[8] == 'c' && "payment.retry"@[8] == 'r'); }
        assert(ty != "payment.settle"@) by { assert(ty[8] == 'c' && "payment.settle"@[8] == 's'); }
        assert(ty != "payment.success"@) by { assert(ty[8] == 'c' && "payment.success"@[8] == 's'); }
        assert(ty != "payment.completed"@) by { assert(ty[9] == 'a' && "payment.completed"@[9] == 'o'); }
        assert(ty != "payment.fail"@) by { assert(ty[8] == 'c' && "payment.fail"@[8] == 'f'); }
        assert(ty != "payment.failed"@) by { assert(ty[8] == 'c' && "payment.failed"@[8] == 'f'); }
        assert(ty != "payment.error"@) by { assert(ty[8] == 'c' && "payment.error"@[8] == 'e'); }
        assert(ty != "payment.cancel"@) by { assert(ty.len() == 17 && "payment.cancel"@.len() == 14); }
        assert(ty != "payment.reverse"@) by { assert(ty[8] == 'c' && "payment.reverse"@[8] == 'r'); }
        assert(ty != "payment.reversed"@) by { assert(ty[8] == 'c' && "payment.reversed"@[8] == 'r'); }
    }
    if ty == "payment.reverse"@ {
        assert(ty != "payment.create"@) by { assert(ty[8] == 'r' && "payment.create"@[8] == 'c'); }
        assert(ty != "payment.process"@) by { assert(ty[8] == 'r' && "payment.process"@[8] == 'p'); }
        assert(ty != "payment.processing"@) by { assert(ty[8] == 'r' && "payment.processing"@[8] == 'p'); }
        assert(ty != "payment.pending"@) by { assert(ty[8] == 'r' && "payment.pending"@[8] == 'p'); }
        assert(ty != "payment.retry"@) by { assert(ty[10] == 'v' && "payment.retry"@[10] == 't'); }
        assert(ty != "payment.settle"@) by { assert(ty[8] == 'r' && "payment.settle"@[8] == 's'); }
        assert(ty != "payment.success"@) by { assert(ty[8] == 'r' && "payment.success"@[8] == 's'); }
        assert(ty != "payment.completed"@) by { assert(ty[8] == 'r' && "payment.completed"@[8] == 'c'); }
        assert(ty != "payment.fail"@) by { assert(ty[8] == 'r' && "payment.fail"@[8] == 'f'); }
        assert(ty != "payment.failed"@) by { assert(ty[8] == 'r' && "payment.failed"@[8] == 'f'); }
        assert(ty != "payment.error"@) by { assert(ty[8] == 'r' && "payment.error"@[8] == 'e'); }
        assert(ty != "payment.cancel"@) by { assert(ty[8] == 'r' && "payment.cancel"@[8] == 'c'); }
        assert(ty != "payment.cancelled"@) by { assert(ty[8] == 'r' && "payment.cancelled"@[8] == 'c'); }
        assert(ty != "payment.reversed"@) by { assert(ty.len() == 15 && "payment.reversed"@.len() == 16); }
    }
    if ty == "payment.reversed"@ {
        assert(ty != "payment.create"@) by { assert(ty[8] == 'r' && "payment.create"@[8] == 'c'); }
        assert(ty != "payment.process"@) by { assert(ty[8] == 'r' && "payment.process"@[8] == 'p'); }
        assert(ty != "payment.processing"@) by { assert(ty[8] == 'r' && "payment.processing"@[8] == 'p'); }
        assert(ty != "payment.pending"@) by { assert(ty[8] == 'r' && "payment.pending"@[8] == 'p'); }
        assert(ty != "payment.retry"@) by { assert(ty[10] == 'v' && "payment.retry"@[10] == 't'); }
        assert(ty != "payment.settle"@) by { assert(ty[8] == 'r' && "payment.settle"@[8] == 's'); }
        assert(ty != "payment.success"@) by { assert(ty[8] == 'r' && "payment.success"@[8] == 's'); }
        assert(ty != "payment.completed"@) by { assert(ty[8] == 'r' && "payment.completed"@[8] == 'c'); }
        assert(ty != "payment.fail"@) by { assert(ty[8] == 'r' && "payment.fail"@[8] == 'f'); }
        assert(ty != "payment.failed"@) by { assert(ty[8] == 'r' && "payment.failed"@[8] == 'f'); }
        assert(ty != "payment.error"@) by { assert(ty[8] == 'r' && "payment.error"@[8] == 'e'); }
        assert(ty != "payment.cancel"@) by { assert(ty[8] == 'r' && "payment.cancel"@[8] == 'c'); }
        assert(ty != "payment.cancelled"@) by { assert(ty[8] == 'r' && "payment.cancelled"@[8] == 'c'); }
        assert(ty != "payment.reverse"@) by { assert(ty.len() == 16 && "payment.reverse"@.len() == 15); }
    }
}

} // verus!
