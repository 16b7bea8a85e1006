use athar::event::{
    Causality, Clock, ClockSource, Coverage, Event, OperationInference, OperationRef, Origin, Provenance,
    ResourceRef, Trigger, Trust, TrustLevel, Truth, TruthStage,
};
use athar::lifecycle::engine::{ApplyOutcome, LifecycleEngine};
use athar::lifecycle::scanner::StalenessScanner;
use athar::lifecycle::store::{InMemoryStore, LifecycleStore};
use athar::lifecycle::types::{
    closure_str, lct_str, staleness_for, state_str, Closure, InferenceTier, LateEventClass, Lifecycle, LifecycleType, State,
};

fn ev(kind: &str, id: &str, resource: Option<&str>) -> Event {
    Event {
        schema_version: "1.0".into(),
        event_id: id.into(),
        event_type: kind.into(),
        tenant_id: "tnt_test".into(),
        timestamp: "2026-09-14T10:00:00.000000Z".into(),
        received_at: "2026-09-14T10:00:00.000000Z".into(),
        actor: None,
        authenticated_principal: None,
        caller: None,
        service_identity: None,
        lifecycle: None,
        entry_point: None,
        technical_context: None,
        clock: Clock { source: ClockSource::Shim, skew_estimate_ms: None, monotonic_seq: 1 },
        provenance: Provenance {
            origin: Origin::Unknown,
            trigger: Trigger::ApiRequest,
            source: "HTTP".into(),
            producer: None,
            authority: None,
        },
        truth: Truth { stage: TruthStage::Observed, asserted_by: "shim".into(), adapter: None },
        trust: Trust { level: TrustLevel::Unknown, calibration: None, factors: vec![] },
        coverage: Coverage { complete: true, shed: vec![], redacted_fields: vec![], degradation_level: None },
        on_behalf_of: None,
        beneficiary: None,
        resource_owner: None,
        resource: resource.map(|r| ResourceRef { id: Some(r.into()), resource_type: "payment".into(), namespace: None }),
        operation: None,
        causality: Causality { parent_event_id: None, causation_id: None, correlation_id: None, customer_correlation_ids: vec![] },
        data_text: vec![],
    }
}

#[test]
fn happy_path_open_progress_close() {
    let mut store = InMemoryStore::new();
    let engine = LifecycleEngine::new();
    let created = engine.apply(&mut store, &ev("payment.create", "e1", Some("pay_1")), 1000);
    let lifecycle_id = match created {
        ApplyOutcome::Created { lifecycle_id, state: State::Started, closure: Closure::Open, .. } => lifecycle_id,
        other => panic!("expected Created, got {other:?}"),
    };
    engine.apply(&mut store, &ev("payment.process", "e2", Some("pay_1")), 2000);
    engine.apply(&mut store, &ev("payment.settle", "e3", Some("pay_1")), 3000);
    let lc = store.get(&lifecycle_id).unwrap();
    assert_eq!(lc.state, State::Success);
    assert_eq!(lc.closure, Closure::Closed);
    assert_eq!(lc.event_ids.len(), 3);
}

#[test]
fn late_event_after_closure_is_classified_not_applied() {
    let mut store = InMemoryStore::new();
    let engine = LifecycleEngine::new();
    engine.apply(&mut store, &ev("payment.create", "e1", Some("pay_2")), 1000);
    engine.apply(&mut store, &ev("payment.settle", "e2", Some("pay_2")), 2000);
    let outcome = engine.apply(&mut store, &ev("payment.fail", "e3", Some("pay_2")), 3000);
    assert!(matches!(outcome, ApplyOutcome::LateEvent { class: LateEventClass::Conflict, .. }));
    let id = store.find_by_resource("pay_2").unwrap();
    let lc = store.get(&id).unwrap();
    assert_eq!(lc.state, State::Success);
    assert_eq!(lc.closure, Closure::Closed);
    assert_eq!(lc.late_events.len(), 1);
}

#[test]
fn duplicate_event_id_classified_duplicate() {
    let mut store = InMemoryStore::new();
    let engine = LifecycleEngine::new();
    engine.apply(&mut store, &ev("payment.create", "e1", Some("pay_3")), 1000);
    engine.apply(&mut store, &ev("payment.settle", "e2", Some("pay_3")), 2000);
    let out = engine.apply(&mut store, &ev("payment.settle", "e2", Some("pay_3")), 3000);
    assert!(matches!(out, ApplyOutcome::LateEvent { class: LateEventClass::Duplicate, .. }));
}

#[test]
fn unrelated_event_is_unbound() {
    let mut store = InMemoryStore::new();
    let engine = LifecycleEngine::new();
    assert!(matches!(engine.apply(&mut store, &ev("http.request", "eX", None), 100), ApplyOutcome::Unbound));
    assert_eq!(store.count(), 0);
}

#[test]
fn stale_lifecycle_is_closed_with_uncertainty() {
    let mut store = InMemoryStore::new();
    let engine = LifecycleEngine::new();
    engine.apply(&mut store, &ev("payment.create", "e1", Some("pay_stale")), 0);
    engine.apply(&mut store, &ev("payment.process", "e2", Some("pay_stale")), 500);
    assert!(StalenessScanner::sweep(&mut store, 500 + 60 * 60 * 1000 - 1).is_empty());
    let r = StalenessScanner::sweep(&mut store, 500 + 60 * 60 * 1000);
    assert_eq!(r.len(), 1);
    assert_eq!(r[0].new_state, State::Timeout);
    let id = store.find_by_resource("pay_stale").unwrap();
    let lc = store.get(&id).unwrap();
    assert_eq!(lc.state, State::Timeout);
    assert_eq!(lc.closure, Closure::ClosedWithUncertainty);
}

#[test]
fn closed_lifecycles_not_re_swept() {
    let mut store = InMemoryStore::new();
    let engine = LifecycleEngine::new();
    engine.apply(&mut store, &ev("payment.create", "e1", Some("pay_c")), 0);
    engine.apply(&mut store, &ev("payment.settle", "e2", Some("pay_c")), 1000);
    assert!(StalenessScanner::sweep(&mut store, 10_000 + 60 * 60 * 1000).is_empty());
}

#[test]
fn unstarted_payment_times_out_as_abandoned() {
    let mut store = InMemoryStore::new();
    let engine = LifecycleEngine::new();
    engine.apply(&mut store, &ev("payment.create", "e1", Some("pay_a")), 0);
    let r = StalenessScanner::sweep(&mut store, 60 * 60 * 1000 + 1);
    assert_eq!(r.len(), 1);
    assert_eq!(r[0].was_state, State::Started);
    assert_eq!(r[0].new_state, State::Abandoned);
    assert_eq!(r[0].at_ms, 60 * 60 * 1000 + 1);
    assert_eq!(r[0].lifecycle_id, "lc_e1");
    assert_eq!(store.count_open(), 0);
    let lc = store.get("lc_e1").unwrap();
    assert_eq!(lc.closed_at_ms, Some(60 * 60 * 1000 + 1));
}

#[test]
fn created_lifecycle_carries_its_origin() {
    let mut store = InMemoryStore::new();
    let engine = LifecycleEngine::new();
    let out = engine.apply(&mut store, &ev("payment.create", "e1", Some("pay_9")), 77);
    assert_eq!(
        out,
        ApplyOutcome::Created {
            lifecycle_id: "lc_e1".into(),
            lifecycle_type: LifecycleType::Payment,
            state: State::Started,
            closure: Closure::Open
        }
    );
    let lc = store.get("lc_e1").unwrap();
    assert_eq!(lc.tenant_id, "tnt_test");
    assert_eq!(lc.resource_id.as_deref(), Some("pay_9"));
    assert_eq!(lc.started_at_ms, 77);
    assert_eq!(lc.staleness_ms, 3_600_000);
    assert_eq!(lc.tiers, vec![InferenceTier::ResourceId]);
    assert_eq!(store.find_by_event("e1").as_deref(), Some("lc_e1"));
}

#[test]
fn correlation_prefers_explicit_operation_id() {
    let mut store = InMemoryStore::new();
    let engine = LifecycleEngine::new();
    let mut first = ev("payment.create", "e1", Some("pay_op"));
    first.operation = Some(OperationRef { operation_id: Some("op_7".into()), operation_type: "payment".into(), inference: OperationInference::Explicit, calibration: None });
    engine.apply(&mut store, &first, 10);
    let mut second = ev("payment.process", "e2", None);
    second.operation = Some(OperationRef { operation_id: Some("op_7".into()), operation_type: "payment".into(), inference: OperationInference::Explicit, calibration: None });
    let out = engine.apply(&mut store, &second, 20);
    assert_eq!(
        out,
        ApplyOutcome::Updated {
            lifecycle_id: "lc_e1".into(),
            tier: InferenceTier::Explicit,
            state: State::Processing,
            closure: Closure::Open
        }
    );
}

#[test]
fn correlation_by_business_id_and_causation() {
    let mut store = InMemoryStore::new();
    let engine = LifecycleEngine::new();
    let mut first = ev("payment.create", "e1", None);
    first.causality.customer_correlation_ids = vec![("business_id".into(), "order_1".into())];
    let out = engine.apply(&mut store, &first, 10);
    assert!(matches!(out, ApplyOutcome::Created { .. }));
    assert_eq!(store.find_by_business_key("order_1").as_deref(), Some("lc_e1"));

    let mut second = ev("payment.pending", "e2", None);
    second.causality.customer_correlation_ids = vec![("business_id".into(), "order_1".into())];
    let out = engine.apply(&mut store, &second, 20);
    assert!(matches!(out, ApplyOutcome::Updated { tier: InferenceTier::BusinessId, state: State::Pending, .. }));

    let mut third = ev("payment.settle", "e3", None);
    third.causality.parent_event_id = Some("e2".into());
    let out = engine.apply(&mut store, &third, 30);
    assert!(matches!(out, ApplyOutcome::Updated { tier: InferenceTier::Causation, state: State::Success, closure: Closure::Closed, .. }));
    let lc = store.get("lc_e1").unwrap();
    assert_eq!(lc.closed_at_ms, Some(30));
    assert_eq!(lc.tiers, vec![InferenceTier::ResourceId, InferenceTier::BusinessId, InferenceTier::Causation]);
}

#[test]
fn late_event_without_transition_is_late_information() {
    let mut store = InMemoryStore::new();
    let engine = LifecycleEngine::new();
    engine.apply(&mut store, &ev("payment.create", "e1", Some("pay_l")), 0);
    engine.apply(&mut store, &ev("payment.cancel", "e2", Some("pay_l")), 1);
    let out = engine.apply(&mut store, &ev("payment.note", "e3", Some("pay_l")), 2);
    assert!(matches!(out, ApplyOutcome::LateEvent { class: LateEventClass::LateInformation, .. }));
    let out = engine.apply(&mut store, &ev("payment.cancelled", "e4", Some("pay_l")), 3);
    assert!(matches!(out, ApplyOutcome::LateEvent { class: LateEventClass::Amendment, .. }));
    let lc = store.get("lc_e1").unwrap();
    assert_eq!(lc.state, State::Cancelled);
    assert_eq!(lc.late_events.len(), 2);
    assert_eq!(lc.late_events[0].event_id, "e3");
    assert_eq!(lc.late_events[0].arrived_at_ms, 2);
}

#[test]
fn lifecycle_type_of_event_types() {
    assert_eq!(LifecycleType::from_event_type("payment.create"), Some(LifecycleType::Payment));
    assert_eq!(LifecycleType::from_event_type("payment."), Some(LifecycleType::Payment));
    assert_eq!(LifecycleType::from_event_type("payment"), None);
    assert_eq!(LifecycleType::from_event_type("login.fail"), None);
    assert!(State::Timeout.is_terminal());
    assert!(!State::Pending.is_terminal());
    assert!(Closure::ClosedWithException.is_closed());
    assert!(!Closure::Open.is_closed());
    assert_eq!(staleness_for(LifecycleType::Payment), 3_600_000);
    assert_eq!(state_str(State::PartiallyCompleted), "PartiallyCompleted");
    assert_eq!(closure_str(Closure::ClosedWithUncertainty), "ClosedWithUncertainty");
    assert_eq!(lct_str(LifecycleType::Payment), "Payment");
}

fn sample() -> Lifecycle {
    Lifecycle {
        id: "lc_sample".into(),
        tenant_id: "tnt_test".into(),
        lifecycle_type: LifecycleType::Payment,
        business_key: Some("op_1".into()),
        resource_id: Some("pay_1".into()),
        state: State::Started,
        closure: Closure::Open,
        started_at_ms: 1000,
        last_event_at_ms: 1000,
        closed_at_ms: None,
        event_ids: vec!["e1".into()],
        late_events: vec![],
        staleness_ms: 60_000,
        tiers: vec![InferenceTier::ResourceId],
    }
}

#[test]
fn in_memory_upsert_then_get_and_indexes() {
    let mut store = InMemoryStore::default();
    let lc = sample();
    store.upsert(&lc);
    let got = store.get("lc_sample").expect("present");
    assert_eq!(got, lc);
    assert_eq!(store.find_by_resource("pay_1"), Some("lc_sample".into()));
    assert_eq!(store.find_by_business_key("op_1"), Some("lc_sample".into()));
    assert_eq!(store.find_by_event("e1"), Some("lc_sample".into()));
    assert_eq!(store.find_by_resource("pay_missing"), None);
    assert!(store.get("lc_missing").is_none());
}

#[test]
fn in_memory_counts_follow_closure() {
    let mut store = InMemoryStore::new();
    let mut lc = sample();
    store.upsert(&lc);
    assert_eq!(store.count_open(), 1);
    lc.state = State::Success;
    lc.closure = Closure::Closed;
    lc.closed_at_ms = Some(2000);
    store.upsert(&lc);
    assert_eq!(store.count(), 1);
    assert_eq!(store.count_open(), 0);
}

#[test]
fn in_memory_rebinding_keeps_earlier_events() {
    let mut store = InMemoryStore::new();
    let mut lc = sample();
    lc.id = "lc_grow".into();
    store.upsert(&lc);
    lc.event_ids = vec!["e1".into(), "e2".into(), "e3".into()];
    store.upsert(&lc);
    assert_eq!(store.find_by_event("e1").as_deref(), Some("lc_grow"));
    assert_eq!(store.find_by_event("e3").as_deref(), Some("lc_grow"));
    store.record_event("e9", "lc_grow");
    assert_eq!(store.find_by_event("e9").as_deref(), Some("lc_grow"));
}

#[test]
fn in_memory_all_open_returns_only_open() {
    let mut store = InMemoryStore::new();
    let mut a = sample();
    a.id = "lc_a".into();
    a.resource_id = Some("res_a".into());
    a.business_key = None;
    store.upsert(&a);
    let mut b = sample();
    b.id = "lc_b".into();
    b.resource_id = Some("res_b".into());
    b.business_key = None;
    b.state = State::Success;
    b.closure = Closure::Closed;
    store.upsert(&b);
    let open = store.all_open();
    assert_eq!(open.len(), 1);
    assert_eq!(open[0].id, "lc_a");
}
