use athar::detection::policy::{Action, PolicyEngine};
use athar::detection::signal::{SignalEngine, SignalEngineConfig, SignalKind};
use athar::event::{
    Causality, Clock, ClockSource, Coverage, Event, OperationInference, OperationRef, Origin, Provenance,
    ResourceRef, Trigger, Trust, TrustLevel, Truth, TruthStage,
};
use athar::governor::PressureLevel;
use athar::ingest::{
    admits_ingest, coverage_gap_payload, decide_event, format_rfc3339, now_rfc3339, outcome_lifecycle_id, unix_to_ymdhms,
    CoverageGapSummary, DropCounters,
};
use athar::lifecycle::engine::ApplyOutcome;
use athar::lifecycle::types::{Closure, InferenceTier, LateEventClass, LifecycleType, State};
use athar::text::{decimal_string, parse_hex_u64};

#[test]
fn drops_are_counted_and_taken_once() {
    let mut d = DropCounters::new();
    assert_eq!(d.take(), None);
    d.record_at(100, 5_000);
    d.record_at(50, 6_000);
    assert_eq!(d.take(), Some(CoverageGapSummary { frames: 2, bytes: 150, window_started_at_ms: 5_000 }));
    assert_eq!(d, DropCounters { frames: 0, bytes: 0, since_ms: 0 });
    assert_eq!(d.take(), None);
}

#[test]
fn drop_counters_wrap() {
    let mut d = DropCounters { frames: u64::MAX, bytes: u64::MAX, since_ms: 1 };
    d.record_at(2, 9);
    assert_eq!(d, DropCounters { frames: 0, bytes: 1, since_ms: 1 });
}

#[test]
fn first_drop_stamps_window_from_clock() {
    let mut d = DropCounters::new();
    d.record(10);
    let s = d.take().unwrap();
    assert_eq!(s.frames, 1);
    assert_eq!(s.bytes, 10);
    assert!(s.window_started_at_ms > 1_600_000_000_000);
}

#[test]
fn coverage_gap_payload_is_sorted_json() {
    let s = CoverageGapSummary { frames: 3, bytes: 1200, window_started_at_ms: 17 };
    assert_eq!(
        coverage_gap_payload(&s, 99),
        r#"{"bytes":1200,"cause":"L4_SAFE_MODE","frames":3,"kind":"coverage_gap","recorded_at_ms":99,"window_started_at_ms":17}"#
    );
}

#[test]
fn ingest_is_refused_only_in_safe_mode() {
    assert!(admits_ingest(PressureLevel::L0Normal));
    assert!(admits_ingest(PressureLevel::L3Essential));
    assert!(!admits_ingest(PressureLevel::L4SafeMode));
}

#[test]
fn unix_time_to_calendar() {
    assert_eq!(unix_to_ymdhms(0), (1970, 1, 1, 0, 0, 0));
    assert_eq!(unix_to_ymdhms(951_782_400), (2000, 2, 29, 0, 0, 0));
    assert_eq!(unix_to_ymdhms(1_789_381_800), (2026, 9, 14, 10, 30, 0));
    assert_eq!(unix_to_ymdhms(4_107_542_399), (2100, 2, 28, 23, 59, 59));
    assert_eq!(unix_to_ymdhms(4_107_542_400), (2100, 3, 1, 0, 0, 0));
}

#[test]
fn rfc3339_formatting() {
    assert_eq!(format_rfc3339(0, 0), "1970-01-01T00:00:00.000000Z");
    assert_eq!(format_rfc3339(1_789_381_800, 123), "2026-09-14T10:30:00.000123Z");
    let now = now_rfc3339();
    assert_eq!(now.len(), 27);
    assert!(now.ends_with('Z'));
    assert!(now.as_str() > "2024-01-01T00:00:00.000000Z");
}

fn ev() -> Event {
    Event {
        schema_version: "1.0".into(),
        event_id: "e1".into(),
        event_type: "payment.create".into(),
        tenant_id: "tnt".into(),
        timestamp: "t".into(),
        received_at: "t".into(),
        actor: None,
        authenticated_principal: None,
        caller: None,
        service_identity: None,
        lifecycle: None,
        entry_point: None,
        technical_context: None,
        clock: Clock { source: ClockSource::Shim, skew_estimate_ms: None, monotonic_seq: 1 },
        provenance: Provenance {
            origin: Origin::Unknown,
            trigger: Trigger::ApiRequest,
            source: "HTTP".into(),
            producer: None,
            authority: None,
        },
        truth: Truth { stage: TruthStage::Observed, asserted_by: "shim".into(), adapter: None },
        trust: Trust { level: TrustLevel::Unknown, calibration: None, factors: vec![] },
        coverage: Coverage { complete: true, shed: vec![], redacted_fields: vec![], degradation_level: None },
        on_behalf_of: None,
        beneficiary: None,
        resource_owner: None,
        resource: Some(ResourceRef { id: Some("pay_1".into()), resource_type: "payment".into(), namespace: None }),
        operation: Some(OperationRef { operation_id: Some("op_1".into()), operation_type: "payment".into(), inference: OperationInference::Explicit, calibration: None }),
        causality: Causality { parent_event_id: None, causation_id: None, correlation_id: None, customer_correlation_ids: vec![] },
        data_text: vec![],
    }
}

#[test]
fn detection_stage_builds_decision() {
    let mut se = SignalEngine::new(SignalEngineConfig::default());
    let pe = PolicyEngine::new();
    let d = decide_event(&mut se, &pe, &ev(), None, Some("lc_e1".into()), 1_000, PressureLevel::L1Reduce, 12);
    assert_eq!(d.signals_used.len(), 1);
    assert_eq!(d.signals_used[0].kind, SignalKind::NewBeneficiary);
    assert_eq!(d.signals_used[0].lifecycle_id.as_deref(), Some("lc_e1"));
    assert_eq!(d.signals_used[0].timestamp_ms, 1_000);
    assert_eq!(d.signals_used[0].tracker_version, "signal-engine-0.1.0");
    assert_eq!(d.action, Action::Allow);
    assert_eq!(d.degradation_level, "L1Reduce");
    assert_eq!(d.subject.operation_id.as_deref(), Some("op_1"));
    assert_eq!(d.subject.event_id, "e1");
    assert_eq!(d.explanation, "policy pol_default:v1 did not match; action ALLOW (1 signal(s) evaluated)");
    // The same resource again: no new-beneficiary signal.
    let d2 = decide_event(&mut se, &pe, &ev(), None, None, 2_000, PressureLevel::L0Normal, 1);
    assert!(d2.signals_used.is_empty());
    assert!(d2.subject.lifecycle_id.is_none());
}

#[test]
fn outcome_names_its_lifecycle() {
    let c = ApplyOutcome::Created { lifecycle_id: "lc_1".into(), lifecycle_type: LifecycleType::Payment, state: State::Started, closure: Closure::Open };
    let l = ApplyOutcome::LateEvent { lifecycle_id: "lc_2".into(), tier: InferenceTier::Causation, class: LateEventClass::Duplicate };
    assert_eq!(outcome_lifecycle_id(&c).as_deref(), Some("lc_1"));
    assert_eq!(outcome_lifecycle_id(&l).as_deref(), Some("lc_2"));
    assert_eq!(outcome_lifecycle_id(&ApplyOutcome::Unbound), None);
}

#[test]
fn text_helpers() {
    assert_eq!(decimal_string(0), "0");
    assert_eq!(decimal_string(18_446_744_073_709_551_615), "18446744073709551615");
    assert_eq!(parse_hex_u64(b"ff"), Some(255));
    assert_eq!(parse_hex_u64(b"+1A"), Some(26));
    assert_eq!(parse_hex_u64(b""), None);
    assert_eq!(parse_hex_u64(b"10000000000000000"), None);
}
