use athar::detection::config::{summarise, DetectionConfig, PolicyConfig, PolicyRule};
use athar::detection::decision::{
    generate_explanation, record_from_signal, record_from_signal_with_id, DecisionRecord, DecisionSubject, FailMode,
    SignalRecord,
};
use athar::detection::policy::{Action, PolicyEngine, PolicyMode};
use athar::detection::signal::{AmountCheck, CredentialStuffingConfig, Signal, SignalEngine, SignalEngineConfig, SignalKind};
use athar::detection::trackers::{TargetConfig, TargetTracker, VelocityConfig, VelocityTracker};
use athar::event::{
    ActorRef, Causality, Clock, ClockSource, Coverage, EntityType, Event, Origin, Provenance, ResolutionStatus,
    ResourceRef, Trigger, Trust, TrustLevel, Truth, TruthStage,
};


fn party(id: Option<&str>) -> ActorRef {
    ActorRef {
        id: id.map(|s| s.to_string()),
        entity_type: Some(EntityType::User),
        namespace: None,
        resolution: ResolutionStatus::Unknown,
        calibration: None,
        conflicts: vec![],
    }
}

fn sig(kind: SignalKind) -> Signal {
    Signal { kind, confidence_pct: 90, value: "x".into(), threshold: None }
}

fn ev(id: &str, resource: Option<&str>) -> Event {
    Event {
        schema_version: "1.0".into(),
        event_id: id.into(),
        event_type: "payment.create".into(),
        tenant_id: "tnt_test".into(),
        timestamp: "2026-09-14T10:00:00.000000Z".into(),
        received_at: "2026-09-14T10:00:00.000000Z".into(),
        actor: None,
        authenticated_principal: None,
        caller: None,
        service_identity: None,
        lifecycle: None,
        entry_point: None,
        technical_context: None,
        clock: Clock { source: ClockSource::Shim, skew_estimate_ms: None, monotonic_seq: 1 },
        provenance: Provenance {
            origin: Origin::Unknown,
            trigger: Trigger::ApiRequest,
            source: "HTTP".into(),
            producer: None,
            authority: None,
        },
        truth: Truth { stage: TruthStage::Observed, asserted_by: "shim".into(), adapter: None },
        trust: Trust { level: TrustLevel::Unknown, calibration: None, factors: vec![] },
        coverage: Coverage { complete: true, shed: vec![], redacted_fields: vec![], degradation_level: None },
        on_behalf_of: None,
        beneficiary: None,
        resource_owner: None,
        resource: resource.map(|r| ResourceRef { id: Some(r.into()), resource_type: "payment".into(), namespace: None }),
        operation: None,
        causality: Causality {
            parent_event_id: None,
            causation_id: None,
            correlation_id: None,
            customer_correlation_ids: vec![],
        },
        data_text: vec![],
    }
}

fn ev_of_type(event_type: &str, data: &[(&str, &str)]) -> Event {
    let mut e = ev("e_stuff", None);
    e.event_type = event_type.into();
    e.data_text = data.iter().map(|(k, v)| (k.to_string(), v.to_string())).collect();
    e.actor = Some(party(Some("actor_stuffer")));
    e
}

/// The caller-side amount comparison on floating-point values.
fn amount(a: f64, floor: f64) -> AmountCheck {
    AmountCheck { amount_text: format!("{a}"), floor_text: format!("{floor:.2}"), at_or_above_floor: a >= floor }
}

#[test]
fn matches_when_both_signals_present() {
    let engine = PolicyEngine::new();
    let d = engine.evaluate(&[sig(SignalKind::NewBeneficiary), sig(SignalKind::HighAmount)]);
    assert!(d.matched);
    assert_eq!(d.action, Action::Challenge);
    assert_eq!(d.mode, PolicyMode::Observe);
    assert!(d.reason_codes.contains(&"TARGET_NEW_BENEFICIARY_HIGH_AMOUNT".to_string()));
}

#[test]
fn no_match_with_just_one_signal() {
    let engine = PolicyEngine::new();
    let d = engine.evaluate(&[sig(SignalKind::HighAmount)]);
    assert!(!d.matched);
    assert_eq!(d.action, Action::Allow);
}

#[test]
fn deterministic_result() {
    let engine = PolicyEngine::new();
    let sigs = vec![sig(SignalKind::NewBeneficiary), sig(SignalKind::HighAmount)];
    let d1 = engine.evaluate(&sigs);
    let d2 = engine.evaluate(&sigs);
    assert_eq!(d1, d2);
}

#[test]
fn matches_on_high_velocity_alone() {
    let engine = PolicyEngine::new();
    let d = engine.evaluate(&[sig(SignalKind::HighVelocity)]);
    assert!(d.matched);
    assert_eq!(d.action, Action::Challenge);
    assert_eq!(d.policy_id, "pol_high_velocity");
    assert!(d.reason_codes.contains(&"VELOCITY_HIGH_RATE".to_string()));
}

#[test]
fn new_beneficiary_high_amount_takes_precedence_over_velocity() {
    let engine = PolicyEngine::new();
    let d = engine.evaluate(&[sig(SignalKind::NewBeneficiary), sig(SignalKind::HighAmount), sig(SignalKind::HighVelocity)]);
    assert_eq!(d.policy_id, "pol_new_beneficiary_high_amount");
}

#[test]
fn default_policy_allows_with_no_reason_codes() {
    let d = PolicyEngine::new().evaluate(&[]);
    assert_eq!(d.policy_id, "pol_default");
    assert_eq!(d.policy_version, 1);
    assert!(!d.matched);
    assert!(d.reason_codes.is_empty());
    assert_eq!(Action::Challenge.as_str(), "CHALLENGE");
    assert_eq!(PolicyMode::Enforce.as_str(), "ENFORCE");
}

#[test]
fn new_beneficiary_fires_once_per_resource() {
    let mut eng = SignalEngine::new(SignalEngineConfig::default());
    let s1 = eng.evaluate(&ev("e1", Some("pay_1")), None);
    assert_eq!(s1.len(), 1);
    assert_eq!(s1[0].kind, SignalKind::NewBeneficiary);
    assert_eq!(s1[0].value, "pay_1");
    let s2 = eng.evaluate(&ev("e2", Some("pay_1")), None);
    assert!(s2.is_empty(), "second event on same resource should NOT re-fire new_beneficiary");
}

#[test]
fn high_amount_fires_above_floor() {
    let mut eng = SignalEngine::new(SignalEngineConfig::default());
    let s = eng.evaluate(&ev("e1", None), Some(amount(5_000.0, 1_000.0)));
    assert!(s.iter().any(|x| x.kind == SignalKind::HighAmount));
    let ha = s.iter().find(|x| x.kind == SignalKind::HighAmount).unwrap();
    assert_eq!(ha.value, "amount=5000");
    assert_eq!(ha.threshold.as_deref(), Some(">=1000.00"));
    assert_eq!(ha.confidence_pct, 95);
    let s = eng.evaluate(&ev("e2", None), Some(amount(500.0, 1_000.0)));
    assert!(!s.iter().any(|x| x.kind == SignalKind::HighAmount));
}

#[test]
fn both_signals_can_fire_together() {
    let mut eng = SignalEngine::new(SignalEngineConfig::default());
    let s = eng.evaluate(&ev("e1", Some("pay_x")), Some(amount(10_000.0, 1_000.0)));
    assert_eq!(s.len(), 2);
}

#[test]
fn high_velocity_fires_after_threshold() {
    let cfg = SignalEngineConfig {
        velocity: VelocityConfig { window_ms: 60_000, threshold: 3, max_subjects: 100 },
        ..SignalEngineConfig::default()
    };
    let mut eng = SignalEngine::new(cfg);
    let mut fired_velocity_count = 0;
    for i in 0..5 {
        let sigs = eng.evaluate(&ev(&format!("e{i}"), Some(&format!("r{i}"))), None);
        if sigs.iter().any(|s| s.kind == SignalKind::HighVelocity) {
            fired_velocity_count += 1;
        }
    }
    assert_eq!(fired_velocity_count, 2, "expected HighVelocity on events 4 and 5");
}

#[test]
fn velocity_signal_text_at_fixed_time() {
    let cfg = SignalEngineConfig {
        velocity: VelocityConfig { window_ms: 60_000, threshold: 1, max_subjects: 100 },
        ..SignalEngineConfig::default()
    };
    let mut eng = SignalEngine::new(cfg);
    assert!(eng.evaluate_at(&ev("e1", None), None, 1_000).is_empty());
    let s = eng.evaluate_at(&ev("e2", None), None, 2_000);
    assert_eq!(s.len(), 1);
    assert_eq!(s[0].kind, SignalKind::HighVelocity);
    assert_eq!(s[0].value, "subject=tnt_test count=2 window_ms=60000");
    assert_eq!(s[0].threshold.as_deref(), Some(">1"));
}

#[test]
fn credential_stuffing_fires_on_event_type_match() {
    let cfg = SignalEngineConfig {
        credential_stuffing: CredentialStuffingConfig {
            event_types: vec!["login.fail".into()],
            outcome_field: "".into(),
            outcome_failed_values: vec![],
            window_ms: 60_000,
            threshold: 3,
            max_subjects: 100,
        },
        velocity: VelocityConfig { window_ms: 60_000, threshold: 10_000, max_subjects: 100 },
        ..SignalEngineConfig::default()
    };
    let mut eng = SignalEngine::new(cfg);
    let mut fired = 0;
    for _ in 0..5 {
        let sigs = eng.evaluate(&ev_of_type("login.fail", &[]), None);
        if sigs.iter().any(|s| s.kind == SignalKind::CredentialStuffingPattern) {
            fired += 1;
        }
    }
    assert_eq!(fired, 2, "events 4 and 5 both exceed threshold 3");
}

#[test]
fn credential_stuffing_fires_on_outcome_field_match() {
    let cfg = SignalEngineConfig {
        credential_stuffing: CredentialStuffingConfig {
            event_types: vec![],
            outcome_field: "outcome".into(),
            outcome_failed_values: vec!["failed".into()],
            window_ms: 60_000,
            threshold: 2,
            max_subjects: 100,
        },
        velocity: VelocityConfig { window_ms: 60_000, threshold: 10_000, max_subjects: 100 },
        ..SignalEngineConfig::default()
    };
    let mut eng = SignalEngine::new(cfg);
    for _ in 0..3 {
        eng.evaluate(&ev_of_type("login.attempt", &[("outcome", "failed")]), None);
    }
    let sigs = eng.evaluate(&ev_of_type("login.attempt", &[("outcome", "failed")]), None);
    assert!(sigs.iter().any(|s| s.kind == SignalKind::CredentialStuffingPattern));
}

#[test]
fn credential_stuffing_does_not_fire_on_successful_logins() {
    let cfg = SignalEngineConfig {
        credential_stuffing: CredentialStuffingConfig {
            event_types: vec!["login.fail".into()],
            outcome_field: "outcome".into(),
            outcome_failed_values: vec!["failed".into()],
            window_ms: 60_000,
            threshold: 2,
            max_subjects: 100,
        },
        velocity: VelocityConfig { window_ms: 60_000, threshold: 10_000, max_subjects: 100 },
        ..SignalEngineConfig::default()
    };
    let mut eng = SignalEngine::new(cfg);
    for _ in 0..10 {
        let sigs = eng.evaluate(&ev_of_type("login.success", &[("outcome", "ok")]), None);
        assert!(!sigs.iter().any(|s| s.kind == SignalKind::CredentialStuffingPattern));
    }
}

#[test]
fn credential_stuffing_qualification() {
    let c = CredentialStuffingConfig::default();
    assert!(c.qualifies(&ev_of_type("auth.fail", &[])));
    assert!(c.qualifies(&ev_of_type("login.attempt", &[("outcome", "unauthorized")])));
    assert!(!c.qualifies(&ev_of_type("login.attempt", &[("outcome", "ok")])));
    assert!(!c.qualifies(&ev_of_type("login.attempt", &[])));
    let v = c.as_velocity();
    assert_eq!((v.window_ms, v.threshold, v.max_subjects), (60_000, 5, 10_000));
}

#[test]
fn record_from_signal_carries_evidence() {
    let sig = Signal {
        kind: SignalKind::HighAmount,
        confidence_pct: 95,
        value: "amount=5000".into(),
        threshold: Some(">=1000.00".into()),
    };
    let r = record_from_signal(&sig, "tnt_t", "e1", Some("lc_1"), 1000, "v1");
    assert!(r.signal_id.starts_with("sig_"));
    assert_eq!(r.signal_id.len(), 30);
    assert_eq!(r.event_id, "e1");
    assert_eq!(r.lifecycle_id.as_deref(), Some("lc_1"));
    assert_eq!(r.kind, SignalKind::HighAmount);
    assert_eq!(r.tracker_version, "v1");
}

#[test]
fn fresh_ids_differ() {
    let s = sig(SignalKind::HighVelocity);
    let a = record_from_signal(&s, "t", "e", None, 1, "v");
    let b = record_from_signal(&s, "t", "e", None, 1, "v");
    assert_ne!(a.signal_id, b.signal_id);
}

fn record(kind: SignalKind, value: &str, pct: u32) -> SignalRecord {
    let s = Signal { kind, confidence_pct: pct, value: value.into(), threshold: None };
    record_from_signal_with_id(&s, "sig_1".into(), "tnt", "e1", None, 5, "signal-engine-0.1.0")
}

#[test]
fn explanation_of_a_match_lists_signals_and_codes() {
    let p = PolicyEngine::new().evaluate(&[sig(SignalKind::NewBeneficiary), sig(SignalKind::HighAmount)]);
    let recs = vec![record(SignalKind::NewBeneficiary, "pay_1", 85), record(SignalKind::HighAmount, "amount=5000", 95)];
    assert_eq!(
        generate_explanation(&p, &recs),
        "policy pol_new_beneficiary_high_amount:v1 matched in OBSERVE mode → CHALLENGE. Signals: \
         [new_beneficiary=pay_1 (conf 0.85), high_amount=amount=5000 (conf 0.95)]. \
         Reason codes: [TARGET_NEW_BENEFICIARY_HIGH_AMOUNT]."
    );
}

#[test]
fn explanation_of_no_match_counts_signals() {
    let p = PolicyEngine::new().evaluate(&[]);
    let recs = vec![record(SignalKind::HighAmount, "amount=5", 5)];
    assert_eq!(generate_explanation(&p, &recs), "policy pol_default:v1 did not match; action ALLOW (1 signal(s) evaluated)");
}

#[test]
fn decision_record_is_built_from_policy() {
    let p = PolicyEngine::new().evaluate(&[sig(SignalKind::HighVelocity)]);
    let recs = vec![record(SignalKind::HighVelocity, "subject=a count=11 window_ms=60000", 90)];
    let subject = DecisionSubject { lifecycle_id: Some("lc_1".into()), event_id: "e1".into(), operation_id: None };
    let d = DecisionRecord::build("tnt", subject.clone(), p, recs, 42, "L0Normal", 7);
    assert!(d.decision_id.starts_with("dec_"));
    assert_eq!(d.decision_id.len(), 30);
    assert_eq!(d.timestamp_ms, 42);
    assert_eq!(d.subject, subject);
    assert_eq!(d.action, Action::Challenge);
    assert_eq!(d.mode, PolicyMode::Observe);
    assert_eq!(d.fail_mode, FailMode::Open);
    assert_eq!(d.reason_codes, vec!["VELOCITY_HIGH_RATE".to_string()]);
    assert_eq!(d.degradation_level, "L0Normal");
    assert_eq!(d.latency_us, 7);
    assert_eq!(d.engine_versions.detector, "signal-engine-0.1.0");
    assert_eq!(d.engine_versions.policy, "policy-engine-0.1.0");
    assert_eq!(d.engine_versions.resolver, "lifecycle-engine-0.1.0");
    assert!(d.inputs_missing.is_empty() && d.coverage_gaps_overlapping.is_empty());
    assert_eq!(FailMode::Closed.as_str(), "CLOSED");
}

#[test]
fn default_config_enables_all_policies_in_observe() {
    let c = DetectionConfig::default();
    let rule = PolicyRule { enabled: true, mode: PolicyMode::Observe, fail_mode: FailMode::Open };
    assert_eq!(c.policies, PolicyConfig::default());
    assert_eq!(c.policies.high_amount_new_beneficiary, rule);
    assert_eq!(c.policies.credential_stuffing, rule);
    assert_eq!(c.signals.amount_field, "amount");
    assert_eq!(c.signals.velocity.threshold, 10);
}

#[test]
fn summary_of_policies() {
    let mut p = PolicyConfig::default();
    assert_eq!(summarise(&p), "hi_amt_new_ben={on:OBSERVE:OPEN} hi_vel={on:OBSERVE:OPEN} dist_tgt={on:OBSERVE:OPEN}");
    p.high_velocity = PolicyRule { enabled: false, mode: PolicyMode::Challenge, fail_mode: FailMode::Closed };
    assert_eq!(summarise(&p), "hi_amt_new_ben={on:OBSERVE:OPEN} hi_vel={off:CHALLENGE:CLOSED} dist_tgt={on:OBSERVE:OPEN}");
}

fn ev_with_beneficiary(id: &str, resource: Option<&str>, beneficiary: &str) -> Event {
    let mut e = ev(id, resource);
    e.beneficiary = Some(party(Some(beneficiary)));
    e.actor = Some(party(Some("actor_alpha")));
    e
}

#[test]
fn distinct_targets_fires_after_threshold() {
    // Threshold 3: the 4th distinct beneficiary from the same actor fires.
    let cfg = SignalEngineConfig {
        targets: TargetConfig { window_ms: 60 * 60 * 1000, threshold: 3, max_subjects: 100, max_targets_per_subject: 100 },
        velocity: VelocityConfig { window_ms: 60_000, threshold: 10_000, max_subjects: 100 },
        ..SignalEngineConfig::default()
    };
    let mut eng = SignalEngine::new(cfg);
    let mut fired = 0;
    for i in 0..6 {
        let sigs = eng.evaluate(
            &ev_with_beneficiary(&format!("e{i}"), Some(&format!("pay_{i}")), &format!("ben_{i}")),
            None,
        );
        if sigs.iter().any(|s| s.kind == SignalKind::DistinctTargets) {
            fired += 1;
        }
    }
    // Events 4, 5, 6 have 4, 5, 6 distinct beneficiaries respectively, all > 3.
    assert_eq!(fired, 3);
}

#[test]
fn distinct_targets_does_not_fire_without_beneficiary() {
    let cfg = SignalEngineConfig {
        targets: TargetConfig { window_ms: 60 * 60 * 1000, threshold: 1, max_subjects: 100, max_targets_per_subject: 100 },
        ..SignalEngineConfig::default()
    };
    let mut eng = SignalEngine::new(cfg);
    // The event has no beneficiary: DistinctTargets does not fire, whatever the threshold.
    let sigs = eng.evaluate(&ev("e1", Some("pay_1")), None);
    assert!(!sigs.iter().any(|s| s.kind == SignalKind::DistinctTargets));
}

#[test]
fn distinct_targets_signal_text_and_repeat_target() {
    let cfg = SignalEngineConfig {
        targets: TargetConfig { window_ms: 10_000, threshold: 1, max_subjects: 100, max_targets_per_subject: 100 },
        velocity: VelocityConfig { window_ms: 60_000, threshold: 10_000, max_subjects: 100 },
        ..SignalEngineConfig::default()
    };
    let mut eng = SignalEngine::new(cfg);
    assert!(eng.evaluate_at(&ev_with_beneficiary("e1", None, "ben_a"), None, 1_000).is_empty());
    // The same beneficiary again is still one distinct target.
    assert!(eng.evaluate_at(&ev_with_beneficiary("e2", None, "ben_a"), None, 2_000).is_empty());
    let s = eng.evaluate_at(&ev_with_beneficiary("e3", None, "ben_b"), None, 3_000);
    assert_eq!(s.len(), 1);
    assert_eq!(s[0].kind, SignalKind::DistinctTargets);
    assert_eq!(s[0].value, "subject=actor_alpha distinct_targets=2 window_ms=10000");
    assert_eq!(s[0].threshold.as_deref(), Some(">1"));
    // Once the window has passed, the earlier targets no longer count.
    assert!(eng.evaluate_at(&ev_with_beneficiary("e4", None, "ben_c"), None, 20_000).is_empty());
}

#[test]
fn target_tracker_bounds_targets_and_subjects() {
    let mut t = TargetTracker::new(TargetConfig { window_ms: 1_000_000, threshold: 0, max_subjects: 2, max_targets_per_subject: 2 });
    assert_eq!(t.observe("s1", "a", 1), Some(1));
    assert_eq!(t.observe("s1", "b", 2), Some(2));
    // A third target at the per-subject bound drops the least-recently-seen one.
    assert_eq!(t.observe("s1", "c", 3), Some(2));
    assert_eq!(t.observe("s2", "a", 4), Some(1));
    assert_eq!(t.subject_count(), 2);
    // A new subject at capacity evicts the least-recently-active one (s1).
    assert_eq!(t.observe("s3", "a", 5), Some(1));
    assert_eq!(t.subject_count(), 2);
    assert_eq!(t.observe("s1", "z", 6), Some(1));
}

#[test]
fn velocity_tracker_eviction_by_case() {
    let mut t = VelocityTracker::new(VelocityConfig { window_ms: 1_000_000, threshold: 100, max_subjects: 2 });
    t.observe("a", 1);
    t.observe("b", 2);
    assert_eq!(t.subject_count(), 2);
    // A tracked subject keeps the count and evicts nobody.
    t.observe("a", 3);
    assert_eq!(t.subject_count(), 2);
    assert!(t.is_tracking("a") && t.is_tracking("b"));
    // A new subject at capacity evicts the least recent one (b).
    t.observe("c", 4);
    assert_eq!(t.subject_count(), 2);
    assert!(t.is_tracking("a") && t.is_tracking("c") && !t.is_tracking("b"));
}

#[test]
fn distinct_targets_policy_challenges() {
    let d = PolicyEngine::new().evaluate(&[sig(SignalKind::DistinctTargets)]);
    assert!(d.matched);
    assert_eq!(d.action, Action::Challenge);
    assert_eq!(d.mode, PolicyMode::Observe);
    assert_eq!(d.policy_id, "pol_distinct_targets");
    assert_eq!(d.reason_codes, vec!["TARGET_DISTINCT_HIGH".to_string()]);
}

#[test]
fn credential_stuffing_policy_challenges() {
    let d = PolicyEngine::new().evaluate(&[sig(SignalKind::CredentialStuffingPattern)]);
    assert!(d.matched);
    assert_eq!(d.action, Action::Challenge);
    assert_eq!(d.policy_id, "pol_credential_stuffing");
    assert_eq!(d.reason_codes, vec!["AUTH_CREDENTIAL_STUFFING".to_string()]);
}

#[test]
fn disabled_rule_and_mode_override_are_read_from_config() {
    let mut config = PolicyConfig::default();
    config.high_velocity.enabled = false;
    config.distinct_targets.mode = PolicyMode::Enforce;
    let engine = PolicyEngine::with_config(config);
    assert_eq!(engine.config(), config);
    // Velocity alone no longer matches.
    let d = engine.evaluate(&[sig(SignalKind::HighVelocity)]);
    assert!(!d.matched);
    assert_eq!(d.action, Action::Allow);
    assert_eq!(d.policy_id, "pol_default");
    // With velocity disabled, distinct targets is the first match, in its configured mode.
    let d = engine.evaluate(&[sig(SignalKind::HighVelocity), sig(SignalKind::DistinctTargets)]);
    assert_eq!(d.policy_id, "pol_distinct_targets");
    assert_eq!(d.mode, PolicyMode::Enforce);
    assert_eq!(d.action, Action::Challenge);
}
