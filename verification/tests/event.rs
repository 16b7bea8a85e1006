use athar::event::{
    check_nonempty, get_pair, ActorRef, ActorRefWithAuthn, CallerRef, Causality, Clock, ClockSource, Coverage,
    DegradationLevel, EntityType, EntryPoint, EntryPointType, Event, EvidenceConflict, LifecycleBinding, LifecycleRef,
    Origin, Provenance, ResolutionStatus, ServiceIdentityRef, SCHEMA_VERSION, Trigger, Trust, TrustLevel, Truth,
    TruthStage, ValidationError,
};


fn party(id: Option<&str>) -> ActorRef {
    ActorRef {
        id: id.map(|s| s.to_string()),
        entity_type: Some(EntityType::User),
        namespace: None,
        resolution: ResolutionStatus::Unknown,
        calibration: None,
        conflicts: vec![],
    }
}

fn minimal_event() -> Event {
    Event {
        schema_version: "1.0".into(),
        event_id: "01J8F0Z0F0Z0F0Z0F0Z0F0Z0F0".into(),
        event_type: "http.request".into(),
        tenant_id: "tnt_demo".into(),
        timestamp: "2026-01-01T10:00:00.123456Z".into(),
        received_at: "2026-01-01T10:00:00.198000Z".into(),
        actor: None,
        authenticated_principal: None,
        caller: None,
        service_identity: None,
        lifecycle: None,
        entry_point: None,
        technical_context: None,
        clock: Clock { source: ClockSource::Shim, skew_estimate_ms: None, monotonic_seq: 1 },
        provenance: Provenance {
            origin: Origin::Unknown,
            trigger: Trigger::ApiRequest,
            source: "HTTP".into(),
            producer: None,
            authority: None,
        },
        truth: Truth { stage: TruthStage::Observed, asserted_by: "shim".into(), adapter: None },
        trust: Trust { level: TrustLevel::Unknown, calibration: None, factors: vec![] },
        coverage: Coverage { complete: true, shed: vec![], redacted_fields: vec![], degradation_level: None },
        on_behalf_of: None,
        beneficiary: None,
        resource_owner: None,
        resource: None,
        operation: None,
        causality: Causality { parent_event_id: None, causation_id: None, correlation_id: None, customer_correlation_ids: vec![] },
        data_text: vec![],
    }
}

#[test]
fn minimal_event_round_trips() {
    let e = minimal_event();
    e.validate().expect("validate");
    assert_eq!(e.schema_version, SCHEMA_VERSION);
    assert_eq!(e.tenant_id, "tnt_demo");
}

#[test]
fn empty_string_actor_id_rejected() {
    let mut e = minimal_event();
    e.actor = Some(party(Some("")));
    let err = e.validate().expect_err("must reject");
    assert!(matches!(err, ValidationError::EmptyStringForUnknown { field: "actor" }));
}

#[test]
fn reserved_unknown_token_rejected() {
    let mut e = minimal_event();
    e.actor = Some(party(Some("unknown")));
    let err = e.validate().expect_err("must reject");
    assert!(matches!(err, ValidationError::ReservedUnknownToken { field: "actor", .. }));
}

#[test]
fn schema_version_mismatch_rejected() {
    let mut e = minimal_event();
    e.schema_version = "0.9".into();
    let err = e.validate().expect_err("must reject");
    assert!(matches!(err, ValidationError::SchemaVersionMismatch { .. }));
    assert_eq!(err, ValidationError::SchemaVersionMismatch { expected: "1.0", got: "0.9".into() });
}

#[test]
fn required_fields_are_checked_in_order() {
    let mut e = minimal_event();
    e.event_type = "".into();
    e.tenant_id = "-".into();
    assert_eq!(e.validate(), Err(ValidationError::MissingRequired { field: "event_type" }));
    e.event_type = "x".into();
    assert_eq!(e.validate(), Err(ValidationError::ReservedUnknownToken { field: "tenant_id", value: "-".into() }));
}

#[test]
fn party_identifiers_are_checked() {
    let mut e = minimal_event();
    e.beneficiary = Some(party(Some("None")));
    assert_eq!(e.validate(), Err(ValidationError::ReservedUnknownToken { field: "beneficiary", value: "None".into() }));
    e.beneficiary = Some(party(None));
    assert_eq!(e.validate(), Ok(()));
    e.authenticated_principal = Some(ActorRefWithAuthn { actor: party(Some("")), auth_ref: None });
    assert_eq!(e.validate(), Err(ValidationError::EmptyStringForUnknown { field: "authenticated_principal" }));
}

#[test]
fn nonempty_and_reserved_tokens() {
    assert_eq!(check_nonempty("f", "ok"), Ok(()));
    assert_eq!(check_nonempty("f", ""), Err(ValidationError::MissingRequired { field: "f" }));
    for t in ["unknown", "UNKNOWN", "null", "None", "-"] {
        assert_eq!(check_nonempty("f", t), Err(ValidationError::ReservedUnknownToken { field: "f", value: t.into() }));
    }
    assert_eq!(check_nonempty("f", "Unknown"), Ok(()));
}

#[test]
fn pairs_lookup_first_match() {
    let pairs = vec![("a".to_string(), "1".to_string()), ("b".to_string(), "2".to_string())];
    assert_eq!(get_pair(&pairs, "b").map(|s| s.as_str()), Some("2"));
    assert_eq!(get_pair(&pairs, "c"), None);
}

#[test]
fn fully_populated_event_validates() {
    let mut e = minimal_event();
    e.actor = Some(party(Some("usr_1")));
    e.authenticated_principal = Some(ActorRefWithAuthn { actor: party(Some("usr_1")), auth_ref: Some("sess_9".into()) });
    e.caller = Some(CallerRef { application_id: Some("shop".into()), version: Some("4.2".into()), platform: None });
    e.service_identity = Some(ServiceIdentityRef { id: Some("svc_pay".into()), auth: None, spiffe_id: None });
    e.beneficiary = Some(ActorRef {
        conflicts: vec![EvidenceConflict { value: "acct_2".into(), source: "crm".into(), recorded_at: None }],
        ..party(Some("acct_1"))
    });
    e.lifecycle = Some(LifecycleRef { lifecycle_id: None, binding: LifecycleBinding::Unknown, calibration: None });
    e.entry_point = Some(EntryPoint {
        entry_type: EntryPointType::HttpEndpoint,
        endpoint_id: None,
        method: Some("POST".into()),
        route: Some("/pay".into()),
        route_template: Some("/pay".into()),
    });
    e.coverage.degradation_level = Some(DegradationLevel::L1);
    assert_eq!(e.validate(), Ok(()));
    // The principal's party is checked like the others, last.
    e.authenticated_principal = Some(ActorRefWithAuthn { actor: party(Some("null")), auth_ref: None });
    assert_eq!(
        e.validate(),
        Err(ValidationError::ReservedUnknownToken { field: "authenticated_principal", value: "null".into() })
    );
}
