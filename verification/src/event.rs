//! The parts of a canonical event that the runtime's logic reads, as plain
//! values, and the structural checks run on every event at ingest. Decoding
//! the wire JSON (and the numeric fields, which are floating point) is the
//! caller's side.

use vstd::prelude::*;
use crate::text::{str_eq};

verus! {

pub const SCHEMA_VERSION: &'static str = "1.0";

/// Where an event's clock readings come from.
#[derive(Debug, Clone, Copy, PartialEq, Eq)]
pub enum ClockSource {
    Host,
    Shim,
    Adapter,
}

/// The clock an event was stamped with.
#[derive(Debug, Clone, PartialEq, Eq)]
pub struct Clock {
    pub source: ClockSource,
    pub skew_estimate_ms: Option<i64>,
    pub monotonic_seq: u64,
}

/// How firmly an identity was resolved.
#[derive(Debug, Clone, Copy, PartialEq, Eq)]
pub enum ResolutionStatus {
    Verified,
    Probable,
    Possible,
    Unknown,
    Conflicted,
    Revoked,
}

/// Whether a confidence value has been calibrated.
#[derive(Debug, Clone, Copy, PartialEq, Eq)]
pub enum Calibration {
    NominalUnvalidated,
    Calibrated,
}

/// The kind of a party.
#[derive(Debug, Clone, Copy, PartialEq, Eq)]
pub enum EntityType {
    User,
    Service,
    Agent,
    System,
    External,
    Unknown,
}

/// One piece of evidence that conflicts with a resolved identity, kept
/// alongside it.
#[derive(Debug, Clone, PartialEq, Eq)]
pub struct EvidenceConflict {
    pub value: String,
    pub source: String,
    pub recorded_at: Option<String>,
}

/// A party to an event (actor, beneficiary, ...). Its confidence, a
/// floating-point value, is kept by the caller.
#[derive(Debug, Clone, PartialEq, Eq)]
pub struct ActorRef {
    pub id: Option<String>,
    pub entity_type: Option<EntityType>,
    pub namespace: Option<String>,
    pub resolution: ResolutionStatus,
    pub calibration: Option<Calibration>,
    pub conflicts: Vec<EvidenceConflict>,
}

/// The authenticated principal: a party and the reference to how it
/// authenticated.
#[derive(Debug, Clone, PartialEq, Eq)]
pub struct ActorRefWithAuthn {
    pub actor: ActorRef,
    pub auth_ref: Option<String>,
}

/// The application that called in.
#[derive(Debug, Clone, PartialEq, Eq)]
pub struct CallerRef {
    pub application_id: Option<String>,
    pub version: Option<String>,
    pub platform: Option<String>,
}

/// The workload identity of a calling service.
#[derive(Debug, Clone, PartialEq, Eq)]
pub struct ServiceIdentityRef {
    pub id: Option<String>,
    pub auth: Option<String>,
    pub spiffe_id: Option<String>,
}

/// The resource an event is about.
#[derive(Debug, Clone, PartialEq, Eq)]
pub struct ResourceRef {
    pub id: Option<String>,
    pub resource_type: String,
    pub namespace: Option<String>,
}

/// How an event was tied to its business operation.
#[derive(Debug, Clone, Copy, PartialEq, Eq)]
pub enum OperationInference {
    Explicit,
    BusinessId,
    Causation,
    ResourceId,
    ActorContext,
    Semantic,
    Temporal,
    Unknown,
}

/// The business operation an event belongs to. Its confidence, a
/// floating-point value, is kept by the caller.
#[derive(Debug, Clone, PartialEq, Eq)]
pub struct OperationRef {
    pub operation_id: Option<String>,
    pub operation_type: String,
    pub inference: OperationInference,
    pub calibration: Option<Calibration>,
}

/// How an event was bound to a lifecycle.
#[derive(Debug, Clone, Copy, PartialEq, Eq)]
pub enum LifecycleBinding {
    Explicit,
    BusinessId,
    Causation,
    ResourceId,
    ActorContext,
    Semantic,
    Temporal,
    Unknown,
}

/// The lifecycle an event claims to belong to. Its confidence, a
/// floating-point value, is kept by the caller.
#[derive(Debug, Clone, PartialEq, Eq)]
pub struct LifecycleRef {
    pub lifecycle_id: Option<String>,
    pub binding: LifecycleBinding,
    pub calibration: Option<Calibration>,
}

/// The kind of entry point an event came in through.
#[derive(Debug, Clone, Copy, PartialEq, Eq)]
pub enum EntryPointType {
    HttpEndpoint,
    Queue,
    Scheduler,
    Cli,
    Webhook,
    Internal,
    Unknown,
}

/// The entry point an event came in through.
#[derive(Debug, Clone, PartialEq, Eq)]
pub struct EntryPoint {
    pub entry_type: EntryPointType,
    pub endpoint_id: Option<String>,
    pub method: Option<String>,
    pub route: Option<String>,
    pub route_template: Option<String>,
}

/// Where in the customer's deployment an event was produced.
#[derive(Debug, Clone, PartialEq, Eq)]
pub struct TechnicalContext {
    pub application_id: Option<String>,
    pub application_version: Option<String>,
    pub platform: Option<String>,
    pub module: Option<String>,
    pub feature: Option<String>,
    pub service_id: Option<String>,
    pub service_version: Option<String>,
    pub repository: Option<String>,
    pub build: Option<String>,
    pub deployment_id: Option<String>,
    pub instance_id: Option<String>,
    pub environment: Option<String>,
}

/// Who or what set the action in motion.
#[derive(Debug, Clone, Copy, PartialEq, Eq)]
pub enum Origin {
    Human,
    System,
    External,
    Scheduled,
    Automated,
    Unknown,
}

/// What triggered the event.
#[derive(Debug, Clone, Copy, PartialEq, Eq)]
pub enum Trigger {
    UserAction,
    ApiRequest,
    BackgroundJob,
    Queue,
    Scheduler,
    Webhook,
    Polling,
    DatabaseChange,
    SystemRule,
    ExternalProcessor,
    Reconciliation,
    ManualAdminAction,
    Unknown,
}

/// Origin, trigger, source, producer and authority, kept apart.
#[derive(Debug, Clone, PartialEq, Eq)]
pub struct Provenance {
    pub origin: Origin,
    pub trigger: Trigger,
    pub source: String,
    pub producer: Option<String>,
    pub authority: Option<String>,
}

/// How far along the path to business truth an event is.
#[derive(Debug, Clone, Copy, PartialEq, Eq)]
pub enum TruthStage {
    Observed,
    Executed,
    Authorized,
    Committed,
    Approved,
    Signed,
    Audited,
    Authoritative,
    Inferred,
    Uncertain,
}

/// The truth stage of an event and who asserted it.
#[derive(Debug, Clone, PartialEq, Eq)]
pub struct Truth {
    pub stage: TruthStage,
    pub asserted_by: String,
    pub adapter: Option<String>,
}

/// How far an event can be trusted.
#[derive(Debug, Clone, Copy, PartialEq, Eq)]
pub enum TrustLevel {
    Verified,
    Probable,
    Possible,
    Unknown,
    Conflicted,
}

/// The trust placed in an event. Its confidence, a floating-point value, is
/// kept and range-checked by the caller.
#[derive(Debug, Clone, PartialEq, Eq)]
pub struct Trust {
    pub level: TrustLevel,
    pub calibration: Option<Calibration>,
    pub factors: Vec<String>,
}

/// Causal links of an event. `customer_correlation_ids` holds distinct keys.
#[derive(Debug, Clone, PartialEq, Eq)]
pub struct Causality {
    pub parent_event_id: Option<String>,
    pub causation_id: Option<String>,
    pub correlation_id: Option<String>,
    pub customer_correlation_ids: Vec<(String, String)>,
}

/// The runtime's degradation level when an event was captured.
#[derive(Debug, Clone, Copy, PartialEq, Eq)]
pub enum DegradationLevel {
    L0,
    L1,
    L2,
    L3,
    L4,
}

/// What an event is known to be missing: shed work and redacted fields.
#[derive(Debug, Clone, PartialEq, Eq)]
pub struct Coverage {
    pub complete: bool,
    pub shed: Vec<String>,
    pub redacted_fields: Vec<String>,
    pub degradation_level: Option<DegradationLevel>,
}

/// A canonical event. Its free-form `data` and `attributes` objects are
/// decoded by the caller; `data_text` holds the top-level fields of `data`
/// whose values are strings.
#[derive(Debug, Clone, PartialEq, Eq)]
pub struct Event {
    pub schema_version: String,
    pub event_id: String,
    pub event_type: String,
    pub tenant_id: String,
    pub timestamp: String,
    pub received_at: String,
    pub clock: Clock,
    pub actor: Option<ActorRef>,
    pub authenticated_principal: Option<ActorRefWithAuthn>,
    pub caller: Option<CallerRef>,
    pub service_identity: Option<ServiceIdentityRef>,
    pub on_behalf_of: Option<ActorRef>,
    pub beneficiary: Option<ActorRef>,
    pub resource_owner: Option<ActorRef>,
    pub resource: Option<ResourceRef>,
    pub operation: Option<OperationRef>,
    pub lifecycle: Option<LifecycleRef>,
    pub entry_point: Option<EntryPoint>,
    pub technical_context: Option<TechnicalContext>,
    pub provenance: Provenance,
    pub truth: Truth,
    pub trust: Trust,
    pub causality: Causality,
    pub coverage: Coverage,
    pub data_text: Vec<(String, String)>,
}

/// Structural validation failures. `field` names the offending field.
#[derive(Debug, Clone, PartialEq, Eq)]
pub enum ValidationError {
    SchemaVersionMismatch { expected: &'static str, got: String },
    MissingRequired { field: &'static str },
    EmptyStringForUnknown { field: &'static str },
    ReservedUnknownToken { field: &'static str, value: String },
}

/// A validation failure as plain values.
pub enum ValidationErrorView {
    SchemaVersionMismatch { expected: Seq<char>, got: Seq<char> },
    MissingRequired { field: Seq<char> },
    EmptyStringForUnknown { field: Seq<char> },
    ReservedUnknownToken { field: Seq<char>, value: Seq<char> },
}

impl View for ValidationError {
    type V = ValidationErrorView;

    open spec fn view(&self) -> ValidationErrorView {
        match self {
            ValidationError::SchemaVersionMismatch { expected, got } =>
                ValidationErrorView::SchemaVersionMismatch { expected: expected@, got: got@ },
            ValidationError::MissingRequired { field } => ValidationErrorView::MissingRequired { field: field@ },
            ValidationError::EmptyStringForUnknown { field } => ValidationErrorView::EmptyStringForUnknown { field: field@ },
            ValidationError::ReservedUnknownToken { field, value } =>
                ValidationErrorView::ReservedUnknownToken { field: field@, value: value@ },
        }
    }
}

/// Strings that stand for "unknown" and must be sent as an absent value instead.
pub open spec fn is_reserved_unknown(v: Seq<char>) -> bool {
    v == seq!['u', 'n', 'k', 'n', 'o', 'w', 'n'] || v == seq!['U', 'N', 'K', 'N', 'O', 'W', 'N']
        || v == seq!['n', 'u', 'l', 'l'] || v == seq!['N', 'o', 'n', 'e'] || v == seq!['-']
}

/// The check of a required string field.
pub open spec fn spec_check_nonempty(field: Seq<char>, v: Seq<char>) -> Option<ValidationErrorView> {
    if v.len() == 0 {
        Some(ValidationErrorView::MissingRequired { field })
    } else if is_reserved_unknown(v) {
        Some(ValidationErrorView::ReservedUnknownToken { field, value: v })
    } else {
        None
    }
}

/// The check of an optional party identifier: present means non-empty and not
/// a reserved token.
pub open spec fn spec_check_actor(field: Seq<char>, a: Option<ActorRef>) -> Option<ValidationErrorView> {
    match a {
        Some(actor) => match actor.id {
            Some(id) => if id@.len() == 0 {
                Some(ValidationErrorView::EmptyStringForUnknown { field })
            } else if is_reserved_unknown(id@) {
                Some(ValidationErrorView::ReservedUnknownToken { field, value: id@ })
            } else {
                None
            },
            None => None,
        },
        None => None,
    }
}

/// The party of the authenticated principal, if there is one.
pub open spec fn principal_actor(e: Event) -> Option<ActorRef> {
    match e.authenticated_principal {
        Some(p) => Some(p.actor),
        None => None,
    }
}

/// The first of two checks that fails.
pub open spec fn first_of(a: Option<ValidationErrorView>, b: Option<ValidationErrorView>) -> Option<ValidationErrorView> {
    if a is Some { a } else { b }
}

/// What `Event::validate` reports: the schema version first, then the five
/// required strings, then the party identifiers, each in this order.
pub open spec fn spec_validate(e: Event) -> Option<ValidationErrorView> {
    if e.schema_version@ != seq!['1', '.', '0'] {
        Some(ValidationErrorView::SchemaVersionMismatch { expected: seq!['1', '.', '0'], got: e.schema_version@ })
    } else {
        first_of(spec_check_nonempty(seq!['e', 'v', 'e', 'n', 't', '_', 'i', 'd'], e.event_id@),
            first_of(spec_check_nonempty(seq!['e', 'v', 'e', 'n', 't', '_', 't', 'y', 'p', 'e'], e.event_type@),
            first_of(spec_check_nonempty(seq!['t', 'e', 'n', 'a', 'n', 't', '_', 'i', 'd'], e.tenant_id@),
            first_of(spec_check_nonempty(seq!['t', 'i', 'm', 'e', 's', 't', 'a', 'm', 'p'], e.timestamp@),
            first_of(spec_check_nonempty(seq!['r', 'e', 'c', 'e', 'i', 'v', 'e', 'd', '_', 'a', 't'], e.received_at@),
            first_of(spec_check_actor(seq!['a', 'c', 't', 'o', 'r'], e.actor),
            first_of(spec_check_actor(seq!['o', 'n', '_', 'b', 'e', 'h', 'a', 'l', 'f', '_', 'o', 'f'], e.on_behalf_of),
            first_of(spec_check_actor(seq!['b', 'e', 'n', 'e', 'f', 'i', 'c', 'i', 'a', 'r', 'y'], e.beneficiary),
            first_of(spec_check_actor(seq!['r', 'e', 's', 'o', 'u', 'r', 'c', 'e', '_', 'o', 'w', 'n', 'e', 'r'], e.resource_owner),
            spec_check_actor(seq!['a', 'u', 't', 'h', 'e', 'n', 't', 'i', 'c', 'a', 't', 'e', 'd', '_', 'p', 'r', 'i', 'n', 'c', 'i', 'p', 'a', 'l'], principal_actor(e)))))))))))
    }
}

fn is_reserved(v: &str) -> (r: bool)
    ensures
        r == is_reserved_unknown(v@),
{
    proof {
        reveal_strlit("unknown");
        reveal_strlit("UNKNOWN");
        reveal_strlit("null");
        reveal_strlit("None");
        reveal_strlit("-");
    }
    let r = str_eq(v, "unknown") || str_eq(v, "UNKNOWN") || str_eq(v, "null") || str_eq(v, "None") || str_eq(v, "-");
    assert("unknown"@ =~= seq!['u', 'n', 'k', 'n', 'o', 'w', 'n']);
    assert("UNKNOWN"@ =~= seq!['U', 'N', 'K', 'N', 'O', 'W', 'N']);
    assert("null"@ =~= seq!['n', 'u', 'l', 'l']);
    assert("None"@ =~= seq!['N', 'o', 'n', 'e']);
    assert("-"@ =~= seq!['-']);
    r
}

/// Checks a required string field.
pub fn check_nonempty(field: &'static str, value: &str) -> (r: Result<(), ValidationError>)
    ensures
        match spec_check_nonempty(field@, value@) {
            None => r is Ok,
            Some(v) => r matches Err(e) && e@ == v,
        },
{
    if value.is_empty() {
        return Err(ValidationError::MissingRequired { field });
    }
    if is_reserved(value) {
        return Err(ValidationError::ReservedUnknownToken { field, value: value.to_owned() });
    }
    Ok(())
}

fn check_actor(field: &'static str, actor: Option<&ActorRef>) -> (r: Result<(), ValidationError>)
    ensures
        match spec_check_actor(field@, match actor { Some(a) => Some(*a), None => None }) {
            None => r is Ok,
            Some(v) => r matches Err(e) && e@ == v,
        },
{
    match actor {
        Some(a) => match &a.id {
            Some(id) => {
                let s = id.as_str();
                if s.is_empty() {
                    return Err(ValidationError::EmptyStringForUnknown { field });
                }
                if is_reserved(s) {
                    return Err(ValidationError::ReservedUnknownToken { field, value: id.clone() });
                }
                Ok(())
            },
            None => Ok(()),
        },
        None => Ok(()),
    }
}

fn opt_ref(a: &Option<ActorRef>) -> (r: Option<&ActorRef>)
    ensures
        match r { Some(x) => Some(*x), None => None } == *a,
{
    match a {
        Some(x) => Some(x),
        None => None,
    }
}

impl Event {
    /// Structural checks run on every event before any other stage. (The
    /// trust-confidence range check is on a floating-point field and is made
    /// by the caller after this one.)
    pub fn validate(&self) -> (r: Result<(), ValidationError>)
        ensures
            match spec_validate(*self) {
                None => r is Ok,
                Some(v) => r matches Err(e) && e@ == v,
            },
    {
        proof {
            reveal_strlit("1.0");
            reveal_strlit("event_id");
            reveal_strlit("event_type");
            reveal_strlit("tenant_id");
            reveal_strlit("timestamp");
            reveal_strlit("received_at");
            reveal_strlit("actor");
            reveal_strlit("on_behalf_of");
            reveal_strlit("beneficiary");
            reveal_strlit("resource_owner");
            reveal_strlit("authenticated_principal");
        }
        if !str_eq(self.schema_version.as_str(), SCHEMA_VERSION) {
            assert("1.0"@ =~= seq!['1', '.', '0']);
            return Err(ValidationError::SchemaVersionMismatch { expected: SCHEMA_VERSION, got: self.schema_version.clone() });
        }
        assert("1.0"@ =~= seq!['1', '.', '0']);
        assert("event_id"@ =~= seq!['e', 'v', 'e', 'n', 't', '_', 'i', 'd']);
        assert("event_type"@ =~= seq!['e', 'v', 'e', 'n', 't', '_', 't', 'y', 'p', 'e']);
        assert("tenant_id"@ =~= seq!['t', 'e', 'n', 'a', 'n', 't', '_', 'i', 'd']);
        assert("timestamp"@ =~= seq!['t', 'i', 'm', 'e', 's', 't', 'a', 'm', 'p']);
        assert("received_at"@ =~= seq!['r', 'e', 'c', 'e', 'i', 'v', 'e', 'd', '_', 'a', 't']);
        assert("actor"@ =~= seq!['a', 'c', 't', 'o', 'r']);
        assert("on_behalf_of"@ =~= seq!['o', 'n', '_', 'b', 'e', 'h', 'a', 'l', 'f', '_', 'o', 'f']);
        assert("beneficiary"@ =~= seq!['b', 'e', 'n', 'e', 'f', 'i', 'c', 'i', 'a', 'r', 'y']);
        assert("resource_owner"@ =~= seq!['r', 'e', 's', 'o', 'u', 'r', 'c', 'e', '_', 'o', 'w', 'n', 'e', 'r']);
        assert("authenticated_principal"@ =~= seq!['a', 'u', 't', 'h', 'e', 'n', 't', 'i', 'c', 'a', 't', 'e', 'd', '_', 'p', 'r', 'i', 'n', 'c', 'i', 'p', 'a', 'l']);
        check_nonempty("event_id", self.event_id.as_str())?;
        check_nonempty("event_type", self.event_type.as_str())?;
        check_nonempty("tenant_id", self.tenant_id.as_str())?;
        check_nonempty("timestamp", self.timestamp.as_str())?;
        check_nonempty("received_at", self.received_at.as_str())?;
        check_actor("actor", opt_ref(&self.actor))?;
        check_actor("on_behalf_of", opt_ref(&self.on_behalf_of))?;
        check_actor("beneficiary", opt_ref(&self.beneficiary))?;
        check_actor("resource_owner", opt_ref(&self.resource_owner))?;
        let principal = match &self.authenticated_principal {
            Some(p) => Some(&p.actor),
            None => None,
        };
        check_actor("authenticated_principal", principal)?;
        Ok(())
    }
}

/// A required string is present: non-empty and not a reserved unknown token.
pub open spec fn required_ok(v: Seq<char>) -> bool {
    v.len() > 0 && !is_reserved_unknown(v)
}

/// A party's identifier, if it has one, is non-empty and not a reserved
/// unknown token.
pub open spec fn party_id_ok(a: Option<ActorRef>) -> bool {
    match a {
        Some(p) => match p.id {
            Some(id) => required_ok(id@),
            None => true,
        },
        None => true,
    }
}

/// The field a validation error names, if it names one.
pub open spec fn error_field(v: ValidationErrorView) -> Option<Seq<char>> {
    match v {
        ValidationErrorView::SchemaVersionMismatch { .. } => None,
        ValidationErrorView::MissingRequired { field } => Some(field),
        ValidationErrorView::EmptyStringForUnknown { field } => Some(field),
        ValidationErrorView::ReservedUnknownToken { field, .. } => Some(field),
    }
}

/// Validation accepts an event exactly when its schema version is 1.0, its
/// five required strings are present, and every party it names (actor, on
/// behalf of, beneficiary, resource owner, authenticated principal) has an
/// acceptable identifier. When everything before it passes, a bad party is
/// the field the error names.
pub proof fn lemma_validate_accepts_exactly_well_formed(e: Event)
    ensures
        spec_validate(e) is None <==> {
            &&& e.schema_version@ == seq!['1', '.', '0']
            &&& required_ok(e.event_id@)
            &&& required_ok(e.event_type@)
            &&& required_ok(e.tenant_id@)
            &&& required_ok(e.timestamp@)
            &&& required_ok(e.received_at@)
            &&& party_id_ok(e.actor)
            &&& party_id_ok(e.on_behalf_of)
            &&& party_id_ok(e.beneficiary)
            &&& party_id_ok(e.resource_owner)
            &&& party_id_ok(principal_actor(e))
        },
        ({
            let head_ok = e.schema_version@ == seq!['1', '.', '0'] && required_ok(e.event_id@) && required_ok(e.event_type@)
                && required_ok(e.tenant_id@) && required_ok(e.timestamp@) && required_ok(e.received_at@);
            &&& head_ok && !party_id_ok(e.actor) ==> spec_validate(e) is Some
                && error_field(spec_validate(e).unwrap()) == Some(seq!['a', 'c', 't', 'o', 'r'])
            &&& head_ok && party_id_ok(e.actor) && !party_id_ok(e.on_behalf_of) ==> spec_validate(e) is Some
                && error_field(spec_validate(e).unwrap()) == Some(seq!['o', 'n', '_', 'b', 'e', 'h', 'a', 'l', 'f', '_', 'o', 'f'])
            &&& head_ok && party_id_ok(e.actor) && party_id_ok(e.on_behalf_of) && !party_id_ok(e.beneficiary)
                ==> spec_validate(e) is Some && error_field(spec_validate(e).unwrap()) == Some(seq!['b', 'e', 'n', 'e', 'f', 'i', 'c', 'i', 'a', 'r', 'y'])
            &&& head_ok && party_id_ok(e.actor) && party_id_ok(e.on_behalf_of) && party_id_ok(e.beneficiary)
                && !party_id_ok(e.resource_owner) ==> spec_validate(e) is Some
                && error_field(spec_validate(e).unwrap()) == Some(seq!['r', 'e', 's', 'o', 'u', 'r', 'c', 'e', '_', 'o', 'w', 'n', 'e', 'r'])
            &&& head_ok && party_id_ok(e.actor) && party_id_ok(e.on_behalf_of) && party_id_ok(e.beneficiary)
                && party_id_ok(e.resource_owner) && !party_id_ok(principal_actor(e)) ==> spec_validate(e) is Some
                && error_field(spec_validate(e).unwrap()) == Some(seq!['a', 'u', 't', 'h', 'e', 'n', 't', 'i', 'c', 'a', 't', 'e', 'd', '_', 'p', 'r', 'i', 'n', 'c', 'i', 'p', 'a', 'l'])
        }),
{
}

/// The value stored under `key` among distinct-key pairs, if any.
pub open spec fn lookup_pair(pairs: Seq<(String, String)>, key: Seq<char>) -> Option<Seq<char>>
    decreases pairs.len(),
{
    if pairs.len() == 0 {
        None
    } else if pairs[0].0@ == key {
        Some(pairs[0].1@)
    } else {
        lookup_pair(pairs.drop_first(), key)
    }
}

/// Looks up `key` among key/value pairs (the first match).
pub fn get_pair<'a>(pairs: &'a Vec<(String, String)>, key: &str) -> (r: Option<&'a String>)
    ensures
        match lookup_pair(pairs@, key@) {
            Some(v) => r matches Some(s) && s@ == v,
            None => r is None,
        },
{
    let k = key.to_owned();
    let n = pairs.len();
    let mut i: usize = 0;
    assert(pairs@.subrange(0, n as int) =~= pairs@);
    while i < n
        invariant
            n == pairs@.len(),
            i <= n,
            k@ == key@,
            lookup_pair(pairs@, key@) == lookup_pair(pairs@.subrange(i as int, n as int), key@),
        decreases n - i,
    {
        let ghost rest = pairs@.subrange(i as int, n as int);
        assert(rest.drop_first() =~= pairs@.subrange(i + 1, n as int));
        if pairs[i].0 == k {
            return Some(&pairs[i].1);
        }
        i = i + 1;
    }
    None
}

} // verus!
