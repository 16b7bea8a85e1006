//! Explainable decision records: every automated decision carries what is
//! needed to reconstruct it without the live application.

use vstd::prelude::*;
use vstd::string::StringExecFns;
use crate::detection::policy::{Action, PolicyDecision, PolicyMode, PolicyDecisionView, mode_name, action_name};
use crate::detection::signal::{Signal, SignalKind, kind_name};
use crate::text::{push_decimal, decimal, push_char};

verus! {

/// What happens when no decision can be reached in time.
#[derive(Debug, Clone, Copy, PartialEq, Eq, Structural)]
pub enum FailMode {
    Open,
    Closed,
}

pub open spec fn fail_mode_name(m: FailMode) -> Seq<char> {
    match m {
        FailMode::Open => seq!['O', 'P', 'E', 'N'],
        FailMode::Closed => seq!['C', 'L', 'O', 'S', 'E', 'D'],
    }
}

impl FailMode {
    pub fn as_str(&self) -> (s: &'static str)
        ensures
            s@ == fail_mode_name(*self),
    {
        proof {
            reveal_strlit("OPEN");
            reveal_strlit("CLOSED");
        }
        match self {
            FailMode::Open => "OPEN",
            FailMode::Closed => "CLOSED",
        }
    }
}

/// What a decision is about.
#[derive(Debug, Clone, PartialEq, Eq)]
pub struct DecisionSubject {
    pub lifecycle_id: Option<String>,
    pub event_id: String,
    pub operation_id: Option<String>,
}

/// Versions of the engines that produced a decision.
#[derive(Debug, Clone, PartialEq, Eq)]
pub struct EngineVersions {
    pub detector: String,
    pub policy: String,
    pub resolver: String,
}

/// A signal as persisted, with references to the evidence that produced it.
/// The confidence is in hundredths.
#[derive(Debug, Clone, PartialEq, Eq)]
pub struct SignalRecord {
    pub signal_id: String,
    pub tenant_id: String,
    pub kind: SignalKind,
    pub confidence_pct: u32,
    pub value: String,
    pub threshold: Option<String>,
    pub timestamp_ms: u64,
    pub event_id: String,
    pub lifecycle_id: Option<String>,
    pub tracker_version: String,
}

/// The view of an optional string.
pub open spec fn opt_view(o: Option<String>) -> Option<Seq<char>> {
    match o {
        Some(s) => Some(s@),
        None => None,
    }
}

/// A fresh ULID rendered as text (`ulid::Ulid::new()` then `to_string`).
/// Its value depends on the clock and on chance; the source shows it is
/// 26 characters of Crockford base 32, which is what is claimed.
#[verifier::external_body]
pub(crate) fn fresh_ulid() -> (s: String)
    ensures
        s@.len() == 26,
        forall|i: int| 0 <= i < 26 ==> ('0' <= #[trigger] s@[i] <= '9' || 'A' <= s@[i] <= 'Z'),
{
    ulid::Ulid::new().to_string()
}

fn clone_opt(o: &Option<String>) -> (r: Option<String>)
    ensures
        opt_view(r) == opt_view(*o),
{
    match o {
        Some(s) => Some(s.clone()),
        None => None,
    }
}

fn opt_owned(o: Option<&str>) -> (r: Option<String>)
    ensures
        match o {
            Some(s) => r matches Some(t) && t@ == s@,
            None => r is None,
        },
{
    match o {
        Some(s) => Some(s.to_owned()),
        None => None,
    }
}

/// Builds the persisted record of `signal`, with the given id.
pub fn record_from_signal_with_id(
    signal: &Signal,
    signal_id: String,
    tenant_id: &str,
    event_id: &str,
    lifecycle_id: Option<&str>,
    now_ms: u64,
    tracker_version: &str,
) -> (r: SignalRecord)
    ensures
        r.signal_id@ == signal_id@,
        r.tenant_id@ == tenant_id@,
        r.kind == signal.kind,
        r.confidence_pct == signal.confidence_pct,
        r.value@ == signal.value@,
        opt_view(r.threshold) == opt_view(signal.threshold),
        r.timestamp_ms == now_ms,
        r.event_id@ == event_id@,
        match lifecycle_id {
            Some(l) => r.lifecycle_id matches Some(t) && t@ == l@,
            None => r.lifecycle_id is None,
        },
        r.tracker_version@ == tracker_version@,
{
    SignalRecord {
        signal_id,
        tenant_id: tenant_id.to_owned(),
        kind: signal.kind,
        confidence_pct: signal.confidence_pct,
        value: signal.value.clone(),
        threshold: clone_opt(&signal.threshold),
        timestamp_ms: now_ms,
        event_id: event_id.to_owned(),
        lifecycle_id: opt_owned(lifecycle_id),
        tracker_version: tracker_version.to_owned(),
    }
}

/// Builds the persisted record of `signal` under a fresh id `sig_<ULID>`.
pub fn record_from_signal(
    signal: &Signal,
    tenant_id: &str,
    event_id: &str,
    lifecycle_id: Option<&str>,
    now_ms: u64,
    tracker_version: &str,
) -> (r: SignalRecord)
    ensures
        r.signal_id@.len() == 30,
        r.signal_id@.subrange(0, 4) == "sig_"@,
        r.tenant_id@ == tenant_id@,
        r.kind == signal.kind,
        r.confidence_pct == signal.confidence_pct,
        r.value@ == signal.value@,
        opt_view(r.threshold) == opt_view(signal.threshold),
        r.timestamp_ms == now_ms,
        r.event_id@ == event_id@,
        match lifecycle_id {
            Some(l) => r.lifecycle_id matches Some(t) && t@ == l@,
            None => r.lifecycle_id is None,
        },
        r.tracker_version@ == tracker_version@,
{
    let mut id = "sig_".to_owned();
    proof {
        reveal_strlit("sig_");
    }
    let u = fresh_ulid();
    id.append(u.as_str());
    assert(id@.subrange(0, 4) =~= "sig_"@);
    record_from_signal_with_id(signal, id, tenant_id, event_id, lifecycle_id, now_ms, tracker_version)
}

/// `items` joined with `sep` between consecutive items.
pub open spec fn join(items: Seq<Seq<char>>, sep: Seq<char>) -> Seq<char>
    decreases items.len(),
{
    if items.len() == 0 {
        Seq::empty()
    } else if items.len() == 1 {
        items[0]
    } else {
        join(items.drop_last(), sep) + sep + items.last()
    }
}

/// A confidence in hundredths rendered with two decimals (85 as `0.85`).
pub open spec fn pct_text(p: u32) -> Seq<char> {
    let frac = (p % 100) as nat;
    decimal((p / 100) as nat) + seq!['.'] + if frac < 10 { seq!['0'] + decimal(frac) } else { decimal(frac) }
}

fn push_pct(s: &mut String, p: u32)
    ensures
        final(s)@ == old(s)@ + pct_text(p),
{
    push_decimal(s, (p / 100) as u64);
    push_char(s, '.');
    let frac = (p % 100) as u64;
    if frac < 10 {
        push_char(s, '0');
    }
    push_decimal(s, frac);
    assert(s@ =~= old(s)@ + pct_text(p));
}

/// How one signal is listed in an explanation: `kind=value (conf 0.85)`.
pub open spec fn signal_summary(r: SignalRecord) -> Seq<char> {
    kind_name(r.kind) + seq!['='] + r.value@ + " (conf "@ + pct_text(r.confidence_pct) + seq![')']
}

/// The explanation text of a decision.
pub open spec fn spec_explanation(p: PolicyDecisionView, signals: Seq<SignalRecord>) -> Seq<char> {
    if !p.matched {
        "policy "@ + p.policy_id + ":v"@ + decimal(p.policy_version as nat) + " did not match; action ALLOW ("@
            + decimal(signals.len()) + " signal(s) evaluated)"@
    } else {
        "policy "@ + p.policy_id + ":v"@ + decimal(p.policy_version as nat) + " matched in "@ + mode_name(p.mode)
            + " mode → "@ + action_name(p.action) + ". Signals: ["@
            + join(signals.map_values(|r: SignalRecord| signal_summary(r)), ", "@) + "]. Reason codes: ["@
            + join(p.reason_codes, ", "@) + "]."@
    }
}

fn push_joined_summaries(s: &mut String, signals: &Vec<SignalRecord>)
    ensures
        final(s)@ == old(s)@ + join(signals@.map_values(|r: SignalRecord| signal_summary(r)), ", "@),
{
    let ghost items = signals@.map_values(|r: SignalRecord| signal_summary(r));
    let n = signals.len();
    let mut i: usize = 0;
    assert(items.subrange(0, 0).len() == 0);
    while i < n
        invariant
            n == signals@.len(),
            items == signals@.map_values(|r: SignalRecord| signal_summary(r)),
            i <= n,
            s@ == old(s)@ + join(items.subrange(0, i as int), ", "@),
        decreases n - i,
    {
        let ghost before = s@;
        if i > 0 {
            s.append(", ");
        }
        let r = &signals[i];
        s.append(r.kind.as_str());
        push_char(s, '=');
        s.append(r.value.as_str());
        s.append(" (conf ");
        push_pct(s, r.confidence_pct);
        push_char(s, ')');
        proof {
            let p = items.subrange(0, i + 1);
            assert(p.drop_last() =~= items.subrange(0, i as int));
            assert(p.last() == signal_summary(signals@[i as int]));
            if i == 0 {
                assert(s@ =~= old(s)@ + join(p, ", "@));
            } else {
                assert(s@ =~= old(s)@ + join(p, ", "@));
            }
        }
        i = i + 1;
    }
    assert(items.subrange(0, n as int) =~= items);
}

fn push_joined(s: &mut String, items: &Vec<String>)
    ensures
        final(s)@ == old(s)@ + join(items@.map_values(|t: String| t@), ", "@),
{
    let ghost views = items@.map_values(|t: String| t@);
    let n = items.len();
    let mut i: usize = 0;
    assert(views.subrange(0, 0).len() == 0);
    while i < n
        invariant
            n == items@.len(),
            views == items@.map_values(|t: String| t@),
            i <= n,
            s@ == old(s)@ + join(views.subrange(0, i as int), ", "@),
        decreases n - i,
    {
        if i > 0 {
            s.append(", ");
        }
        s.append(items[i].as_str());
        proof {
            let p = views.subrange(0, i + 1);
            assert(p.drop_last() =~= views.subrange(0, i as int));
            assert(s@ =~= old(s)@ + join(p, ", "@));
        }
        i = i + 1;
    }
    assert(views.subrange(0, n as int) =~= views);
}

/// The explanation of a decision, generated from the policy result and the signals.
pub fn generate_explanation(policy: &PolicyDecision, signals: &Vec<SignalRecord>) -> (s: String)
    ensures
        s@ == spec_explanation(policy@, signals@),
{
    let mut s = "policy ".to_owned();
    s.append(policy.policy_id.as_str());
    s.append(":v");
    push_decimal(&mut s, policy.policy_version as u64);
    if !policy.matched {
        s.append(" did not match; action ALLOW (");
        push_decimal(&mut s, signals.len() as u64);
        s.append(" signal(s) evaluated)");
        return s;
    }
    s.append(" matched in ");
    s.append(policy.mode.as_str());
    s.append(" mode → ");
    s.append(policy.action.as_str());
    s.append(". Signals: [");
    push_joined_summaries(&mut s, signals);
    s.append("]. Reason codes: [");
    push_joined(&mut s, &policy.reason_codes);
    s.append("].");
    s
}

/// A decision record. The confidence figures inside are in hundredths.
#[derive(Debug, Clone, PartialEq, Eq)]
pub struct DecisionRecord {
    pub decision_id: String,
    pub timestamp_ms: u64,
    pub tenant_id: String,
    pub subject: DecisionSubject,
    pub policies_evaluated: Vec<PolicyDecision>,
    pub signals_used: Vec<SignalRecord>,
    pub action: Action,
    pub reason_codes: Vec<String>,
    pub mode: PolicyMode,
    pub fail_mode: FailMode,
    /// Inputs known to be unknown at decision time.
    pub inputs_missing: Vec<String>,
    /// Coverage gaps overlapping the window feeding the decision.
    pub coverage_gaps_overlapping: Vec<String>,
    /// Pressure level at decision time.
    pub degradation_level: String,
    pub latency_us: u64,
    pub engine_versions: EngineVersions,
    /// Human-readable explanation generated from the above.
    pub explanation: String,
}

fn clone_strings(v: &Vec<String>) -> (r: Vec<String>)
    ensures
        r@.map_values(|t: String| t@) == v@.map_values(|t: String| t@),
{
    let mut r: Vec<String> = Vec::new();
    let n = v.len();
    let mut i: usize = 0;
    while i < n
        invariant
            n == v@.len(),
            i <= n,
            r@.map_values(|t: String| t@) == v@.subrange(0, i as int).map_values(|t: String| t@),
        decreases n - i,
    {
        r.push(v[i].clone());
        assert(v@.subrange(0, i + 1).map_values(|t: String| t@) =~= v@.subrange(0, i as int).map_values(|t: String| t@).push(v@[i as int]@));
        assert(r@.map_values(|t: String| t@) =~= v@.subrange(0, i + 1).map_values(|t: String| t@));
        i = i + 1;
    }
    assert(v@.subrange(0, n as int) =~= v@);
    r
}

impl DecisionRecord {
    /// Builds a decision record with the given id: the policy's action, mode
    /// and reason codes, fail-open, no missing inputs or overlapping gaps,
    /// fixed engine versions, and the generated explanation.
    pub fn build_with_id(
        decision_id: String,
        tenant_id: &str,
        subject: DecisionSubject,
        policy: PolicyDecision,
        signals: Vec<SignalRecord>,
        now_ms: u64,
        degradation_level: &str,
        latency_us: u64,
    ) -> (r: Self)
        ensures
            r.decision_id@ == decision_id@,
            r.timestamp_ms == now_ms,
            r.tenant_id@ == tenant_id@,
            r.subject == subject,
            r.policies_evaluated@ == seq![policy],
            r.signals_used@ == signals@,
            r.action == policy.action,
            r.reason_codes@.map_values(|t: String| t@) == policy@.reason_codes,
            r.mode == policy.mode,
            r.fail_mode == FailMode::Open,
            r.inputs_missing@.len() == 0,
            r.coverage_gaps_overlapping@.len() == 0,
            r.degradation_level@ == degradation_level@,
            r.latency_us == latency_us,
            r.engine_versions.detector@ == "signal-engine-0.1.0"@,
            r.engine_versions.policy@ == "policy-engine-0.1.0"@,
            r.engine_versions.resolver@ == "lifecycle-engine-0.1.0"@,
            r.explanation@ == spec_explanation(policy@, signals@),
    {
        let action = policy.action;
        let mode = policy.mode;
        let reason_codes = clone_strings(&policy.reason_codes);
        let explanation = generate_explanation(&policy, &signals);
        let mut policies: Vec<PolicyDecision> = Vec::new();
        policies.push(policy);
        assert(policies@ =~= seq![policy]);
        DecisionRecord {
            decision_id,
            timestamp_ms: now_ms,
            tenant_id: tenant_id.to_owned(),
            subject,
            policies_evaluated: policies,
            signals_used: signals,
            action,
            reason_codes,
            mode,
            fail_mode: FailMode::Open,
            inputs_missing: Vec::new(),
            coverage_gaps_overlapping: Vec::new(),
            degradation_level: degradation_level.to_owned(),
            latency_us,
            engine_versions: EngineVersions {
                detector: "signal-engine-0.1.0".to_owned(),
                policy: "policy-engine-0.1.0".to_owned(),
                resolver: "lifecycle-engine-0.1.0".to_owned(),
            },
            explanation,
        }
    }

    /// Builds a decision record under a fresh id `dec_<ULID>`; see `build_with_id`.
    pub fn build(
        tenant_id: &str,
        subject: DecisionSubject,
        policy: PolicyDecision,
        signals: Vec<SignalRecord>,
        now_ms: u64,
        degradation_level: &str,
        latency_us: u64,
    ) -> (r: Self)
        ensures
            r.decision_id@.len() == 30,
            r.decision_id@.subrange(0, 4) == "dec_"@,
            r.timestamp_ms == now_ms,
            r.tenant_id@ == tenant_id@,
            r.subject == subject,
            r.policies_evaluated@ == seq![policy],
            r.signals_used@ == signals@,
            r.action == policy.action,
            r.reason_codes@.map_values(|t: String| t@) == policy@.reason_codes,
            r.mode == policy.mode,
            r.fail_mode == FailMode::Open,
            r.inputs_missing@.len() == 0,
            r.coverage_gaps_overlapping@.len() == 0,
            r.degradation_level@ == degradation_level@,
            r.latency_us == latency_us,
            r.explanation@ == spec_explanation(policy@, signals@),
    {
        let mut id = "dec_".to_owned();
        proof {
            reveal_strlit("dec_");
        }
        let u = fresh_ulid();
        id.append(u.as_str());
        assert(id@.subrange(0, 4) =~= "dec_"@);
        Self::build_with_id(id, tenant_id, subject, policy, signals, now_ms, degradation_level, latency_us)
    }
}

} // verus!
