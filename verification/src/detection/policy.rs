//! Policy engine: evaluates the fired signals of one event against the four
//! policies, each enabled and given its mode by the configuration, first
//! match wins. Deterministic and side-effect free.

use vstd::prelude::*;
use crate::detection::signal::{Signal, SignalKind};
use crate::detection::config::{PolicyConfig, PolicyRule};
use crate::detection::decision::FailMode;

verus! {

/// Policy modes. Only OBSERVE is exercised by the built-in policies.
#[derive(Debug, Clone, Copy, PartialEq, Eq, Structural)]
pub enum PolicyMode {
    Observe,
    Challenge,
    Enforce,
}

impl PolicyMode {
    pub fn as_str(self) -> (s: &'static str)
        ensures
            s@ == mode_name(self),
    {
        proof {
            reveal_strlit("OBSERVE");
            reveal_strlit("CHALLENGE");
            reveal_strlit("ENFORCE");
        }
        match self {
            PolicyMode::Observe => "OBSERVE",
            PolicyMode::Challenge => "CHALLENGE",
            PolicyMode::Enforce => "ENFORCE",
        }
    }
}

pub open spec fn mode_name(m: PolicyMode) -> Seq<char> {
    match m {
        PolicyMode::Observe => seq!['O', 'B', 'S', 'E', 'R', 'V', 'E'],
        PolicyMode::Challenge => seq!['C', 'H', 'A', 'L', 'L', 'E', 'N', 'G', 'E'],
        PolicyMode::Enforce => seq!['E', 'N', 'F', 'O', 'R', 'C', 'E'],
    }
}

/// Actions a decision can propose. In OBSERVE mode they are recorded, not enforced.
#[derive(Debug, Clone, Copy, PartialEq, Eq, Structural)]
pub enum Action {
    Allow,
    Challenge,
    Restrict,
    Block,
    Alert,
}

impl Action {
    pub fn as_str(self) -> (s: &'static str)
        ensures
            s@ == action_name(self),
    {
        proof {
            reveal_strlit("ALLOW");
            reveal_strlit("CHALLENGE");
            reveal_strlit("RESTRICT");
            reveal_strlit("BLOCK");
            reveal_strlit("ALERT");
        }
        match self {
            Action::Allow => "ALLOW",
            Action::Challenge => "CHALLENGE",
            Action::Restrict => "RESTRICT",
            Action::Block => "BLOCK",
            Action::Alert => "ALERT",
        }
    }
}

pub open spec fn action_name(a: Action) -> Seq<char> {
    match a {
        Action::Allow => seq!['A', 'L', 'L', 'O', 'W'],
        Action::Challenge => seq!['C', 'H', 'A', 'L', 'L', 'E', 'N', 'G', 'E'],
        Action::Restrict => seq!['R', 'E', 'S', 'T', 'R', 'I', 'C', 'T'],
        Action::Block => seq!['B', 'L', 'O', 'C', 'K'],
        Action::Alert => seq!['A', 'L', 'E', 'R', 'T'],
    }
}

/// The result of evaluating the policies against a set of signals.
#[derive(Debug, Clone, PartialEq, Eq)]
pub struct PolicyDecision {
    pub policy_id: String,
    pub policy_version: u32,
    pub mode: PolicyMode,
    pub matched: bool,
    pub action: Action,
    pub reason_codes: Vec<String>,
}

/// A policy decision as plain values.
pub struct PolicyDecisionView {
    pub policy_id: Seq<char>,
    pub policy_version: u32,
    pub mode: PolicyMode,
    pub matched: bool,
    pub action: Action,
    pub reason_codes: Seq<Seq<char>>,
}

impl View for PolicyDecision {
    type V = PolicyDecisionView;

    open spec fn view(&self) -> PolicyDecisionView {
        PolicyDecisionView {
            policy_id: self.policy_id@,
            policy_version: self.policy_version,
            mode: self.mode,
            matched: self.matched,
            action: self.action,
            reason_codes: self.reason_codes@.map_values(|s: String| s@),
        }
    }
}

/// Some signal of kind `k` is among `signals`.
pub open spec fn has_kind(signals: Seq<Signal>, k: SignalKind) -> bool {
    exists|i: int| 0 <= i < signals.len() && signals[i].kind == k
}

pub open spec fn id_new_beneficiary_high_amount() -> Seq<char> {
    seq!['p', 'o', 'l', '_', 'n', 'e', 'w', '_', 'b', 'e', 'n', 'e', 'f', 'i', 'c', 'i', 'a', 'r', 'y', '_',
         'h', 'i', 'g', 'h', '_', 'a', 'm', 'o', 'u', 'n', 't']
}

pub open spec fn code_new_beneficiary_high_amount() -> Seq<char> {
    seq!['T', 'A', 'R', 'G', 'E', 'T', '_', 'N', 'E', 'W', '_', 'B', 'E', 'N', 'E', 'F', 'I', 'C', 'I', 'A', 'R', 'Y', '_',
         'H', 'I', 'G', 'H', '_', 'A', 'M', 'O', 'U', 'N', 'T']
}

pub open spec fn id_high_velocity() -> Seq<char> {
    seq!['p', 'o', 'l', '_', 'h', 'i', 'g', 'h', '_', 'v', 'e', 'l', 'o', 'c', 'i', 't', 'y']
}

pub open spec fn code_high_velocity() -> Seq<char> {
    seq!['V', 'E', 'L', 'O', 'C', 'I', 'T', 'Y', '_', 'H', 'I', 'G', 'H', '_', 'R', 'A', 'T', 'E']
}

pub open spec fn id_default() -> Seq<char> {
    seq!['p', 'o', 'l', '_', 'd', 'e', 'f', 'a', 'u', 'l', 't']
}

pub open spec fn id_distinct_targets() -> Seq<char> {
    seq!['p', 'o', 'l', '_', 'd', 'i', 's', 't', 'i', 'n', 'c', 't', '_', 't', 'a', 'r', 'g', 'e', 't', 's']
}

pub open spec fn code_distinct_targets() -> Seq<char> {
    seq!['T', 'A', 'R', 'G', 'E', 'T', '_', 'D', 'I', 'S', 'T', 'I', 'N', 'C', 'T', '_', 'H', 'I', 'G', 'H']
}

pub open spec fn id_credential_stuffing() -> Seq<char> {
    seq!['p', 'o', 'l', '_', 'c', 'r', 'e', 'd', 'e', 'n', 't', 'i', 'a', 'l', '_', 's', 't', 'u', 'f', 'f', 'i', 'n', 'g']
}

pub open spec fn code_credential_stuffing() -> Seq<char> {
    seq!['A', 'U', 'T', 'H', '_', 'C', 'R', 'E', 'D', 'E', 'N', 'T', 'I', 'A', 'L', '_', 'S', 'T', 'U', 'F', 'F', 'I', 'N', 'G']
}

/// A matched policy: version 1, CHALLENGE, one reason code, in the rule's mode.
pub open spec fn matched_decision(id: Seq<char>, code: Seq<char>, mode: PolicyMode) -> PolicyDecisionView {
    PolicyDecisionView {
        policy_id: id,
        policy_version: 1,
        mode,
        matched: true,
        action: Action::Challenge,
        reason_codes: seq![code],
    }
}

/// What `evaluate` decides under configuration `c`, first match wins:
/// A, a new beneficiary together with a high amount; B, high velocity;
/// C, distinct targets; D, a credential-stuffing pattern. A rule takes part
/// only when enabled, and a match proposes CHALLENGE in the rule's mode.
/// When nothing matches the action is ALLOW, in OBSERVE mode. Version 1.
pub open spec fn spec_evaluate(c: PolicyConfig, signals: Seq<Signal>) -> PolicyDecisionView {
    if c.high_amount_new_beneficiary.enabled && has_kind(signals, SignalKind::NewBeneficiary)
        && has_kind(signals, SignalKind::HighAmount) {
        matched_decision(id_new_beneficiary_high_amount(), code_new_beneficiary_high_amount(),
            c.high_amount_new_beneficiary.mode)
    } else if c.high_velocity.enabled && has_kind(signals, SignalKind::HighVelocity) {
        matched_decision(id_high_velocity(), code_high_velocity(), c.high_velocity.mode)
    } else if c.distinct_targets.enabled && has_kind(signals, SignalKind::DistinctTargets) {
        matched_decision(id_distinct_targets(), code_distinct_targets(), c.distinct_targets.mode)
    } else if c.credential_stuffing.enabled && has_kind(signals, SignalKind::CredentialStuffingPattern) {
        matched_decision(id_credential_stuffing(), code_credential_stuffing(), c.credential_stuffing.mode)
    } else {
        PolicyDecisionView {
            policy_id: id_default(),
            policy_version: 1,
            mode: PolicyMode::Observe,
            matched: false,
            action: Action::Allow,
            reason_codes: Seq::empty(),
        }
    }
}

fn matched(id: &str, code: &str, mode: PolicyMode) -> (d: PolicyDecision)
    ensures
        d@ == matched_decision(id@, code@, mode),
{
    let mut codes: Vec<String> = Vec::new();
    codes.push(code.to_owned());
    let d = PolicyDecision {
        policy_id: id.to_owned(),
        policy_version: 1,
        mode,
        matched: true,
        action: Action::Challenge,
        reason_codes: codes,
    };
    assert(d@.reason_codes =~= seq![code@]);
    d
}

fn any_kind(signals: &[Signal], k: SignalKind) -> (b: bool)
    ensures
        b == has_kind(signals@, k),
{
    let n = signals.len();
    let mut i: usize = 0;
    while i < n
        invariant
            n == signals@.len(),
            i <= n,
            forall|j: int| 0 <= j < i ==> signals@[j].kind != k,
        decreases n - i,
    {
        if signals[i].kind == k {
            return true;
        }
        i = i + 1;
    }
    false
}

/// The policy engine, configured per rule.
pub struct PolicyEngine {
    config: PolicyConfig,
}

impl PolicyEngine {
    /// The configuration the engine evaluates with.
    pub closed spec fn spec_config(&self) -> PolicyConfig {
        self.config
    }

    /// An engine with the default configuration: every rule enabled, in
    /// OBSERVE mode, fail-open.
    pub fn new() -> (e: Self)
        ensures
            e.spec_config().high_amount_new_beneficiary
                == (PolicyRule { enabled: true, mode: PolicyMode::Observe, fail_mode: FailMode::Open }),
            e.spec_config().high_velocity == e.spec_config().high_amount_new_beneficiary,
            e.spec_config().distinct_targets == e.spec_config().high_amount_new_beneficiary,
            e.spec_config().credential_stuffing == e.spec_config().high_amount_new_beneficiary,
    {
        PolicyEngine { config: PolicyConfig::default() }
    }

    /// An engine with the given configuration.
    pub fn with_config(config: PolicyConfig) -> (e: Self)
        ensures
            e.spec_config() == config,
    {
        PolicyEngine { config }
    }

    /// The configuration the engine evaluates with.
    pub fn config(&self) -> (c: PolicyConfig)
        ensures
            c == self.spec_config(),
    {
        self.config
    }

    /// Evaluates the policies against `signals`; first match wins.
    pub fn evaluate(&self, signals: &[Signal]) -> (d: PolicyDecision)
        ensures
            d@ == spec_evaluate(self.spec_config(), signals@),
    {
        let c = self.config;
        proof {
            reveal_strlit("pol_new_beneficiary_high_amount");
            reveal_strlit("TARGET_NEW_BENEFICIARY_HIGH_AMOUNT");
            reveal_strlit("pol_high_velocity");
            reveal_strlit("VELOCITY_HIGH_RATE");
            reveal_strlit("pol_distinct_targets");
            reveal_strlit("TARGET_DISTINCT_HIGH");
            reveal_strlit("pol_credential_stuffing");
            reveal_strlit("AUTH_CREDENTIAL_STUFFING");
            reveal_strlit("pol_default");
        }
        if c.high_amount_new_beneficiary.enabled && any_kind(signals, SignalKind::NewBeneficiary)
            && any_kind(signals, SignalKind::HighAmount) {
            assert("pol_new_beneficiary_high_amount"@ =~= id_new_beneficiary_high_amount());
            assert("TARGET_NEW_BENEFICIARY_HIGH_AMOUNT"@ =~= code_new_beneficiary_high_amount());
            return matched("pol_new_beneficiary_high_amount", "TARGET_NEW_BENEFICIARY_HIGH_AMOUNT",
                c.high_amount_new_beneficiary.mode);
        }
        if c.high_velocity.enabled && any_kind(signals, SignalKind::HighVelocity) {
            assert("pol_high_velocity"@ =~= id_high_velocity());
            assert("VELOCITY_HIGH_RATE"@ =~= code_high_velocity());
            return matched("pol_high_velocity", "VELOCITY_HIGH_RATE", c.high_velocity.mode);
        }
        if c.distinct_targets.enabled && any_kind(signals, SignalKind::DistinctTargets) {
            assert("pol_distinct_targets"@ =~= id_distinct_targets());
            assert("TARGET_DISTINCT_HIGH"@ =~= code_distinct_targets());
            return matched("pol_distinct_targets", "TARGET_DISTINCT_HIGH", c.distinct_targets.mode);
        }
        if c.credential_stuffing.enabled && any_kind(signals, SignalKind::CredentialStuffingPattern) {
            assert("pol_credential_stuffing"@ =~= id_credential_stuffing());
            assert("AUTH_CREDENTIAL_STUFFING"@ =~= code_credential_stuffing());
            return matched("pol_credential_stuffing", "AUTH_CREDENTIAL_STUFFING", c.credential_stuffing.mode);
        }
        let d = PolicyDecision {
            policy_id: "pol_default".to_owned(),
            policy_version: 1,
            mode: PolicyMode::Observe,
            matched: false,
            action: Action::Allow,
            reason_codes: Vec::new(),
        };
        assert(d@.reason_codes =~= Seq::<Seq<char>>::empty());
        assert(d@.policy_id =~= id_default());
        d
    }
}

impl Default for PolicyEngine {
    /// The engine with the default configuration.
    fn default() -> (e: Self)
        ensures
            e.spec_config().high_amount_new_beneficiary
                == (PolicyRule { enabled: true, mode: PolicyMode::Observe, fail_mode: FailMode::Open }),
            e.spec_config().high_velocity == e.spec_config().high_amount_new_beneficiary,
            e.spec_config().distinct_targets == e.spec_config().high_amount_new_beneficiary,
            e.spec_config().credential_stuffing == e.spec_config().high_amount_new_beneficiary,
    {
        PolicyEngine::new()
    }
}

/// Evaluation depends only on which kinds of signal fired: the same kinds give
/// the same decision.
pub proof fn lemma_evaluate_depends_only_on_kinds(c: PolicyConfig, a: Seq<Signal>, b: Seq<Signal>)
    requires
        forall|k: SignalKind| has_kind(a, k) == has_kind(b, k),
    ensures
        spec_evaluate(c, a) == spec_evaluate(c, b),
{
    assert(has_kind(a, SignalKind::NewBeneficiary) == has_kind(b, SignalKind::NewBeneficiary));
    assert(has_kind(a, SignalKind::HighAmount) == has_kind(b, SignalKind::HighAmount));
    assert(has_kind(a, SignalKind::HighVelocity) == has_kind(b, SignalKind::HighVelocity));
    assert(has_kind(a, SignalKind::DistinctTargets) == has_kind(b, SignalKind::DistinctTargets));
    assert(has_kind(a, SignalKind::CredentialStuffingPattern) == has_kind(b, SignalKind::CredentialStuffingPattern));
}

/// A disabled rule never matches: its policy is never the one decided.
pub proof fn lemma_disabled_rule_never_matches(c: PolicyConfig, signals: Seq<Signal>)
    ensures
        !c.high_amount_new_beneficiary.enabled ==> spec_evaluate(c, signals).policy_id != id_new_beneficiary_high_amount(),
        !c.high_velocity.enabled ==> spec_evaluate(c, signals).policy_id != id_high_velocity(),
        !c.distinct_targets.enabled ==> spec_evaluate(c, signals).policy_id != id_distinct_targets(),
        !c.credential_stuffing.enabled ==> spec_evaluate(c, signals).policy_id != id_credential_stuffing(),
{
    assert(id_new_beneficiary_high_amount()[4] != id_high_velocity()[4]);
    assert(id_new_beneficiary_high_amount()[4] != id_distinct_targets()[4]);
    assert(id_new_beneficiary_high_amount()[4] != id_credential_stuffing()[4]);
    assert(id_new_beneficiary_high_amount()[4] != id_default()[4]);
    assert(id_high_velocity()[4] != id_distinct_targets()[4]);
    assert(id_high_velocity()[4] != id_credential_stuffing()[4]);
    assert(id_high_velocity()[4] != id_default()[4]);
    assert(id_distinct_targets()[5] != id_credential_stuffing()[5]);
    assert(id_distinct_targets()[5] != id_default()[5]);
    assert(id_credential_stuffing()[4] != id_default()[4]);
}

/// A decision matches exactly when it proposes something other than ALLOW.
pub proof fn lemma_matched_iff_not_allow(c: PolicyConfig, signals: Seq<Signal>)
    ensures
        spec_evaluate(c, signals).matched <==> spec_evaluate(c, signals).action != Action::Allow,
{
}

} // verus!
