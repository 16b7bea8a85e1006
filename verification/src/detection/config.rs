//! Detection configuration as edited by operators: per-policy switches,
//! modes and fail behaviour. Loading it from a JSON file (falling back to the
//! defaults when it is missing or malformed) is the caller's side.

use vstd::prelude::*;
use vstd::string::StringExecFns;
use crate::detection::decision::{FailMode, fail_mode_name};
use crate::detection::policy::{PolicyMode, mode_name};
use crate::detection::signal::SignalEngineConfig;
use crate::detection::trackers::VelocityConfig;
use crate::text::{push_char};

verus! {

/// One policy's configuration: on/off, mode, and fail behaviour.
#[derive(Debug, Clone, Copy, PartialEq, Eq, Structural)]
pub struct PolicyRule {
    pub enabled: bool,
    pub mode: PolicyMode,
    pub fail_mode: FailMode,
}

impl Default for PolicyRule {
    /// Enabled, OBSERVE, fail-open.
    fn default() -> (r: Self)
        ensures
            r == (PolicyRule { enabled: true, mode: PolicyMode::Observe, fail_mode: FailMode::Open }),
    {
        PolicyRule { enabled: true, mode: PolicyMode::Observe, fail_mode: FailMode::Open }
    }
}

/// Configuration of the four policies.
#[derive(Debug, Clone, Copy, PartialEq, Eq, Structural)]
pub struct PolicyConfig {
    /// New beneficiary and high amount: challenge.
    pub high_amount_new_beneficiary: PolicyRule,
    /// High velocity: challenge.
    pub high_velocity: PolicyRule,
    /// Distinct targets: challenge.
    pub distinct_targets: PolicyRule,
    /// Credential-stuffing pattern: challenge.
    pub credential_stuffing: PolicyRule,
}

impl Default for PolicyConfig {
    /// Every policy enabled in OBSERVE mode, fail-open.
    fn default() -> (c: Self)
        ensures
            c.high_amount_new_beneficiary == (PolicyRule { enabled: true, mode: PolicyMode::Observe, fail_mode: FailMode::Open }),
            c.high_velocity == c.high_amount_new_beneficiary,
            c.distinct_targets == c.high_amount_new_beneficiary,
            c.credential_stuffing == c.high_amount_new_beneficiary,
    {
        PolicyConfig {
            high_amount_new_beneficiary: PolicyRule::default(),
            high_velocity: PolicyRule::default(),
            distinct_targets: PolicyRule::default(),
            credential_stuffing: PolicyRule::default(),
        }
    }
}

/// The whole detection configuration: policy rules and signal thresholds.
#[derive(Debug, Clone)]
pub struct DetectionConfig {
    pub policies: PolicyConfig,
    pub signals: SignalEngineConfig,
}

impl Default for DetectionConfig {
    /// Default policies and default signal thresholds.
    fn default() -> (c: Self)
        ensures
            c.policies.high_amount_new_beneficiary == (PolicyRule { enabled: true, mode: PolicyMode::Observe, fail_mode: FailMode::Open }),
            c.policies.high_velocity == c.policies.high_amount_new_beneficiary,
            c.policies.distinct_targets == c.policies.high_amount_new_beneficiary,
            c.policies.credential_stuffing == c.policies.high_amount_new_beneficiary,
            c.signals.amount_field@ == "amount"@,
            c.signals.velocity == (VelocityConfig { window_ms: 60_000, threshold: 10, max_subjects: 10_000 }),
            c.signals.credential_stuffing.window_ms == 60_000,
            c.signals.credential_stuffing.threshold == 5,
            c.signals.credential_stuffing.max_subjects == 10_000,
    {
        DetectionConfig { policies: PolicyConfig::default(), signals: SignalEngineConfig::default() }
    }
}

/// One rule in the reload summary: `name={on|off:MODE:FAIL}`.
pub open spec fn rule_summary(name: Seq<char>, r: PolicyRule) -> Seq<char> {
    name + seq!['=', '{'] + (if r.enabled { seq!['o', 'n'] } else { seq!['o', 'f', 'f'] }) + seq![':']
        + mode_name(r.mode) + seq![':'] + fail_mode_name(r.fail_mode) + seq!['}']
}

/// The one-line summary logged when a policy configuration is applied.
pub open spec fn spec_summarise(p: PolicyConfig) -> Seq<char> {
    rule_summary("hi_amt_new_ben"@, p.high_amount_new_beneficiary) + seq![' ']
        + rule_summary("hi_vel"@, p.high_velocity) + seq![' ']
        + rule_summary("dist_tgt"@, p.distinct_targets)
}

fn push_rule(s: &mut String, name: &str, r: &PolicyRule)
    ensures
        final(s)@ == old(s)@ + rule_summary(name@, *r),
{
    proof {
        reveal_strlit("on");
        reveal_strlit("off");
    }
    s.append(name);
    s.append("={");
    s.append(if r.enabled { "on" } else { "off" });
    s.append(":");
    s.append(r.mode.as_str());
    s.append(":");
    s.append(r.fail_mode.as_str());
    s.append("}");
    proof {
        reveal_strlit("={");
        reveal_strlit(":");
        reveal_strlit("}");
    }
    assert(s@ =~= old(s)@ + rule_summary(name@, *r));
}

/// Compact one-line summary of an applied policy configuration.
pub fn summarise(p: &PolicyConfig) -> (r: String)
    ensures
        r@ == spec_summarise(*p),
{
    let mut s = String::new();
    push_rule(&mut s, "hi_amt_new_ben", &p.high_amount_new_beneficiary);
    push_char(&mut s, ' ');
    push_rule(&mut s, "hi_vel", &p.high_velocity);
    push_char(&mut s, ' ');
    push_rule(&mut s, "dist_tgt", &p.distinct_targets);
    assert(s@ =~= spec_summarise(*p));
    s
}

} // verus!
