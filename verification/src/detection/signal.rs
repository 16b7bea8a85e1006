//! Signals: evidence for policy decisions, never decisions themselves.

use vstd::prelude::*;
use vstd::string::StringExecFns;
use crate::detection::trackers::{
    VelocityConfig, VelocityTracker, Entry, entries_after, observe_result, TargetConfig, TargetTracker, TargetEntry,
    target_entries_after, target_observe_result,
};
use crate::event::{Event, lookup_pair, get_pair};
use crate::text::{push_decimal, decimal};

verus! {

#[derive(Debug, Clone, Copy, PartialEq, Eq, Hash, Structural)]
pub enum SignalKind {
    NewBeneficiary,
    HighAmount,
    HighVelocity,
    DistinctTargets,
    /// A burst of failed-auth events from one subject over a rolling window.
    CredentialStuffingPattern,
}

pub open spec fn kind_name(k: SignalKind) -> Seq<char> {
    match k {
        SignalKind::NewBeneficiary => seq!['n', 'e', 'w', '_', 'b', 'e', 'n', 'e', 'f', 'i', 'c', 'i', 'a', 'r', 'y'],
        SignalKind::HighAmount => seq!['h', 'i', 'g', 'h', '_', 'a', 'm', 'o', 'u', 'n', 't'],
        SignalKind::HighVelocity => seq!['h', 'i', 'g', 'h', '_', 'v', 'e', 'l', 'o', 'c', 'i', 't', 'y'],
        SignalKind::DistinctTargets => seq!['d', 'i', 's', 't', 'i', 'n', 'c', 't', '_', 't', 'a', 'r', 'g', 'e', 't', 's'],
        SignalKind::CredentialStuffingPattern => seq!['c', 'r', 'e', 'd', 'e', 'n', 't', 'i', 'a', 'l', '_', 's', 't', 'u', 'f', 'f', 'i', 'n', 'g', '_', 'p', 'a', 't', 't', 'e', 'r', 'n'],
    }
}

impl SignalKind {
    pub fn as_str(self) -> (s: &'static str)
        ensures
            s@ == kind_name(self),
    {
        proof {
            reveal_strlit("new_beneficiary");
            reveal_strlit("high_amount");
            reveal_strlit("high_velocity");
            reveal_strlit("distinct_targets");
            reveal_strlit("credential_stuffing_pattern");
        }
        match self {
            SignalKind::NewBeneficiary => "new_beneficiary",
            SignalKind::HighAmount => "high_amount",
            SignalKind::HighVelocity => "high_velocity",
            SignalKind::DistinctTargets => "distinct_targets",
            SignalKind::CredentialStuffingPattern => "credential_stuffing_pattern",
        }
    }
}

/// A produced signal. The confidence is in hundredths (85 stands for 0.85).
#[derive(Debug, Clone, PartialEq, Eq)]
pub struct Signal {
    pub kind: SignalKind,
    pub confidence_pct: u32,
    /// Human-readable value the signal represents (e.g. `amount=5000`).
    pub value: String,
    /// The threshold compared against, if any.
    pub threshold: Option<String>,
}


/// A signal as plain values.
pub struct SignalView {
    pub kind: SignalKind,
    pub confidence_pct: u32,
    pub value: Seq<char>,
    pub threshold: Option<Seq<char>>,
}

impl View for Signal {
    type V = SignalView;

    open spec fn view(&self) -> SignalView {
        SignalView {
            kind: self.kind,
            confidence_pct: self.confidence_pct,
            value: self.value@,
            threshold: match self.threshold { Some(t) => Some(t@), None => None },
        }
    }
}

/// Rules for classifying an event as a failed authentication attempt, and the
/// rolling-window rate at which such events form a credential-stuffing pattern.
#[derive(Debug, Clone)]
pub struct CredentialStuffingConfig {
    /// Event types that qualify, by exact equality.
    pub event_types: Vec<String>,
    /// A field of the event's data whose value, if listed in
    /// `outcome_failed_values`, also qualifies the event; empty disables it.
    pub outcome_field: String,
    pub outcome_failed_values: Vec<String>,
    pub window_ms: u64,
    pub threshold: u32,
    pub max_subjects: usize,
}

/// `v` is one of the strings in `list`.
pub open spec fn listed(list: Seq<String>, v: Seq<char>) -> bool {
    exists|i: int| 0 <= i < list.len() && list[i]@ == v
}

/// The event's outcome field holds one of the failure values.
pub open spec fn outcome_failed(c: CredentialStuffingConfig, e: Event) -> bool {
    match lookup_pair(e.data_text@, c.outcome_field@) {
        Some(v) => listed(c.outcome_failed_values@, v),
        None => false,
    }
}

/// Whether an event is a failed authentication attempt under `c`.
pub open spec fn spec_qualifies(c: CredentialStuffingConfig, e: Event) -> bool {
    ||| listed(c.event_types@, e.event_type@)
    ||| (c.outcome_field@.len() > 0 && outcome_failed(c, e))
}

fn is_listed(list: &Vec<String>, v: &String) -> (b: bool)
    ensures
        b == listed(list@, v@),
{
    let n = list.len();
    let mut i: usize = 0;
    while i < n
        invariant
            n == list@.len(),
            i <= n,
            forall|j: int| 0 <= j < i ==> list@[j]@ != v@,
        decreases n - i,
    {
        if list[i] == *v {
            return true;
        }
        i = i + 1;
    }
    false
}

impl Default for CredentialStuffingConfig {
    fn default() -> (c: Self)
        ensures
            c.event_types@.len() == 3,
            c.event_types@[0]@ == "login.fail"@,
            c.event_types@[1]@ == "auth.fail"@,
            c.event_types@[2]@ == "signin.fail"@,
            c.outcome_field@ == "outcome"@,
            c.outcome_failed_values@.len() == 3,
            c.outcome_failed_values@[0]@ == "failed"@,
            c.outcome_failed_values@[1]@ == "invalid_credentials"@,
            c.outcome_failed_values@[2]@ == "unauthorized"@,
            c.window_ms == 60_000,
            c.threshold == 5,
            c.max_subjects == 10_000,
    {
        let mut event_types: Vec<String> = Vec::new();
        event_types.push("login.fail".to_owned());
        event_types.push("auth.fail".to_owned());
        event_types.push("signin.fail".to_owned());
        let mut failed: Vec<String> = Vec::new();
        failed.push("failed".to_owned());
        failed.push("invalid_credentials".to_owned());
        failed.push("unauthorized".to_owned());
        CredentialStuffingConfig {
            event_types,
            outcome_field: "outcome".to_owned(),
            outcome_failed_values: failed,
            window_ms: 60_000,
            threshold: 5,
            max_subjects: 10_000,
        }
    }
}

impl CredentialStuffingConfig {
    /// Does the event qualify as a failed authentication attempt?
    pub fn qualifies(&self, event: &Event) -> (b: bool)
        ensures
            b == spec_qualifies(*self, *event),
    {
        if is_listed(&self.event_types, &event.event_type) {
            return true;
        }
        if self.outcome_field.as_str().is_empty() {
            return false;
        }
        match get_pair(&event.data_text, self.outcome_field.as_str()) {
            Some(v) => is_listed(&self.outcome_failed_values, v),
            None => false,
        }
    }

    /// The velocity-tracker configuration these fields describe.
    pub fn as_velocity(&self) -> (v: VelocityConfig)
        ensures
            v == (VelocityConfig { window_ms: self.window_ms, threshold: self.threshold, max_subjects: self.max_subjects }),
    {
        VelocityConfig { window_ms: self.window_ms, threshold: self.threshold, max_subjects: self.max_subjects }
    }
}

/// Configuration of the signal engine. (The high-amount floor is a
/// floating-point amount and is applied by the caller; see `AmountCheck`.)
#[derive(Debug, Clone)]
pub struct SignalEngineConfig {
    /// Field of the event's data that carries the amount.
    pub amount_field: String,
    pub velocity: VelocityConfig,
    /// Distinct beneficiaries per subject; fires `DistinctTargets` over the threshold.
    pub targets: TargetConfig,
    pub credential_stuffing: CredentialStuffingConfig,
}

impl Default for SignalEngineConfig {
    fn default() -> (c: Self)
        ensures
            c.amount_field@ == "amount"@,
            c.velocity == (VelocityConfig { window_ms: 60_000, threshold: 10, max_subjects: 10_000 }),
            c.targets == (TargetConfig { window_ms: 3_600_000, threshold: 5, max_subjects: 10_000, max_targets_per_subject: 1_000 }),
            c.credential_stuffing.window_ms == 60_000,
            c.credential_stuffing.threshold == 5,
            c.credential_stuffing.max_subjects == 10_000,
    {
        SignalEngineConfig {
            amount_field: "amount".to_owned(),
            velocity: VelocityConfig::default(),
            targets: TargetConfig::default(),
            credential_stuffing: CredentialStuffingConfig::default(),
        }
    }
}

/// The result of comparing an event's amount with the high-amount floor, made
/// by the caller on the floating-point values: their renderings, and whether
/// the amount is at or above the floor.
#[derive(Debug, Clone, PartialEq, Eq)]
pub struct AmountCheck {
    pub amount_text: String,
    pub floor_text: String,
    pub at_or_above_floor: bool,
}

/// The subject a rate is tracked for: the actor's id, else the tenant.
pub open spec fn subject_of(e: Event) -> Seq<char> {
    match e.actor {
        Some(a) => match a.id {
            Some(id) => id@,
            None => e.tenant_id@,
        },
        None => e.tenant_id@,
    }
}

/// The "known resources" key of an event with a resource id: `tenant:resource`.
pub open spec fn resource_key(e: Event) -> Option<Seq<char>> {
    match e.resource {
        Some(r) => match r.id {
            Some(rid) => Some(e.tenant_id@ + ":"@ + rid@),
            None => None,
        },
        None => None,
    }
}

pub open spec fn new_beneficiary_signal(e: Event) -> SignalView {
    SignalView {
        kind: SignalKind::NewBeneficiary,
        confidence_pct: 85,
        value: e.resource.unwrap().id.unwrap()@,
        threshold: None,
    }
}

pub open spec fn high_amount_signal(a: AmountCheck) -> SignalView {
    SignalView {
        kind: SignalKind::HighAmount,
        confidence_pct: 95,
        value: "amount="@ + a.amount_text@,
        threshold: Some(">="@ + a.floor_text@),
    }
}

pub open spec fn velocity_signal(subject: Seq<char>, count: u32, c: VelocityConfig) -> SignalView {
    SignalView {
        kind: SignalKind::HighVelocity,
        confidence_pct: 90,
        value: "subject="@ + subject + " count="@ + decimal(count as nat) + " window_ms="@ + decimal(c.window_ms as nat),
        threshold: Some(">"@ + decimal(c.threshold as nat)),
    }
}

pub open spec fn stuffing_signal(subject: Seq<char>, count: u32, c: CredentialStuffingConfig, event_type: Seq<char>) -> SignalView {
    SignalView {
        kind: SignalKind::CredentialStuffingPattern,
        confidence_pct: 85,
        value: "subject="@ + subject + " failed_count="@ + decimal(count as nat) + " window_ms="@
            + decimal(c.window_ms as nat) + " event_type="@ + event_type,
        threshold: Some(">"@ + decimal(c.threshold as nat)),
    }
}

/// The beneficiary's id, if the event names one.
pub open spec fn beneficiary_of(e: Event) -> Option<Seq<char>> {
    match e.beneficiary {
        Some(b) => match b.id {
            Some(id) => Some(id@),
            None => None,
        },
        None => None,
    }
}

pub open spec fn distinct_targets_signal(subject: Seq<char>, count: u32, c: TargetConfig) -> SignalView {
    SignalView {
        kind: SignalKind::DistinctTargets,
        confidence_pct: 90,
        value: "subject="@ + subject + " distinct_targets="@ + decimal(count as nat) + " window_ms="@
            + decimal(c.window_ms as nat),
        threshold: Some(">"@ + decimal(c.threshold as nat)),
    }
}

/// The velocity configuration derived from a credential-stuffing configuration.
pub open spec fn stuffing_velocity(c: CredentialStuffingConfig) -> VelocityConfig {
    VelocityConfig { window_ms: c.window_ms, threshold: c.threshold, max_subjects: c.max_subjects }
}

/// The signals `evaluate_at` returns, in order: a new beneficiary (first time
/// a tenant's resource id is seen), a high amount (as the caller's check
/// says), high velocity of the subject, and a credential-stuffing pattern
/// (for qualifying events only), and distinct targets (for events naming a
/// beneficiary only).
pub open spec fn spec_signals(
    c: SignalEngineConfig,
    known: Seq<Seq<char>>,
    vel: Seq<Entry>,
    cs: Seq<Entry>,
    tg: Seq<TargetEntry>,
    e: Event,
    amount: Option<AmountCheck>,
    now: u64,
) -> Seq<SignalView> {
    let s = subject_of(e);
    let nb = match resource_key(e) {
        Some(k) => if known.contains(k) { Seq::empty() } else { seq![new_beneficiary_signal(e)] },
        None => Seq::empty(),
    };
    let ha = match amount {
        Some(a) => if a.at_or_above_floor { seq![high_amount_signal(a)] } else { Seq::empty() },
        None => Seq::empty(),
    };
    let hv = match observe_result(vel, s, now, c.velocity) {
        Some(n) => seq![velocity_signal(s, n, c.velocity)],
        None => Seq::empty(),
    };
    let st = if spec_qualifies(c.credential_stuffing, e) {
        match observe_result(cs, s, now, stuffing_velocity(c.credential_stuffing)) {
            Some(n) => seq![stuffing_signal(s, n, c.credential_stuffing, e.event_type@)],
            None => Seq::empty(),
        }
    } else {
        Seq::empty()
    };
    let dt = match beneficiary_of(e) {
        Some(b) => match target_observe_result(tg, s, b, now, c.targets) {
            Some(n) => seq![distinct_targets_signal(s, n, c.targets)],
            None => Seq::empty(),
        },
        None => Seq::empty(),
    };
    nb + ha + hv + st + dt
}

/// Milliseconds since the Unix epoch from the system clock
/// (`SystemTime::now().duration_since(UNIX_EPOCH)`, zero before the epoch,
/// truncated to `u64`). Nothing is claimed of the value.
#[verifier::external_body]
pub(crate) fn wall_millis() -> (t: u64) {
    std::time::SystemTime::now().duration_since(std::time::UNIX_EPOCH).unwrap_or_default().as_millis() as u64
}

/// The engine's state after evaluating event `e` at `now`: the resource is
/// known, and the subject's rate windows have seen the event.
pub open spec fn engine_after(old: SignalEngine, new: SignalEngine, e: Event, now: u64) -> bool {
    &&& new.spec_config() == old.spec_config()
    &&& new.spec_known() == match resource_key(e) {
        Some(k) => if old.spec_known().contains(k) { old.spec_known() } else { old.spec_known().push(k) },
        None => old.spec_known(),
    }
    &&& new.spec_velocity().entries()
        == entries_after(old.spec_velocity().entries(), subject_of(e), now, old.spec_config().velocity)
    &&& new.spec_credstuff().entries() == if spec_qualifies(old.spec_config().credential_stuffing, e) {
        entries_after(old.spec_credstuff().entries(), subject_of(e), now,
            stuffing_velocity(old.spec_config().credential_stuffing))
    } else {
        old.spec_credstuff().entries()
    }
    &&& new.spec_targets().entries() == match beneficiary_of(e) {
        Some(b) => target_entries_after(old.spec_targets().entries(), subject_of(e), b, now, old.spec_config().targets),
        None => old.spec_targets().entries(),
    }
}

/// Evaluates each event against the signal producers, keeping the known
/// resources and the per-subject rate windows.
pub struct SignalEngine {
    config: SignalEngineConfig,
    known: Vec<String>,
    velocity: VelocityTracker,
    credstuff: VelocityTracker,
    targets: TargetTracker,
}

impl SignalEngine {
    pub closed spec fn spec_config(&self) -> SignalEngineConfig {
        self.config
    }

    /// The `tenant:resource` keys seen so far.
    pub closed spec fn spec_known(&self) -> Seq<Seq<char>> {
        self.known@.map_values(|s: String| s@)
    }

    pub closed spec fn spec_velocity(&self) -> VelocityTracker {
        self.velocity
    }

    pub closed spec fn spec_credstuff(&self) -> VelocityTracker {
        self.credstuff
    }

    pub closed spec fn spec_targets(&self) -> TargetTracker {
        self.targets
    }

    pub open spec fn wf(&self) -> bool {
        &&& self.spec_velocity().wf()
        &&& self.spec_credstuff().wf()
        &&& self.spec_velocity().spec_config() == self.spec_config().velocity
        &&& self.spec_credstuff().spec_config() == stuffing_velocity(self.spec_config().credential_stuffing)
        &&& self.spec_targets().wf()
        &&& self.spec_targets().spec_config() == self.spec_config().targets
    }

    pub fn new(config: SignalEngineConfig) -> (e: Self)
        ensures
            e.wf(),
            e.spec_config() == config,
            e.spec_known().len() == 0,
            e.spec_velocity().entries().len() == 0,
            e.spec_credstuff().entries().len() == 0,
            e.spec_targets().entries().len() == 0,
    {
        let velocity = VelocityTracker::new(config.velocity);
        let credstuff = VelocityTracker::new(config.credential_stuffing.as_velocity());
        let targets = TargetTracker::new(config.targets);
        let e = SignalEngine { config, known: Vec::new(), velocity, credstuff, targets };
        assert(e.spec_known() =~= Seq::<Seq<char>>::empty());
        e
    }

    fn is_known(&self, key: &String) -> (b: bool)
        ensures
            b == self.spec_known().contains(key@),
    {
        let n = self.known.len();
        let mut i: usize = 0;
        while i < n
            invariant
                n == self.known@.len(),
                i <= n,
                forall|j: int| 0 <= j < i ==> self.spec_known()[j] != key@,
            decreases n - i,
        {
            if self.known[i] == *key {
                assert(self.spec_known()[i as int] == key@);
                return true;
            }
            i = i + 1;
        }
        false
    }

    /// Evaluates an event at time `now_ms` against every signal producer and
    /// returns the fired signals.
    #[verifier::spinoff_prover]
    #[verifier::rlimit(80)]
    pub fn evaluate_at(&mut self, event: &Event, amount: Option<AmountCheck>, now_ms: u64) -> (out: Vec<Signal>)
        requires
            old(self).wf(),
        ensures
            final(self).wf(),
            final(self).spec_config() == old(self).spec_config(),
            out@.map_values(|s: Signal| s@) == spec_signals(
                old(self).spec_config(), old(self).spec_known(), old(self).spec_velocity().entries(),
                old(self).spec_credstuff().entries(), old(self).spec_targets().entries(), *event, amount, now_ms),
            engine_after(*old(self), *final(self), *event, now_ms),
    {
        let ghost known0 = self.spec_known();
        let ghost vel0 = self.velocity.entries();
        let ghost cs0 = self.credstuff.entries();
        let ghost tg0 = self.targets.entries();
        let mut out: Vec<Signal> = Vec::new();

        // New beneficiary.
        match &event.resource {
            Some(resource) => match &resource.id {
                Some(rid) => {
                    let mut key = event.tenant_id.clone();
                    key.append(":");
                    key.append(rid.as_str());
                    if !self.is_known(&key) {
                        self.known.push(key);
                        assert(self.spec_known() =~= known0.push(resource_key(*event).unwrap()));
                        out.push(Signal { kind: SignalKind::NewBeneficiary, confidence_pct: 85, value: rid.clone(), threshold: None });
                    }
                },
                None => {},
            },
            None => {},
        }
        let ghost after_nb = out@.map_values(|s: Signal| s@);

        // High amount.
        match &amount {
            Some(a) => {
                if a.at_or_above_floor {
                    let mut value = "amount=".to_owned();
                    value.append(a.amount_text.as_str());
                    let mut threshold = ">=".to_owned();
                    threshold.append(a.floor_text.as_str());
                    out.push(Signal { kind: SignalKind::HighAmount, confidence_pct: 95, value, threshold: Some(threshold) });
                }
            },
            None => {},
        }
        let ghost after_ha = out@.map_values(|s: Signal| s@);

        // High velocity.
        let subject: String = match &event.actor {
            Some(a) => match &a.id {
                Some(id) => id.clone(),
                None => event.tenant_id.clone(),
            },
            None => event.tenant_id.clone(),
        };
        match self.velocity.observe(subject.as_str(), now_ms) {
            Some(count) => {
                let mut value = "subject=".to_owned();
                value.append(subject.as_str());
                value.append(" count=");
                push_decimal(&mut value, count as u64);
                value.append(" window_ms=");
                push_decimal(&mut value, self.config.velocity.window_ms);
                let mut threshold = ">".to_owned();
                push_decimal(&mut threshold, self.config.velocity.threshold as u64);
                out.push(Signal { kind: SignalKind::HighVelocity, confidence_pct: 90, value, threshold: Some(threshold) });
            },
            None => {},
        }
        let ghost after_hv = out@.map_values(|s: Signal| s@);

        // Credential stuffing.
        if self.config.credential_stuffing.qualifies(event) {
            match self.credstuff.observe(subject.as_str(), now_ms) {
                Some(count) => {
                    let mut value = "subject=".to_owned();
                    value.append(subject.as_str());
                    value.append(" failed_count=");
                    push_decimal(&mut value, count as u64);
                    value.append(" window_ms=");
                    push_decimal(&mut value, self.config.credential_stuffing.window_ms);
                    value.append(" event_type=");
                    value.append(event.event_type.as_str());
                    let mut threshold = ">".to_owned();
                    push_decimal(&mut threshold, self.config.credential_stuffing.threshold as u64);
                    out.push(Signal { kind: SignalKind::CredentialStuffingPattern, confidence_pct: 85, value, threshold: Some(threshold) });
                },
                None => {},
            }
        }
        let ghost after_st = out@.map_values(|s: Signal| s@);

        // Distinct targets, for events naming a beneficiary.
        match &event.beneficiary {
            Some(b) => match &b.id {
                Some(target) => {
                    match self.targets.observe(subject.as_str(), target.as_str(), now_ms) {
                        Some(count) => {
                            let mut value = "subject=".to_owned();
                            value.append(subject.as_str());
                            value.append(" distinct_targets=");
                            push_decimal(&mut value, count as u64);
                            value.append(" window_ms=");
                            push_decimal(&mut value, self.config.targets.window_ms);
                            let mut threshold = ">".to_owned();
                            push_decimal(&mut threshold, self.config.targets.threshold as u64);
                            out.push(Signal { kind: SignalKind::DistinctTargets, confidence_pct: 90, value, threshold: Some(threshold) });
                        },
                        None => {},
                    }
                },
                None => {},
            },
            None => {},
        }
        proof {
            let s = subject_of(*event);
            let c = self.config;
            let nb = match resource_key(*event) {
                Some(k) => if known0.contains(k) { Seq::<SignalView>::empty() } else { seq![new_beneficiary_signal(*event)] },
                None => Seq::<SignalView>::empty(),
            };
            assert(after_nb =~= nb);
            let ha = match amount {
                Some(a) => if a.at_or_above_floor { seq![high_amount_signal(a)] } else { Seq::<SignalView>::empty() },
                None => Seq::<SignalView>::empty(),
            };
            assert(after_ha =~= nb + ha);
            let hv = match observe_result(vel0, s, now_ms, c.velocity) {
                Some(n) => seq![velocity_signal(s, n, c.velocity)],
                None => Seq::<SignalView>::empty(),
            };
            assert(after_hv =~= nb + ha + hv);
            let st = if spec_qualifies(c.credential_stuffing, *event) {
                match observe_result(cs0, s, now_ms, stuffing_velocity(c.credential_stuffing)) {
                    Some(n) => seq![stuffing_signal(s, n, c.credential_stuffing, event.event_type@)],
                    None => Seq::<SignalView>::empty(),
                }
            } else {
                Seq::<SignalView>::empty()
            };
            assert(after_st =~= nb + ha + hv + st);
            assert(out@.map_values(|x: Signal| x@) =~= spec_signals(c, known0, vel0, cs0, tg0, *event, amount, now_ms));
        }
        out
    }

    /// Evaluates an event against every signal producer at the system clock's
    /// current time; see `evaluate_at`.
    pub fn evaluate(&mut self, event: &Event, amount: Option<AmountCheck>) -> (out: Vec<Signal>)
        requires
            old(self).wf(),
        ensures
            final(self).wf(),
            final(self).spec_config() == old(self).spec_config(),
            exists|now: u64| out@.map_values(|s: Signal| s@) == #[trigger] spec_signals(
                old(self).spec_config(), old(self).spec_known(), old(self).spec_velocity().entries(),
                old(self).spec_credstuff().entries(), old(self).spec_targets().entries(), *event, amount, now)
                && engine_after(*old(self), *final(self), *event, now),
    {
        let now = wall_millis();
        self.evaluate_at(event, amount, now)
    }

    pub fn tracker_version(&self) -> (v: &'static str)
        ensures
            v@ == "signal-engine-0.1.0"@,
    {
        "signal-engine-0.1.0"
    }
}

/// A resource fires the new-beneficiary signal once per tenant: after an
/// event with a resource id has been evaluated, its key is known.
pub proof fn lemma_new_beneficiary_fires_once(
    c: SignalEngineConfig,
    known: Seq<Seq<char>>,
    vel: Seq<Entry>,
    cs: Seq<Entry>,
    tg: Seq<TargetEntry>,
    e: Event,
    amount: Option<AmountCheck>,
    now: u64,
)
    requires
        resource_key(e) is Some,
        known.contains(resource_key(e).unwrap()),
    ensures
        forall|i: int| 0 <= i < spec_signals(c, known, vel, cs, tg, e, amount, now).len()
            ==> spec_signals(c, known, vel, cs, tg, e, amount, now)[i].kind != SignalKind::NewBeneficiary,
{
}

/// Only failed authentications feed the credential-stuffing window: an event
/// that is neither of a listed type nor carries a listed failure outcome
/// leaves the window untouched and raises no credential-stuffing signal,
/// whatever came before it; a qualifying event is counted in its subject's
/// window, and the count the signal reports is that window's length.
pub proof fn lemma_only_failed_auth_is_counted(
    old: SignalEngine,
    new: SignalEngine,
    e: Event,
    amount: Option<AmountCheck>,
    now: u64,
)
    requires
        engine_after(old, new, e, now),
    ensures
        !listed(old.spec_config().credential_stuffing.event_types@, e.event_type@)
            && !(old.spec_config().credential_stuffing.outcome_field@.len() > 0
                && outcome_failed(old.spec_config().credential_stuffing, e))
            ==> {
                &&& new.spec_credstuff().entries() == old.spec_credstuff().entries()
                &&& forall|i: int| 0 <= i < spec_signals(old.spec_config(), old.spec_known(),
                    old.spec_velocity().entries(), old.spec_credstuff().entries(), old.spec_targets().entries(),
                    e, amount, now).len()
                    ==> (#[trigger] spec_signals(old.spec_config(), old.spec_known(),
                        old.spec_velocity().entries(), old.spec_credstuff().entries(), old.spec_targets().entries(),
                        e, amount, now)[i]).kind != SignalKind::CredentialStuffingPattern
            },
        listed(old.spec_config().credential_stuffing.event_types@, e.event_type@)
            ==> new.spec_credstuff().entries() == entries_after(old.spec_credstuff().entries(), subject_of(e), now,
                stuffing_velocity(old.spec_config().credential_stuffing)),
{
    let c = old.spec_config();
    let sigs = spec_signals(c, old.spec_known(), old.spec_velocity().entries(), old.spec_credstuff().entries(),
        old.spec_targets().entries(), e, amount, now);
    if !spec_qualifies(c.credential_stuffing, e) {
        let s = subject_of(e);
        let nb = match resource_key(e) {
            Some(k) => if old.spec_known().contains(k) { Seq::<SignalView>::empty() } else { seq![new_beneficiary_signal(e)] },
            None => Seq::<SignalView>::empty(),
        };
        let ha = match amount {
            Some(a) => if a.at_or_above_floor { seq![high_amount_signal(a)] } else { Seq::<SignalView>::empty() },
            None => Seq::<SignalView>::empty(),
        };
        let hv = match observe_result(old.spec_velocity().entries(), s, now, c.velocity) {
            Some(n) => seq![velocity_signal(s, n, c.velocity)],
            None => Seq::<SignalView>::empty(),
        };
        let dt = match beneficiary_of(e) {
            Some(b) => match target_observe_result(old.spec_targets().entries(), s, b, now, c.targets) {
                Some(n) => seq![distinct_targets_signal(s, n, c.targets)],
                None => Seq::<SignalView>::empty(),
            },
            None => Seq::<SignalView>::empty(),
        };
        assert(sigs =~= nb + ha + hv + Seq::<SignalView>::empty() + dt);
        assert forall|i: int| 0 <= i < sigs.len() implies (#[trigger] sigs[i]).kind != SignalKind::CredentialStuffingPattern by {
            let a = nb.len() as int;
            let b = a + ha.len();
            let d = b + hv.len();
            if i < a { assert(sigs[i] == nb[i]); }
            else if i < b { assert(sigs[i] == ha[i - a]); }
            else if i < d { assert(sigs[i] == hv[i - b]); }
            else { assert(sigs[i] == dt[i - d]); }
        }
    }
}

} // verus!
