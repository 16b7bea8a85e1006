//! Resource governor: turns host headroom, the runtime's own latency budget
//! and shim heartbeats into one pressure level, and owns the dead-man's
//! switch that forces safe mode when the budget is breached for too long or
//! the shim stops confirming. Time is given in milliseconds on a monotonic
//! scale chosen by the caller; publishing changes to subscribers is the
//! caller's side.

use vstd::prelude::*;

verus! {

/// The degradation ladder, from normal operation to safe mode.
#[derive(Debug, Clone, Copy, PartialEq, Eq, Hash, Structural)]
pub enum PressureLevel {
    L0Normal,
    L1Reduce,
    L2Defer,
    L3Essential,
    L4SafeMode,
}

/// Priority classes of work, P0 most important.
#[derive(Debug, Clone, Copy, PartialEq, Eq, Hash, Structural)]
pub enum Priority {
    /// Customer workflow, or explicitly-configured enforcement.
    P0,
    /// Security signals for enforced policies, audit chain, decision records, lifecycle integrity.
    P1,
    /// Correlation, reconciliation.
    P2,
    /// Deep analysis, discovery, enrichment.
    P3,
    /// Optimisation, compaction, model refresh.
    P4,
}

/// Position of a level on the ladder.
pub open spec fn level_rank(l: PressureLevel) -> nat {
    match l {
        PressureLevel::L0Normal => 0,
        PressureLevel::L1Reduce => 1,
        PressureLevel::L2Defer => 2,
        PressureLevel::L3Essential => 3,
        PressureLevel::L4SafeMode => 4,
    }
}

/// Position of a priority, P0 first.
pub open spec fn priority_rank(p: Priority) -> nat {
    match p {
        Priority::P0 => 0,
        Priority::P1 => 1,
        Priority::P2 => 2,
        Priority::P3 => 3,
        Priority::P4 => 4,
    }
}

/// The work a level admits: L0 everything, L1 all but P4, L2 P0..P2,
/// L3 P0 and P1, L4 only P0.
pub open spec fn spec_allows(l: PressureLevel, p: Priority) -> bool {
    match l {
        PressureLevel::L0Normal => true,
        PressureLevel::L1Reduce => priority_rank(p) <= 3,
        PressureLevel::L2Defer => priority_rank(p) <= 2,
        PressureLevel::L3Essential => priority_rank(p) <= 1,
        PressureLevel::L4SafeMode => priority_rank(p) == 0,
    }
}

impl PressureLevel {
    pub fn allows(self, priority: Priority) -> (b: bool)
        ensures
            b == spec_allows(self, priority),
    {
        match (self, priority) {
            (PressureLevel::L0Normal, _) => true,
            (PressureLevel::L1Reduce, Priority::P4) => false,
            (PressureLevel::L1Reduce, _) => true,
            (PressureLevel::L2Defer, Priority::P3) => false,
            (PressureLevel::L2Defer, Priority::P4) => false,
            (PressureLevel::L2Defer, _) => true,
            (PressureLevel::L3Essential, Priority::P0) => true,
            (PressureLevel::L3Essential, Priority::P1) => true,
            (PressureLevel::L3Essential, _) => false,
            (PressureLevel::L4SafeMode, Priority::P0) => true,
            (PressureLevel::L4SafeMode, _) => false,
        }
    }

    /// The level's position on the ladder (0 for L0 .. 4 for L4).
    pub fn rank(self) -> (r: u8)
        ensures
            r as nat == level_rank(self),
    {
        match self {
            PressureLevel::L0Normal => 0,
            PressureLevel::L1Reduce => 1,
            PressureLevel::L2Defer => 2,
            PressureLevel::L3Essential => 3,
            PressureLevel::L4SafeMode => 4,
        }
    }

    /// The level's name as it is written in records (`L0Normal` .. `L4SafeMode`).
    pub fn name(self) -> (s: &'static str)
        ensures
            s@ == level_name(self),
    {
        proof {
            reveal_strlit("L0Normal");
            reveal_strlit("L1Reduce");
            reveal_strlit("L2Defer");
            reveal_strlit("L3Essential");
            reveal_strlit("L4SafeMode");
        }
        match self {
            PressureLevel::L0Normal => "L0Normal",
            PressureLevel::L1Reduce => "L1Reduce",
            PressureLevel::L2Defer => "L2Defer",
            PressureLevel::L3Essential => "L3Essential",
            PressureLevel::L4SafeMode => "L4SafeMode",
        }
    }
}

/// The name of a level.
pub open spec fn level_name(l: PressureLevel) -> Seq<char> {
    match l {
        PressureLevel::L0Normal => seq!['L', '0', 'N', 'o', 'r', 'm', 'a', 'l'],
        PressureLevel::L1Reduce => seq!['L', '1', 'R', 'e', 'd', 'u', 'c', 'e'],
        PressureLevel::L2Defer => seq!['L', '2', 'D', 'e', 'f', 'e', 'r'],
        PressureLevel::L3Essential => seq!['L', '3', 'E', 's', 's', 'e', 'n', 't', 'i', 'a', 'l'],
        PressureLevel::L4SafeMode => seq!['L', '4', 'S', 'a', 'f', 'e', 'M', 'o', 'd', 'e'],
    }
}

/// A higher level never admits work that a lower one refuses.
pub proof fn lemma_allows_is_monotone(low: PressureLevel, high: PressureLevel, p: Priority)
    requires
        level_rank(low) <= level_rank(high),
        spec_allows(high, p),
    ensures
        spec_allows(low, p),
{
}

/// The worse (higher) of two levels.
pub open spec fn worse(a: PressureLevel, b: PressureLevel) -> PressureLevel {
    if level_rank(a) >= level_rank(b) { a } else { b }
}

fn worse_of(a: PressureLevel, b: PressureLevel) -> (r: PressureLevel)
    ensures
        r == worse(a, b),
{
    if a.rank() >= b.rank() { a } else { b }
}

/// The level a p99 latency calls for: at or above `l3` is L3, at or above
/// `l2` is L2, above the budget is L1, otherwise L0.
pub open spec fn spec_latency_bucket(observed_us: u64, budget: u64, l2: u64, l3: u64) -> PressureLevel {
    if observed_us >= l3 {
        PressureLevel::L3Essential
    } else if observed_us >= l2 {
        PressureLevel::L2Defer
    } else if observed_us > budget {
        PressureLevel::L1Reduce
    } else {
        PressureLevel::L0Normal
    }
}

pub fn latency_bucket(observed_us: u64, budget: u64, l2: u64, l3: u64) -> (r: PressureLevel)
    ensures
        r == spec_latency_bucket(observed_us, budget, l2, l3),
{
    if observed_us >= l3 {
        PressureLevel::L3Essential
    } else if observed_us >= l2 {
        PressureLevel::L2Defer
    } else if observed_us > budget {
        PressureLevel::L1Reduce
    } else {
        PressureLevel::L0Normal
    }
}

/// Why the dead-man's switch tripped.
#[derive(Debug, Clone, Copy, PartialEq, Eq, Structural)]
pub enum DeadmanReason {
    /// The p99 latency budget was breached beyond the sustained-breach window.
    BudgetBreach,
    /// A runtime self-check failed.
    SelfCheckFailure,
    /// No shim confirmation within the heartbeat timeout.
    NoShimConfirmation,
}

/// Dead-man's switch state.
#[derive(Debug, Clone, Copy, PartialEq, Eq, Structural)]
pub enum DeadmanSignal {
    Clear,
    Tripped { since_ms: u64, reason: DeadmanReason },
}

/// The runtime's own latency measurement.
#[derive(Debug, Clone, Copy, PartialEq, Eq, Structural)]
pub struct BudgetObservation {
    pub p50_latency_us: u64,
    pub p99_latency_us: u64,
    pub taken_at_ms: u64,
}

/// Latency thresholds and time windows. The host-headroom thresholds are
/// percentages and are applied by the caller, who reports the resulting level.
#[derive(Debug, Clone, Copy, PartialEq, Eq, Structural)]
pub struct Config {
    pub p99_latency_budget_us: u64,
    pub p99_latency_l2_us: u64,
    pub p99_latency_l3_us: u64,
    /// A lower level must be warranted this long before the governor demotes.
    pub good_news_window_ms: u64,
    /// A budget breach lasting this long trips the dead-man's switch.
    pub sustained_breach_window_ms: u64,
    /// No heartbeat for this long trips the dead-man's switch.
    pub shim_heartbeat_timeout_ms: u64,
}

impl Default for Config {
    fn default() -> (c: Self)
        ensures
            c.p99_latency_budget_us == 1000,
            c.p99_latency_l2_us == 2000,
            c.p99_latency_l3_us == 5000,
            c.good_news_window_ms == 30_000,
            c.sustained_breach_window_ms == 10_000,
            c.shim_heartbeat_timeout_ms == 15_000,
    {
        Config {
            p99_latency_budget_us: 1000,
            p99_latency_l2_us: 2000,
            p99_latency_l3_us: 5000,
            good_news_window_ms: 30_000,
            sustained_breach_window_ms: 10_000,
            shim_heartbeat_timeout_ms: 15_000,
        }
    }
}

/// Everything the governor remembers between reports.
#[derive(Debug, Clone, Copy, PartialEq, Eq, Structural)]
pub struct GovernorState {
    /// Level the host headroom calls for, as last reported.
    pub host: Option<PressureLevel>,
    pub budget: Option<BudgetObservation>,
    pub last_heartbeat_ms: Option<u64>,
    /// Start of the current budget breach, if one is under way.
    pub breach_since_ms: Option<u64>,
    /// When the current level was set.
    pub at_current_since_ms: u64,
    pub current: PressureLevel,
    pub deadman: DeadmanSignal,
}

/// `a - b`, saturating at zero.
pub open spec fn since(now: u64, then: u64) -> u64 {
    if now >= then { (now - then) as u64 } else { 0 }
}

/// The level the live inputs call for, before the dead-man's switch and hysteresis.
pub open spec fn spec_intrinsic(s: GovernorState, c: Config) -> PressureLevel {
    let h = match s.host { Some(l) => l, None => PressureLevel::L0Normal };
    match s.budget {
        Some(b) => worse(h, spec_latency_bucket(b.p99_latency_us, c.p99_latency_budget_us, c.p99_latency_l2_us, c.p99_latency_l3_us)),
        None => h,
    }
}

/// The breach start after looking at the latest budget observation: a breach
/// keeps its start (or starts at the observation), no breach clears it.
pub open spec fn spec_breach_since(s: GovernorState, c: Config) -> Option<u64> {
    match s.budget {
        Some(b) => if b.p99_latency_us > c.p99_latency_budget_us {
            match s.breach_since_ms { Some(t) => Some(t), None => Some(b.taken_at_ms) }
        } else {
            None
        },
        None => s.breach_since_ms,
    }
}

/// The dead-man's switch after a recomputation at `now`: a sustained breach
/// or a missing heartbeat trips it; a tripped switch recovers only once the
/// inputs call for L0 and the good-news window has passed since it tripped.
pub open spec fn spec_deadman(s: GovernorState, c: Config, now: u64, intrinsic: PressureLevel) -> DeadmanSignal {
    let breach = spec_breach_since(s, c);
    if s.budget is Some && s.budget.unwrap().p99_latency_us > c.p99_latency_budget_us
        && since(now, breach.unwrap()) >= c.sustained_breach_window_ms {
        DeadmanSignal::Tripped { since_ms: breach.unwrap(), reason: DeadmanReason::BudgetBreach }
    } else if s.last_heartbeat_ms is Some && since(now, s.last_heartbeat_ms.unwrap()) >= c.shim_heartbeat_timeout_ms {
        DeadmanSignal::Tripped { since_ms: s.last_heartbeat_ms.unwrap(), reason: DeadmanReason::NoShimConfirmation }
    } else {
        match s.deadman {
            DeadmanSignal::Tripped { since_ms, .. } =>
                if intrinsic == PressureLevel::L0Normal && since(now, since_ms) >= c.good_news_window_ms {
                    DeadmanSignal::Clear
                } else {
                    s.deadman
                },
            DeadmanSignal::Clear => DeadmanSignal::Clear,
        }
    }
}

/// The level the governor aims for: safe mode while the switch is tripped.
pub open spec fn spec_target(s: GovernorState, c: Config, now: u64) -> PressureLevel {
    let intrinsic = spec_intrinsic(s, c);
    match spec_deadman(s, c, now, intrinsic) {
        DeadmanSignal::Tripped { .. } => PressureLevel::L4SafeMode,
        DeadmanSignal::Clear => intrinsic,
    }
}

/// Hysteresis: bad news applies at once; good news only after the current
/// level has held for the good-news window.
pub open spec fn spec_next_level(s: GovernorState, c: Config, target: PressureLevel, now: u64) -> PressureLevel {
    if level_rank(target) >= level_rank(s.current) {
        target
    } else if since(now, s.at_current_since_ms) >= c.good_news_window_ms {
        target
    } else {
        s.current
    }
}

/// The state after a recomputation at `now`.
pub open spec fn spec_recompute(s: GovernorState, c: Config, now: u64) -> GovernorState {
    let intrinsic = spec_intrinsic(s, c);
    let deadman = spec_deadman(s, c, now, intrinsic);
    let target = spec_target(s, c, now);
    let level = spec_next_level(s, c, target, now);
    GovernorState {
        breach_since_ms: spec_breach_since(s, c),
        deadman,
        current: level,
        at_current_since_ms: if level != s.current { now } else { s.at_current_since_ms },
        ..s
    }
}

/// Single source of truth for the pressure level and the dead-man's switch.
pub struct Governor {
    config: Config,
    state: GovernorState,
}

impl Governor {
    pub closed spec fn spec_config(&self) -> Config {
        self.config
    }

    pub closed spec fn spec_state(&self) -> GovernorState {
        self.state
    }

    /// A governor at L0 with an untripped switch; `now_ms` starts the clock
    /// of the current level.
    pub fn new(config: Config, now_ms: u64) -> (g: Self)
        ensures
            g.spec_config() == config,
            g.spec_state() == (GovernorState {
                host: None,
                budget: None,
                last_heartbeat_ms: None,
                breach_since_ms: None,
                at_current_since_ms: now_ms,
                current: PressureLevel::L0Normal,
                deadman: DeadmanSignal::Clear,
            }),
    {
        Governor {
            config,
            state: GovernorState {
                host: None,
                budget: None,
                last_heartbeat_ms: None,
                breach_since_ms: None,
                at_current_since_ms: now_ms,
                current: PressureLevel::L0Normal,
                deadman: DeadmanSignal::Clear,
            },
        }
    }

    pub fn current_level(&self) -> (l: PressureLevel)
        ensures
            l == self.spec_state().current,
    {
        self.state.current
    }

    pub fn current_deadman(&self) -> (d: DeadmanSignal)
        ensures
            d == self.spec_state().deadman,
    {
        self.state.deadman
    }

    /// Reports the level the host headroom calls for, observed at `taken_at_ms`.
    pub fn report_host(&mut self, host_level: PressureLevel, taken_at_ms: u64)
        ensures
            final(self).spec_config() == old(self).spec_config(),
            final(self).spec_state() == spec_recompute(
                GovernorState { host: Some(host_level), ..old(self).spec_state() }, old(self).spec_config(), taken_at_ms),
    {
        self.state.host = Some(host_level);
        self.recompute(taken_at_ms);
    }

    /// Reports a latency observation; it is evaluated at its own timestamp.
    pub fn report_budget(&mut self, o: BudgetObservation)
        ensures
            final(self).spec_config() == old(self).spec_config(),
            final(self).spec_state() == spec_recompute(
                GovernorState { budget: Some(o), ..old(self).spec_state() }, old(self).spec_config(), o.taken_at_ms),
    {
        self.state.budget = Some(o);
        self.recompute(o.taken_at_ms);
    }

    /// Records a shim heartbeat at `now_ms`.
    pub fn shim_heartbeat(&mut self, now_ms: u64)
        ensures
            final(self).spec_config() == old(self).spec_config(),
            final(self).spec_state() == spec_recompute(
                GovernorState { last_heartbeat_ms: Some(now_ms), ..old(self).spec_state() }, old(self).spec_config(), now_ms),
    {
        self.state.last_heartbeat_ms = Some(now_ms);
        self.recompute(now_ms);
    }

    /// Re-checks the time-based conditions (heartbeat, breach window) at `now_ms`.
    pub fn tick(&mut self, now_ms: u64)
        ensures
            final(self).spec_config() == old(self).spec_config(),
            final(self).spec_state() == spec_recompute(old(self).spec_state(), old(self).spec_config(), now_ms),
    {
        self.recompute(now_ms);
    }

    fn intrinsic_level(&self) -> (l: PressureLevel)
        ensures
            l == spec_intrinsic(self.state, self.config),
    {
        let h = match self.state.host {
            Some(l) => l,
            None => PressureLevel::L0Normal,
        };
        match self.state.budget {
            Some(b) => worse_of(h, latency_bucket(
                b.p99_latency_us,
                self.config.p99_latency_budget_us,
                self.config.p99_latency_l2_us,
                self.config.p99_latency_l3_us,
            )),
            None => h,
        }
    }

    fn evaluate_deadman(&mut self, now: u64, intrinsic: PressureLevel) -> (d: DeadmanSignal)
        ensures
            final(self).config == old(self).config,
            final(self).state == (GovernorState { breach_since_ms: spec_breach_since(old(self).state, old(self).config), ..old(self).state }),
            d == spec_deadman(old(self).state, old(self).config, now, intrinsic),
    {
        match self.state.budget {
            Some(b) => {
                if b.p99_latency_us > self.config.p99_latency_budget_us {
                    let start = match self.state.breach_since_ms {
                        Some(t) => t,
                        None => b.taken_at_ms,
                    };
                    self.state.breach_since_ms = Some(start);
                    if now.saturating_sub(start) >= self.config.sustained_breach_window_ms {
                        return DeadmanSignal::Tripped { since_ms: start, reason: DeadmanReason::BudgetBreach };
                    }
                } else {
                    self.state.breach_since_ms = None;
                }
            },
            None => {},
        }
        match self.state.last_heartbeat_ms {
            Some(last) => {
                if now.saturating_sub(last) >= self.config.shim_heartbeat_timeout_ms {
                    return DeadmanSignal::Tripped { since_ms: last, reason: DeadmanReason::NoShimConfirmation };
                }
            },
            None => {},
        }
        match self.state.deadman {
            DeadmanSignal::Tripped { since_ms, .. } => {
                let recovered = intrinsic == PressureLevel::L0Normal
                    && now.saturating_sub(since_ms) >= self.config.good_news_window_ms;
                if recovered {
                    DeadmanSignal::Clear
                } else {
                    self.state.deadman
                }
            },
            DeadmanSignal::Clear => DeadmanSignal::Clear,
        }
    }

    fn recompute(&mut self, now: u64)
        ensures
            final(self).config == old(self).config,
            final(self).state == spec_recompute(old(self).state, old(self).config, now),
    {
        let intrinsic = self.intrinsic_level();
        let deadman = self.evaluate_deadman(now, intrinsic);
        if deadman != self.state.deadman {
            self.state.deadman = deadman;
        }
        let target = match deadman {
            DeadmanSignal::Tripped { .. } => PressureLevel::L4SafeMode,
            DeadmanSignal::Clear => intrinsic,
        };
        let new_level = if target.rank() >= self.state.current.rank() {
            target
        } else if now.saturating_sub(self.state.at_current_since_ms) >= self.config.good_news_window_ms {
            target
        } else {
            self.state.current
        };
        if new_level != self.state.current {
            self.state.current = new_level;
            self.state.at_current_since_ms = now;
        }
    }
}

/// Bad news applies at once: after any recomputation the level is at least
/// what the inputs (and the dead-man's switch) call for.
pub proof fn lemma_escalation_is_immediate(s: GovernorState, c: Config, now: u64)
    ensures
        level_rank(spec_recompute(s, c, now).current) >= level_rank(spec_target(s, c, now)),
{
}

/// While the dead-man's switch is tripped the governor is in safe mode.
pub proof fn lemma_tripped_forces_safe_mode(s: GovernorState, c: Config, now: u64)
    ensures
        spec_recompute(s, c, now).deadman is Tripped ==> spec_recompute(s, c, now).current == PressureLevel::L4SafeMode,
{
}

/// Good news waits: the level only drops once the current level has held for
/// the good-news window, and never below what the inputs call for.
pub proof fn lemma_demotion_waits_for_good_news(s: GovernorState, c: Config, now: u64)
    ensures
        level_rank(spec_recompute(s, c, now).current) < level_rank(s.current)
            ==> since(now, s.at_current_since_ms) >= c.good_news_window_ms
                && spec_recompute(s, c, now).current == spec_target(s, c, now),
{
}

/// A budget breach that has lasted the sustained-breach window trips the
/// switch for the breach, and safe mode follows.
pub proof fn lemma_sustained_breach_trips(s: GovernorState, c: Config, now: u64)
    requires
        s.budget is Some,
        s.budget.unwrap().p99_latency_us > c.p99_latency_budget_us,
        since(now, spec_breach_since(s, c).unwrap()) >= c.sustained_breach_window_ms,
    ensures
        spec_recompute(s, c, now).deadman == (DeadmanSignal::Tripped {
            since_ms: spec_breach_since(s, c).unwrap(), reason: DeadmanReason::BudgetBreach }),
        spec_recompute(s, c, now).current == PressureLevel::L4SafeMode,
{
}

/// Every input's bad news applies at once: after a recomputation the level is
/// at least what the reported host headroom calls for, and at least what the
/// last p99 latency calls for, whichever inputs are present.
pub proof fn lemma_level_covers_every_input(s: GovernorState, c: Config, now: u64)
    ensures
        s.host matches Some(h) ==> level_rank(spec_intrinsic(s, c)) >= level_rank(h),
        s.budget matches Some(b) ==> level_rank(spec_intrinsic(s, c)) >= level_rank(
            spec_latency_bucket(b.p99_latency_us, c.p99_latency_budget_us, c.p99_latency_l2_us, c.p99_latency_l3_us)),
        s.host matches Some(h) ==> level_rank(spec_recompute(s, c, now).current) >= level_rank(h),
        s.budget matches Some(b) ==> level_rank(spec_recompute(s, c, now).current) >= level_rank(
            spec_latency_bucket(b.p99_latency_us, c.p99_latency_budget_us, c.p99_latency_l2_us, c.p99_latency_l3_us)),
        level_rank(spec_intrinsic(s, c)) == 0 || (s.host matches Some(h) && spec_intrinsic(s, c) == h)
            || (s.budget matches Some(b) && spec_intrinsic(s, c) == spec_latency_bucket(b.p99_latency_us,
                c.p99_latency_budget_us, c.p99_latency_l2_us, c.p99_latency_l3_us)),
{
    lemma_escalation_is_immediate(s, c, now);
    let i = spec_intrinsic(s, c);
    assert(level_rank(spec_target(s, c, now)) >= level_rank(i));
}

} // verus!
