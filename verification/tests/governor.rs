use athar::governor::{
    latency_bucket, BudgetObservation, Config, DeadmanReason, DeadmanSignal, Governor, PressureLevel, Priority,
};

const T0: u64 = 1_000_000;

fn healthy_budget(at: u64) -> BudgetObservation {
    BudgetObservation { p50_latency_us: 100, p99_latency_us: 400, taken_at_ms: at }
}

#[test]
fn starts_at_l0() {
    let g = Governor::new(Config::default(), T0);
    assert_eq!(g.current_level(), PressureLevel::L0Normal);
    assert_eq!(g.current_deadman(), DeadmanSignal::Clear);
}

#[test]
fn healthy_metrics_stay_l0() {
    let mut g = Governor::new(Config::default(), T0);
    g.report_host(PressureLevel::L0Normal, T0);
    g.report_budget(healthy_budget(T0));
    assert_eq!(g.current_level(), PressureLevel::L0Normal);
}

#[test]
fn cpu_pressure_promotes_immediately() {
    // The host headroom (5% CPU, under the L2 threshold of 10%) calls for L2.
    let mut g = Governor::new(Config::default(), T0);
    g.report_host(PressureLevel::L2Defer, T0);
    assert_eq!(g.current_level(), PressureLevel::L2Defer);
}

#[test]
fn latency_breach_promotes() {
    let mut g = Governor::new(Config::default(), T0);
    g.report_host(PressureLevel::L0Normal, T0);
    g.report_budget(BudgetObservation { p50_latency_us: 500, p99_latency_us: 3000, taken_at_ms: T0 });
    assert_eq!(g.current_level(), PressureLevel::L2Defer);
}

#[test]
fn deadman_trips_on_sustained_breach_and_forces_l4() {
    let cfg = Config { sustained_breach_window_ms: 100, ..Config::default() };
    let mut g = Governor::new(cfg, T0);
    g.report_host(PressureLevel::L0Normal, T0);
    g.report_budget(BudgetObservation { p50_latency_us: 500, p99_latency_us: 1500, taken_at_ms: T0 });
    assert_eq!(g.current_level(), PressureLevel::L1Reduce);
    assert_eq!(g.current_deadman(), DeadmanSignal::Clear);
    g.tick(T0 + 200);
    assert_eq!(g.current_level(), PressureLevel::L4SafeMode);
    assert!(matches!(g.current_deadman(), DeadmanSignal::Tripped { reason: DeadmanReason::BudgetBreach, .. }));
}

#[test]
fn deadman_trips_on_missing_heartbeat() {
    let cfg = Config { shim_heartbeat_timeout_ms: 50, ..Config::default() };
    let mut g = Governor::new(cfg, T0);
    g.shim_heartbeat(T0);
    g.tick(T0 + 100);
    assert!(matches!(g.current_deadman(), DeadmanSignal::Tripped { reason: DeadmanReason::NoShimConfirmation, .. }));
    assert_eq!(g.current_level(), PressureLevel::L4SafeMode);
}

#[test]
fn good_news_hysteresis_defers_demotion() {
    let cfg = Config { good_news_window_ms: 200, ..Config::default() };
    let mut g = Governor::new(cfg, T0);
    g.report_host(PressureLevel::L2Defer, T0);
    assert_eq!(g.current_level(), PressureLevel::L2Defer);
    g.report_host(PressureLevel::L0Normal, T0 + 10);
    assert_eq!(g.current_level(), PressureLevel::L2Defer);
    g.report_host(PressureLevel::L0Normal, T0 + 300);
    assert_eq!(g.current_level(), PressureLevel::L0Normal);
}

#[test]
fn priority_gating() {
    assert!(PressureLevel::L0Normal.allows(Priority::P4));
    assert!(!PressureLevel::L1Reduce.allows(Priority::P4));
    assert!(PressureLevel::L1Reduce.allows(Priority::P3));
    assert!(!PressureLevel::L2Defer.allows(Priority::P3));
    assert!(PressureLevel::L3Essential.allows(Priority::P1));
    assert!(!PressureLevel::L3Essential.allows(Priority::P2));
    assert!(PressureLevel::L4SafeMode.allows(Priority::P0));
    assert!(!PressureLevel::L4SafeMode.allows(Priority::P1));
}

#[test]
fn tripped_switch_clears_after_good_news() {
    let cfg = Config { shim_heartbeat_timeout_ms: 50, good_news_window_ms: 200, ..Config::default() };
    let mut g = Governor::new(cfg, T0);
    g.shim_heartbeat(T0);
    g.tick(T0 + 60);
    assert_eq!(g.current_deadman(), DeadmanSignal::Tripped { since_ms: T0, reason: DeadmanReason::NoShimConfirmation });
    // A fresh heartbeat alone does not clear the switch before the good-news window.
    g.shim_heartbeat(T0 + 100);
    assert_eq!(g.current_level(), PressureLevel::L4SafeMode);
    g.shim_heartbeat(T0 + 300);
    assert_eq!(g.current_deadman(), DeadmanSignal::Clear);
}

#[test]
fn latency_buckets_and_names() {
    assert_eq!(latency_bucket(900, 1000, 2000, 5000), PressureLevel::L0Normal);
    assert_eq!(latency_bucket(1001, 1000, 2000, 5000), PressureLevel::L1Reduce);
    assert_eq!(latency_bucket(2000, 1000, 2000, 5000), PressureLevel::L2Defer);
    assert_eq!(latency_bucket(5000, 1000, 2000, 5000), PressureLevel::L3Essential);
    assert_eq!(PressureLevel::L4SafeMode.name(), "L4SafeMode");
    assert_eq!(PressureLevel::L3Essential.rank(), 3);
}
