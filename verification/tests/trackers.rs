use athar::detection::trackers::{VelocityConfig, VelocityTracker};

#[test]
fn under_threshold_returns_none() {
    let mut t = VelocityTracker::new(VelocityConfig { window_ms: 1000, threshold: 5, max_subjects: 100 });
    for i in 0..5 {
        assert_eq!(t.observe("actor_a", 100 + i), None);
    }
}

#[test]
fn firing_when_count_exceeds_threshold() {
    let mut t = VelocityTracker::new(VelocityConfig { window_ms: 1000, threshold: 3, max_subjects: 100 });
    assert_eq!(t.observe("a", 100), None);
    assert_eq!(t.observe("a", 200), None);
    assert_eq!(t.observe("a", 300), None);
    assert_eq!(t.observe("a", 400), Some(4));
}

#[test]
fn old_samples_pruned_out_of_window() {
    let mut t = VelocityTracker::new(VelocityConfig { window_ms: 1000, threshold: 2, max_subjects: 100 });
    assert_eq!(t.observe("a", 100), None);
    assert_eq!(t.observe("a", 200), None);
    assert_eq!(t.observe("a", 300), Some(3));
    assert_eq!(t.observe("a", 5_000), None);
}

#[test]
fn subjects_are_independent() {
    let mut t = VelocityTracker::new(VelocityConfig { window_ms: 1000, threshold: 2, max_subjects: 100 });
    assert_eq!(t.observe("a", 100), None);
    assert_eq!(t.observe("b", 100), None);
    assert_eq!(t.observe("a", 200), None);
    assert_eq!(t.observe("b", 200), None);
    assert_eq!(t.observe("a", 300), Some(3));
    assert_eq!(t.observe("b", 300), Some(3));
}

#[test]
fn capacity_evicts_oldest_subject() {
    let mut t = VelocityTracker::new(VelocityConfig { window_ms: 60_000, threshold: 100, max_subjects: 3 });
    t.observe("a", 100);
    t.observe("b", 200);
    t.observe("c", 300);
    assert_eq!(t.subject_count(), 3);
    assert!(t.is_at_capacity());
    t.observe("d", 400);
    assert_eq!(t.subject_count(), 3);
    assert!(!t.is_tracking("a"));
    assert!(t.is_tracking("b"));
    assert!(t.is_tracking("c"));
    assert!(t.is_tracking("d"));
}

#[test]
fn recent_activity_keeps_subject_alive() {
    let mut t = VelocityTracker::new(VelocityConfig { window_ms: 60_000, threshold: 100, max_subjects: 3 });
    t.observe("a", 100);
    t.observe("b", 200);
    t.observe("c", 300);
    t.observe("a", 350);
    t.observe("d", 400);
    assert!(t.is_tracking("a"), "a should survive because it was touched most recently before d");
    assert!(!t.is_tracking("b"), "b should be evicted as it's now the LRU");
}

#[test]
fn window_boundary_is_inclusive_of_cutoff() {
    // Samples at exactly `now - window` stay in the window.
    let mut t = VelocityTracker::new(VelocityConfig { window_ms: 100, threshold: 1, max_subjects: 10 });
    assert_eq!(t.observe("a", 100), None);
    assert_eq!(t.observe("a", 200), Some(2));
    // At 300 the cutoff is 200: the sample at 100 goes, the one at 200 stays.
    assert_eq!(t.observe("a", 300), Some(2));
    // At 401 the cutoff is 301: both 200 and 300 go.
    assert_eq!(t.observe("a", 401), None);
}

#[test]
fn default_config_matches_documented_seeds() {
    let c = VelocityConfig::default();
    assert_eq!(c.window_ms, 60_000);
    assert_eq!(c.threshold, 10);
    assert_eq!(c.max_subjects, 10_000);
    let t = VelocityTracker::new(c);
    assert_eq!(t.subject_count(), 0);
    assert!(!t.is_at_capacity());
}
