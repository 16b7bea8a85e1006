//! Bounded in-memory trackers used by the signal engine. The velocity tracker
//! keeps, per subject, the timestamps seen in a rolling window, and bounds the
//! number of subjects by evicting the least-recently-active one.

use vstd::prelude::*;

verus! {

/// Configuration of a velocity tracker.
#[derive(Debug, Clone, Copy, PartialEq, Eq, Structural)]
pub struct VelocityConfig {
    /// Rolling window size in milliseconds.
    pub window_ms: u64,
    /// The signal fires when the count in the window strictly exceeds this.
    pub threshold: u32,
    /// Bound on tracked subjects; when full, the least-recently-active subject is evicted.
    pub max_subjects: usize,
}

impl Default for VelocityConfig {
    fn default() -> (c: Self)
        ensures
            c.window_ms == 60_000 && c.threshold == 10 && c.max_subjects == 10_000,
    {
        VelocityConfig { window_ms: 60_000, threshold: 10, max_subjects: 10_000 }
    }
}

/// One tracked subject and the timestamps in its window, oldest first.
pub struct SubjectWindow {
    pub subject: String,
    pub samples: Vec<u64>,
}

/// A subject and its window, as plain values.
pub type Entry = (Seq<char>, Seq<u64>);

/// Position of the subject `s` among `entries`, or -1.
pub open spec fn index_of<W>(entries: Seq<(Seq<char>, W)>, s: Seq<char>) -> int
    decreases entries.len(),
{
    if entries.len() == 0 {
        -1
    } else if entries[0].0 == s {
        0
    } else {
        let r = index_of(entries.drop_first(), s);
        if r < 0 { -1 } else { r + 1 }
    }
}

/// The window of `s`, if it is tracked.
pub open spec fn window_of<W>(entries: Seq<(Seq<char>, W)>, s: Seq<char>) -> Option<W> {
    let i = index_of(entries, s);
    if i >= 0 { Some(entries[i].1) } else { None }
}

/// No subject occurs twice.
pub open spec fn distinct_subjects<W>(entries: Seq<(Seq<char>, W)>) -> bool {
    forall|i: int, j: int| 0 <= i < j < entries.len() ==> entries[i].0 != entries[j].0
}

/// Drops the leading samples older than `cutoff` (the window is pruned from
/// its oldest end only).
pub open spec fn prune(w: Seq<u64>, cutoff: u64) -> Seq<u64>
    decreases w.len(),
{
    if w.len() > 0 && w[0] < cutoff {
        prune(w.drop_first(), cutoff)
    } else {
        w
    }
}

/// Start of the rolling window ending at `now`, saturating at zero.
pub open spec fn cutoff_of(now: u64, window_ms: u64) -> u64 {
    if now >= window_ms { (now - window_ms) as u64 } else { 0 }
}

/// The subjects that remain before `s` is (re)inserted: `s` itself is taken
/// out; a new subject arriving at capacity evicts the least-recently-active one.
pub open spec fn base_after_touch<W>(entries: Seq<(Seq<char>, W)>, s: Seq<char>, max_subjects: nat) -> Seq<(Seq<char>, W)> {
    let i = index_of(entries, s);
    if i >= 0 {
        entries.remove(i)
    } else if entries.len() >= max_subjects && entries.len() > 0 {
        entries.drop_first()
    } else {
        entries
    }
}

/// The window of `s` after observing it at `now`.
pub open spec fn window_after(entries: Seq<Entry>, s: Seq<char>, now: u64, window_ms: u64) -> Seq<u64> {
    let old_window = match window_of(entries, s) { Some(w) => w, None => Seq::empty() };
    prune(old_window, cutoff_of(now, window_ms)).push(now)
}

/// The tracker's state after observing `s` at `now`: `s` moves to the
/// most-recently-active end with its pruned window plus the new sample.
pub open spec fn entries_after(entries: Seq<Entry>, s: Seq<char>, now: u64, cfg: VelocityConfig) -> Seq<Entry> {
    base_after_touch(entries, s, cfg.max_subjects as nat).push((s, window_after(entries, s, now, cfg.window_ms)))
}

/// What `observe` returns: the count in the window (as `u32`, truncating)
/// when it strictly exceeds the threshold.
pub open spec fn observe_result(entries: Seq<Entry>, s: Seq<char>, now: u64, cfg: VelocityConfig) -> Option<u32> {
    let count = window_after(entries, s, now, cfg.window_ms).len() as u32;
    if count > cfg.threshold { Some(count) } else { None }
}

/// Rolling-window event-rate tracker.
pub struct VelocityTracker {
    config: VelocityConfig,
    subjects: Vec<SubjectWindow>,
}

proof fn lemma_index_of_bounds<W>(entries: Seq<(Seq<char>, W)>, s: Seq<char>)
    ensures
        -1 <= index_of(entries, s) < entries.len(),
        index_of(entries, s) >= 0 ==> entries[index_of(entries, s)].0 == s,
        index_of(entries, s) < 0 ==> forall|j: int| 0 <= j < entries.len() ==> entries[j].0 != s,
        forall|j: int| 0 <= j < index_of(entries, s) ==> entries[j].0 != s,
    decreases entries.len(),
{
    if entries.len() > 0 {
        lemma_index_of_bounds(entries.drop_first(), s);
        if entries[0].0 != s {
            assert forall|j: int| 0 < j < entries.len() implies entries[j] == entries.drop_first()[j - 1] by {}
        }
    }
}

proof fn lemma_index_of_found<W>(entries: Seq<(Seq<char>, W)>, s: Seq<char>, i: int)
    requires
        0 <= i < entries.len(),
        entries[i].0 == s,
        forall|j: int| 0 <= j < i ==> entries[j].0 != s,
    ensures
        index_of(entries, s) == i,
    decreases i,
{
    if i > 0 {
        assert forall|j: int| 0 <= j < i - 1 implies entries.drop_first()[j].0 != s by {
            assert(entries.drop_first()[j] == entries[j + 1]);
        }
        lemma_index_of_found(entries.drop_first(), s, i - 1);
    }
}

proof fn lemma_prune_suffix(w: Seq<u64>, cutoff: u64, k: int)
    requires
        0 <= k <= w.len(),
        forall|j: int| 0 <= j < k ==> w[j] < cutoff,
        k == w.len() || w[k] >= cutoff,
    ensures
        prune(w, cutoff) == w.subrange(k, w.len() as int),
    decreases k,
{
    if k == 0 {
        assert(w.subrange(0, w.len() as int) =~= w);
    } else {
        assert forall|j: int| 0 <= j < k - 1 implies w.drop_first()[j] < cutoff by {
            assert(w.drop_first()[j] == w[j + 1]);
        }
        lemma_prune_suffix(w.drop_first(), cutoff, k - 1);
        assert(w.drop_first().subrange(k - 1, w.len() - 1) =~= w.subrange(k, w.len() as int));
    }
}

proof fn lemma_touch_keeps_distinct<W>(e0: Seq<(Seq<char>, W)>, s: Seq<char>, max_subjects: nat, w: W)
    requires
        distinct_subjects(e0),
        e0.len() <= if max_subjects >= 1 { max_subjects } else { 1 },
    ensures
        distinct_subjects(base_after_touch(e0, s, max_subjects).push((s, w))),
        base_after_touch(e0, s, max_subjects).push((s, w)).len() <= if max_subjects >= 1 { max_subjects } else { 1 },
{
    lemma_index_of_bounds(e0, s);
    let base = base_after_touch(e0, s, max_subjects);
    let e1 = base.push((s, w));
    let i0 = index_of(e0, s);
    assert forall|a: int| 0 <= a < base.len() implies base[a].0 != s by {
        if i0 >= 0 {
            if a < i0 {
                assert(base[a] == e0[a]);
            } else {
                assert(base[a] == e0[a + 1]);
            }
        } else if e0.len() >= max_subjects && e0.len() > 0 {
            assert(base[a] == e0[a + 1]);
        } else {
            assert(base[a] == e0[a]);
        }
    }
    assert forall|a: int, b: int| 0 <= a < b < e1.len() implies e1[a].0 != e1[b].0 by {
        if b == e1.len() - 1 {
            assert(e1[a] == base[a]);
        } else if i0 >= 0 {
            let a0 = if a < i0 { a } else { a + 1 };
            let b0 = if b < i0 { b } else { b + 1 };
            assert(e1[a] == e0[a0]);
            assert(e1[b] == e0[b0]);
        } else if e0.len() >= max_subjects && e0.len() > 0 {
            assert(e1[a] == e0[a + 1]);
            assert(e1[b] == e0[b + 1]);
        } else {
            assert(e1[a] == e0[a]);
            assert(e1[b] == e0[b]);
        }
    }
}

impl VelocityTracker {
    /// The tracked subjects and their windows, least-recently-active first.
    pub closed spec fn entries(&self) -> Seq<Entry> {
        self.subjects@.map_values(|e: SubjectWindow| (e.subject@, e.samples@))
    }

    pub closed spec fn spec_config(&self) -> VelocityConfig {
        self.config
    }

    /// Subjects are distinct, and their number stays within the bound (a
    /// bound of zero still admits the one subject being observed).
    pub open spec fn wf(&self) -> bool {
        &&& distinct_subjects(self.entries())
        &&& self.entries().len() <= if self.spec_config().max_subjects >= 1 { self.spec_config().max_subjects as nat } else { 1 }
    }

    pub fn new(config: VelocityConfig) -> (t: Self)
        ensures
            t.wf(),
            t.spec_config() == config,
            t.entries().len() == 0,
    {
        let t = VelocityTracker { config, subjects: Vec::new() };
        assert(t.entries() =~= Seq::<Entry>::empty());
        t
    }

    fn find(&self, key: &String) -> (r: Option<usize>)
        requires
            self.wf(),
        ensures
            match r {
                Some(i) => index_of(self.entries(), key@) == i as int,
                None => index_of(self.entries(), key@) < 0,
            },
    {
        let n = self.subjects.len();
        let mut i: usize = 0;
        while i < n
            invariant
                n == self.subjects@.len(),
                n == self.entries().len(),
                i <= n,
                forall|j: int| 0 <= j < i ==> self.entries()[j].0 != key@,
            decreases n - i,
        {
            if self.subjects[i].subject == *key {
                proof {
                    assert(self.entries()[i as int].0 == self.subjects@[i as int].subject@);
                    lemma_index_of_found(self.entries(), key@, i as int);
                }
                return Some(i);
            }
            proof {
                assert(self.entries()[i as int].0 == self.subjects@[i as int].subject@);
            }
            i = i + 1;
        }
        proof {
            lemma_index_of_bounds(self.entries(), key@);
            if index_of(self.entries(), key@) >= 0 {
                let k = index_of(self.entries(), key@);
                assert(self.entries()[k].0 != key@);
            }
        }
        None
    }

    /// Records one observation of `subject` at `now_ms`; returns the count in
    /// the window when it strictly exceeds the threshold.
    #[verifier::rlimit(30)]
    pub fn observe(&mut self, subject: &str, now_ms: u64) -> (r: Option<u32>)
        requires
            old(self).wf(),
        ensures
            final(self).wf(),
            final(self).spec_config() == old(self).spec_config(),
            final(self).entries() == entries_after(old(self).entries(), subject@, now_ms, old(self).spec_config()),
            r == observe_result(old(self).entries(), subject@, now_ms, old(self).spec_config()),
    {
        let key = subject.to_owned();
        let ghost e0 = self.entries();
        let found = self.find(&key);
        proof {
            lemma_index_of_bounds(e0, key@);
        }
        let old_samples: Vec<u64> = match found {
            Some(i) => {
                let entry = self.subjects.remove(i);
                proof {
                    assert(self.entries() =~= e0.remove(i as int));
                }
                entry.samples
            },
            None => {
                if self.subjects.len() >= self.config.max_subjects && self.subjects.len() > 0 {
                    self.subjects.remove(0);
                    proof {
                        assert(self.entries() =~= e0.drop_first());
                    }
                } else {
                    assert(self.entries() =~= e0);
                }
                Vec::new()
            },
        };
        let ghost base = self.entries();
        assert(base == base_after_touch(e0, key@, self.config.max_subjects as nat));
        assert(old_samples@ == match window_of(e0, key@) { Some(w) => w, None => Seq::<u64>::empty() });

        let cutoff = now_ms.saturating_sub(self.config.window_ms);
        let n = old_samples.len();
        let mut k: usize = 0;
        while k < n && old_samples[k] < cutoff
            invariant
                n == old_samples@.len(),
                k <= n,
                forall|j: int| 0 <= j < k ==> old_samples@[j] < cutoff,
            decreases n - k,
        {
            k = k + 1;
        }
        proof {
            lemma_prune_suffix(old_samples@, cutoff, k as int);
        }
        let mut window: Vec<u64> = Vec::new();
        let mut j: usize = k;
        while j < n
            invariant
                n == old_samples@.len(),
                k <= j <= n,
                window@ == old_samples@.subrange(k as int, j as int),
            decreases n - j,
        {
            window.push(old_samples[j]);
            assert(old_samples@.subrange(k as int, j + 1) =~= old_samples@.subrange(k as int, j as int).push(old_samples@[j as int]));
            j = j + 1;
        }
        window.push(now_ms);
        let count = window.len() as u32;
        let ghost new_window = window@;
        assert(new_window == window_after(e0, key@, now_ms, self.config.window_ms));
        self.subjects.push(SubjectWindow { subject: key, samples: window });
        proof {
            assert(self.entries() =~= base.push((subject@, new_window)));
            lemma_touch_keeps_distinct(e0, subject@, self.config.max_subjects as nat, new_window);
        }
        if count > self.config.threshold {
            Some(count)
        } else {
            None
        }
    }

    pub fn config(&self) -> (c: &VelocityConfig)
        ensures
            *c == self.spec_config(),
    {
        &self.config
    }

    pub fn subject_count(&self) -> (n: usize)
        ensures
            n == self.entries().len(),
    {
        self.subjects.len()
    }

    pub fn is_at_capacity(&self) -> (b: bool)
        ensures
            b == (self.entries().len() >= self.spec_config().max_subjects),
    {
        self.subjects.len() >= self.config.max_subjects
    }

    /// Whether `subject` currently has a window.
    pub fn is_tracking(&self, subject: &str) -> (b: bool)
        requires
            self.wf(),
        ensures
            b == (window_of(self.entries(), subject@) is Some),
    {
        let key = subject.to_owned();
        self.find(&key).is_some()
    }
}

/// Observing one subject leaves every other tracked subject's window as it
/// was, unless that subject is the one evicted to make room.
pub proof fn lemma_subjects_are_independent(entries: Seq<Entry>, s: Seq<char>, t: Seq<char>, now: u64, cfg: VelocityConfig)
    requires
        distinct_subjects(entries),
        t != s,
        window_of(entries, t) is Some,
        !(index_of(entries, s) < 0 && entries.len() >= cfg.max_subjects && entries.len() > 0 && entries[0].0 == t),
    ensures
        window_of(entries_after(entries, s, now, cfg), t) == window_of(entries, t),
{
    lemma_index_of_bounds(entries, s);
    lemma_index_of_bounds(entries, t);
    let e1 = entries_after(entries, s, now, cfg);
    let base = base_after_touch(entries, s, cfg.max_subjects as nat);
    let it = index_of(entries, t);
    let is = index_of(entries, s);
    let pos = if is >= 0 {
        if it < is { it } else { it - 1 }
    } else if entries.len() >= cfg.max_subjects && entries.len() > 0 {
        it - 1
    } else {
        it
    };
    assert(e1[pos] == entries[it]);
    assert forall|j: int| 0 <= j < pos implies e1[j].0 != t by {
        if is >= 0 {
            if j < is { assert(e1[j] == entries[j]); } else { assert(e1[j] == entries[j + 1]); }
        } else if entries.len() >= cfg.max_subjects && entries.len() > 0 {
            assert(e1[j] == entries[j + 1]);
        } else {
            assert(e1[j] == entries[j]);
        }
    }
    lemma_index_of_found(e1, t, pos);
}

/// The number of tracked subjects never exceeds the configured bound (or one,
/// for a bound of zero): observing preserves the tracker's invariant.
pub proof fn lemma_capacity_is_bounded(t: VelocityTracker, s: Seq<char>, now: u64)
    requires
        t.wf(),
    ensures
        entries_after(t.entries(), s, now, t.spec_config()).len()
            <= if t.spec_config().max_subjects >= 1 { t.spec_config().max_subjects as nat } else { 1 },
{
    lemma_index_of_bounds(t.entries(), s);
}

/// The signal fires exactly when the count in the window exceeds the threshold.
pub proof fn lemma_fires_iff_over_threshold(entries: Seq<Entry>, s: Seq<char>, now: u64, cfg: VelocityConfig)
    ensures
        observe_result(entries, s, now, cfg) is Some
            <==> (window_after(entries, s, now, cfg.window_ms).len() as u32) > cfg.threshold,
        observe_result(entries, s, now, cfg) matches Some(c) ==> c == window_after(entries, s, now, cfg.window_ms).len() as u32,
{
}

/// Observing a subject, by case: a tracked subject keeps the number of
/// subjects; a new subject arriving when the tracker holds `max_subjects`
/// (at least one) evicts exactly the least-recently-active subject, keeping
/// the number; any other new subject adds one.
pub proof fn lemma_touch_by_case<W>(entries: Seq<(Seq<char>, W)>, s: Seq<char>, max_subjects: nat, w: W)
    requires
        distinct_subjects(entries),
    ensures
        ({
            let e1 = base_after_touch(entries, s, max_subjects).push((s, w));
            &&& index_of(entries, s) >= 0 ==> e1.len() == entries.len()
                && forall|t: Seq<char>| t != s ==> (#[trigger] index_of(e1, t) >= 0 <==> index_of(entries, t) >= 0)
            &&& index_of(entries, s) < 0 && entries.len() >= max_subjects && max_subjects >= 1 ==> {
                &&& e1.len() == entries.len()
                &&& index_of(e1, entries[0].0) < 0
                &&& forall|t: Seq<char>| t != s && t != entries[0].0
                    ==> (#[trigger] index_of(e1, t) >= 0 <==> index_of(entries, t) >= 0)
            }
            &&& index_of(entries, s) < 0 && entries.len() < max_subjects ==> e1.len() == entries.len() + 1
            &&& index_of(e1, s) == e1.len() - 1
        }),
{
    lemma_index_of_bounds(entries, s);
    let base = base_after_touch(entries, s, max_subjects);
    let e1 = base.push((s, w));
    let i0 = index_of(entries, s);
    // Positions in e1 before the last come from entries, skipping the removed one.
    let skip = if i0 >= 0 { i0 } else if entries.len() >= max_subjects && entries.len() > 0 { 0 } else { entries.len() as int };
    assert forall|a: int| 0 <= a < base.len() implies base[a] == entries[if a < skip { a } else { a + 1 }] by {}
    assert forall|t: Seq<char>| t != s implies (#[trigger] index_of(e1, t) >= 0 <==> (exists|b: int| 0 <= b < entries.len() && b != skip && entries[b].0 == t)) by {
        lemma_index_of_bounds(e1, t);
        if index_of(e1, t) >= 0 {
            let a = index_of(e1, t);
            let b = if a < skip { a } else { a + 1 };
            assert(e1[a] == base[a]);
            assert(entries[b].0 == t);
        }
        if exists|b: int| 0 <= b < entries.len() && b != skip && entries[b].0 == t {
            let b = choose|b: int| 0 <= b < entries.len() && b != skip && entries[b].0 == t;
            let a = if b < skip { b } else { b - 1 };
            assert(e1[a] == base[a]);
            assert(e1[a].0 == t);
        }
    }
    assert forall|t: Seq<char>| t != s implies (index_of(entries, t) >= 0 <==> (exists|b: int| 0 <= b < entries.len() && entries[b].0 == t)) by {
        lemma_index_of_bounds(entries, t);
        if index_of(entries, t) >= 0 {
            let b = index_of(entries, t);
            assert(entries[b].0 == t);
        }
    }
    assert forall|a: int| 0 <= a < base.len() implies e1[a].0 != s by {
        assert(e1[a] == base[a]);
    }
    lemma_index_of_found(e1, s, e1.len() - 1);
    if i0 < 0 && entries.len() >= max_subjects && max_subjects >= 1 {
        let t0 = entries[0].0;
        lemma_index_of_bounds(e1, t0);
        if index_of(e1, t0) >= 0 {
            let a = index_of(e1, t0);
            assert(e1[a] == base[a]);
            assert(entries[a + 1].0 == t0);
            assert(false);
        }
    }
}

/// The velocity tracker's subjects after an observation, by case: a tracked
/// subject keeps the number of subjects and evicts nobody; a new subject when
/// `max_subjects` (at least one) are tracked evicts exactly the
/// least-recently-active one, keeping the number; any other new subject adds one.
pub proof fn lemma_velocity_eviction_by_case(t: VelocityTracker, s: Seq<char>, now: u64)
    requires
        t.wf(),
    ensures
        ({
            let e0 = t.entries();
            let e1 = entries_after(e0, s, now, t.spec_config());
            let m = t.spec_config().max_subjects as nat;
            &&& index_of(e0, s) >= 0 ==> e1.len() == e0.len()
                && forall|u: Seq<char>| u != s ==> (#[trigger] index_of(e1, u) >= 0 <==> index_of(e0, u) >= 0)
            &&& index_of(e0, s) < 0 && e0.len() >= m && m >= 1 ==> {
                &&& e1.len() == e0.len()
                &&& index_of(e1, e0[0].0) < 0
                &&& forall|u: Seq<char>| u != s && u != e0[0].0
                    ==> (#[trigger] index_of(e1, u) >= 0 <==> index_of(e0, u) >= 0)
            }
            &&& index_of(e0, s) < 0 && e0.len() < m ==> e1.len() == e0.len() + 1
            &&& index_of(e1, s) >= 0
        }),
{
    let e0 = t.entries();
    lemma_touch_by_case(e0, s, t.spec_config().max_subjects as nat,
        window_after(e0, s, now, t.spec_config().window_ms));
}

// ---------------------------------------------------------------------------
// Distinct targets

/// Configuration of a distinct-target tracker.
#[derive(Debug, Clone, Copy, PartialEq, Eq, Structural)]
pub struct TargetConfig {
    /// Rolling window size in milliseconds.
    pub window_ms: u64,
    /// The signal fires when the number of distinct targets in the window
    /// strictly exceeds this.
    pub threshold: u32,
    /// Bound on tracked subjects; when full, the least-recently-active subject is evicted.
    pub max_subjects: usize,
    /// Bound on targets kept per subject; when full, the least-recently-seen target is dropped.
    pub max_targets_per_subject: usize,
}

impl Default for TargetConfig {
    fn default() -> (c: Self)
        ensures
            c.window_ms == 3_600_000 && c.threshold == 5 && c.max_subjects == 10_000
                && c.max_targets_per_subject == 1_000,
    {
        TargetConfig { window_ms: 3_600_000, threshold: 5, max_subjects: 10_000, max_targets_per_subject: 1_000 }
    }
}

/// A target and when it was last seen for a subject.
pub struct TargetSeen {
    pub target: String,
    pub at_ms: u64,
}

/// One tracked subject and its targets, least-recently-seen first.
pub struct SubjectTargets {
    pub subject: String,
    pub targets: Vec<TargetSeen>,
}

/// A subject's targets as plain values: each target and when it was last seen.
pub type Targets = Seq<(Seq<char>, u64)>;

/// A subject and its targets, as plain values.
pub type TargetEntry = (Seq<char>, Targets);

/// Drops the leading targets last seen before `cutoff`.
pub open spec fn prune_targets(w: Targets, cutoff: u64) -> Targets
    decreases w.len(),
{
    if w.len() > 0 && w[0].1 < cutoff {
        prune_targets(w.drop_first(), cutoff)
    } else {
        w
    }
}

/// The targets of `s` after it is seen sending to `target` at `now`: the
/// window is pruned, `target` moves to the most-recent end stamped `now`,
/// and a new target at the per-subject bound drops the least-recently-seen one.
pub open spec fn targets_after(entries: Seq<TargetEntry>, s: Seq<char>, target: Seq<char>, now: u64, cfg: TargetConfig) -> Targets {
    let old_targets = match window_of(entries, s) { Some(w) => w, None => Seq::empty() };
    base_after_touch(prune_targets(old_targets, cutoff_of(now, cfg.window_ms)), target, cfg.max_targets_per_subject as nat)
        .push((target, now))
}

/// The tracker's state after `s` is seen sending to `target` at `now`.
pub open spec fn target_entries_after(entries: Seq<TargetEntry>, s: Seq<char>, target: Seq<char>, now: u64, cfg: TargetConfig) -> Seq<TargetEntry> {
    base_after_touch(entries, s, cfg.max_subjects as nat).push((s, targets_after(entries, s, target, now, cfg)))
}

/// What `TargetTracker::observe` returns: the number of distinct targets in
/// the window (as `u32`, truncating) when it strictly exceeds the threshold.
pub open spec fn target_observe_result(entries: Seq<TargetEntry>, s: Seq<char>, target: Seq<char>, now: u64, cfg: TargetConfig) -> Option<u32> {
    let count = targets_after(entries, s, target, now, cfg).len() as u32;
    if count > cfg.threshold { Some(count) } else { None }
}

pub open spec fn targets_view(v: Seq<TargetSeen>) -> Targets {
    v.map_values(|t: TargetSeen| (t.target@, t.at_ms))
}

proof fn lemma_prune_targets_suffix(w: Targets, cutoff: u64, k: int)
    requires
        0 <= k <= w.len(),
        forall|j: int| 0 <= j < k ==> w[j].1 < cutoff,
        k == w.len() || w[k].1 >= cutoff,
    ensures
        prune_targets(w, cutoff) == w.subrange(k, w.len() as int),
    decreases k,
{
    if k == 0 {
        assert(w.subrange(0, w.len() as int) =~= w);
    } else {
        assert forall|j: int| 0 <= j < k - 1 implies w.drop_first()[j].1 < cutoff by {
            assert(w.drop_first()[j] == w[j + 1]);
        }
        lemma_prune_targets_suffix(w.drop_first(), cutoff, k - 1);
        assert(w.drop_first().subrange(k - 1, w.len() - 1) =~= w.subrange(k, w.len() as int));
    }
}

fn prune_before(old: Vec<TargetSeen>, cutoff: u64) -> (r: Vec<TargetSeen>)
    ensures
        targets_view(r@) == prune_targets(targets_view(old@), cutoff),
{
    let ghost w0 = targets_view(old@);
    let n = old.len();
    let mut k: usize = 0;
    while k < n && old[k].at_ms < cutoff
        invariant
            n == old@.len(),
            w0 == targets_view(old@),
            k <= n,
            forall|j: int| 0 <= j < k ==> w0[j].1 < cutoff,
        decreases n - k,
    {
        k = k + 1;
    }
    proof {
        lemma_prune_targets_suffix(w0, cutoff, k as int);
    }
    let mut out: Vec<TargetSeen> = Vec::new();
    let mut j: usize = k;
    while j < n
        invariant
            n == old@.len(),
            w0 == targets_view(old@),
            k <= j <= n,
            targets_view(out@) == w0.subrange(k as int, j as int),
        decreases n - j,
    {
        let t = &old[j];
        let name = t.target.clone();
        assert(w0[j as int] == (t.target@, t.at_ms));
        let ghost before = out@;
        out.push(TargetSeen { target: name, at_ms: t.at_ms });
        assert(out@ == before.push(TargetSeen { target: name, at_ms: t.at_ms }));
        assert(targets_view(out@) =~= targets_view(before).push((name@, t.at_ms)));
        assert(targets_view(out@) =~= w0.subrange(k as int, j + 1));
        j = j + 1;
    }
    out
}

fn position_of(v: &Vec<TargetSeen>, target: &String) -> (r: Option<usize>)
    ensures
        match r {
            Some(i) => index_of(targets_view(v@), target@) == i as int,
            None => index_of(targets_view(v@), target@) < 0,
        },
{
    let ghost w = targets_view(v@);
    let n = v.len();
    let mut i: usize = 0;
    while i < n
        invariant
            n == v@.len(),
            w == targets_view(v@),
            i <= n,
            forall|j: int| 0 <= j < i ==> w[j].0 != target@,
        decreases n - i,
    {
        if v[i].target == *target {
            proof {
                lemma_index_of_found(w, target@, i as int);
            }
            return Some(i);
        }
        i = i + 1;
    }
    proof {
        lemma_index_of_bounds(w, target@);
        if index_of(w, target@) >= 0 {
            let a = index_of(w, target@);
            assert(w[a].0 != target@);
        }
    }
    None
}

/// Rolling-window tracker of the distinct targets each subject sends to.
pub struct TargetTracker {
    config: TargetConfig,
    subjects: Vec<SubjectTargets>,
}

impl TargetTracker {
    /// The tracked subjects and their targets, least-recently-active first.
    pub closed spec fn entries(&self) -> Seq<TargetEntry> {
        self.subjects@.map_values(|e: SubjectTargets| (e.subject@, targets_view(e.targets@)))
    }

    pub closed spec fn spec_config(&self) -> TargetConfig {
        self.config
    }

    /// Subjects are distinct, and their number stays within the bound (a
    /// bound of zero still admits the one subject being observed).
    pub open spec fn wf(&self) -> bool {
        &&& distinct_subjects(self.entries())
        &&& self.entries().len() <= if self.spec_config().max_subjects >= 1 { self.spec_config().max_subjects as nat } else { 1 }
    }

    pub fn new(config: TargetConfig) -> (t: Self)
        ensures
            t.wf(),
            t.spec_config() == config,
            t.entries().len() == 0,
    {
        let t = TargetTracker { config, subjects: Vec::new() };
        assert(t.entries() =~= Seq::<TargetEntry>::empty());
        t
    }

    fn find(&self, key: &String) -> (r: Option<usize>)
        ensures
            match r {
                Some(i) => index_of(self.entries(), key@) == i as int,
                None => index_of(self.entries(), key@) < 0,
            },
    {
        let n = self.subjects.len();
        let mut i: usize = 0;
        while i < n
            invariant
                n == self.subjects@.len(),
                n == self.entries().len(),
                i <= n,
                forall|j: int| 0 <= j < i ==> self.entries()[j].0 != key@,
            decreases n - i,
        {
            if self.subjects[i].subject == *key {
                proof {
                    assert(self.entries()[i as int].0 == self.subjects@[i as int].subject@);
                    lemma_index_of_found(self.entries(), key@, i as int);
                }
                return Some(i);
            }
            proof {
                assert(self.entries()[i as int].0 == self.subjects@[i as int].subject@);
            }
            i = i + 1;
        }
        proof {
            lemma_index_of_bounds(self.entries(), key@);
            if index_of(self.entries(), key@) >= 0 {
                let k = index_of(self.entries(), key@);
                assert(self.entries()[k].0 != key@);
            }
        }
        None
    }

    /// The subject's targets once `target` is seen at `now_ms`.
    fn seen(&self, old: Vec<TargetSeen>, target: &String, now_ms: u64) -> (r: Vec<TargetSeen>)
        ensures
            targets_view(r@) == base_after_touch(
                prune_targets(targets_view(old@), cutoff_of(now_ms, self.spec_config().window_ms)),
                target@, self.spec_config().max_targets_per_subject as nat,
            ).push((target@, now_ms)),
    {
        let cutoff = now_ms.saturating_sub(self.config.window_ms);
        let mut p = prune_before(old, cutoff);
        let ghost p0 = targets_view(p@);
        proof {
            lemma_index_of_bounds(p0, target@);
        }
        match position_of(&p, target) {
            Some(i) => {
                p.remove(i);
                assert(targets_view(p@) =~= p0.remove(i as int));
            },
            None => {
                if p.len() >= self.config.max_targets_per_subject && p.len() > 0 {
                    p.remove(0);
                    assert(targets_view(p@) =~= p0.drop_first());
                }
            },
        }
        let ghost b = targets_view(p@);
        p.push(TargetSeen { target: target.clone(), at_ms: now_ms });
        assert(targets_view(p@) =~= b.push((target@, now_ms)));
        p
    }

    /// Records that `subject` sent to `target` at `now_ms`; returns the number
    /// of distinct targets in its window when it strictly exceeds the threshold.
    #[verifier::rlimit(30)]
    pub fn observe(&mut self, subject: &str, target: &str, now_ms: u64) -> (r: Option<u32>)
        requires
            old(self).wf(),
        ensures
            final(self).wf(),
            final(self).spec_config() == old(self).spec_config(),
            final(self).entries() == target_entries_after(old(self).entries(), subject@, target@, now_ms, old(self).spec_config()),
            r == target_observe_result(old(self).entries(), subject@, target@, now_ms, old(self).spec_config()),
    {
        let key = subject.to_owned();
        let tkey = target.to_owned();
        let ghost e0 = self.entries();
        let found = self.find(&key);
        proof {
            lemma_index_of_bounds(e0, key@);
        }
        let old_targets: Vec<TargetSeen> = match found {
            Some(i) => {
                let entry = self.subjects.remove(i);
                proof {
                    assert(self.entries() =~= e0.remove(i as int));
                }
                entry.targets
            },
            None => {
                if self.subjects.len() >= self.config.max_subjects && self.subjects.len() > 0 {
                    self.subjects.remove(0);
                    proof {
                        assert(self.entries() =~= e0.drop_first());
                    }
                } else {
                    assert(self.entries() =~= e0);
                }
                Vec::new()
            },
        };
        let ghost base = self.entries();
        assert(base == base_after_touch(e0, key@, self.config.max_subjects as nat));
        assert(targets_view(old_targets@) == match window_of(e0, key@) { Some(w) => w, None => Seq::<(Seq<char>, u64)>::empty() });
        let targets = self.seen(old_targets, &tkey, now_ms);
        let count = targets.len() as u32;
        let ghost new_targets = targets_view(targets@);
        assert(new_targets == targets_after(e0, key@, tkey@, now_ms, self.config));
        self.subjects.push(SubjectTargets { subject: key, targets });
        proof {
            assert(self.entries() =~= base.push((subject@, new_targets)));
            lemma_touch_keeps_distinct(e0, subject@, self.config.max_subjects as nat, new_targets);
        }
        if count > self.config.threshold {
            Some(count)
        } else {
            None
        }
    }

    pub fn config(&self) -> (c: &TargetConfig)
        ensures
            *c == self.spec_config(),
    {
        &self.config
    }

    pub fn subject_count(&self) -> (n: usize)
        ensures
            n == self.entries().len(),
    {
        self.subjects.len()
    }
}

/// The distinct-target signal fires exactly when the subject's distinct
/// targets in the window, the new one included, exceed the threshold; a
/// target seen again within the window is counted once.
pub proof fn lemma_targets_counted_once(entries: Seq<TargetEntry>, s: Seq<char>, target: Seq<char>, now: u64, cfg: TargetConfig)
    requires
        forall|e: int| #![trigger entries[e]] 0 <= e < entries.len() ==> distinct_subjects(entries[e].1),
    ensures
        distinct_subjects(targets_after(entries, s, target, now, cfg)),
        target_observe_result(entries, s, target, now, cfg) is Some
            <==> (targets_after(entries, s, target, now, cfg).len() as u32) > cfg.threshold,
{
    lemma_index_of_bounds(entries, s);
    let old_targets = match window_of(entries, s) { Some(w) => w, None => Seq::<(Seq<char>, u64)>::empty() };
    let p = prune_targets(old_targets, cutoff_of(now, cfg.window_ms));
    lemma_prune_targets_distinct(old_targets, cutoff_of(now, cfg.window_ms));
    lemma_touch_by_case(p, target, cfg.max_targets_per_subject as nat, now);
    lemma_base_distinct(p, target, cfg.max_targets_per_subject as nat, now);
}

proof fn lemma_prune_targets_distinct(w: Targets, cutoff: u64)
    requires
        distinct_subjects(w),
    ensures
        distinct_subjects(prune_targets(w, cutoff)),
    decreases w.len(),
{
    if w.len() > 0 && w[0].1 < cutoff {
        let t = w.drop_first();
        assert forall|i: int, j: int| 0 <= i < j < t.len() implies t[i].0 != t[j].0 by {
            assert(t[i] == w[i + 1]);
            assert(t[j] == w[j + 1]);
        }
        lemma_prune_targets_distinct(t, cutoff);
    }
}

proof fn lemma_base_distinct<W>(e0: Seq<(Seq<char>, W)>, s: Seq<char>, max_subjects: nat, w: W)
    requires
        distinct_subjects(e0),
    ensures
        distinct_subjects(base_after_touch(e0, s, max_subjects).push((s, w))),
{
    lemma_index_of_bounds(e0, s);
    let base = base_after_touch(e0, s, max_subjects);
    let e1 = base.push((s, w));
    let i0 = index_of(e0, s);
    let skip = if i0 >= 0 { i0 } else if e0.len() >= max_subjects && e0.len() > 0 { 0 } else { e0.len() as int };
    assert forall|a: int| 0 <= a < base.len() implies base[a] == e0[if a < skip { a } else { a + 1 }] by {}
    assert forall|a: int, b: int| 0 <= a < b < e1.len() implies e1[a].0 != e1[b].0 by {
        let a0 = if a < skip { a } else { a + 1 };
        assert(e1[a] == e0[a0]);
        if b < e1.len() - 1 {
            let b0 = if b < skip { b } else { b + 1 };
            assert(e1[b] == e0[b0]);
        }
    }
}

} // verus!
