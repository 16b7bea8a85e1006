//! The ingest path's own logic: drop accounting under pressure and the
//! coverage-gap record it produces, the daemon's receive timestamp, and the
//! detection stage run on each admitted event.

use vstd::prelude::*;
use vstd::string::StringExecFns;
use crate::calendar::{civil_date, lemma_civil_date_by_eras};
use crate::text::{decimal, push_decimal, push_char};
use crate::audit::writer::now_micros;
use crate::detection::signal::wall_millis;
use crate::governor::{PressureLevel, Priority, spec_allows, level_name};
use crate::lifecycle::engine::{ApplyOutcome, ApplyOutcomeView, operation_id_of};
use crate::lifecycle::types::clone_opt;
use crate::event::Event;
use crate::detection::signal::{SignalEngine, Signal, SignalView, AmountCheck, spec_signals, engine_after};
use crate::detection::policy::{PolicyEngine, spec_evaluate};
use crate::detection::decision::{DecisionRecord, DecisionSubject, SignalRecord, FailMode, opt_view, record_from_signal, spec_explanation};

verus! {

/// One summary of the frames dropped while in safe mode.
#[derive(Debug, Clone, Copy, PartialEq, Eq, Structural)]
pub struct CoverageGapSummary {
    pub frames: u64,
    pub bytes: u64,
    pub window_started_at_ms: u64,
}

/// Counters of frames dropped under pressure, summarised into one
/// `coverage_gap` record when pressure eases or at shutdown.
#[derive(Debug, Clone, Copy, PartialEq, Eq, Structural)]
pub struct DropCounters {
    pub frames: u64,
    pub bytes: u64,
    pub since_ms: u64,
}

/// The counters after one more dropped frame of `b` bytes at time `now`:
/// both counts wrap at 2^64, and the first drop of a window stamps its start.
pub open spec fn recorded(c: DropCounters, b: usize, now: u64) -> DropCounters {
    DropCounters {
        frames: ((c.frames as int + 1) % 0x1_0000_0000_0000_0000int) as u64,
        bytes: ((c.bytes as int + b as int) % 0x1_0000_0000_0000_0000int) as u64,
        since_ms: if c.frames == 0 { now } else { c.since_ms },
    }
}

/// What taking the summary answers, and the counters left behind.
pub open spec fn taken(c: DropCounters) -> (Option<CoverageGapSummary>, DropCounters) {
    if c.frames == 0 {
        (None, c)
    } else {
        (
            Some(CoverageGapSummary { frames: c.frames, bytes: c.bytes, window_started_at_ms: c.since_ms }),
            DropCounters { frames: 0, bytes: 0, since_ms: 0 },
        )
    }
}

/// The counters after a run of drops (size, time), in order.
pub open spec fn recorded_all(c: DropCounters, drops: Seq<(usize, u64)>) -> DropCounters
    decreases drops.len(),
{
    if drops.len() == 0 {
        c
    } else {
        recorded(recorded_all(c, drops.drop_last()), drops.last().0, drops.last().1)
    }
}

/// Total bytes of a run of drops.
pub open spec fn drop_bytes(drops: Seq<(usize, u64)>) -> nat
    decreases drops.len(),
{
    if drops.len() == 0 { 0 } else { drop_bytes(drops.drop_last()) + drops.last().0 as nat }
}

impl DropCounters {
    pub fn new() -> (d: Self)
        ensures
            d == (DropCounters { frames: 0, bytes: 0, since_ms: 0 }),
    {
        DropCounters { frames: 0, bytes: 0, since_ms: 0 }
    }

    /// Counts one dropped frame of `frame_bytes` bytes at time `now_ms`.
    pub fn record_at(&mut self, frame_bytes: usize, now_ms: u64)
        ensures
            *final(self) == recorded(*old(self), frame_bytes, now_ms),
    {
        if self.frames == 0 {
            self.since_ms = now_ms;
        }
        self.frames = self.frames.wrapping_add(1);
        self.bytes = self.bytes.wrapping_add(frame_bytes as u64);
    }

    /// Counts one dropped frame, stamping the window start from the system
    /// clock when it is the first.
    pub fn record(&mut self, frame_bytes: usize)
        ensures
            exists|now: u64| *final(self) == #[trigger] recorded(*old(self), frame_bytes, now),
    {
        if self.frames == 0 {
            let now = wall_millis();
            self.record_at(frame_bytes, now);
        } else {
            self.record_at(frame_bytes, 0);
        }
    }

    /// Takes the summary and resets; `None` when nothing was dropped.
    pub fn take(&mut self) -> (r: Option<CoverageGapSummary>)
        ensures
            (r, *final(self)) == taken(*old(self)),
    {
        if self.frames == 0 {
            return None;
        }
        let s = CoverageGapSummary { frames: self.frames, bytes: self.bytes, window_started_at_ms: self.since_ms };
        self.frames = 0;
        self.bytes = 0;
        self.since_ms = 0;
        Some(s)
    }
}

/// Drops recorded from empty counters and then taken are reported in full:
/// their number, their bytes, and the time of the first, and the counters
/// are empty again (while the counts stay below 2^64).
pub proof fn lemma_take_reports_all_drops(drops: Seq<(usize, u64)>)
    requires
        drops.len() > 0,
        drops.len() < 0x1_0000_0000_0000_0000int,
        drop_bytes(drops) < 0x1_0000_0000_0000_0000int,
    ensures
        taken(recorded_all(DropCounters { frames: 0, bytes: 0, since_ms: 0 }, drops)) == (
            Some(CoverageGapSummary {
                frames: drops.len() as u64,
                bytes: drop_bytes(drops) as u64,
                window_started_at_ms: drops[0].1,
            }),
            DropCounters { frames: 0, bytes: 0, since_ms: 0 },
        ),
{
    lemma_recorded_all(drops);
}

proof fn lemma_recorded_all(drops: Seq<(usize, u64)>)
    requires
        drops.len() < 0x1_0000_0000_0000_0000int,
        drop_bytes(drops) < 0x1_0000_0000_0000_0000int,
    ensures
        recorded_all(DropCounters { frames: 0, bytes: 0, since_ms: 0 }, drops).frames == drops.len(),
        recorded_all(DropCounters { frames: 0, bytes: 0, since_ms: 0 }, drops).bytes == drop_bytes(drops),
        drops.len() > 0 ==> recorded_all(DropCounters { frames: 0, bytes: 0, since_ms: 0 }, drops).since_ms == drops[0].1,
    decreases drops.len(),
{
    if drops.len() > 0 {
        let p = drops.drop_last();
        lemma_recorded_all(p);
        if p.len() > 0 {
            assert(p[0] == drops[0]);
        }
    }
}

/// The JSON text of a `coverage_gap` record, keys in sorted order.
pub open spec fn spec_coverage_gap_payload(s: CoverageGapSummary, recorded_at_ms: u64) -> Seq<char> {
    "{\"bytes\":"@ + decimal(s.bytes as nat)
        + ",\"cause\":\"L4_SAFE_MODE\",\"frames\":"@ + decimal(s.frames as nat)
        + ",\"kind\":\"coverage_gap\",\"recorded_at_ms\":"@ + decimal(recorded_at_ms as nat)
        + ",\"window_started_at_ms\":"@ + decimal(s.window_started_at_ms as nat)
        + "}"@
}

/// The body of the `coverage_gap` record committed after drops.
pub fn coverage_gap_payload(s: &CoverageGapSummary, recorded_at_ms: u64) -> (r: String)
    ensures
        r@ == spec_coverage_gap_payload(*s, recorded_at_ms),
{
    let mut out = String::new();
    out.append("{\"bytes\":");
    push_decimal(&mut out, s.bytes);
    out.append(",\"cause\":\"L4_SAFE_MODE\",\"frames\":");
    push_decimal(&mut out, s.frames);
    out.append(",\"kind\":\"coverage_gap\",\"recorded_at_ms\":");
    push_decimal(&mut out, recorded_at_ms);
    out.append(",\"window_started_at_ms\":");
    push_decimal(&mut out, s.window_started_at_ms);
    out.append("}");
    assert(out@ =~= spec_coverage_gap_payload(*s, recorded_at_ms));
    out
}

/// Ingest work is evidence integrity (priority P1): admitted at every level
/// but safe mode.
pub fn admits_ingest(level: PressureLevel) -> (b: bool)
    ensures
        b == spec_allows(level, Priority::P1),
        b == (level != PressureLevel::L4SafeMode),
{
    level.allows(Priority::P1)
}

// ---------------------------------------------------------------------------
// Receive timestamps

/// Calendar fields of a Unix time in seconds, in UTC: the date of its day
/// counted from 1970-01-01, the year truncated to 32 bits, then hour, minute
/// and second of that day.
pub open spec fn spec_ymdhms(secs: u64) -> (u32, u32, u32, u32, u32, u32) {
    let (y, m, d) = civil_date(secs as int / 86_400);
    let rem = secs as int % 86_400;
    (y as u32, m as u32, d as u32, (rem / 3600) as u32, (rem % 3600 / 60) as u32, (rem % 60) as u32)
}

/// Splits a Unix time in seconds into calendar fields.
pub fn unix_to_ymdhms(secs: u64) -> (r: (u32, u32, u32, u32, u32, u32))
    ensures
        r == spec_ymdhms(secs),
        1 <= r.1 <= 12,
        1 <= r.2 <= 31,
        r.3 < 24,
        r.4 < 60,
        r.5 < 60,
{
    let days = secs / 86_400;
    let rem = secs % 86_400;
    let hour = (rem / 3600) as u32;
    let min = (rem % 3600 / 60) as u32;
    let sec = (rem % 60) as u32;
    let z = days + 719_468;
    let era = z / 146_097;
    let doe = z - era * 146_097;
    assert(doe < 146_097);
    let yoe = (doe - doe / 1460 + doe / 36524 - doe / 146_096) / 365;
    assert(yoe <= 400);
    let y = yoe + era * 400;
    assert(365 * yoe + yoe / 4 - yoe / 100 <= doe) by (nonlinear_arith)
        requires
            doe < 146_097,
            yoe == (doe - doe / 1460 + doe / 36524 - doe / 146_096) / 365,
    ;
    let doy = doe - (365 * yoe + yoe / 4 - yoe / 100);
    assert(doy <= 365) by (nonlinear_arith)
        requires
            doe < 146_097,
            yoe == (doe - doe / 1460 + doe / 36524 - doe / 146_096) / 365,
            doy == doe - (365 * yoe + yoe / 4 - yoe / 100),
    ;
    let mp = (5 * doy + 2) / 153;
    assert((153 * mp + 2) / 5 <= doy) by (nonlinear_arith)
        requires
            mp == (5 * doy + 2) / 153,
    ;
    let d = doy - (153 * mp + 2) / 5 + 1;
    assert(1 <= d <= 31) by (nonlinear_arith)
        requires
            mp == (5 * doy + 2) / 153,
            d == doy - (153 * mp + 2) / 5 + 1,
            doy <= 365,
    ;
    let m = if mp < 10 { mp + 3 } else { mp - 9 };
    let y = if m <= 2 { y + 1 } else { y };
    proof {
        lemma_civil_date_by_eras(
            days as int,
            era as int,
            doe as int,
            yoe as int,
            doy as int,
            mp as int,
            d as int,
            m as int,
            y as int,
        );
    }
    (y as u32, m as u32, d as u32, hour, min, sec)
}

/// `n` in decimal, left-padded with zeros to at least `w` digits.
pub open spec fn padded(n: nat, w: nat) -> Seq<char> {
    if decimal(n).len() < w {
        Seq::new((w - decimal(n).len()) as nat, |i: int| '0') + decimal(n)
    } else {
        decimal(n)
    }
}

fn push_padded(s: &mut String, n: u64, w: usize)
    ensures
        final(s)@ == old(s)@ + padded(n as nat, w as nat),
{
    let mut digits = String::new();
    push_decimal(&mut digits, n);
    let len = digits.as_str().unicode_len();
    if len < w {
        let mut k: usize = 0;
        while k < w - len
            invariant
                k <= w - len,
                len < w,
                s@ == old(s)@ + Seq::new(k as nat, |i: int| '0'),
            decreases w - len - k,
        {
            push_char(s, '0');
            k = k + 1;
            assert(s@ =~= old(s)@ + Seq::new(k as nat, |i: int| '0'));
        }
    }
    s.append(digits.as_str());
    assert(s@ =~= old(s)@ + padded(n as nat, w as nat));
}

/// An RFC 3339 UTC timestamp with microseconds:
/// `YYYY-MM-DDTHH:MM:SS.ffffffZ`.
pub open spec fn spec_rfc3339(secs: u64, micros: u32) -> Seq<char> {
    let (y, mo, d, h, mi, s) = spec_ymdhms(secs);
    padded(y as nat, 4) + seq!['-'] + padded(mo as nat, 2) + seq!['-'] + padded(d as nat, 2) + seq!['T']
        + padded(h as nat, 2) + seq![':'] + padded(mi as nat, 2) + seq![':'] + padded(s as nat, 2)
        + seq!['.'] + padded(micros as nat, 6) + seq!['Z']
}

/// Formats a Unix time (seconds and microseconds) as an RFC 3339 UTC timestamp.
pub fn format_rfc3339(secs: u64, micros: u32) -> (r: String)
    ensures
        r@ == spec_rfc3339(secs, micros),
{
    let (y, mo, d, h, mi, s) = unix_to_ymdhms(secs);
    let mut out = String::new();
    push_padded(&mut out, y as u64, 4);
    push_char(&mut out, '-');
    push_padded(&mut out, mo as u64, 2);
    push_char(&mut out, '-');
    push_padded(&mut out, d as u64, 2);
    push_char(&mut out, 'T');
    push_padded(&mut out, h as u64, 2);
    push_char(&mut out, ':');
    push_padded(&mut out, mi as u64, 2);
    push_char(&mut out, ':');
    push_padded(&mut out, s as u64, 2);
    push_char(&mut out, '.');
    push_padded(&mut out, micros as u64, 6);
    push_char(&mut out, 'Z');
    assert(out@ =~= spec_rfc3339(secs, micros));
    out
}

/// The RFC 3339 rendering of a time in microseconds since the epoch.
pub open spec fn rfc3339_of_micros(us: u64) -> Seq<char> {
    spec_rfc3339(us / 1_000_000, (us % 1_000_000) as u32)
}

/// The daemon's receive timestamp: the system clock now, as RFC 3339 with
/// microseconds (clocks before the epoch read as the epoch).
pub fn now_rfc3339() -> (r: String)
    ensures
        exists|us: u64| r@ == #[trigger] rfc3339_of_micros(us),
{
    let t = now_micros();
    let us: u64 = if t < 0 { 0 } else { t as u64 };
    let r = format_rfc3339(us / 1_000_000, (us % 1_000_000) as u32);
    assert(r@ == rfc3339_of_micros(us));
    r
}


// ---------------------------------------------------------------------------
// Detection on each admitted event

/// The lifecycle an apply outcome names, if any.
pub open spec fn outcome_lifecycle(o: ApplyOutcomeView) -> Option<Seq<char>> {
    match o {
        ApplyOutcomeView::Created { lifecycle_id, .. } => Some(lifecycle_id),
        ApplyOutcomeView::Updated { lifecycle_id, .. } => Some(lifecycle_id),
        ApplyOutcomeView::LateEvent { lifecycle_id, .. } => Some(lifecycle_id),
        ApplyOutcomeView::Unbound => None,
    }
}

/// The lifecycle an apply outcome names, if any.
pub fn outcome_lifecycle_id(o: &ApplyOutcome) -> (r: Option<String>)
    ensures
        opt_view(r) == outcome_lifecycle(o@),
{
    match o {
        ApplyOutcome::Created { lifecycle_id, .. } => Some(lifecycle_id.clone()),
        ApplyOutcome::Updated { lifecycle_id, .. } => Some(lifecycle_id.clone()),
        ApplyOutcome::LateEvent { lifecycle_id, .. } => Some(lifecycle_id.clone()),
        ApplyOutcome::Unbound => None,
    }
}

/// The views of a run of signals.
pub open spec fn signal_views(s: Seq<Signal>) -> Seq<SignalView> {
    s.map_values(|x: Signal| x@)
}

/// A persisted signal record for signal `s` of event `e`.
pub open spec fn record_for(r: SignalRecord, s: SignalView, e: Event, lifecycle_id: Option<Seq<char>>, now: u64) -> bool {
    &&& r.signal_id@.len() == 30
    &&& r.signal_id@.subrange(0, 4) == "sig_"@
    &&& r.tenant_id@ == e.tenant_id@
    &&& r.kind == s.kind
    &&& r.confidence_pct == s.confidence_pct
    &&& r.value@ == s.value
    &&& opt_view(r.threshold) == s.threshold
    &&& r.timestamp_ms == now
    &&& r.event_id@ == e.event_id@
    &&& opt_view(r.lifecycle_id) == lifecycle_id
    &&& r.tracker_version@ == "signal-engine-0.1.0"@
}

/// The detection stage for one admitted event at `now_ms`: the signal
/// producers run, each fired signal becomes a record, the policies are
/// evaluated over the signals, and a decision record is built at the
/// current pressure level.
pub fn decide_event(
    signal_engine: &mut SignalEngine,
    policy_engine: &PolicyEngine,
    event: &Event,
    amount: Option<AmountCheck>,
    lifecycle_id: Option<String>,
    now_ms: u64,
    level: PressureLevel,
    latency_us: u64,
) -> (d: DecisionRecord)
    requires
        old(signal_engine).wf(),
    ensures
        final(signal_engine).wf(),
        engine_after(*old(signal_engine), *final(signal_engine), *event, now_ms),
        ({
            let sigs = spec_signals(old(signal_engine).spec_config(), old(signal_engine).spec_known(),
                old(signal_engine).spec_velocity().entries(), old(signal_engine).spec_credstuff().entries(),
                old(signal_engine).spec_targets().entries(),
                *event, amount, now_ms);
            &&& d.signals_used@.len() == sigs.len()
            &&& forall|i: int| 0 <= i < sigs.len()
                ==> record_for(#[trigger] d.signals_used@[i], sigs[i], *event, opt_view(lifecycle_id), now_ms)
            &&& d.policies_evaluated@.len() == 1
            &&& exists|s: Seq<Signal>| #[trigger] signal_views(s) == sigs
                && d.policies_evaluated@[0]@ == spec_evaluate(policy_engine.spec_config(), s)
        }),
        d.decision_id@.len() == 30,
        d.decision_id@.subrange(0, 4) == "dec_"@,
        d.timestamp_ms == now_ms,
        d.tenant_id@ == event.tenant_id@,
        opt_view(d.subject.lifecycle_id) == opt_view(lifecycle_id),
        d.subject.event_id@ == event.event_id@,
        opt_view(d.subject.operation_id) == operation_id_of(*event),
        d.action == d.policies_evaluated@[0].action,
        d.mode == d.policies_evaluated@[0].mode,
        d.fail_mode == FailMode::Open,
        d.degradation_level@ == level_name(level),
        d.latency_us == latency_us,
        d.explanation@ == spec_explanation(d.policies_evaluated@[0]@, d.signals_used@),
{
    let ghost sigs = spec_signals(signal_engine.spec_config(), signal_engine.spec_known(),
        signal_engine.spec_velocity().entries(), signal_engine.spec_credstuff().entries(),
        signal_engine.spec_targets().entries(),
        *event, amount, now_ms);
    let signals = signal_engine.evaluate_at(event, amount, now_ms);
    let lc: Option<&str> = match &lifecycle_id {
        Some(s) => Some(s.as_str()),
        None => None,
    };
    let version = signal_engine.tracker_version();
    let mut records: Vec<SignalRecord> = Vec::new();
    let mut i: usize = 0;
    while i < signals.len()
        invariant
            i <= signals@.len(),
            signals@.map_values(|x: Signal| x@) == sigs,
            records@.len() == i,
            version@ == "signal-engine-0.1.0"@,
            match lc {
                Some(l) => opt_view(lifecycle_id) == Some(l@),
                None => lifecycle_id is None,
            },
            forall|j: int| 0 <= j < i ==> record_for(#[trigger] records@[j], sigs[j], *event, opt_view(lifecycle_id), now_ms),
        decreases signals@.len() - i,
    {
        let r = record_from_signal(&signals[i], event.tenant_id.as_str(), event.event_id.as_str(), lc, now_ms, version);
        proof {
            assert(sigs[i as int] == signals@[i as int]@);
        }
        records.push(r);
        i = i + 1;
    }
    let policy = policy_engine.evaluate(signals.as_slice());
    let operation_id = match &event.operation {
        Some(op) => clone_opt(&op.operation_id),
        None => None,
    };
    let subject = DecisionSubject { lifecycle_id, event_id: event.event_id.clone(), operation_id };
    let ghost rec_view = records@;
    let ghost sv = signals@;
    let d = DecisionRecord::build(event.tenant_id.as_str(), subject, policy, records, now_ms, level.name(), latency_us);
    assert(d.signals_used@ == rec_view);
    assert(signal_views(sv) == sigs);
    d
}
} // verus!
