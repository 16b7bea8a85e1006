//! Disk-quota accounting: given the bytes already on disk and a candidate
//! write size, decide whether the write fits under the limit.

use vstd::prelude::*;

verus! {

/// A byte limit over the whole evidence log.
#[derive(Debug, Clone, Copy, PartialEq, Eq, Structural)]
pub struct Quota {
    pub limit_bytes: u64,
}

/// Answer of a quota check.
#[derive(Debug, Clone, Copy, PartialEq, Eq, Structural)]
pub enum Fits {
    Yes,
    No { over_by: u64 },
}

/// What `Quota::check` answers, stated over unbounded integers: the write fits
/// when `total + record <= limit`; otherwise it is over by the excess, and a
/// sum that does not fit in 64 bits is reported as over by `u64::MAX`.
pub open spec fn spec_check(limit: u64, total: u64, record: u64) -> Fits {
    if total + record > u64::MAX {
        Fits::No { over_by: u64::MAX }
    } else if total + record <= limit {
        Fits::Yes
    } else {
        Fits::No { over_by: (total + record - limit) as u64 }
    }
}

/// Bytes still available under `limit` when `total` are used, saturating at 0.
pub open spec fn spec_headroom(limit: u64, total: u64) -> u64 {
    if total <= limit { (limit - total) as u64 } else { 0 }
}

impl Quota {
    pub fn new(limit_bytes: u64) -> (q: Self)
        ensures
            q.limit_bytes == limit_bytes,
    {
        Quota { limit_bytes }
    }

    /// Does a record of `record_size` bytes fit on top of `current_total`?
    pub fn check(&self, current_total: u64, record_size: u64) -> (f: Fits)
        ensures
            f == spec_check(self.limit_bytes, current_total, record_size),
    {
        match current_total.checked_add(record_size) {
            Some(t) => {
                if t <= self.limit_bytes {
                    Fits::Yes
                } else {
                    Fits::No { over_by: t - self.limit_bytes }
                }
            },
            None => Fits::No { over_by: u64::MAX },
        }
    }

    /// Remaining bytes under the limit, saturating at zero.
    pub fn headroom(&self, current_total: u64) -> (h: u64)
        ensures
            h == spec_headroom(self.limit_bytes, current_total),
    {
        self.limit_bytes.saturating_sub(current_total)
    }
}

/// The quota never admits a write that would take the total past the limit,
/// and always admits one that stays within it.
pub proof fn lemma_check_admits_exactly_within_limit(q: Quota, total: u64, record: u64)
    ensures
        (spec_check(q.limit_bytes, total, record) == Fits::Yes) <==> (total + record <= q.limit_bytes),
{
}

/// When a write is refused for exceeding the limit (without overflow), the
/// reported excess plus the headroom equals the size of the write.
pub proof fn lemma_over_by_plus_headroom_is_record(q: Quota, total: u64, record: u64)
    requires
        total <= q.limit_bytes,
        total + record <= u64::MAX,
        total + record > q.limit_bytes,
    ensures
        spec_check(q.limit_bytes, total, record) matches Fits::No { over_by }
            && over_by + spec_headroom(q.limit_bytes, total) == record,
{
}

/// One rung of the eviction ladder. The caller executes; storage plans.
#[derive(Debug, Clone, PartialEq, Eq, Structural)]
pub enum EvictionAction {
    DropP4Artifacts,
    DropPayloadCapturesPastMinRetention,
    DropClosedLifecyclesPastRetention,
    DropCorrelatedUneventful,
    ForceCloseOpenLifecyclesPastCeiling,
    /// Terminal: stop capture, raise a critical alert.
    StopCaptureAlert,
}

} // verus!
