//! Errors of the evidence log.

use vstd::prelude::*;

verus! {

/// Why a log operation failed. File-system failures are carried as their
/// message; paths as strings.
#[derive(Debug, Clone, PartialEq, Eq)]
pub enum StorageError {
    Io(String),
    RecordTooLarge { size: usize, max: usize },
    QuotaExceeded { total: u64, record: u64, limit: u64 },
    SegmentCorrupt { path: String, offset: u64, reason: &'static str },
    NoActiveSegment,
    RootUnavailable { path: String },
}

} // verus!
