use std::collections::BTreeMap;

use athar::storage::error::StorageError;
use athar::storage::framing::{count_records, decode_records, encode_record};
use athar::storage::quota::Quota;
use athar::storage::segment_log::{
    classify_name, join_path, oldest_closed, parse_segment_id, read_segment_records, wip_name, with_extension, Config,
    DirEntry, ListedSegment, SegmentLog, SegmentState,
};

/// An in-memory directory standing in for the log's root: file name to bytes.
#[derive(Default)]
struct Disk {
    files: BTreeMap<String, Vec<u8>>,
}

fn name_of(path: &str) -> String {
    path.rsplit('/').next().unwrap().to_string()
}

impl Disk {
    fn listing(&self) -> Vec<DirEntry> {
        self.files.iter().map(|(n, b)| DirEntry { name: n.clone(), size: b.len() as u64 }).collect()
    }

    fn listed(&self) -> Vec<ListedSegment> {
        self.files
            .iter()
            .map(|(n, b)| ListedSegment { name: n.clone(), size: b.len() as u64, closed_record_count: count_records(b) })
            .collect()
    }

    fn open(&mut self, cfg: Config) -> SegmentLog {
        let (log, renames) = SegmentLog::open(cfg, &self.listing());
        for (from, to) in renames {
            let bytes = self.files.remove(&name_of(&from)).unwrap();
            self.files.insert(name_of(&to), bytes);
        }
        log
    }

    fn rotate(&mut self, log: &mut SegmentLog) -> Option<String> {
        let step = log.rotate();
        let closed = step.closed.map(|(from, to)| {
            let bytes = self.files.remove(&name_of(&from)).unwrap();
            self.files.insert(name_of(&to), bytes);
            to
        });
        self.files.insert(name_of(&step.opened_path), Vec::new());
        closed
    }

    fn append(&mut self, log: &mut SegmentLog, data: &[u8]) -> Result<athar::storage::segment_log::AppendReceipt, StorageError> {
        if log.plan_append(data.len())? {
            self.rotate(log);
        }
        let path = log.active().unwrap().path.clone();
        self.files.get_mut(&name_of(&path)).unwrap().extend_from_slice(&encode_record(data));
        Ok(log.record_appended(data.len()))
    }

    fn close(&mut self, log: SegmentLog) {
        if let Some((step, fresh)) = log.close() {
            if let Some((from, to)) = step.closed {
                let bytes = self.files.remove(&name_of(&from)).unwrap();
                self.files.insert(name_of(&to), bytes);
            }
            if fresh.written_bytes == 0 {
                self.files.remove(&name_of(&fresh.path));
            }
        }
    }
}

fn cfg() -> Config {
    Config::defaults("/data/evidence".to_string())
}

#[test]
fn append_and_read_back() {
    let mut disk = Disk::default();
    let mut log = disk.open(cfg());
    let r1 = disk.append(&mut log, b"hello").expect("append 1");
    let r2 = disk.append(&mut log, b"world").expect("append 2");
    assert_eq!(r1.segment_id, r2.segment_id);
    assert_eq!(r1.record_index, 0);
    assert_eq!(r2.record_index, 1);
    assert_eq!(r2.offset_in_segment, 9);
    let path = disk.rotate(&mut log).unwrap();
    disk.close(log);
    let records = read_segment_records(&path, &disk.files[&name_of(&path)]).expect("read back");
    assert_eq!(records, vec![b"hello".to_vec(), b"world".to_vec()]);
}

#[test]
fn rotates_when_segment_full() {
    let mut disk = Disk::default();
    let mut c = cfg();
    c.max_segment_bytes = 32;
    let mut log = disk.open(c);
    let r1 = disk.append(&mut log, b"1234567890").expect("a1");
    let r2 = disk.append(&mut log, b"1234567890").expect("a2");
    let r3 = disk.append(&mut log, b"1234567890").expect("a3");
    assert_eq!(r1.segment_id, r2.segment_id);
    assert_ne!(r2.segment_id, r3.segment_id);
    assert_eq!(r3.record_index, 0);
    disk.close(log);
}

#[test]
fn quota_rejects_oversized_total() {
    let mut disk = Disk::default();
    let mut c = cfg();
    c.quota = Quota::new(20);
    let mut log = disk.open(c);
    disk.append(&mut log, b"1234567890").expect("first fits (14 bytes)");
    let err = disk.append(&mut log, b"1234567890").expect_err("should exceed");
    assert!(matches!(err, StorageError::QuotaExceeded { .. }));
    assert_eq!(err, StorageError::QuotaExceeded { total: 14, record: 14, limit: 20 });
}

#[test]
fn record_too_large_rejected() {
    let mut disk = Disk::default();
    let mut c = cfg();
    c.max_record_bytes = 4;
    let mut log = disk.open(c);
    let err = disk.append(&mut log, b"12345").expect_err("too large");
    assert!(matches!(err, StorageError::RecordTooLarge { size: 5, max: 4 }));
}

#[test]
fn crash_recovery_quarantines_wip() {
    let mut disk = Disk::default();
    disk.files.insert(wip_name(0), b"some bytes".to_vec());
    let log = disk.open(cfg());
    assert!(log.quarantined_bytes_at_open() > 0);
    assert_eq!(log.quarantined_bytes_at_open(), 10);
    assert_eq!(log.total_bytes(), 10);
    let segs = log.segments(&disk.listed());
    assert!(segs.iter().any(|s| s.state == SegmentState::Quarantined));
    assert!(!segs.iter().any(|s| s.state == SegmentState::Active));
    assert!(disk.files.contains_key("0000000000000000.seg.seg.quarantine"));
    assert_eq!(log.next_segment_id(), 1);
}

#[test]
fn evict_oldest_closed() {
    let mut disk = Disk::default();
    let mut c = cfg();
    c.max_segment_bytes = 32;
    let mut log = disk.open(c);
    disk.append(&mut log, b"aaaaaaaaaa").expect("a");
    disk.rotate(&mut log);
    disk.append(&mut log, b"bbbbbbbbbb").expect("b");
    disk.rotate(&mut log);
    disk.append(&mut log, b"cccccccccc").expect("c");
    let segs = log.segments(&disk.listed());
    assert_eq!(segs.len(), 3);
    let target = oldest_closed(&segs).expect("some");
    let evicted = segs[target].clone();
    assert_eq!(evicted.id, 0);
    assert_eq!(evicted.record_count, 1);
    disk.files.remove(&name_of(&evicted.path));
    log.note_evicted(evicted.size_bytes);
    assert_eq!(log.total_bytes(), 28);
    let remaining_closed: Vec<u64> = log
        .segments(&disk.listed())
        .into_iter()
        .filter(|s| s.state == SegmentState::Closed)
        .map(|s| s.id)
        .collect();
    assert_eq!(remaining_closed, vec![1]);
}

#[test]
fn segment_id_monotonic_across_reopens() {
    let mut disk = Disk::default();
    {
        let mut log = disk.open(cfg());
        disk.append(&mut log, b"first").unwrap();
        disk.rotate(&mut log);
        disk.close(log);
    }
    {
        let mut log = disk.open(cfg());
        let r = disk.append(&mut log, b"second").unwrap();
        assert!(r.segment_id >= 1);
        disk.close(log);
    }
}

#[test]
fn framing_round_trip_and_truncation() {
    let mut bytes = encode_record(b"ab");
    assert_eq!(bytes, vec![0, 0, 0, 2, b'a', b'b']);
    bytes.extend_from_slice(&encode_record(b""));
    bytes.extend_from_slice(&encode_record(b"xyz"));
    assert_eq!(decode_records(&bytes), Ok(vec![b"ab".to_vec(), vec![], b"xyz".to_vec()]));
    assert_eq!(count_records(&bytes), 3);
    // A partial header at the end is ignored.
    let mut partial = bytes.clone();
    partial.extend_from_slice(&[0, 0]);
    assert_eq!(decode_records(&partial).unwrap().len(), 3);
    // A cut-short body is reported at its header's offset.
    let mut cut = bytes.clone();
    cut.extend_from_slice(&[0, 0, 0, 9, 1, 2]);
    assert_eq!(decode_records(&cut), Err(bytes.len() as u64));
    assert_eq!(count_records(&cut), 3);
    match read_segment_records("/x/0.seg", &cut) {
        Err(StorageError::SegmentCorrupt { path, offset, reason }) => {
            assert_eq!(path, "/x/0.seg");
            assert_eq!(offset, 17);
            assert_eq!(reason, "truncated record body");
        }
        other => panic!("expected SegmentCorrupt, got {other:?}"),
    }
}

#[test]
fn segment_names() {
    assert_eq!(wip_name(255), "00000000000000ff.seg.wip");
    assert_eq!(with_extension("00000000000000ff.seg.wip", "seg"), "00000000000000ff.seg.seg");
    assert_eq!(with_extension("noext", "seg"), "noext.seg");
    assert_eq!(with_extension(".hidden", "seg"), ".hidden.seg");
    assert_eq!(join_path("/root", "a.seg"), "/root/a.seg");
    assert_eq!(join_path("/root/", "a.seg"), "/root/a.seg");
    assert_eq!(join_path("", "a.seg"), "a.seg");
    assert_eq!(classify_name("x.seg"), Some(SegmentState::Closed));
    assert_eq!(classify_name("x.seg.wip"), Some(SegmentState::Active));
    assert_eq!(classify_name("x.seg.quarantine"), Some(SegmentState::Quarantined));
    assert_eq!(classify_name("x.log"), None);
    assert_eq!(parse_segment_id("00000000000000ff.seg"), Some(255));
    assert_eq!(parse_segment_id("zz.seg"), None);
    assert_eq!(parse_segment_id("10"), Some(16));
}

#[test]
fn segment_names_read_back_as_their_ids() {
    for id in [0u64, 1, 255, 0xdead_beef, u64::MAX] {
        let wip = wip_name(id);
        assert_eq!(classify_name(&wip), Some(SegmentState::Active));
        assert_eq!(parse_segment_id(&wip), Some(id));
        let closed = with_extension(&wip, "seg");
        assert_eq!(classify_name(&closed), Some(SegmentState::Closed));
        assert_eq!(parse_segment_id(&closed), Some(id));
        let quarantined = with_extension(&wip, "seg.quarantine");
        assert_eq!(quarantined, format!("{:016x}.seg.seg.quarantine", id));
        assert_eq!(classify_name(&quarantined), Some(SegmentState::Quarantined));
        assert_eq!(parse_segment_id(&quarantined), Some(id));
    }
}

#[test]
fn segments_are_listed_sorted_by_id() {
    let log = SegmentLog::open(cfg(), &vec![]).0;
    let listing = vec![
        ListedSegment { name: "0000000000000002.seg".into(), size: 5, closed_record_count: 2 },
        ListedSegment { name: "notes.txt".into(), size: 1, closed_record_count: 0 },
        ListedSegment { name: "0000000000000001.seg.quarantine".into(), size: 7, closed_record_count: 9 },
    ];
    let segs = log.segments(&listing);
    assert_eq!(segs.len(), 2);
    assert_eq!(segs[0].id, 1);
    assert_eq!(segs[0].state, SegmentState::Quarantined);
    assert_eq!(segs[0].record_count, 0);
    assert_eq!(segs[0].path, "/data/evidence/0000000000000001.seg.quarantine");
    assert_eq!(segs[1].id, 2);
    assert_eq!(segs[1].record_count, 2);
}
