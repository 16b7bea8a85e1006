use athar::audit::chain::{
    canonical_bytes, mark_redacted, payload_commitment, record_hash, verify_chain, verify_segment, AuditRecord,
    ChainWriter, ChainedRecord, Segment, Signer, SoftwareSigner, VerifyError,
};
use athar::audit::hex::{from_hex, hex_decode, hex_encode, HexError};
use athar::audit::persistence::{parse_segment_file_name, segment_file_name, verify_segments, SegmentStore, VerifyReport};
use athar::audit::signer::{signer_from_key_file, FileKeyError};
use athar::audit::writer::AuditChainWriter;

fn rec(kind: &str, payload: &[u8]) -> AuditRecord {
    AuditRecord {
        seq: 0,
        timestamp_us: 1_726_300_000_000_000,
        tenant_id: "tnt_demo".into(),
        kind: kind.into(),
        payload_commitment: payload_commitment(payload),
        redacted: false,
    }
}

fn signer() -> SoftwareSigner {
    SoftwareSigner::from_seed([7u8; 32])
}

#[test]
fn happy_path_verifies() {
    let mut w = ChainWriter::new();
    w.append(rec("decision", b"payload-1"));
    w.append(rec("decision", b"payload-2"));
    w.append(rec("config_change", b"payload-3"));
    let seg = w.close_segment(1, &signer());
    assert_eq!(verify_segment(&seg), Ok(()));
}

#[test]
fn corrupted_record_hash_detected_at_exact_index() {
    let mut w = ChainWriter::new();
    w.append(rec("decision", b"a"));
    w.append(rec("decision", b"b"));
    w.append(rec("decision", b"c"));
    w.append(rec("decision", b"d"));
    let mut seg = w.close_segment(1, &signer());
    seg.records[2].record.payload_commitment[0] ^= 0x01;
    match verify_segment(&seg) {
        Err(VerifyError::RecordHashMismatch { index: 2 }) => {}
        other => panic!("expected RecordHashMismatch at index 2, got {other:?}"),
    }
}

#[test]
fn corrupted_prev_hash_detected_at_exact_index() {
    let mut w = ChainWriter::new();
    w.append(rec("decision", b"a"));
    w.append(rec("decision", b"b"));
    w.append(rec("decision", b"c"));
    let mut seg = w.close_segment(1, &signer());
    seg.records[1].prev_hash[0] ^= 0x01;
    match verify_segment(&seg) {
        Err(VerifyError::ChainBroken { index: 1 }) => {}
        other => panic!("expected ChainBroken at index 1, got {other:?}"),
    }
}

#[test]
fn seq_reorder_detected() {
    let mut w = ChainWriter::new();
    w.append(rec("decision", b"a"));
    w.append(rec("decision", b"b"));
    let mut seg = w.close_segment(1, &signer());
    seg.records[1].record.seq = 42;
    match verify_segment(&seg) {
        Err(VerifyError::RecordHashMismatch { index: 1 }) => {}
        Err(VerifyError::SeqBroken { index: 1, .. }) => {}
        other => panic!("expected a break at index 1, got {other:?}"),
    }
}

#[test]
fn bad_signature_detected() {
    let mut w = ChainWriter::new();
    w.append(rec("decision", b"a"));
    let mut seg = w.close_segment(1, &signer());
    seg.tip_signature[0] ^= 0x01;
    assert_eq!(verify_segment(&seg), Err(VerifyError::BadSignature));
}

#[test]
fn tip_signature_verifies_against_actual_tip() {
    let mut w = ChainWriter::new();
    w.append(rec("decision", b"a"));
    w.append(rec("decision", b"b"));
    let mut seg = w.close_segment(1, &signer());
    let forged = AuditRecord { seq: seg.records[1].record.seq, ..rec("decision", b"forged") };
    let new_tail = ChainedRecord {
        record: forged.clone(),
        prev_hash: seg.records[1].prev_hash,
        record_hash: record_hash(&seg.records[1].prev_hash, &forged),
    };
    seg.records[1] = new_tail;
    assert_eq!(verify_segment(&seg), Err(VerifyError::BadSignature));
}

#[test]
fn empty_segment_rejected() {
    let seg = Segment {
        segment_id: 1,
        records: vec![],
        tip_signature: [0u8; 64],
        signer_pubkey: signer().public_key(),
    };
    assert_eq!(verify_segment(&seg), Err(VerifyError::EmptySegment));
}

#[test]
fn canonical_bytes_is_deterministic() {
    let a = rec("decision", b"payload");
    let b = rec("decision", b"payload");
    assert_eq!(canonical_bytes(&a), canonical_bytes(&b));
}

#[test]
fn tip_can_be_resumed_across_writers() {
    let mut w1 = ChainWriter::new();
    w1.append(rec("decision", b"a"));
    w1.append(rec("decision", b"b"));
    let tip = w1.tip_hash();
    let next = w1.next_seq();
    let seg1 = w1.close_segment(1, &signer());

    let mut w2 = ChainWriter::from_tip(tip, next);
    w2.append(rec("decision", b"c"));
    let seg2 = w2.close_segment(2, &signer());

    assert_eq!(verify_segment(&seg1), Ok(()));
    let anchor = seg1.records.last().unwrap().record_hash;
    assert_eq!(
        verify_chain(&seg2.records, anchor, seg2.records[0].record.seq),
        Ok(seg2.records.last().unwrap().record_hash),
    );
}

#[test]
fn canonical_bytes_layout() {
    let r = AuditRecord {
        seq: 1,
        timestamp_us: 2,
        tenant_id: "t".into(),
        kind: "k".into(),
        payload_commitment: [0xab; 32],
        redacted: true,
    };
    let b = canonical_bytes(&r);
    let mut expected = vec![0, 0, 0, 0, 0, 0, 0, 1, 0, 0, 0, 0, 0, 0, 0, 2, 0, 0, 0, 1, b't', 0, 0, 0, 1, b'k'];
    expected.extend_from_slice(&[0xab; 32]);
    expected.push(1);
    assert_eq!(b, expected);
}

#[test]
fn appended_records_get_consecutive_seqs_and_link() {
    let mut w = ChainWriter::new();
    assert!(w.is_empty());
    w.append(rec("decision", b"a"));
    w.append(rec("decision", b"b"));
    assert_eq!(w.len(), 2);
    assert_eq!(w.next_seq(), 2);
    let seg = w.close_segment(9, &signer());
    assert_eq!(seg.segment_id, 9);
    assert_eq!(seg.records[0].record.seq, 0);
    assert_eq!(seg.records[1].record.seq, 1);
    assert_eq!(seg.records[0].prev_hash, [0u8; 32]);
    assert_eq!(seg.records[1].prev_hash, seg.records[0].record_hash);
    assert_eq!(seg.signer_pubkey, signer().public_key());
}

#[test]
fn payload_commitment_is_blake3() {
    // BLAKE3 of the empty input.
    let h = payload_commitment(b"");
    assert_eq!(hex_encode(&h), "af1349b9f5f9a1a6a0404dea36dcc9499bcb25c9adc112b7cc9a93cae41f3262");
}

#[test]
fn software_signer_matches_rfc8032_vector() {
    // RFC 8032 test 1: secret key 9d61...7f60, public key d75a...511a.
    let seed_hex = "9d61b19deffd5a60ba844af492ec2cc44449c5697b326919703bac031cae7f60";
    let seed_vec = hex_decode(seed_hex).unwrap();
    let mut seed = [0u8; 32];
    seed.copy_from_slice(&seed_vec);
    let s = SoftwareSigner::from_seed(seed);
    assert_eq!(hex_encode(&s.public_key()), "d75a980182b10ab7d54bfed3c964073a0ee172f3daa62325af021a68f707511a");
    let sig = s.sign(b"");
    assert_eq!(
        hex_encode(&sig),
        "e5564300c360ac729086e2cc806e828a84877f1eb8e5d974d873e065224901555fb8821590a33bacc61e39701cf9b46bd25bf5f0595bbe24655141438e7a100b"
    );
}

#[test]
fn mark_redacted_breaks_hash_check_at_that_record() {
    let mut w = ChainWriter::new();
    w.append(rec("decision", b"a"));
    w.append(rec("decision", b"b"));
    let mut seg = w.close_segment(1, &signer());
    mark_redacted(&mut seg.records[0]);
    assert!(seg.records[0].record.redacted);
    assert_eq!(verify_segment(&seg), Err(VerifyError::RecordHashMismatch { index: 0 }));
}

#[test]
fn verify_chain_reports_seq_break() {
    let mut w = ChainWriter::new();
    w.append(rec("decision", b"a"));
    w.append(rec("decision", b"b"));
    let seg = w.close_segment(1, &signer());
    assert_eq!(
        verify_chain(&seg.records, [0u8; 32], 5),
        Err(VerifyError::SeqBroken { index: 0, expected: 5, got: 0 })
    );
}

#[test]
fn hex_round_trips() {
    let bytes = [0u8, 1, 0x7f, 0x80, 0xfe, 0xff];
    let s = hex_encode(&bytes);
    assert_eq!(s, "00017f80feff");
    assert_eq!(hex_decode(&s).unwrap(), bytes.to_vec());
    assert_eq!(hex_decode("ABcd").unwrap(), vec![0xab, 0xcd]);
}

#[test]
fn hex_decode_errors() {
    assert_eq!(hex_decode("abc"), Err(HexError::OddLength));
    assert_eq!(hex_decode("zz"), Err(HexError::InvalidDigit));
    assert_eq!(from_hex(b'g'), Err(HexError::InvalidDigit));
    assert_eq!(from_hex(b'F'), Ok(15));
}

#[test]
fn segment_file_names_round_trip() {
    assert_eq!(segment_file_name(26), "000000000000001a.audit.json");
    assert_eq!(parse_segment_file_name("000000000000001a.audit.json"), Some(26));
    assert_eq!(parse_segment_file_name("000000000000001a.seg"), None);
    assert_eq!(parse_segment_file_name("zz.audit.json"), None);
    let store = SegmentStore::new("/var/audit".to_string());
    assert_eq!(store.root(), "/var/audit");
    assert_eq!(store.file_name_for(1), "0000000000000001.audit.json");
}

#[test]
fn segment_file_names_parse_back_for_any_id() {
    for id in [0u64, 7, 0x1234_5678_9abc_def0, u64::MAX] {
        assert_eq!(parse_segment_file_name(&segment_file_name(id)), Some(id));
    }
}

fn observe_all(w: &mut AuditChainWriter<SoftwareSigner>, payloads: &[String], out: &mut Vec<Segment>) {
    for p in payloads {
        if let Some(seg) = w.observe("evt", p.as_bytes()) {
            out.push(seg);
        }
    }
}

#[test]
fn writer_persists_and_verify_all_passes() {
    let store = SegmentStore::new("audit".to_string());
    let mut w = AuditChainWriter::open(store, "tnt_test".into(), SoftwareSigner::from_seed([9u8; 32]), None)
        .with_max_records_per_segment(3);
    let mut segs = Vec::new();
    let payloads: Vec<String> = (0..7).map(|i| format!("payload-{i}")).collect();
    observe_all(&mut w, &payloads, &mut segs);
    if let Some(seg) = w.flush() {
        segs.push(seg);
    }
    let report = w.store().verify_all(&segs).expect("verify_all");
    assert_eq!(report.segments_verified, 3);
    assert_eq!(report.records_verified, 7);
}

#[test]
fn chain_is_continuous_across_segments() {
    let store = SegmentStore::new("audit".to_string());
    let mut w = AuditChainWriter::open(store, "tnt_test".into(), SoftwareSigner::from_seed([2u8; 32]), None)
        .with_max_records_per_segment(2);
    let mut segs = Vec::new();
    let payloads: Vec<String> = (0..4).map(|i| format!("p-{i}")).collect();
    observe_all(&mut w, &payloads, &mut segs);
    if let Some(seg) = w.flush() {
        segs.push(seg);
    }
    assert_eq!(segs.len(), 2);
    let tip_of_s0 = segs[0].records.last().unwrap().record_hash;
    let prev_of_s1_first = segs[1].records.first().unwrap().prev_hash;
    assert_eq!(tip_of_s0, prev_of_s1_first);
    let report = verify_segments(&segs).unwrap();
    assert_eq!(report, VerifyReport { segments_verified: 2, records_verified: 4 });
}

#[test]
fn reopen_resumes_from_last_tip() {
    let mut segs = Vec::new();
    {
        let mut w = AuditChainWriter::open(SegmentStore::new("audit".into()), "tnt_test".into(), SoftwareSigner::from_seed([3u8; 32]), None);
        w.observe("evt", b"first");
        w.observe("evt", b"second");
        segs.push(w.flush().unwrap());
    }
    {
        let last = (segs[0].segment_id, segs[0].clone());
        let mut w = AuditChainWriter::open(SegmentStore::new("audit".into()), "tnt_test".into(), SoftwareSigner::from_seed([3u8; 32]), Some(last));
        assert_eq!(w.next_segment_id(), 1);
        assert_eq!(w.tip(), segs[0].records.last().unwrap().record_hash);
        w.observe("evt", b"third");
        segs.push(w.flush().unwrap());
    }
    let report = verify_segments(&segs).expect("chain remains continuous across reopen");
    assert_eq!(report.segments_verified, 2);
    assert_eq!(report.records_verified, 3);
}

#[test]
fn corrupted_on_disk_segment_is_caught_at_exact_index() {
    let mut w = AuditChainWriter::open(SegmentStore::new("audit".into()), "tnt_test".into(), SoftwareSigner::from_seed([4u8; 32]), None);
    for i in 0..5 {
        w.observe("evt", format!("x-{i}").as_bytes());
    }
    let mut seg = w.flush().unwrap();
    seg.records[2].record.payload_commitment[0] ^= 0x01;
    match verify_segments(&[seg]) {
        Err(VerifyError::RecordHashMismatch { index: 2 }) => {}
        other => panic!("expected RecordHashMismatch at 2, got {other:?}"),
    }
}

#[test]
fn segments_out_of_line_are_a_chain_break() {
    let mut w = AuditChainWriter::open(SegmentStore::new("audit".into()), "tnt_test".into(), SoftwareSigner::from_seed([5u8; 32]), None)
        .with_max_records_per_segment(1);
    let a = w.observe("evt", b"a").unwrap();
    let _b = w.observe("evt", b"b").unwrap();
    let c = w.observe("evt", b"c").unwrap();
    assert_eq!(verify_segments(&[a, c]), Err(VerifyError::ChainBroken { index: 0 }));
    assert_eq!(w.pending_records(), 0);
    assert!(w.flush().is_none());
}

#[test]
fn key_file_of_32_bytes_gives_its_signer() {
    let s = signer_from_key_file(&[7u8; 32]).expect("32-byte key");
    assert_eq!(s.public_key(), signer().public_key());
    assert_eq!(s.sign(b"tip"), signer().sign(b"tip"));
}

#[test]
fn key_file_of_wrong_size_is_rejected() {
    assert!(matches!(signer_from_key_file(&[1u8; 31]), Err(FileKeyError::BadLength)));
    assert!(matches!(signer_from_key_file(&[1u8; 33]), Err(FileKeyError::BadLength)));
    assert!(matches!(signer_from_key_file(&[]), Err(FileKeyError::BadLength)));
}

#[test]
fn hex_error_messages_and_shape() {
    assert_eq!(HexError::OddLength.message(), "odd-length hex string");
    assert_eq!(HexError::InvalidDigit.message(), "invalid hex digit");
    let enc = hex_encode(&[0x00, 0x9f, 0xff]);
    assert_eq!(enc.len(), 6);
    assert!(enc.chars().all(|c| c.is_ascii_digit() || ('a'..='f').contains(&c)));
    assert_eq!(hex_decode("0A1b"), Ok(vec![0x0a, 0x1b]));
    assert_eq!(hex_decode("0g"), Err(HexError::InvalidDigit));
}

#[test]
fn canonical_bytes_length_and_distinctness() {
    let a = rec("evt", b"x");
    assert_eq!(canonical_bytes(&a).len(), 57 + "tnt_demo".len() + "evt".len());
    let mut b = a.clone();
    b.kind = "ev".into();
    b.tenant_id = "tnt_demot".into();
    // Same total length, different split between tenant and kind.
    assert_eq!(canonical_bytes(&a).len(), canonical_bytes(&b).len());
    assert_ne!(canonical_bytes(&a), canonical_bytes(&b));
}
