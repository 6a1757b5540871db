use log_archive::commit_entry::{
    decode_commit_entry, encode_commit_entry, CommitEntry, COMMIT_ENTRY_LEN,
};
use log_archive::types::{ArchiveLocator, ArchiveSourcePattern};

fn sample_entry() -> CommitEntry {
    CommitEntry {
        commit_ordinal: 101,
        sequence: 202,
        locator: ArchiveLocator {
            segment_id: 303,
            segment_generation: 404,
            file_offset: 505,
            frame_len: 606,
        },
        frame_checksum: 0xDEADBEEF,
        event_time_ns: 707,
        commit_time_ns: 808,
        source_pattern: ArchiveSourcePattern::Pipeline,
        source_service_id: 909,
        source_instance_id: 1001,
        source_sequence: Some(1102),
    }
}

#[test]
fn decode_commit_entry_roundtrip_preserves_alignment_metadata_fields() {
    let entry = sample_entry();

    let bytes = encode_commit_entry(entry);
    let decoded = decode_commit_entry(&bytes).unwrap();
    assert_eq!(decoded.commit_ordinal, entry.commit_ordinal);
    assert_eq!(decoded.sequence, entry.sequence);
    assert_eq!(decoded.locator, entry.locator);
    assert_eq!(decoded.frame_checksum, entry.frame_checksum);
    assert_eq!(decoded.event_time_ns, entry.event_time_ns);
    assert_eq!(decoded.commit_time_ns, entry.commit_time_ns);
    assert_eq!(decoded.source_pattern, entry.source_pattern);
    assert_eq!(decoded.source_service_id, entry.source_service_id);
    assert_eq!(decoded.source_instance_id, entry.source_instance_id);
    assert_eq!(decoded.source_sequence, entry.source_sequence);
}

#[test]
fn commit_entry_layout_is_little_endian_at_fixed_offsets() {
    let bytes = encode_commit_entry(sample_entry());
    assert_eq!(bytes.len(), COMMIT_ENTRY_LEN);
    assert_eq!(&bytes[0..4], &[0x43, 0x49, 0x44, 0x31]);
    assert_eq!(&bytes[8..16], &101u64.to_le_bytes());
    assert_eq!(&bytes[16..24], &202u64.to_le_bytes());
    assert_eq!(&bytes[40..48], &505u64.to_le_bytes());
    assert_eq!(&bytes[52..56], &0xDEADBEEFu32.to_le_bytes());
    assert_eq!(bytes[96], 3);
}

#[test]
fn commit_entry_without_source_sequence_reads_back_without_it() {
    let mut entry = sample_entry();
    entry.source_sequence = None;
    let decoded = decode_commit_entry(&encode_commit_entry(entry)).unwrap();
    assert_eq!(decoded.source_sequence, None);
}

#[test]
fn malformed_commit_entries_are_refused() {
    let bytes = encode_commit_entry(sample_entry());
    assert_eq!(decode_commit_entry(&bytes[..7]), Err("commit entry too short"));
    assert_eq!(
        decode_commit_entry(&bytes[..COMMIT_ENTRY_LEN - 1]),
        Err("commit entry length does not match payload")
    );
    let mut short = bytes[..50].to_vec();
    short[4..6].copy_from_slice(&50u16.to_le_bytes());
    assert_eq!(decode_commit_entry(&short), Err("invalid commit entry length"));
    let mut unknown = bytes.clone();
    unknown[96] = 77;
    assert_eq!(
        decode_commit_entry(&unknown),
        Err("invalid commit entry source pattern")
    );
}
