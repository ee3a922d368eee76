use galleonfs::block_io::{patch_block, plan_write, read_block_piece, read_block_range, read_result_len, ChunkWrite};
use galleonfs::labels::{contains_string, get_label, matches_selector, remove_label, set_label, text_contains};
use galleonfs::text::{decimal_chars, join_path, parse_decimal, string_of, trim_chars, uuid_chars, NumberParse};
use galleonfs::units::{human_readable_bytes, parse_size, SizeParseError};
use galleonfs::{
    access_modes_string, volume_state_str, volume_type_str, write_steps, AccessMode, BlockData, JournalEntry,
    LabelSelector, ReplicationStrategy, Volume, VolumeState, VolumeType, WriteConcern, WriteStep,
};

fn chars(s: &str) -> Vec<char> {
    s.chars().collect()
}

fn pairs(v: &[(&str, &str)]) -> Vec<(String, String)> {
    v.iter().map(|(k, x)| (k.to_string(), x.to_string())).collect()
}

#[test]
fn human_readable_sizes() {
    assert_eq!(human_readable_bytes(0), "0 B");
    assert_eq!(human_readable_bytes(1023), "1023 B");
    assert_eq!(human_readable_bytes(1024), "1.00 KB");
    assert_eq!(human_readable_bytes(1536), "1.50 KB");
    assert_eq!(human_readable_bytes(1048576), "1.00 MB");
    assert_eq!(human_readable_bytes(1099511627776), "1.00 TB");
}

#[test]
fn sizes_parse_with_binary_suffixes() {
    assert_eq!(parse_size("1G"), Ok(1073741824));
    assert_eq!(parse_size(" 512m "), Ok(536870912));
    assert_eq!(parse_size("2048K"), Ok(2097152));
    assert_eq!(parse_size("10B"), Ok(10));
    assert_eq!(parse_size("4096"), Ok(4096));
    assert_eq!(parse_size("1t"), Ok(1099511627776));
}

#[test]
fn bad_sizes_are_refused() {
    assert_eq!(parse_size(""), Err(SizeParseError::Empty));
    assert_eq!(parse_size("G"), Err(SizeParseError::Empty));
    assert_eq!(parse_size("1.5G"), Err(SizeParseError::InvalidDigit));
    assert_eq!(parse_size("abc"), Err(SizeParseError::InvalidDigit));
    assert_eq!(parse_size("99999999999999999999"), Err(SizeParseError::Overflow));
}

#[test]
fn decimal_numbers_read_and_write() {
    assert_eq!(decimal_chars(0), chars("0"));
    assert_eq!(decimal_chars(90210), chars("90210"));
    assert!(matches!(parse_decimal(&chars("+42"), 100), NumberParse::Value(42)));
    assert!(matches!(parse_decimal(&chars("101"), 100), NumberParse::Overflow));
    assert!(matches!(parse_decimal(&chars("4x"), 100), NumberParse::InvalidDigit));
    assert!(matches!(parse_decimal(&chars("+"), 100), NumberParse::InvalidDigit));
    assert!(matches!(parse_decimal(&chars(""), 100), NumberParse::Empty));
}

#[test]
fn text_helpers() {
    assert_eq!(trim_chars(&chars("  a b \t\n")), chars("a b"));
    assert_eq!(string_of(&uuid_chars(0x0123456789abcdef0011223344556677)), "01234567-89ab-cdef-0011-223344556677");
    assert_eq!(join_path("/mnt", &chars("vol")), "/mnt/vol");
    assert_eq!(join_path("/mnt/", &chars("vol")), "/mnt/vol");
    assert_eq!(join_path("/mnt", &chars("/abs")), "/abs");
    assert_eq!(join_path("", &chars("vol")), "vol");
}

#[test]
fn labels_set_look_up_and_remove() {
    let l = pairs(&[("app", "db"), ("tier", "gold")]);
    assert_eq!(get_label(&l, &"tier".to_string()), Some("gold".to_string()));
    assert_eq!(get_label(&l, &"zone".to_string()), None);
    let l2 = set_label(&l, &"tier".to_string(), &"silver".to_string());
    assert_eq!(l2, pairs(&[("app", "db"), ("tier", "silver")]));
    let l3 = set_label(&l2, &"zone".to_string(), &"a".to_string());
    assert_eq!(get_label(&l3, &"zone".to_string()), Some("a".to_string()));
    let l4 = remove_label(&l3, &"app".to_string());
    assert_eq!(l4, pairs(&[("tier", "silver"), ("zone", "a")]));
    assert_eq!(get_label(&l4, &"app".to_string()), None);
}

#[test]
fn selectors_need_every_label() {
    let l = pairs(&[("app", "db"), ("tier", "gold")]);
    let sel = LabelSelector { match_labels: pairs(&[("app", "db")]) };
    assert!(matches_selector(&sel, &l));
    let sel2 = LabelSelector { match_labels: pairs(&[("app", "db"), ("tier", "silver")]) };
    assert!(!matches_selector(&sel2, &l));
    let empty = LabelSelector { match_labels: vec![] };
    assert!(matches_selector(&empty, &l));
    assert!(contains_string(&vec!["a".to_string(), "b".to_string()], &"b".to_string()));
    assert!(!contains_string(&vec![], &"b".to_string()));
    assert!(text_contains("fast-ssd-pool", "ssd"));
    assert!(!text_contains("fast", "ssd"));
    assert!(text_contains("anything", ""));
}

#[test]
fn writes_split_into_block_chunks() {
    let plan = plan_write(4000, 5000);
    assert_eq!(
        plan,
        vec![
            ChunkWrite { block_id: 0, block_offset: 4000, data_start: 0, data_end: 96, full_block: false },
            ChunkWrite { block_id: 1, block_offset: 0, data_start: 96, data_end: 4192, full_block: true },
            ChunkWrite { block_id: 2, block_offset: 0, data_start: 4192, data_end: 5000, full_block: false },
        ]
    );
    let aligned = plan_write(8192, 4096);
    assert_eq!(aligned, vec![ChunkWrite { block_id: 2, block_offset: 0, data_start: 0, data_end: 4096, full_block: true }]);
    assert!(plan_write(10, 0).is_empty());
}

#[test]
fn partial_blocks_are_patched_over_what_was_there() {
    let (b, n) = patch_block(None, 10, &[1, 2, 3]);
    assert_eq!(b.len(), 4096);
    assert_eq!(&b[9..14], &[0, 1, 2, 3, 0]);
    assert_eq!(n, 3);
    let (b, n) = patch_block(Some(vec![9; 4096]), 4094, &[5, 6, 7, 8]);
    assert_eq!(&b[4092..], &[9, 9, 5, 6]);
    assert_eq!(n, 2);
}

#[test]
fn reads_gather_block_pieces() {
    assert_eq!(read_block_range(4000, 200), (0, 2));
    assert_eq!(read_block_range(8192, 4096), (2, 3));
    let mut acc = Vec::new();
    let first = vec![7u8; 4096];
    read_block_piece(&mut acc, Some(&first), 4000, 200);
    assert_eq!(acc.len(), 96);
    read_block_piece(&mut acc, None, 0, 200);
    assert_eq!(acc.len(), 200);
    assert_eq!(acc[95], 7);
    assert_eq!(acc[96], 0);
    assert_eq!(read_result_len(300, 200), 200);
    assert_eq!(read_result_len(100, 200), 100);
}

#[test]
fn a_new_volume_is_being_provisioned() {
    let v = Volume::new("data".to_string(), VolumeType::Persistent, 1 << 30, "fast".to_string());
    assert_eq!(v.name, "data");
    assert_eq!(v.state, VolumeState::Provisioning);
    assert_eq!(v.access_modes, vec![AccessMode::ReadWriteOnce]);
    assert!(v.labels.is_empty());
    assert_eq!(v.created_at, v.updated_at);
    assert!(v.mount_path.is_none());
    let w = Volume::new("data".to_string(), VolumeType::Persistent, 1, "fast".to_string());
    assert_ne!(v.id, w.id);
}

#[test]
fn blocks_carry_the_crc_of_their_data() {
    let b = BlockData::new(1, 2, b"123456789".to_vec());
    assert_eq!(b.checksum, 0xCBF43926);
    assert!(b.verify_checksum());
    let mut c = BlockData::new(1, 2, vec![1, 2, 3]);
    c.data[0] = 9;
    assert!(!c.verify_checksum());
}

#[test]
fn journal_entries_start_uncommitted() {
    let e = JournalEntry::new(3, "write_block:7".to_string(), vec![1]);
    assert!(!e.committed);
    assert_eq!(e.operation, "write_block:7");
    assert_eq!(e.volume_id, 3);
}

#[test]
fn write_steps_follow_the_concern() {
    assert_eq!(
        write_steps(WriteConcern::WriteAcknowledged, ReplicationStrategy::Synchronous),
        vec![WriteStep::JournalWrite, WriteStep::WriteBlock, WriteStep::CommitJournal]
    );
    assert_eq!(
        write_steps(WriteConcern::WriteDurable, ReplicationStrategy::Asynchronous),
        vec![WriteStep::JournalWrite, WriteStep::WriteBlock, WriteStep::Flush, WriteStep::CommitJournal]
    );
    assert_eq!(
        write_steps(WriteConcern::WriteReplicated, ReplicationStrategy::Synchronous),
        vec![WriteStep::JournalWrite, WriteStep::WriteBlock, WriteStep::ReplicateSynchronously, WriteStep::CommitJournal]
    );
    assert_eq!(
        write_steps(WriteConcern::WriteDistributed, ReplicationStrategy::Asynchronous),
        vec![WriteStep::JournalWrite, WriteStep::WriteBlock, WriteStep::ReplicateAsynchronously, WriteStep::CommitJournal]
    );
}

#[test]
fn names_print_as_debug_does() {
    assert_eq!(volume_type_str(VolumeType::Shared), format!("{:?}", VolumeType::Shared));
    assert_eq!(volume_state_str(VolumeState::Migrating), "Migrating");
    let modes = vec![AccessMode::ReadWriteOnce, AccessMode::ReadOnlyMany];
    assert_eq!(access_modes_string(&modes), format!("{:?}", modes));
    assert_eq!(access_modes_string(&vec![]), "[]");
}

#[test]
fn an_unaligned_write_reads_back() {
    let mut store: std::collections::HashMap<u64, Vec<u8>> = std::collections::HashMap::new();
    let data: Vec<u8> = (0..5000u32).map(|i| (i % 251) as u8).collect();
    let position = 100u64;
    for cw in plan_write(position, data.len()) {
        let piece = &data[cw.data_start..cw.data_end];
        if cw.full_block {
            store.insert(cw.block_id, piece.to_vec());
        } else {
            let (block, n) = patch_block(store.get(&cw.block_id).cloned(), cw.block_offset, piece);
            assert_eq!(n, piece.len());
            store.insert(cw.block_id, block);
        }
    }
    let (first, end) = read_block_range(position, data.len() as u64);
    let mut acc = Vec::new();
    for b in first..end {
        let start = if b == first { (position % 4096) as usize } else { 0 };
        read_block_piece(&mut acc, store.get(&b), start, data.len());
    }
    let n = read_result_len(acc.len(), data.len());
    assert_eq!(&acc[..n], &data[..]);
}
