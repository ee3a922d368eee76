use galleonfs::vfs::event_handler::{
    block_write_slices, event_kind, process_event_result, BlockWrite, EventWork, VfsEvent, VfsEventHandler,
};
use galleonfs::vfs::file_mapping::{map_range_to_blocks, BlockMapping, BlockSpan, FileMapper, VfsFileType, VolumeStats};
use galleonfs::vfs::replication::ReplicationManager;

const BLOCK: u64 = 65536;
const SHARD_BLOCKS: u64 = 16_777_216;

fn uuid_text(id: u128) -> String {
    let h = format!("{:032x}", id);
    format!("{}-{}-{}-{}-{}", &h[0..8], &h[8..12], &h[12..16], &h[16..20], &h[20..32])
}

#[test]
fn a_range_inside_one_block_is_one_span() {
    let spans = map_range_to_blocks(100, 50);
    assert_eq!(spans, vec![BlockSpan { file_block_index: 0, offset_in_block: 100, length: 50 }]);
}

#[test]
fn a_range_across_blocks_is_cut_at_block_edges() {
    let spans = map_range_to_blocks(BLOCK - 10, BLOCK + 20);
    assert_eq!(
        spans,
        vec![
            BlockSpan { file_block_index: 0, offset_in_block: BLOCK - 10, length: 10 },
            BlockSpan { file_block_index: 1, offset_in_block: 0, length: BLOCK },
            BlockSpan { file_block_index: 2, offset_in_block: 0, length: 10 },
        ]
    );
}

#[test]
fn an_empty_range_inside_a_block_is_one_empty_span() {
    assert_eq!(map_range_to_blocks(5, 0), vec![BlockSpan { file_block_index: 0, offset_in_block: 5, length: 0 }]);
    assert_eq!(map_range_to_blocks(BLOCK, 0), vec![]);
}

#[test]
fn initializing_a_volume_creates_its_root() {
    let mut m = FileMapper::new();
    assert!(m.initialize_volume(7, 4, 1000).is_ok());
    let root = m.get_file_info("/").unwrap().unwrap();
    assert_eq!(root.inode, 1);
    assert_eq!(root.volume_id, 7);
    assert_eq!(root.file_type, VfsFileType::Directory);
    assert_eq!(root.size, BLOCK);
    assert_eq!(root.permissions.mode, 0o755);
    assert_eq!(root.block_mappings.len(), 1);
    let (offset, block) = root.block_mappings[0];
    assert_eq!(offset, 0);
    assert_eq!(block.shard_id, 0);
    assert!(block.block_id < SHARD_BLOCKS);
    assert!(block.is_full_block);
    assert_eq!(root.created_at, 1000);
}

#[test]
fn a_volume_without_shards_has_no_block_for_its_root() {
    let mut m = FileMapper::new();
    let r = m.initialize_volume(9, 0, 1000);
    assert_eq!(r, Err(format!("No free blocks available in volume: {}", uuid_text(9))));
    assert!(m.get_file_info("/").unwrap().is_none());
}

#[test]
fn new_paths_get_new_inodes_from_two_on() {
    let mut m = FileMapper::new();
    assert_eq!(m.get_or_create_inode(1, "/a", 5), Ok(2));
    assert_eq!(m.get_or_create_inode(1, "/b", 5), Ok(3));
    assert_eq!(m.get_or_create_inode(1, "/a", 6), Ok(2));
    let a = m.get_file_info("/a").unwrap().unwrap();
    assert_eq!(a.file_type, VfsFileType::RegularFile);
    assert_eq!(a.size, 0);
    assert_eq!(a.permissions.mode, 0o644);
    assert_eq!(a.permissions.uid, 1000);
    assert_eq!(a.created_at, 5);
}

#[test]
fn mapping_a_write_allocates_blocks_and_grows_the_file() {
    let mut m = FileMapper::new();
    m.initialize_volume(3, 2, 0).unwrap();
    let ms = m.map_file_to_blocks(3, "/f", BLOCK - 100, 200, 10).unwrap();
    assert_eq!(ms.len(), 2);
    assert_eq!((ms[0].block_offset, ms[0].length), (BLOCK - 100, 100));
    assert_eq!((ms[1].block_offset, ms[1].length), (0, 100));
    assert!(!ms[0].is_full_block);
    assert_eq!(ms[0].shard_id, 0);
    let f = m.get_file_info("/f").unwrap().unwrap();
    assert_eq!(f.size, BLOCK + 100);
    assert_eq!(f.block_mappings.len(), 2);
    assert_eq!(f.modified_at, 10);
}

#[test]
fn mapping_the_same_range_again_gives_the_same_blocks() {
    let mut m = FileMapper::new();
    m.initialize_volume(3, 1, 0).unwrap();
    let first = m.map_file_to_blocks(3, "/f", 0, 3 * BLOCK, 1).unwrap();
    let again = m.map_file_to_blocks(3, "/f", 10, 2 * BLOCK, 2).unwrap();
    assert_eq!(first.len(), 3);
    assert_eq!(again.len(), 3);
    for i in 0..3 {
        assert_eq!(first[i].block_id, again[i].block_id);
        assert_eq!(first[i].length, again[i].length);
    }
    assert!(first.iter().all(|b: &BlockMapping| b.is_full_block));
    let stats = m.get_volume_stats(3).unwrap();
    assert_eq!(stats.total_blocks, 1 + 3);
}

#[test]
fn mapping_fails_for_an_unknown_volume() {
    let mut m = FileMapper::new();
    match m.map_file_to_blocks(42, "/x", 0, 10, 1) {
        Err(e) => assert_eq!(e, format!("Volume not found: {}", uuid_text(42))),
        Ok(_) => panic!("mapping should fail"),
    }
    assert!(m.get_file_info("/x").unwrap().is_some());
}

#[test]
fn access_time_and_removal() {
    let mut m = FileMapper::new();
    m.get_or_create_inode(1, "/a", 5).unwrap();
    m.update_access_time("/a", 77).unwrap();
    assert_eq!(m.get_file_info("/a").unwrap().unwrap().accessed_at, 77);
    m.update_access_time("/missing", 78).unwrap();
    m.remove_file("/a").unwrap();
    assert!(m.get_file_info("/a").unwrap().is_none());
    m.remove_file("/a").unwrap();
}

#[test]
fn volume_stats_add_up_files_and_directories() {
    let mut m = FileMapper::new();
    m.initialize_volume(5, 3, 0).unwrap();
    m.map_file_to_blocks(5, "/one", 0, 10, 1).unwrap();
    m.map_file_to_blocks(5, "/two", 0, BLOCK + 1, 1).unwrap();
    m.get_or_create_inode(6, "/other", 1).unwrap();
    let s = m.get_volume_stats(5).unwrap();
    assert_eq!(
        s,
        VolumeStats { volume_id: 5, total_files: 2, total_directories: 1, total_size: BLOCK + 10 + BLOCK + 1, total_blocks: 4 }
    );
}

#[test]
fn write_slices_follow_the_mapping_lengths() {
    let maps = vec![
        BlockMapping { shard_id: 0, block_id: 1, block_offset: 10, length: 5, is_full_block: false },
        BlockMapping { shard_id: 0, block_id: 2, block_offset: 0, length: 100, is_full_block: false },
    ];
    assert_eq!(block_write_slices(&maps, 20), vec![(0, 5), (5, 20)]);
}

#[test]
fn a_processed_write_reports_its_bytes_and_blocks() {
    let ev = VfsEvent::FileWritten { volume_id: 1, path: "/f".to_string(), offset: 0, data: vec![0u8; 70000], sync_required: false };
    let ok = process_event_result(&ev, Ok(()), 12);
    assert!(ok.success);
    assert_eq!(ok.bytes_processed, 70000);
    assert_eq!(ok.blocks_affected, 2);
    assert!(ok.replication_triggered);
    let failed = process_event_result(&ev, Err("boom".to_string()), 3);
    assert!(!failed.success);
    assert_eq!(failed.bytes_processed, 0);
    assert_eq!(failed.error_message, Some("boom".to_string()));
    assert_eq!(event_kind(&ev), 1);
}

#[test]
fn the_event_handler_plans_block_writes() {
    let mut mapper = FileMapper::new();
    mapper.initialize_volume(8, 1, 0).unwrap();
    let mut h = VfsEventHandler::new(mapper, ReplicationManager::new(99));
    let data: Vec<u8> = (0..30u8).collect();
    let ev = VfsEvent::FileWritten { volume_id: 8, path: "/w".to_string(), offset: BLOCK - 10, data, sync_required: true };
    h.submit_event(ev).unwrap();
    assert_eq!(h.get_stats().queue_depth, 1);
    let ev = h.next_event().unwrap();
    assert!(h.next_event().is_none());
    let work = h.process_event(&ev, 50);
    let pieces: Vec<BlockWrite> = match work {
        EventWork::WriteBlocks(ws) => ws,
        other => panic!("unexpected {:?}", other),
    };
    assert_eq!(pieces.len(), 2);
    assert_eq!(pieces[0].block_offset, BLOCK - 10);
    assert_eq!(pieces[0].data, (0..10u8).collect::<Vec<u8>>());
    assert_eq!(pieces[1].block_offset, 0);
    assert_eq!(pieces[1].data, (10..30u8).collect::<Vec<u8>>());
    for p in &pieces {
        h.block_written(8, p).unwrap();
    }
    h.write_finished("/w", 60).unwrap();
    let result = process_event_result(&ev, Ok(()), 5);
    h.update_event_stats(&ev, &result);
    let stats = h.get_stats();
    assert_eq!(stats.total_events, 1);
    assert_eq!(stats.queue_depth, 0);
    assert_eq!(stats.events_by_type[1], 1);
    assert_eq!(stats.total_bytes_processed, 30);
    h.reset_stats();
    assert_eq!(h.get_stats().total_events, 0);
}

#[test]
fn other_events_are_done_or_need_a_sync() {
    let mut h = VfsEventHandler::new(FileMapper::new(), ReplicationManager::new(1));
    let create = VfsEvent::FileCreated { volume_id: 1, path: "/c".to_string(), initial_size: 0, permissions: 0o644 };
    assert!(matches!(h.process_event(&create, 1), EventWork::Done(Ok(()))));
    let sync_all = VfsEvent::SyncRequested { volume_id: 1, path: None };
    assert!(matches!(h.process_event(&sync_all, 1), EventWork::SyncAll));
    let sync_one = VfsEvent::SyncRequested { volume_id: 1, path: Some("/c".to_string()) };
    assert!(matches!(h.process_event(&sync_one, 1), EventWork::Done(Ok(()))));
    let write = VfsEvent::FileWritten { volume_id: 1, path: "/c".to_string(), offset: 0, data: vec![1, 2], sync_required: false };
    match h.process_event(&write, 1) {
        EventWork::Done(Err(e)) => assert_eq!(e, format!("Volume not found: {}", uuid_text(1))),
        other => panic!("unexpected {:?}", other),
    }
    let failed = process_event_result(&write, Err("x".to_string()), 1);
    h.update_event_stats(&write, &failed);
    assert_eq!(h.get_stats().error_count, 1);
}

#[test]
fn a_write_fits_unless_an_earlier_block_is_longer_than_its_data() {
    let mut mapper = FileMapper::new();
    mapper.initialize_volume(4, 1, 0).unwrap();
    mapper.map_file_to_blocks(4, "/big", 0, BLOCK, 1).unwrap();
    let lengths = mapper.planned_lengths("/big", 65000, 1000);
    assert_eq!(lengths, vec![BLOCK, 464]);
    let h = VfsEventHandler::new(mapper, ReplicationManager::new(1));
    assert!(h.write_fits_now("/big", 0, 100));
    assert!(!h.write_fits_now("/big", 65000, 1000));
    assert!(h.write_fits_now("/new", 65000, 1000));
    assert!(!h.write_fits_now("/new", 0, 0));
}
