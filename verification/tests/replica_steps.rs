use galleonfs::block_io::ChunkWrite;
use galleonfs::cross_platform_vfs::{format_marker_bytes, process_vfs_event, GalleonVFS, VFSEvent};
use galleonfs::galleon::{
    ack_counts, replica_ack, replica_step, replication_next, ReplicaStep, ReplicaTally, ReplicationMessage,
    ReplicationStep,
};
use galleonfs::vfs::event_handler::{process_event_result, EventWork, VfsEvent, VfsEventHandler};
use galleonfs::vfs::file_mapping::FileMapper;
use galleonfs::vfs::replication::ReplicationManager;
use galleonfs::vfs::replication::VolumeAccessPatterns;
use galleonfs::daemon::config::{ConfigError, ConfigManager, Platform};
use galleonfs::storage::FileStorageEngine;
use galleonfs::galleon::GalleonFS;
use galleonfs::{next_write_step, write_steps, WriteProgress, BlockData, ReplicationStrategy, Volume, VolumeType, WriteConcern, WriteStep};

#[test]
fn a_replica_stores_a_block_whose_checksum_verifies() {
    let b = BlockData::new(1, 9, vec![1, 2, 3]);
    let m = ReplicationMessage::WriteBlock(b);
    match replica_ack(&m, true) {
        Some(ReplicationMessage::WriteAck { block_id, success }) => {
            assert_eq!(block_id, 9);
            assert!(success);
        },
        other => panic!("{:?}", other),
    }
    match replica_step(m) {
        ReplicaStep::Store(b) => assert_eq!(b.data, vec![1, 2, 3]),
        other => panic!("{:?}", other),
    }
}

#[test]
fn a_replica_refuses_a_block_with_a_bad_checksum() {
    let mut b = BlockData::new(1, 4, vec![1, 2, 3]);
    b.checksum ^= 1;
    match replica_step(ReplicationMessage::WriteBlock(b)) {
        ReplicaStep::Reply(ReplicationMessage::WriteAck { block_id, success }) => {
            assert_eq!(block_id, 4);
            assert!(!success);
        },
        other => panic!("{:?}", other),
    }
}

#[test]
fn a_replica_creates_volumes_and_answers_heartbeats() {
    let v = Volume::new("r".to_string(), VolumeType::Persistent, 10, "c".to_string());
    let id = v.id;
    let m = ReplicationMessage::CreateVolume(v);
    match replica_ack(&m, false) {
        Some(ReplicationMessage::VolumeCreated { volume_id, success }) => {
            assert_eq!(volume_id, id);
            assert!(!success);
        },
        other => panic!("{:?}", other),
    }
    assert!(matches!(replica_step(m), ReplicaStep::Create(_)));
    assert!(matches!(replica_step(ReplicationMessage::Heartbeat), ReplicaStep::Reply(ReplicationMessage::HeartbeatAck)));
    assert!(matches!(replica_step(ReplicationMessage::HeartbeatAck), ReplicaStep::Ignore));
    assert!(replica_ack(&ReplicationMessage::Heartbeat, true).is_none());
}

#[test]
fn replication_tries_peers_in_order_and_stops_when_enough_acknowledged() {
    let mut t = ReplicaTally { required: 1, successful: 0 };
    assert_eq!(replication_next(3, 0, &t), ReplicationStep::Contact(0));
    t.record_ack(ack_counts(&Some(ReplicationMessage::WriteAck { block_id: 1, success: false })));
    assert_eq!(replication_next(3, 1, &t), ReplicationStep::Contact(1));
    t.record_ack(ack_counts(&None));
    t.record_ack(ack_counts(&Some(ReplicationMessage::WriteAck { block_id: 1, success: true })));
    assert_eq!(replication_next(3, 2, &t), ReplicationStep::Finish(Ok(())));
    let none = ReplicaTally { required: 2, successful: 1 };
    assert_eq!(replication_next(2, 2, &none), ReplicationStep::Finish(Err((2, 1))));
    let nothing = ReplicaTally { required: 0, successful: 0 };
    assert_eq!(replication_next(5, 0, &nothing), ReplicationStep::Finish(Ok(())));
}

#[test]
fn a_failed_write_step_ends_the_write() {
    let steps = write_steps(WriteConcern::WriteDurable, ReplicationStrategy::Synchronous);
    assert_eq!(next_write_step(&steps, 0, true), WriteProgress::Run(WriteStep::JournalWrite));
    assert_eq!(next_write_step(&steps, 1, true), WriteProgress::Run(WriteStep::WriteBlock));
    assert_eq!(next_write_step(&steps, 2, false), WriteProgress::Failed);
    assert_eq!(next_write_step(&steps, 4, true), WriteProgress::Complete);
}

#[test]
fn an_unformatted_volume_gets_the_marker() {
    let mut vfs = GalleonVFS::new(3);
    let marker = vfs.load_filesystem_structure(None).unwrap();
    assert_eq!(marker, b"GalleonVFS v1.0".to_vec());
    assert_eq!(format_marker_bytes(), b"GalleonVFS v1.0".to_vec());
    let mut again = GalleonVFS::new(3);
    assert!(again.load_filesystem_structure(Some(marker)).is_none());
    let mut empty = GalleonVFS::new(3);
    assert!(empty.load_filesystem_structure(Some(Vec::new())).is_some());
}

#[test]
fn a_modification_is_written_block_by_block() {
    let ev = VFSEvent::FileModified { path: "/f".to_string(), ino: 2, offset: 4090, data: vec![7; 10] };
    assert_eq!(
        process_vfs_event(&ev),
        vec![
            ChunkWrite { block_id: 0, block_offset: 4090, data_start: 0, data_end: 6, full_block: false },
            ChunkWrite { block_id: 1, block_offset: 0, data_start: 6, data_end: 10, full_block: false },
        ]
    );
    assert!(process_vfs_event(&VFSEvent::FileCreated { path: "/f".to_string(), ino: 2 }).is_empty());
}

#[test]
fn blocks_affected_count_from_the_offset() {
    let ev = VfsEvent::FileWritten { volume_id: 1, path: "/f".to_string(), offset: 65535, data: vec![1, 2], sync_required: false };
    let r = process_event_result(&ev, Ok(()), 1);
    assert!(r.success);
    assert_eq!(r.bytes_processed, 2);
    assert_eq!(r.blocks_affected, 2);
    assert!(r.replication_triggered);
}

#[test]
fn new_access_patterns_are_neither_hot_nor_cold() {
    let p = VolumeAccessPatterns::new();
    assert!(!p.is_hot_data());
    assert!(!p.is_cold_data());
}

#[test]
fn block_checksums_are_crc32_ieee() {
    let b = BlockData::new(1, 0, b"123456789".to_vec());
    assert_eq!(b.checksum, 0xCBF4_3926);
    assert!(b.verify_checksum());
}

#[test]
fn a_write_to_an_unknown_volume_is_refused_and_one_to_a_known_volume_is_planned() {
    let mut mapper = FileMapper::new();
    mapper.initialize_volume(5, 1, 0).unwrap();
    let mut h = VfsEventHandler::new(mapper, ReplicationManager::new(1));
    let known = VfsEvent::FileWritten { volume_id: 5, path: "/a".to_string(), offset: 0, data: vec![1, 2, 3], sync_required: false };
    assert!(matches!(h.process_event(&known, 1), EventWork::WriteBlocks(_)));
    let unknown = VfsEvent::FileWritten { volume_id: 6, path: "/b".to_string(), offset: 0, data: vec![1], sync_required: false };
    assert!(matches!(h.process_event(&unknown, 1), EventWork::Done(Err(_))));
}

#[test]
fn an_unknown_platform_has_no_config_directory() {
    assert_eq!(ConfigManager::for_platform(Platform::Other).unwrap_err(), ConfigError::UnsupportedPlatform);
    assert_eq!(ConfigError::UnsupportedPlatform.message(), "Unsupported platform for config directory");
}

#[test]
fn the_storage_service_clones_snapshots_and_restores() {
    let engine = FileStorageEngine::new("/tmp/galleon".to_string(), 4096);
    let mut g = GalleonFS::new(engine, ReplicationStrategy::Synchronous, galleonfs::PersistenceLevel::Basic, vec![]);
    let v = g.new_volume(VolumeType::Persistent, 8192, "c".to_string());
    let id = v.id;
    g.create_volume(v, 1);
    g.expand_volume(id, 16384, 2);
    let copy = g.clone_volume(id, "copy", 3).unwrap();
    assert_ne!(copy, id);
    let s = g.begin_snapshot(id, "snap", 4).unwrap();
    let recorded = g.record_snapshot(s);
    assert!(recorded.ready_to_use);
    assert_eq!(recorded.size_bytes, 16384);
    assert_eq!(g.list_snapshots(id).len(), 1);
    assert!(g.restore_snapshot(false, copy, 5).is_err());
    assert!(g.restore_snapshot(true, copy, 5).is_ok());
}
