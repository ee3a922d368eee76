use galleonfs::cross_platform_vfs::{GalleonVFS, VFSEvent, VFSFileType, VfsError};
use galleonfs::vfs::replication::{
    create_initial_replication_config, determine_optimizations, ReplicationManager,
    VolumeAccessPatterns,
};
use galleonfs::vfs::{
    calculate_optimal_shard_count, determine_consistency_level, determine_placement_policy, file_event_block_write,
    new_vfs_volume, ConsistencyLevel, PlacementPolicy,
};

#[test]
fn a_new_namespace_has_only_its_root() {
    let mut fs = GalleonVFS::new(9);
    assert_eq!(fs.volume_id(), 9);
    let root = fs.getattr(1).unwrap();
    assert_eq!(root.kind, VFSFileType::Directory);
    assert_eq!((root.size, root.blocks, root.perm, root.nlink), (4096, 8, 0o755, 2));
    assert_eq!(fs.getattr(2).unwrap_err(), VfsError::InodeNotFound);
    assert!(fs.readdir(1).is_empty());
    assert_eq!(fs.get_next_ino(), 2);
    assert_eq!(fs.get_next_ino(), 3);
}

#[test]
fn created_files_are_found_and_unlinked() {
    let mut fs = GalleonVFS::new(1);
    let f = fs.create(1, "a.txt", 0o644).unwrap();
    assert_eq!(f.ino, 2);
    assert_eq!((f.size, f.perm, f.kind), (0, 0o644, VFSFileType::RegularFile));
    assert_eq!(fs.lookup(1, "a.txt").unwrap().ino, 2);
    assert_eq!(fs.lookup(1, "b.txt").unwrap_err(), VfsError::FileNotFound);
    let d = fs.mkdir(1, "docs", 0o755).unwrap();
    assert_eq!(d.ino, 3);
    let names: Vec<String> = fs.readdir(1).into_iter().map(|e| e.name).collect();
    assert_eq!(names, vec!["a.txt".to_string(), "docs".to_string()]);
    assert_eq!(fs.unlink(1, "a.txt"), Ok(()));
    assert_eq!(fs.lookup(1, "a.txt").unwrap_err(), VfsError::FileNotFound);
    assert_eq!(fs.getattr(2).unwrap_err(), VfsError::InodeNotFound);
    assert_eq!(fs.unlink(1, "a.txt"), Err(VfsError::FileNotFound));
    assert_eq!(fs.unlink(77, "x"), Err(VfsError::DirectoryNotFound));
    assert_eq!(fs.rmdir(1, "docs"), Ok(()));
    assert!(fs.readdir(1).is_empty());
    let events = fs.take_events();
    assert!(matches!(&events[0], VFSEvent::FileCreated { path, ino: 2 } if path == "a.txt"));
    assert!(matches!(&events[1], VFSEvent::DirectoryCreated { ino: 3, .. }));
    assert!(fs.take_events().is_empty());
}

#[test]
fn renamed_entries_move() {
    let mut fs = GalleonVFS::new(1);
    let d = fs.mkdir(1, "d", 0o755).unwrap();
    fs.create(1, "f", 0o644).unwrap();
    assert_eq!(fs.rename(1, "f", d.ino, "g"), Ok(()));
    assert_eq!(fs.lookup(d.ino, "g").unwrap().kind, VFSFileType::RegularFile);
    assert_eq!(fs.lookup(1, "f").unwrap_err(), VfsError::FileNotFound);
    assert_eq!(fs.rename(1, "nothing", d.ino, "x"), Err(VfsError::FileNotFound));
}

#[test]
fn writes_become_events_and_setattr_resizes() {
    let mut fs = GalleonVFS::new(1);
    let f = fs.create(1, "f", 0o644).unwrap();
    assert_eq!(fs.write(f.ino, 10, vec![1, 2, 3]), Ok(3));
    let events = fs.take_events();
    assert!(matches!(events.last(), Some(VFSEvent::FileModified { path, offset: 10, .. }) if path == "inode-2"));
    let a = fs.setattr(f.ino, Some(5000), None).unwrap();
    assert_eq!((a.size, a.blocks), (5000, 2));
    assert_eq!(fs.setattr(99, Some(1), None).unwrap_err(), VfsError::InodeNotFound);
}

#[test]
fn shard_counts_follow_size_and_cluster() {
    assert_eq!(calculate_optimal_shard_count(500_000_000, 10, 3), 1);
    assert_eq!(calculate_optimal_shard_count(50_000_000_000, 10, 3), 5);
    assert_eq!(calculate_optimal_shard_count(50_000_000_000, 10, 1), 4);
    assert_eq!(calculate_optimal_shard_count(500_000_000_000, 10, 4), 5);
    assert_eq!(calculate_optimal_shard_count(20_000_000_000_000, 10, 10), 20);
    assert_eq!(calculate_optimal_shard_count(1, 16_777_216 * 3, 2), 3);
}

#[test]
fn placement_and_consistency_by_class() {
    assert!(matches!(determine_placement_policy("fast-ssd", 1), PlacementPolicy::Spread));
    assert!(matches!(determine_placement_policy("encrypted", 1), PlacementPolicy::ZoneAware));
    assert!(matches!(determine_placement_policy("distributed", 2_000_000_000_000), PlacementPolicy::ZoneAware));
    assert!(matches!(determine_placement_policy("distributed", 1), PlacementPolicy::Balanced));
    assert!(matches!(determine_placement_policy("standard", 1), PlacementPolicy::Balanced));
    assert_eq!(determine_consistency_level("fast"), ConsistencyLevel::Eventual);
    assert_eq!(determine_consistency_level("secure"), ConsistencyLevel::Strong);
    assert_eq!(determine_consistency_level("replicated"), ConsistencyLevel::GlobalStrong);
    assert_eq!(determine_consistency_level("standard"), ConsistencyLevel::Strong);
}

#[test]
fn a_new_volume_of_the_volume_layer() {
    let v = new_vfs_volume("v".to_string(), 100_000, 3, "encrypted-dedup".to_string(), 2);
    assert_eq!(v.block_count, 2);
    assert_eq!(v.shard_count, 1);
    assert!(v.metadata.encryption_enabled);
    assert!(v.metadata.deduplication_enabled);
    assert!(!v.metadata.compression_enabled);
    assert_eq!(v.metadata.consistency_level, ConsistencyLevel::Strong);
    assert_eq!(file_event_block_write(70_000, 1, 100), (4464, 100));
    assert_eq!(file_event_block_write(65_536, 1, 70_000), (0, 65536));
}

#[test]
fn replication_follows_each_volumes_strategy() {
    let v = new_vfs_volume("v".to_string(), 1 << 20, 3, "fast".to_string(), 2);
    let c = create_initial_replication_config(&v);
    assert_eq!((c.base_replicas, c.hot_data_replicas, c.cold_data_replicas), (3, 4, 2));
    assert_eq!(c.cross_zone_config.min_zones, 2);
    let o = determine_optimizations(&v);
    assert!(o.async_replication && o.write_batching && !o.delta_compression);
    let mut m = ReplicationManager::new(42);
    assert!(!m.replicate_block(v.id, 0, 1, vec![1]));
    m.setup_volume_replication(&v);
    assert!(m.replicate_block(v.id, 2, 7, vec![9, 9]));
    let tasks = m.take_tasks();
    assert_eq!(tasks.len(), 1);
    assert_eq!((tasks[0].source_node, tasks[0].shard_id, tasks[0].block_id), (42, 2, 7));
    assert_eq!(tasks[0].priority, 2);
    assert!(m.take_tasks().is_empty());
    let mut hot = VolumeAccessPatterns::new();
    hot.hot_blocks.insert(5);
    m.optimize_volume_strategy(v.id, &hot);
    m.stop_volume_replication(v.id);
    assert!(!m.replicate_block(v.id, 0, 1, vec![]));
}

#[test]
fn copy_priorities_by_consistency() {
    let strong = new_vfs_volume("s".to_string(), 1, 2, "secure".to_string(), 1);
    let mut m = ReplicationManager::new(1);
    m.setup_volume_replication(&strong);
    m.replicate_block(strong.id, 0, 0, vec![]);
    assert_eq!(m.take_tasks()[0].priority, 1);
    let global = new_vfs_volume("g".to_string(), 1, 2, "replicated".to_string(), 1);
    m.setup_volume_replication(&global);
    m.replicate_block(global.id, 0, 0, vec![]);
    assert_eq!(m.take_tasks()[0].priority, 0);
}
