use galleonfs::fuse_fs::{FuseFileKind, GalleonFuseFS, EISDIR, ENOENT, ENOTDIR};
use galleonfs::migration::{num_blocks, MigrationManager};
use galleonfs::storage::FileStorageEngine;
use galleonfs::vfs_service::{root_inode, BlockAllocator, VFSFileType, ROOT_DIRECTORY_BLOCK};
use galleonfs::{MigrationState, MigrationStrategy, MigrationTarget, Volume, VolumeState, VolumeType};

fn target(class: &str) -> MigrationTarget {
    MigrationTarget { storage_class: class.to_string(), node: None, zone: Some("z1".to_string()), region: None }
}

#[test]
fn a_new_migration_is_pending() {
    let mut m = MigrationManager::new();
    let mig = m.create_migration(5, target("fast"), MigrationStrategy::Online);
    assert_eq!(mig.state, MigrationState::Pending);
    assert_eq!(mig.progress_percent, 0);
    assert!(mig.name.starts_with("migration-"));
    assert_eq!(mig.name.len(), "migration-".len() + 36);
    let got = m.get_migration(mig.id).unwrap();
    assert_eq!(got.source_volume_id, 5);
    assert_eq!(got.target_spec.zone, Some("z1".to_string()));
    assert!(m.get_migration(mig.id ^ 1).is_none());
}

#[test]
fn an_online_migration_goes_through_its_states() {
    let mut engine = FileStorageEngine::new("/tmp/galleon".to_string(), 4096);
    let src = Volume::new("db".to_string(), VolumeType::Persistent, 10000, "slow".to_string());
    let sid = src.id;
    engine.create_volume(src, 1);
    let mut m = MigrationManager::new();
    let id = m.create_migration(sid, target("fast"), MigrationStrategy::Online).id;
    m.start_migration(id);
    assert_eq!(m.get_migration(id).unwrap().state, MigrationState::Copying);
    let t = m.target_volume(&engine, id).unwrap();
    assert_eq!(t.name, "db-migrated");
    assert_eq!(t.storage_class, "fast");
    assert_eq!(t.size_bytes, 10000);
    assert_eq!(t.state, VolumeState::Provisioning);
    m.target_created(id);
    assert_eq!(m.get_migration(id).unwrap().progress_percent, 10);
    let n = num_blocks(10000);
    assert_eq!(n, 3);
    m.block_copied(id, MigrationStrategy::Online, 0, n);
    assert_eq!(m.get_migration(id).unwrap().progress_percent, 26);
    m.block_copied(id, MigrationStrategy::Online, 2, n);
    let g = m.get_migration(id).unwrap();
    assert_eq!((g.progress_percent, g.state), (80, MigrationState::Syncing));
    m.ready_for_cutover(id);
    assert_eq!(m.get_migration(id).unwrap().progress_percent, 90);
    m.cancel_migration(id);
    assert_eq!(m.get_migration(id).unwrap().state, MigrationState::ReadyForCutover);
    m.approve_cutover(id);
    assert_eq!(m.get_migration(id).unwrap().state, MigrationState::CuttingOver);
    m.cutting_over(id);
    assert_eq!(m.get_migration(id).unwrap().progress_percent, 95);
    m.complete_migration(id);
    let g = m.get_migration(id).unwrap();
    assert_eq!((g.progress_percent, g.state), (100, MigrationState::Completed));
}

#[test]
fn a_cancelled_migration_never_cuts_over() {
    let mut m = MigrationManager::new();
    let id = m.create_migration(1, target("fast"), MigrationStrategy::Offline).id;
    m.cancel_migration(id);
    assert_eq!(m.get_migration(id).unwrap().state, MigrationState::Failed);
    m.approve_cutover(id);
    assert_eq!(m.get_migration(id).unwrap().state, MigrationState::Failed);
    let engine = FileStorageEngine::new("/tmp/galleon".to_string(), 4096);
    assert_eq!(m.target_volume(&engine, id).unwrap_err(), "Source volume not found");
    assert_eq!(m.target_volume(&engine, id ^ 1).unwrap_err(), "Migration not found");
    m.fail_migration(id);
    assert_eq!(num_blocks(0), 0);
    assert_eq!(num_blocks(4096), 1);
}

#[test]
fn the_root_inode() {
    let r = root_inode(123);
    assert_eq!(r.ino, 1);
    assert_eq!(r.file_type, VFSFileType::Directory);
    assert_eq!(r.mode, 0o755);
    assert_eq!(r.blocks, vec![ROOT_DIRECTORY_BLOCK]);
    assert_eq!(r.link_count, 2);
    assert_eq!(r.created_at, 123);
}

#[test]
fn blocks_are_allocated_first_free_first() {
    let mut a = BlockAllocator::new(8);
    assert_eq!(a.allocate_blocks(2), Ok(vec![3, 4]));
    assert_eq!(a.allocate_blocks(2), Ok(vec![5, 6]));
    a.free_blocks(&vec![4]);
    assert_eq!(a.allocate_blocks(2), Ok(vec![4, 7]));
    assert_eq!(a.allocate_blocks(1), Err("Insufficient free blocks".to_string()));
}

#[test]
fn the_fuse_tree_lists_volumes() {
    let mut fs = GalleonFuseFS::new(1000, 1000, 5);
    let root = fs.getattr(1).unwrap();
    assert_eq!(root.kind, FuseFileKind::Directory);
    assert_eq!(root.uid, 1000);
    let listing = fs.readdir(1, 0).unwrap();
    let names: Vec<&str> = listing.iter().map(|e| e.3.as_str()).collect();
    assert_eq!(names, vec![".", "..", "volumes"]);
    assert_eq!(listing[2].0, 2);
    assert_eq!(listing[2].1, 3);
    assert_eq!(fs.readdir(1, 2).unwrap().len(), 1);
    let v = Volume::new("data".to_string(), VolumeType::Persistent, 8192, "c".to_string());
    let vid = v.id;
    fs.sync_volumes(&vec![v], 6);
    let f = fs.getattr(3).unwrap();
    assert_eq!(f.name, "data.vol");
    assert_eq!(f.size, 8192);
    assert_eq!(f.kind, FuseFileKind::RegularFile);
    assert_eq!(fs.volume_of(3), Ok(vid));
    assert_eq!(fs.volume_of(2), Err(EISDIR));
    assert_eq!(fs.volume_of(9), Err(ENOENT));
    assert_eq!(fs.readdir(3, 0).unwrap_err(), ENOTDIR);
    let in_volumes = fs.readdir(2, 0).unwrap();
    assert_eq!(in_volumes.len(), 3);
    assert_eq!(in_volumes[2].3, "data.vol");
    assert_eq!(fs.find_by_name(2, "data.vol").unwrap().ino, 3);
    assert!(fs.find_by_name(2, "other.vol").is_none());
    assert_eq!(fs.find_by_name(1, "volumes").unwrap().ino, 2);
}

#[test]
fn writes_and_truncation_change_the_size() {
    let mut fs = GalleonFuseFS::new(0, 0, 1);
    let v = Volume::new("d".to_string(), VolumeType::Persistent, 100, "c".to_string());
    fs.sync_volumes(&vec![v], 1);
    fs.record_write(3, 50, 10, 2);
    assert_eq!(fs.getattr(3).unwrap().size, 100);
    fs.record_write(3, 4090, 10, 3);
    let f = fs.getattr(3).unwrap();
    assert_eq!((f.size, f.blocks, f.mtime), (4100, 2, 3));
    let after = fs.setattr(3, Some(10), 4).unwrap();
    assert_eq!((after.size, after.blocks), (10, 1));
    assert!(fs.setattr(77, Some(1), 5).is_none());
}
