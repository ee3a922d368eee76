use galleonfs::storage::{FileStorageEngine, StorageError};
use galleonfs::{JournalEntry, SnapshotState, Volume, VolumeState, VolumeType};

fn engine_with_volume(size: u64) -> (FileStorageEngine, u128) {
    let mut e = FileStorageEngine::new("/var/galleon".to_string(), 4096);
    let v = Volume::new("v".to_string(), VolumeType::Persistent, size, "fast".to_string());
    let id = v.id;
    e.create_volume(v, 1);
    (e, id)
}

fn label<'a>(v: &'a Volume, key: &str) -> Option<&'a str> {
    v.labels.iter().find(|(k, _)| k == key).map(|(_, x)| x.as_str())
}

#[test]
fn files_of_volumes_and_snapshots() {
    let e = FileStorageEngine::new("/var/galleon".to_string(), 4096);
    assert_eq!(e.get_volume_path(0x10), "/var/galleon/00000000-0000-0000-0000-000000000010.vol");
    assert_eq!(e.get_snapshot_path(0x20), "/var/galleon/snapshots/00000000-0000-0000-0000-000000000020.snap");
    assert_eq!(e.block_offset(3), 12288);
}

#[test]
fn a_created_volume_is_available() {
    let (e, id) = engine_with_volume(100);
    let v = e.get_volume(id).unwrap();
    assert_eq!(v.state, VolumeState::Available);
    assert_eq!(v.updated_at, 1);
    assert_eq!(e.list_volumes().len(), 1);
}

#[test]
fn volumes_grow_and_refuse_to_shrink_to_a_larger_size() {
    let (mut e, id) = engine_with_volume(100);
    e.expand_volume(id, 500, 2);
    assert_eq!(e.get_volume(id).unwrap().size_bytes, 500);
    assert_eq!(e.check_shrink(id, 500), Err(StorageError::NotSmaller));
    assert_eq!(e.check_shrink(id, 200), Ok(()));
    assert_eq!(e.check_shrink(id ^ 1, 200), Err(StorageError::VolumeNotFound));
}

#[test]
fn attaching_and_detaching_nodes() {
    let (mut e, id) = engine_with_volume(100);
    e.attach_volume(id, &"node-a".to_string(), 2);
    e.attach_volume(id, &"node-a".to_string(), 3);
    e.attach_volume(id, &"node-b".to_string(), 4);
    assert_eq!(e.get_volume(id).unwrap().attached_nodes, vec!["node-a".to_string(), "node-b".to_string()]);
    e.detach_volume(id, &"node-a".to_string(), 5);
    assert_eq!(e.get_volume(id).unwrap().attached_nodes, vec!["node-b".to_string()]);
}

#[test]
fn mounting_labels_and_encryption() {
    let (mut e, id) = engine_with_volume(100);
    e.mount_volume(id, "/mnt/v".to_string(), 2);
    let v = e.get_volume(id).unwrap();
    assert_eq!(v.state, VolumeState::Mounted);
    assert_eq!(v.mount_path, Some("/mnt/v".to_string()));
    e.unmount_volume(id, 3);
    assert_eq!(e.get_volume(id).unwrap().state, VolumeState::Available);
    assert_eq!(e.get_volume(id).unwrap().mount_path, None);
    e.set_volume_label(id, &"tier".to_string(), &"gold".to_string(), 4);
    assert_eq!(label(e.get_volume(id).unwrap(), "tier"), Some("gold"));
    e.remove_volume_label(id, &"tier".to_string(), 5);
    assert_eq!(label(e.get_volume(id).unwrap(), "tier"), None);
    e.encrypt_volume(id, 6);
    assert_eq!(label(e.get_volume(id).unwrap(), "encrypted"), Some("true"));
    e.rotate_encryption_key(id, 7, 1700000000);
    assert_eq!(label(e.get_volume(id).unwrap(), "key_rotation"), Some("1700000000"));
    e.decrypt_volume(id, 8);
    assert_eq!(label(e.get_volume(id).unwrap(), "encrypted"), None);
    e.transform_volume(id, &"archive".to_string(), 9);
    assert_eq!(e.get_volume(id).unwrap().storage_class, "archive");
}

#[test]
fn snapshots_clone_and_restore() {
    let (mut e, id) = engine_with_volume(4096);
    assert_eq!(e.begin_snapshot(id ^ 1, "s", 2).unwrap_err(), StorageError::VolumeNotFound);
    let s = e.begin_snapshot(id, "nightly", 2).unwrap();
    assert_eq!(s.name, "nightly");
    assert_eq!(s.size_bytes, 4096);
    let sid = s.id;
    let rec = e.create_snapshot(s);
    assert_eq!(rec.state, SnapshotState::Ready);
    assert_eq!(e.list_snapshots(id).len(), 1);
    assert_eq!(e.list_snapshots(id ^ 1).len(), 0);
    e.delete_snapshot(sid);
    assert!(e.list_snapshots(id).is_empty());
    let copy = e.clone_volume(id, "copy", 3).unwrap();
    let c = e.get_volume(copy).unwrap();
    assert_eq!((c.name.as_str(), c.size_bytes, c.state), ("copy", 4096, VolumeState::Available));
    assert_eq!(e.clone_volume(copy ^ id ^ 7, "x", 3).err(), Some(StorageError::VolumeNotFound));
    assert_eq!(e.restore_snapshot(false, id, 4), Err(StorageError::SnapshotNotFound));
    e.update_volume_state(id, VolumeState::Failed, 4);
    assert_eq!(e.restore_snapshot(true, id, 5), Ok(()));
    assert_eq!(e.get_volume(id).unwrap().state, VolumeState::Available);
    e.delete_volume(id);
    assert!(e.get_volume(id).is_none());
}

#[test]
fn committing_a_journal_entry() {
    let (mut e, id) = engine_with_volume(100);
    let entry = JournalEntry::new(id, "WRITE:x:1".to_string(), vec![1]);
    let eid = entry.id;
    e.write_journal_entry(entry);
    let c = e.commit_journal_entry(eid, 1234).unwrap();
    assert_eq!(c.volume_id, id);
    assert!(c.committed);
    assert_eq!(c.timestamp, 1234);
    assert!(c.data.is_empty());
    assert!(c.operation.starts_with("COMMIT:"));
    assert_eq!(c.operation.len(), 7 + 36);
    assert!(e.commit_journal_entry(eid ^ 1, 1).is_none());
}
