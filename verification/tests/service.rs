use galleonfs::service::{
    encode_frame, frame_length, DaemonAction, DaemonConfig, GalleonDaemon, IpcMessage, IpcResponse,
};
use galleonfs::{ReclaimPolicy, ReplicationStrategy, PersistenceLevel, StorageClass, VolumeBindingMode, VolumeState, VolumeType};

fn daemon() -> GalleonDaemon {
    GalleonDaemon::new(DaemonConfig::default())
}

fn reply(a: DaemonAction) -> IpcResponse {
    match a {
        DaemonAction::Reply(r) => r,
        other => panic!("expected a reply, got {:?}", other),
    }
}

fn error_text(a: DaemonAction) -> String {
    match reply(a) {
        IpcResponse::Error(e) => e,
        other => panic!("expected an error, got {:?}", other),
    }
}

fn create(d: &mut GalleonDaemon, size: u64) -> galleonfs::Volume {
    let a = d.process_ipc_message(
        IpcMessage::CreateVolume {
            volume_type: VolumeType::Persistent,
            size_bytes: size,
            storage_class: "default".to_string(),
            name: None,
        },
        0,
        "0.1.0",
    );
    let v = match a {
        DaemonAction::CreateVolumeFile(v) => v,
        other => panic!("expected a volume to create, got {:?}", other),
    };
    match d.finish_create_volume(v, Ok(()), 1000) {
        IpcResponse::Volume(v) => v,
        other => panic!("expected the volume, got {:?}", other),
    }
}

#[test]
fn default_daemon_config() {
    let c = DaemonConfig::default();
    assert_eq!(c.storage_path, "./galleonfs_storage");
    assert_eq!(c.block_size, 4096);
    assert_eq!(c.bind_address, "127.0.0.1:8080");
    assert_eq!(c.ipc_address, "127.0.0.1:8090");
    assert!(c.peer_addresses.is_empty());
    assert_eq!(c.replication_strategy, ReplicationStrategy::Synchronous);
    assert_eq!(c.persistence_level, PersistenceLevel::Enhanced);
    assert!(c.mount_point.is_none());
}

#[test]
fn created_volume_is_listed_and_found_by_name() {
    let mut d = daemon();
    let v = create(&mut d, 1 << 20);
    assert_eq!(v.state, VolumeState::Available);
    assert_eq!(v.updated_at, 1000);
    assert!(v.name.starts_with("vol-"));
    assert_eq!(v.name.len(), 4 + 36);
    match reply(d.process_ipc_message(IpcMessage::ListVolumes, 0, "x")) {
        IpcResponse::Volumes(vs) => {
            assert_eq!(vs.len(), 1);
            assert_eq!(vs[0].id, v.id);
        },
        other => panic!("{:?}", other),
    }
    match reply(d.process_ipc_message(IpcMessage::GetVolumeByName { name: v.name.clone() }, 0, "x")) {
        IpcResponse::Volume(found) => assert_eq!(found.id, v.id),
        other => panic!("{:?}", other),
    }
    match reply(d.process_ipc_message(IpcMessage::GetVolume { id: v.id }, 0, "x")) {
        IpcResponse::Volume(found) => assert_eq!(found.size_bytes, 1 << 20),
        other => panic!("{:?}", other),
    }
}

#[test]
fn failed_file_creation_records_nothing() {
    let mut d = daemon();
    let a = d.process_ipc_message(
        IpcMessage::CreateVolume { volume_type: VolumeType::Shared, size_bytes: 10, storage_class: "c".to_string(), name: None },
        0,
        "x",
    );
    let v = match a {
        DaemonAction::CreateVolumeFile(v) => v,
        other => panic!("{:?}", other),
    };
    assert_eq!(v.state, VolumeState::Provisioning);
    match d.finish_create_volume(v, Err("disk full".to_string()), 5) {
        IpcResponse::Error(e) => assert_eq!(e, "Failed to create volume: disk full"),
        other => panic!("{:?}", other),
    }
    match reply(d.process_ipc_message(IpcMessage::ListVolumes, 0, "x")) {
        IpcResponse::Volumes(vs) => assert!(vs.is_empty()),
        other => panic!("{:?}", other),
    }
}

#[test]
fn missing_volumes_are_reported() {
    let mut d = daemon();
    assert_eq!(error_text(d.process_ipc_message(IpcMessage::GetVolume { id: 7 }, 0, "x")), "Volume not found");
    assert_eq!(
        error_text(d.process_ipc_message(IpcMessage::GetVolumeByName { name: "data".to_string() }, 0, "x")),
        "Volume with name 'data' not found"
    );
    assert_eq!(
        error_text(d.process_ipc_message(IpcMessage::DeleteVolumeByName { name: "data".to_string() }, 0, "x")),
        "Volume with name 'data' not found"
    );
}

#[test]
fn delete_by_name_removes_the_file_then_the_record() {
    let mut d = daemon();
    let v = create(&mut d, 4096);
    match d.process_ipc_message(IpcMessage::DeleteVolumeByName { name: v.name.clone() }, 0, "x") {
        DaemonAction::RemoveVolumeFile(id) => assert_eq!(id, v.id),
        other => panic!("{:?}", other),
    }
    match d.finish_delete_volume(v.id, Err("busy".to_string())) {
        IpcResponse::Error(e) => assert_eq!(e, "Failed to delete volume: busy"),
        other => panic!("{:?}", other),
    }
    assert!(matches!(d.finish_delete_volume(v.id, Ok(())), IpcResponse::Success));
    assert_eq!(error_text(d.process_ipc_message(IpcMessage::GetVolume { id: v.id }, 0, "x")), "Volume not found");
}

#[test]
fn mounting_needs_a_mount_point() {
    let mut d = daemon();
    let off = "Mount manager is not enabled. Start daemon with --mount-point to enable volume mounting.";
    assert_eq!(
        error_text(d.process_ipc_message(IpcMessage::MountVolume { id: 1, path: "/mnt/a".to_string(), options: vec![] }, 0, "x")),
        off
    );
    assert_eq!(error_text(d.process_ipc_message(IpcMessage::UnmountVolume { target: "/mnt/a".to_string() }, 0, "x")), off);
}

#[test]
fn mount_and_unmount_go_through_the_daemon_mount_table() {
    let mut config = DaemonConfig::default();
    config.mount_point = Some("/mnt/galleon".to_string());
    let mut d = GalleonDaemon::new(config);
    let v = create(&mut d, 4096);
    let id_text = galleonfs::text::string_of(&galleonfs::text::uuid_chars(7));
    assert_eq!(
        error_text(d.process_ipc_message(IpcMessage::MountVolume { id: 7, path: "/mnt/a".to_string(), options: vec![] }, 0, "x")),
        format!("Failed to mount volume: Volume not found: {}", id_text)
    );
    match d.process_ipc_message(IpcMessage::MountVolume { id: v.id, path: "/mnt/a".to_string(), options: vec!["rw".to_string()] }, 0, "x") {
        DaemonAction::Mount { volume_id, path, options } => {
            assert_eq!(volume_id, v.id);
            assert_eq!(path, "/mnt/a");
            assert_eq!(options, vec!["rw".to_string()]);
        },
        other => panic!("{:?}", other),
    }
    let mount_id = match d.finish_mount(v.id, "/mnt/a".to_string(), vec!["rw".to_string()], Ok(())) {
        IpcResponse::MountInfo { mount_id, volume_id, mount_path } => {
            assert_eq!(volume_id, v.id);
            assert_eq!(mount_path, "/mnt/a");
            mount_id
        },
        other => panic!("{:?}", other),
    };
    match reply(d.process_ipc_message(IpcMessage::GetVolume { id: v.id }, 0, "x")) {
        IpcResponse::Volume(found) => assert_eq!(found.state, VolumeState::Mounted),
        other => panic!("{:?}", other),
    }
    assert_eq!(
        error_text(d.process_ipc_message(IpcMessage::UnmountVolume { target: id_text.clone() }, 0, "x")),
        format!("Failed to unmount volume: Mount not found: {}", id_text)
    );
    assert_eq!(
        error_text(d.process_ipc_message(IpcMessage::UnmountVolume { target: "/mnt/b".to_string() }, 0, "x")),
        "Failed to unmount volume: No mount at path: /mnt/b"
    );
    // unmount by id
    let target = galleonfs::text::string_of(&galleonfs::text::uuid_chars(mount_id));
    match d.process_ipc_message(IpcMessage::UnmountVolume { target }, 0, "x") {
        DaemonAction::Unmount { mount_id: m, path } => {
            assert_eq!(m, mount_id);
            assert_eq!(path, "/mnt/a");
        },
        other => panic!("{:?}", other),
    }
    assert!(matches!(d.finish_unmount(mount_id, Ok(())), IpcResponse::Success));
    match reply(d.process_ipc_message(IpcMessage::GetVolume { id: v.id }, 0, "x")) {
        IpcResponse::Volume(found) => assert_eq!(found.state, VolumeState::Available),
        other => panic!("{:?}", other),
    }
    // mount again, unmount by path
    assert!(matches!(
        d.process_ipc_message(IpcMessage::MountVolume { id: v.id, path: "/app/database".to_string(), options: vec![] }, 0, "x"),
        DaemonAction::Mount { .. }
    ));
    let second = match d.finish_mount(v.id, "/app/database".to_string(), vec![], Ok(())) {
        IpcResponse::MountInfo { mount_id, .. } => mount_id,
        other => panic!("{:?}", other),
    };
    match d.process_ipc_message(IpcMessage::UnmountVolume { target: "/app/database".to_string() }, 0, "x") {
        DaemonAction::Unmount { mount_id: m, .. } => assert_eq!(m, second),
        other => panic!("{:?}", other),
    }
    assert!(matches!(d.finish_unmount(second, Ok(())), IpcResponse::Success));
    assert_eq!(
        error_text(d.process_ipc_message(IpcMessage::UnmountVolume { target: "/app/database".to_string() }, 0, "x")),
        "Failed to unmount volume: No mount at path: /app/database"
    );
}

#[test]
fn a_created_volume_keeps_the_name_asked_for() {
    let mut d = daemon();
    let a = d.process_ipc_message(
        IpcMessage::CreateVolume {
            volume_type: VolumeType::Persistent,
            size_bytes: 1073741824,
            storage_class: "encrypted-storage".to_string(),
            name: Some("test-replicated-volume".to_string()),
        },
        0,
        "0.1.0",
    );
    match a {
        DaemonAction::CreateVolumeFile(v) => {
            assert_eq!(v.name, "test-replicated-volume");
            assert_eq!(v.size_bytes, 1073741824);
            assert_eq!(v.storage_class, "encrypted-storage");
        },
        other => panic!("{:?}", other),
    }
}

#[test]
fn cluster_and_daemon_requests() {
    let mut config = DaemonConfig::default();
    config.peer_addresses = vec!["10.0.0.2:8080".to_string(), "10.0.0.3:8080".to_string()];
    let mut d = GalleonDaemon::new(config);
    match reply(d.process_ipc_message(IpcMessage::ClusterStatus, 0, "x")) {
        IpcResponse::ClusterInfo { peers, cluster_size, .. } => {
            assert_eq!(peers.len(), 2);
            assert_eq!(cluster_size, 3);
        },
        other => panic!("{:?}", other),
    }
    assert_eq!(
        error_text(d.process_ipc_message(IpcMessage::JoinCluster { peer_address: "10.0.0.9:1".to_string() }, 0, "x")),
        "Dynamic cluster joining not yet implemented. Restart daemon with --peer-addresses 10.0.0.9:1"
    );
    assert_eq!(
        error_text(d.process_ipc_message(IpcMessage::LeaveCluster { force: true }, 0, "x")),
        "Cluster leave operation not yet implemented"
    );
    assert_eq!(
        error_text(d.process_ipc_message(IpcMessage::Restart, 0, "x")),
        "Daemon restart not yet implemented. Please stop and start manually."
    );
    assert!(matches!(d.process_ipc_message(IpcMessage::Shutdown, 0, "x"), DaemonAction::Exit));
    match reply(d.process_ipc_message(IpcMessage::Status, 42, "1.2.3")) {
        IpcResponse::DaemonStatus { uptime, version, storage_path, bind_address } => {
            assert_eq!(uptime, 42);
            assert_eq!(version, "1.2.3");
            assert_eq!(storage_path, "./galleonfs_storage");
            assert_eq!(bind_address, "127.0.0.1:8080");
        },
        other => panic!("{:?}", other),
    }
    match reply(d.process_ipc_message(IpcMessage::GetConfig, 0, "x")) {
        IpcResponse::Config(c) => assert_eq!(c.peer_addresses.len(), 2),
        other => panic!("{:?}", other),
    }
    assert_eq!(
        error_text(d.process_ipc_message(IpcMessage::CreateStorageClassFromFile { config_file: "/etc/c.json".to_string() }, 0, "x")),
        "Storage class creation from file not yet implemented: \"/etc/c.json\""
    );
}

#[test]
fn replication_peers_are_kept_without_duplicates() {
    let mut d = daemon();
    let add = |d: &mut GalleonDaemon, p: &str| d.process_ipc_message(IpcMessage::AddReplicationPeer { peer_address: p.to_string() }, 0, "x");
    assert!(matches!(reply(add(&mut d, "a:1")), IpcResponse::Success));
    assert!(matches!(reply(add(&mut d, "b:2")), IpcResponse::Success));
    assert!(matches!(reply(add(&mut d, "a:1")), IpcResponse::Success));
    match reply(d.process_ipc_message(IpcMessage::ListReplicationPeers, 0, "x")) {
        IpcResponse::ReplicationPeers(p) => assert_eq!(p, vec!["a:1".to_string(), "b:2".to_string()]),
        other => panic!("{:?}", other),
    }
    d.process_ipc_message(IpcMessage::RemoveReplicationPeer { peer_address: "a:1".to_string() }, 0, "x");
    match reply(d.process_ipc_message(IpcMessage::ListReplicationPeers, 0, "x")) {
        IpcResponse::ReplicationPeers(p) => assert_eq!(p, vec!["b:2".to_string()]),
        other => panic!("{:?}", other),
    }
    d.process_ipc_message(IpcMessage::UpdateReplicationPeers { peer_addresses: vec!["c:3".to_string()] }, 0, "x");
    match reply(d.process_ipc_message(IpcMessage::ListReplicationPeers, 0, "x")) {
        IpcResponse::ReplicationPeers(p) => assert_eq!(p, vec!["c:3".to_string()]),
        other => panic!("{:?}", other),
    }
}

#[test]
fn default_storage_classes_are_set_up() {
    let mut d = daemon();
    d.setup_default_storage_classes();
    let classes = match reply(d.process_ipc_message(IpcMessage::ListStorageClasses, 0, "x")) {
        IpcResponse::StorageClasses(c) => c,
        other => panic!("{:?}", other),
    };
    assert_eq!(classes.len(), 2);
    let fast = classes.iter().find(|c| c.name == "fast-local-ssd").unwrap();
    assert_eq!(fast.provisioner, "galleonfs.io/local-ssd");
    assert_eq!(fast.reclaim_policy, ReclaimPolicy::Delete);
    assert_eq!(fast.volume_binding_mode, VolumeBindingMode::Immediate);
    let enc = classes.iter().find(|c| c.name == "encrypted-storage").unwrap();
    assert_eq!(enc.provisioner, "galleonfs.io/distributed");
    assert!(enc.parameters.contains(&("replication".to_string(), "3".to_string())));
    assert_eq!(enc.allowed_topologies.len(), 3);
}

#[test]
fn creating_a_class_twice_replaces_it() {
    let mut d = daemon();
    let class = |p: &str| StorageClass {
        name: "gold".to_string(),
        provisioner: p.to_string(),
        parameters: vec![],
        reclaim_policy: ReclaimPolicy::Retain,
        volume_binding_mode: VolumeBindingMode::Immediate,
        allowed_topologies: vec![],
        mount_options: vec![],
    };
    d.process_ipc_message(IpcMessage::CreateStorageClass { storage_class: class("one") }, 0, "x");
    d.process_ipc_message(IpcMessage::CreateStorageClass { storage_class: class("two") }, 0, "x");
    match reply(d.process_ipc_message(IpcMessage::ListStorageClasses, 0, "x")) {
        IpcResponse::StorageClasses(c) => {
            assert_eq!(c.len(), 1);
            assert_eq!(c[0].provisioner, "two");
        },
        other => panic!("{:?}", other),
    }
}

#[test]
fn frames_carry_their_length() {
    let f = encode_frame(&[1, 2, 3]);
    assert_eq!(f, vec![3, 0, 0, 0, 1, 2, 3]);
    assert_eq!(frame_length(&f), 3);
    let big = vec![7u8; 300];
    let f = encode_frame(&big);
    assert_eq!(&f[..4], &[44, 1, 0, 0]);
    assert_eq!(frame_length(&f), 300);
}

#[test]
fn new_volumes_are_auto_mounted_once() {
    let mut d = daemon();
    let a = create(&mut d, 4096);
    let b = create(&mut d, 4096);
    let plan = d.volumes_to_auto_mount("/mnt/base", &vec![a.id]);
    assert_eq!(plan.len(), 1);
    assert_eq!(plan[0].0, b.id);
    assert_eq!(plan[0].1, format!("/mnt/base/{}", b.name));
}
