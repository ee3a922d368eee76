use galleonfs::cluster::{get_default_node_capabilities, pick_ranked, ClusterError, ClusterManager, NodeRole, NodeStatus};
use galleonfs::storage::FileStorageEngine;
use galleonfs::volume_mount::{
    can_support_multiple_mounts, is_volume_replicated, mount_error_text, replica_count_above_one, GalleonVolumeFile,
    MountError, MountState, SeekFrom, VolumeMountManager,
};
use galleonfs::{
    AccessMode, ReclaimPolicy, StorageClass, Volume, VolumeBindingMode, VolumeState, VolumeType,
};

fn manager() -> ClusterManager {
    ClusterManager::new("10.0.0.1:8080".to_string(), get_default_node_capabilities(Some(8)))
}

fn class(name: &str, provisioner: &str, params: &[(&str, &str)]) -> StorageClass {
    StorageClass {
        name: name.to_string(),
        provisioner: provisioner.to_string(),
        parameters: params.iter().map(|(k, v)| (k.to_string(), v.to_string())).collect(),
        reclaim_policy: ReclaimPolicy::Delete,
        volume_binding_mode: VolumeBindingMode::Immediate,
        allowed_topologies: vec![],
        mount_options: vec![],
    }
}

fn uuid_text(id: u128) -> String {
    let h = format!("{:032x}", id);
    format!("{}-{}-{}-{}-{}", &h[0..8], &h[8..12], &h[12..16], &h[16..20], &h[20..32])
}

#[test]
fn default_node_capabilities() {
    let c = get_default_node_capabilities(None);
    assert_eq!(c.cpu_cores, 4);
    assert_eq!(c.available_storage, 10_737_418_240);
    assert_eq!(c.total_storage, 107_374_182_400);
    assert_eq!(c.supported_storage_classes, vec!["fast-local-ssd".to_string(), "encrypted-storage".to_string()]);
    assert_eq!(get_default_node_capabilities(Some(16)).cpu_cores, 16);
}

#[test]
fn a_node_outside_a_cluster_cannot_leave_or_place() {
    let mut m = manager();
    assert!(m.get_cluster_status().is_none());
    assert_eq!(m.leave_cluster(false), Err(ClusterError::NotInCluster));
    assert_eq!(ClusterError::NotInCluster.message(), "Node is not part of any cluster");
    assert_eq!(m.find_volume_placement(1, "fast-local-ssd", 10), Err(ClusterError::NotInCluster));
}

#[test]
fn initializing_makes_this_node_the_leader() {
    let mut m = manager();
    m.initialize_cluster("prod".to_string()).unwrap();
    let local = m.get_local_node().id;
    let st = m.get_cluster_status().unwrap();
    assert_eq!(st.name, "prod");
    assert_eq!(st.nodes.len(), 1);
    assert_eq!(st.nodes[0].id, local);
    assert_eq!(st.leader, Some(local));
    assert_eq!(st.nodes[0].role, NodeRole::Manager);
    assert_eq!(st.nodes[0].status, NodeStatus::Active);
}

#[test]
fn placement_needs_enough_suitable_nodes() {
    let mut m = manager();
    m.initialize_cluster("prod".to_string()).unwrap();
    let local = m.get_local_node().id;
    assert_eq!(m.find_volume_placement(1, "fast-local-ssd", 1024), Ok(vec![local]));
    let err = m.find_volume_placement(3, "fast-local-ssd", 1024).unwrap_err();
    assert_eq!(err, ClusterError::InsufficientNodes { replication_factor: 3, available: 1 });
    assert_eq!(err.message(), "Insufficient nodes available for replication factor 3. Need 3, have 1");
    assert_eq!(
        m.find_volume_placement(1, "archive", 1024),
        Err(ClusterError::InsufficientNodes { replication_factor: 1, available: 0 })
    );
}

#[test]
fn the_last_node_leaving_ends_the_cluster() {
    let mut m = manager();
    m.initialize_cluster("prod".to_string()).unwrap();
    assert_eq!(m.leave_cluster(false), Ok(()));
    assert!(m.get_cluster_status().is_none());
}

#[test]
fn joining_a_peer_adds_it() {
    let mut m = manager();
    m.join_cluster("10.0.0.2:8080".to_string()).unwrap();
    let st = m.get_cluster_status().unwrap();
    assert!(st.name.starts_with("cluster-"));
    assert_eq!(st.name.len(), "cluster-".len() + 8);
    assert_eq!(st.nodes.len(), 2);
    assert_eq!(st.nodes[1].address, "10.0.0.2:8080");
    assert_eq!(st.leader, Some(m.get_local_node().id));
    m.leave_cluster(false).unwrap();
    let st = m.get_cluster_status().unwrap();
    assert_eq!(st.nodes.len(), 1);
    assert_eq!(st.nodes[0].address, "10.0.0.2:8080");
}

#[test]
fn ranking_picks_the_largest_or_smallest() {
    let c = vec![(1u128, 5u64), (2, 9), (3, 7), (4, 1)];
    assert_eq!(pick_ranked(c.clone(), 2, true), vec![(2, 9), (3, 7)]);
    assert_eq!(pick_ranked(c, 2, false), vec![(4, 1), (1, 5)]);
}

#[test]
fn mount_error_messages() {
    let modes = vec![AccessMode::ReadWriteOnce];
    assert_eq!(
        mount_error_text(&MountError::PathAlreadyMounted, "/mnt/a", VolumeType::Persistent, &modes),
        "Path already mounted: /mnt/a"
    );
    assert_eq!(
        mount_error_text(&MountError::NotAvailable(1, VolumeState::Mounted), "/x", VolumeType::Persistent, &modes),
        format!("Volume {} is not available for mounting (state: Mounted)", uuid_text(1))
    );
    assert_eq!(
        mount_error_text(&MountError::NoMultipleMounts(2), "/x", VolumeType::Persistent, &modes),
        format!(
            "Volume {} does not support multiple concurrent mounts (type: Persistent, access_modes: [ReadWriteOnce])",
            uuid_text(2)
        )
    );
    assert_eq!(mount_error_text(&MountError::NoMountAtPath, "/y", VolumeType::Shared, &modes), "No mount at path: /y");
}

#[test]
fn replication_is_read_from_the_class() {
    let v = Volume::new("v".to_string(), VolumeType::Persistent, 1, "plain".to_string());
    assert!(!is_volume_replicated(&v, None));
    assert!(is_volume_replicated(&v, Some(&class("c", "local", &[("replication", "3")]))));
    assert!(!is_volume_replicated(&v, Some(&class("c", "galleon.io/distributed", &[("replication", "1")]))));
    assert!(is_volume_replicated(&v, Some(&class("c", "galleon.io/distributed", &[("replication", "x")]))));
    let e = Volume::new("v".to_string(), VolumeType::Persistent, 1, "encrypted-storage".to_string());
    assert!(is_volume_replicated(&e, None));
    assert_eq!(replica_count_above_one("2"), Some(true));
    assert_eq!(replica_count_above_one("-5"), Some(false));
    assert_eq!(replica_count_above_one("two"), None);
}

#[test]
fn multiple_mounts_need_a_shareable_volume() {
    let mut v = Volume::new("v".to_string(), VolumeType::Persistent, 1, "plain".to_string());
    assert!(!can_support_multiple_mounts(&v, &vec![], None));
    assert!(can_support_multiple_mounts(&v, &vec!["ro".to_string()], None));
    v.access_modes = vec![AccessMode::ReadWriteMany];
    assert!(can_support_multiple_mounts(&v, &vec![], None));
    let s = Volume::new("s".to_string(), VolumeType::Shared, 1, "plain".to_string());
    assert!(can_support_multiple_mounts(&s, &vec![], None));
}

#[test]
fn mounting_and_unmounting_a_volume() {
    let mut engine = FileStorageEngine::new("/tmp/galleon".to_string(), 4096);
    let v = Volume::new("v".to_string(), VolumeType::Persistent, 1 << 20, "plain".to_string());
    let id = v.id;
    engine.create_volume(v, 10);
    let mut mounts = VolumeMountManager::new();
    assert_eq!(
        mounts.mount_volume(&mut engine, 7, None, "/mnt/x".to_string(), vec![]),
        Err(MountError::VolumeNotFound(7))
    );
    let mount_id = mounts.mount_volume(&mut engine, id, None, "/mnt/a".to_string(), vec![]).unwrap();
    assert_eq!(engine.get_volume(id).unwrap().state, VolumeState::Mounted);
    let m = mounts.get_mount_by_path("/mnt/a").unwrap();
    assert_eq!(m.state, MountState::Mounted);
    assert_eq!(m.mount_count, 1);
    assert_eq!(mounts.get_volume_mounts(id).len(), 1);
    assert_eq!(
        mounts.mount_volume(&mut engine, id, None, "/mnt/b".to_string(), vec![]),
        Err(MountError::NoMultipleMounts(id))
    );
    assert_eq!(mounts.unmount_path(&mut engine, "/mnt/none"), Err(MountError::NoMountAtPath));
    assert_eq!(mounts.unmount_volume(&mut engine, mount_id), Ok(()));
    assert_eq!(engine.get_volume(id).unwrap().state, VolumeState::Available);
    assert!(mounts.list_mounts().is_empty());
    assert_eq!(mounts.unmount_volume(&mut engine, mount_id), Err(MountError::MountNotFound(mount_id)));
}

#[test]
fn a_volume_file_seeks_within_the_volume() {
    let mut f = GalleonVolumeFile::new(3, 1000);
    assert_eq!(f.seek(SeekFrom::Start(100)), 100);
    assert_eq!(f.seek(SeekFrom::Current(50)), 150);
    assert_eq!(f.seek(SeekFrom::Current(-500)), 0);
    assert_eq!(f.seek(SeekFrom::End(-10)), 990);
    assert_eq!(f.seek(SeekFrom::End(10)), 1000);
    assert_eq!(f.seek(SeekFrom::Start(5000)), 1000);
    assert_eq!(f.position(), 1000);
    assert_eq!(f.volume_size(), 1000);
    assert_eq!(f.volume_id(), 3);
}

#[test]
fn a_shared_volume_is_mounted_twice() {
    let mut engine = FileStorageEngine::new("/tmp/galleon".to_string(), 4096);
    let v = Volume::new("s".to_string(), VolumeType::Shared, 1 << 20, "plain".to_string());
    let id = v.id;
    engine.create_volume(v, 10);
    let mut mounts = VolumeMountManager::new();
    let m1 = mounts.mount_volume(&mut engine, id, None, "/app/primary".to_string(), vec!["rw".to_string()]).unwrap();
    let m2 = mounts.mount_volume(&mut engine, id, None, "/app/readonly".to_string(), vec!["ro".to_string()]).unwrap();
    assert_ne!(m1, m2);
    let all = mounts.get_volume_mounts(id);
    assert_eq!(all.len(), 2);
    assert!(all.iter().all(|m| m.state == MountState::Mounted));
    assert_eq!(
        mounts.mount_volume(&mut engine, id, None, "/app/primary".to_string(), vec![]),
        Err(MountError::PathAlreadyMounted)
    );
    assert_eq!(mounts.unmount_volume(&mut engine, m1), Ok(()));
    assert_eq!(engine.get_volume(id).unwrap().state, VolumeState::Mounted);
    assert_eq!(mounts.unmount_volume(&mut engine, m2), Ok(()));
    assert_eq!(engine.get_volume(id).unwrap().state, VolumeState::Available);
}
