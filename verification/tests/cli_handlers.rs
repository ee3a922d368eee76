use galleonfs::cli::handlers::{time_debug_string, CommandStep};
use galleonfs::cli::{ClusterCommands, CliVolumeType, DaemonCommands, GalleonClient, StorageClassCommands, VolumeCommands};
use galleonfs::service::{DaemonConfig, IpcMessage, IpcResponse};
use galleonfs::{ReclaimPolicy, StorageClass, Volume, VolumeBindingMode, VolumeState, VolumeType};

fn sample_volume() -> Volume {
    let mut v = Volume::new("data".to_string(), VolumeType::Persistent, 1_073_741_824, "fast".to_string());
    v.id = 0x0123456789abcdef0123456789abcdef;
    v.state = VolumeState::Available;
    v.created_at = 1_700_000_000_123;
    v.updated_at = -1;
    v
}

#[test]
fn create_parses_the_size_and_notes_replicas() {
    let action = VolumeCommands::Create {
        name: Some("db".to_string()),
        volume_type: CliVolumeType::Shared,
        size: "2G".to_string(),
        storage_class: "encrypted-storage".to_string(),
        replicas: Some(3),
    };
    match GalleonClient::volume_command_start(&action) {
        CommandStep::Send { notes, message } => {
            assert_eq!(notes, vec!["Note: --replicas parameter will override storage class replication settings".to_string()]);
            match message {
                IpcMessage::CreateVolume { volume_type, size_bytes, storage_class, name } => {
                    assert_eq!(volume_type, VolumeType::Shared);
                    assert_eq!(size_bytes, 2 * 1_073_741_824);
                    assert_eq!(storage_class, "encrypted-storage");
                    assert_eq!(name, Some("db".to_string()));
                },
                other => panic!("{:?}", other),
            }
        },
        other => panic!("{:?}", other),
    }
}

#[test]
fn a_bad_size_fails_the_command() {
    let bad = |size: &str| VolumeCommands::Create {
        name: None,
        volume_type: CliVolumeType::Persistent,
        size: size.to_string(),
        storage_class: "c".to_string(),
        replicas: None,
    };
    match GalleonClient::volume_command_start(&bad("12X")) {
        CommandStep::Failed(e) => assert_eq!(e, "invalid digit found in string"),
        other => panic!("{:?}", other),
    }
    match GalleonClient::volume_command_start(&bad("G")) {
        CommandStep::Failed(e) => assert_eq!(e, "cannot parse integer from empty string"),
        other => panic!("{:?}", other),
    }
}

#[test]
fn get_looks_up_by_id_or_name() {
    let id = "01234567-89ab-cdef-0123-456789abcdef".to_string();
    match GalleonClient::volume_command_start(&VolumeCommands::Get { id: id.clone() }) {
        CommandStep::Send { message: IpcMessage::GetVolume { id }, .. } => assert_eq!(id, 0x0123456789abcdef0123456789abcdef),
        other => panic!("{:?}", other),
    }
    match GalleonClient::volume_command_start(&VolumeCommands::Get { id: "data".to_string() }) {
        CommandStep::Send { message: IpcMessage::GetVolumeByName { name }, .. } => assert_eq!(name, "data"),
        other => panic!("{:?}", other),
    }
}

#[test]
fn delete_asks_for_confirmation() {
    let action = VolumeCommands::Delete { id: "data".to_string(), force: false };
    match GalleonClient::volume_command_start(&action) {
        CommandStep::Confirm { prompt } => assert_eq!(prompt, "Are you sure you want to delete volume 'data'? [y/N]"),
        other => panic!("{:?}", other),
    }
    let id = "data".to_string();
    match GalleonClient::delete_after_confirmation(&id, "  Yes\n") {
        CommandStep::Send { message: IpcMessage::DeleteVolumeByName { name }, .. } => assert_eq!(name, "data"),
        other => panic!("{:?}", other),
    }
    match GalleonClient::delete_after_confirmation(&id, "n\n") {
        CommandStep::Done(lines) => assert_eq!(lines, vec!["Volume deletion cancelled.".to_string()]),
        other => panic!("{:?}", other),
    }
    match GalleonClient::volume_command_start(&VolumeCommands::Delete { id: "data".to_string(), force: true }) {
        CommandStep::Send { message: IpcMessage::DeleteVolumeByName { .. }, .. } => {},
        other => panic!("{:?}", other),
    }
}

#[test]
fn mount_by_name_looks_the_volume_up_first() {
    let action = VolumeCommands::Mount { id: "data".to_string(), path: "/mnt/d".to_string(), options: vec!["ro".to_string()] };
    match GalleonClient::volume_command_start(&action) {
        CommandStep::Send { message: IpcMessage::GetVolumeByName { name }, .. } => assert_eq!(name, "data"),
        other => panic!("{:?}", other),
    }
    let path = "/mnt/d".to_string();
    let options = vec!["ro".to_string()];
    match GalleonClient::mount_after_lookup(&path, &options, IpcResponse::Volume(sample_volume())) {
        CommandStep::Send { message: IpcMessage::MountVolume { id, path, options }, .. } => {
            assert_eq!(id, sample_volume().id);
            assert_eq!(path, "/mnt/d");
            assert_eq!(options, vec!["ro".to_string()]);
        },
        other => panic!("{:?}", other),
    }
    match GalleonClient::mount_after_lookup(&path, &options, IpcResponse::Error("nope".to_string())) {
        CommandStep::Failed(e) => assert_eq!(e, "nope"),
        other => panic!("{:?}", other),
    }
    match GalleonClient::mount_after_lookup(&path, &options, IpcResponse::Success) {
        CommandStep::Failed(e) => assert_eq!(e, "Unexpected response from daemon"),
        other => panic!("{:?}", other),
    }
}

#[test]
fn created_volume_is_described() {
    let action = VolumeCommands::Create {
        name: None,
        volume_type: CliVolumeType::Persistent,
        size: "1G".to_string(),
        storage_class: "fast".to_string(),
        replicas: None,
    };
    let lines = GalleonClient::volume_command_reply(&action, IpcResponse::Volume(sample_volume())).unwrap();
    assert_eq!(
        lines,
        vec![
            "Volume created successfully:",
            "  ID: 01234567-89ab-cdef-0123-456789abcdef",
            "  Name: data",
            "  Type: Persistent",
            "  Size: 1073741824 bytes (1.00 GB)",
            "  Storage Class: fast",
            "  State: Available",
        ]
    );
    assert_eq!(GalleonClient::volume_command_reply(&action, IpcResponse::Error("boom".to_string())), Err("boom".to_string()));
    assert_eq!(
        GalleonClient::volume_command_reply(&action, IpcResponse::Success),
        Err("Unexpected response from daemon".to_string())
    );
}

#[test]
fn volume_details_show_the_times() {
    let lines = GalleonClient::volume_command_reply(&VolumeCommands::Get { id: "data".to_string() }, IpcResponse::Volume(sample_volume()))
        .unwrap();
    assert_eq!(lines[0], "Volume Details:");
    assert_eq!(lines[7], "  Created: SystemTime { tv_sec: 1700000000, tv_nsec: 123000000 }");
    assert_eq!(lines[8], "  Updated: SystemTime { tv_sec: -1, tv_nsec: 999000000 }");
    assert_eq!(time_debug_string(0), "SystemTime { tv_sec: 0, tv_nsec: 0 }");
}

#[test]
fn volume_list_and_empty_list() {
    let lines = GalleonClient::volume_command_reply(&VolumeCommands::List, IpcResponse::Volumes(vec![])).unwrap();
    assert_eq!(lines, vec!["No volumes found."]);
    let lines = GalleonClient::volume_command_reply(&VolumeCommands::List, IpcResponse::Volumes(vec![sample_volume()])).unwrap();
    assert_eq!(lines.len(), 4);
    assert_eq!(lines[0], "Volumes:");
    assert_eq!(lines[2], "-".repeat(112));
    assert_eq!(
        lines[3],
        format!(
            "{:<36} {:<20} {} {} {:<20} {:<10}",
            "01234567-89ab-cdef-0123-456789abcdef", "data", "Persistent", "Available", "fast", "1.0GB"
        )
    );
}

#[test]
fn delete_mount_and_unmount_replies() {
    let del = VolumeCommands::Delete { id: "data".to_string(), force: true };
    assert_eq!(GalleonClient::volume_command_reply(&del, IpcResponse::Success).unwrap(), vec!["Volume 'data' deleted successfully."]);
    let mount = VolumeCommands::Mount { id: "data".to_string(), path: "/mnt/d".to_string(), options: vec![] };
    let lines = GalleonClient::volume_command_reply(
        &mount,
        IpcResponse::MountInfo { mount_id: 1, volume_id: 2, mount_path: "/mnt/d".to_string() },
    )
    .unwrap();
    assert_eq!(
        lines,
        vec![
            "Volume mounted successfully:",
            "  Mount ID: 00000000-0000-0000-0000-000000000001",
            "  Volume ID: 00000000-0000-0000-0000-000000000002",
            "  Mount Path: /mnt/d",
        ]
    );
    let unmount = VolumeCommands::Unmount { target: "/mnt/d".to_string() };
    assert_eq!(
        GalleonClient::volume_command_reply(&unmount, IpcResponse::Success).unwrap(),
        vec!["Volume unmounted successfully: /mnt/d"]
    );
}

#[test]
fn cluster_status_lists_the_peers() {
    assert!(matches!(GalleonClient::cluster_command_request(&ClusterCommands::Status), IpcMessage::ClusterStatus));
    assert!(matches!(GalleonClient::cluster_command_request(&ClusterCommands::Peers), IpcMessage::ClusterStatus));
    let info = IpcResponse::ClusterInfo { node_id: 255, peers: vec!["a:1".to_string()], cluster_size: 2 };
    assert_eq!(
        GalleonClient::cluster_command_reply(&ClusterCommands::Status, info).unwrap(),
        vec![
            "Cluster Status:",
            "  Node ID: 00000000-0000-0000-0000-0000000000ff",
            "  Cluster Size: 2 nodes",
            "  Peers:",
            "    - a:1",
        ]
    );
    let empty = IpcResponse::ClusterInfo { node_id: 1, peers: vec![], cluster_size: 1 };
    assert_eq!(
        GalleonClient::cluster_command_reply(&ClusterCommands::Peers, empty).unwrap(),
        vec!["Cluster Peers:", "  (No peers configured)"]
    );
    assert_eq!(
        GalleonClient::cluster_command_reply(&ClusterCommands::ReplicationPeers, IpcResponse::ReplicationPeers(vec![])).unwrap(),
        vec!["Replication Peers:", "  (No replication peers configured)"]
    );
    let join = ClusterCommands::Join { peer_address: "b:2".to_string() };
    assert_eq!(
        GalleonClient::cluster_command_reply(&join, IpcResponse::Success).unwrap(),
        vec!["Successfully joined cluster via peer: b:2"]
    );
    assert_eq!(
        GalleonClient::cluster_command_reply(&join, IpcResponse::Error("later".to_string())),
        Err("later".to_string())
    );
}

#[test]
fn daemon_status_and_config() {
    assert!(matches!(GalleonClient::daemon_command_request(&DaemonCommands::Stop { force: true }), IpcMessage::Shutdown));
    let status = IpcResponse::DaemonStatus {
        uptime: 61,
        version: "0.1.0".to_string(),
        storage_path: "./store".to_string(),
        bind_address: "127.0.0.1:8080".to_string(),
    };
    assert_eq!(
        GalleonClient::daemon_command_reply(&DaemonCommands::Status, status).unwrap(),
        vec!["Daemon Status:", "  Version: 0.1.0", "  Uptime: 61 seconds", "  Storage Path: \"./store\"", "  Bind Address: 127.0.0.1:8080"]
    );
    let mut c = DaemonConfig::default();
    c.peer_addresses = vec!["p:1".to_string()];
    c.mount_point = Some("/mnt".to_string());
    assert_eq!(
        GalleonClient::daemon_command_reply(&DaemonCommands::Config, IpcResponse::Config(c)).unwrap(),
        vec![
            "Daemon Configuration:",
            "  Storage Path: \"./galleonfs_storage\"",
            "  Block Size: 4096 bytes",
            "  Bind Address: 127.0.0.1:8080",
            "  IPC Address: 127.0.0.1:8090",
            "  Replication Strategy: Synchronous",
            "  Persistence Level: Enhanced",
            "  Peer Addresses: [\"p:1\"]",
            "  Mount Point: \"/mnt\"",
        ]
    );
    assert_eq!(
        GalleonClient::daemon_command_reply(&DaemonCommands::Restart, IpcResponse::Success).unwrap(),
        vec!["Daemon restart initiated."]
    );
}

#[test]
fn storage_class_list() {
    let class = StorageClass {
        name: "fast".to_string(),
        provisioner: "p".to_string(),
        parameters: vec![],
        reclaim_policy: ReclaimPolicy::Retain,
        volume_binding_mode: VolumeBindingMode::WaitForFirstConsumer,
        allowed_topologies: vec![],
        mount_options: vec![],
    };
    let lines = GalleonClient::storage_class_command_reply(&StorageClassCommands::List, IpcResponse::StorageClasses(vec![class])).unwrap();
    assert_eq!(lines[0], "Storage Classes:");
    assert_eq!(lines[1], format!("{:<25} {:<25} {:<15} {:<20}", "NAME", "PROVISIONER", "RECLAIM_POLICY", "BINDING_MODE"));
    assert_eq!(lines[2], "-".repeat(85));
    assert_eq!(lines[3], format!("{:<25} {:<25} Retain WaitForFirstConsumer", "fast", "p"));
    assert_eq!(
        GalleonClient::storage_class_command_reply(&StorageClassCommands::List, IpcResponse::StorageClasses(vec![])).unwrap(),
        vec!["No storage classes found."]
    );
    let create = StorageClassCommands::Create { config_file: "/etc/c.json".to_string() };
    assert!(matches!(GalleonClient::storage_class_command_request(&create), IpcMessage::CreateStorageClassFromFile { .. }));
    assert_eq!(
        GalleonClient::storage_class_command_reply(&create, IpcResponse::Success).unwrap(),
        vec!["Storage class created successfully from file: /etc/c.json"]
    );
}
