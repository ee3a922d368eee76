use galleonfs::daemon::client::DaemonClient;
use galleonfs::daemon::config::{accept_loaded_config, migrate_if_needed, ConfigError, ConfigManager, DaemonConfig, Platform};
use galleonfs::daemon::server::{DaemonServer, ServerStep};
use galleonfs::daemon::DaemonState;
use galleonfs::types::inode::{Inode, Permissions};
use galleonfs::types::ipc::{IpcRequest, IpcResponse};
use galleonfs::types::node::{NodeType, NodeTypeError};
use galleonfs::types::volume::Volume;

#[test]
fn node_codes_round_trip() {
    for t in [NodeType::File, NodeType::Directory, NodeType::Symlink] {
        assert_eq!(NodeType::try_from(t.code()), Ok(t));
    }
    assert_eq!(NodeType::try_from(3), Err(NodeTypeError::InvalidNodeType));
}

#[test]
fn permissions_combine_bits() {
    let rw = Permissions::read().union(Permissions::write());
    assert_eq!(rw.bits(), 6);
    assert_eq!(Permissions::rwx().bits(), 7);
    assert_eq!(Permissions::from_bits(5).map(|p| p.bits()), Some(5));
    assert!(Permissions::from_bits(8).is_none());
    assert_eq!(Permissions::execute().bits(), 1);
}

#[test]
fn an_inode_packs_kind_and_permissions() {
    let i = Inode::new(NodeType::Symlink, Permissions::rwx());
    assert_eq!(i.data(), 0x72);
    assert_eq!(i.kind(), Ok(NodeType::Symlink));
    assert_eq!(i.permissions(), Some(Permissions::rwx()));
    assert_eq!(format!("0x{:b}", i.data()), "0x1110010");
}

#[test]
fn an_inode_prints_its_kind_permissions_and_word() {
    let i = Inode::new(NodeType::Symlink, Permissions::rwx());
    assert_eq!(i.display_string(), "Inode type: Symlink, permissions: Some(Permissions(EXECUTE | READ | WRITE)), raw: 0x1110010");
    let r = Inode::new(NodeType::Directory, Permissions::read().union(Permissions::execute()));
    assert_eq!(r.display_string(), "Inode type: Directory, permissions: Some(Permissions(EXECUTE | READ)), raw: 0x110001");
    let none = Inode::new(NodeType::File, Permissions::from_bits(0).unwrap());
    assert_eq!(none.display_string(), "Inode type: File, permissions: Some(Permissions(0x0)), raw: 0x0");
}

#[test]
fn volumes_mount_and_unmount() {
    let mut v = Volume::new("data".to_string());
    assert!(!v.is_mounted);
    v.mount("/mnt/data".to_string());
    assert!(v.is_mounted);
    v.unmount();
    assert!(!v.is_mounted);
    assert_eq!(v.mount_point, Some("/mnt/data".to_string()));
    let d = v.duplicate();
    assert_eq!((d.id, d.name.as_str()), (v.id, "data"));
}

#[test]
fn the_registry_keeps_names_unique() {
    let mut s = DaemonState::new();
    s.create_volume("a".to_string()).unwrap();
    assert_eq!(s.create_volume("a".to_string()).unwrap_err(), "Volume 'a' already exists");
    s.create_volume("b".to_string()).unwrap();
    assert_eq!(s.list_volumes().len(), 2);
    assert_eq!(s.mount_volume("a", "/mnt/a".to_string()), Ok(("a".to_string(), "/mnt/a".to_string())));
    assert_eq!(s.mount_volume("a", "/mnt/x".to_string()).unwrap_err(), "Volume 'a' is already mounted");
    assert_eq!(s.mount_volume("zz", "/mnt/x".to_string()).unwrap_err(), "Volume 'zz' not found");
    assert_eq!(s.get_mounted_volumes().len(), 1);
    assert_eq!(s.modify_volume("b", Some("a".to_string())).unwrap_err(), "Volume 'a' already exists");
    assert_eq!(s.modify_volume("b", Some("c".to_string())).unwrap().name, "c");
    assert_eq!(s.unmount_volume("c").unwrap_err(), "Volume 'c' is not mounted");
    assert_eq!(s.delete_volume("a").unwrap_err(), "Volume 'a' is currently mounted. Unmount it first.");
    assert_eq!(s.list_volumes().len(), 2);
    assert_eq!(s.delete_volume("c"), Ok("c".to_string()));
    assert_eq!(s.list_volumes().len(), 1);
    assert_eq!(s.delete_volume("c").unwrap_err(), "Volume 'c' not found");
}

#[test]
fn the_server_answers_requests() {
    let mut server = DaemonServer::new();
    let steps = server.process_request(IpcRequest::CreateVolume { name: "v".to_string() });
    assert!(matches!(&steps[..], [ServerStep::Respond(IpcResponse::VolumeCreated { volume })] if volume.name == "v"));
    let steps = server.process_request(IpcRequest::MountVolume { name: "v".to_string(), mount_point: "/m".to_string() });
    assert!(matches!(&steps[0], ServerStep::Watch(vol) if vol.is_mounted));
    assert!(matches!(&steps[1], ServerStep::Respond(IpcResponse::VolumeMounted { name, mount_point }) if name == "v" && mount_point == "/m"));
    let steps = server.process_request(IpcRequest::ListVolumes);
    assert!(matches!(&steps[..], [ServerStep::Respond(IpcResponse::VolumesList { volumes })] if volumes.len() == 1));
    let steps = server.process_request(IpcRequest::DeleteVolume { name: "nope".to_string() });
    assert!(matches!(&steps[0], ServerStep::Unwatch(n) if n == "nope"));
    assert!(matches!(&steps[1], ServerStep::Respond(IpcResponse::Error { message }) if message == "Volume 'nope' not found"));
    let steps = server.process_request(IpcRequest::Shutdown);
    assert!(matches!(&steps[..], [ServerStep::SaveAndExit]));
    assert_eq!(server.state().list_volumes().len(), 1);
}

#[test]
fn configuration_versions_and_paths() {
    let d = DaemonConfig::default();
    assert_eq!(d.version, "0.1.0");
    let old = DaemonConfig { volumes: vec![Volume::new("x".to_string())], version: "0.0.9".to_string() };
    let kept = accept_loaded_config(old);
    assert!(kept.volumes.is_empty());
    assert_eq!(kept.version, "0.1.0");
    let current = DaemonConfig { volumes: vec![Volume::new("x".to_string())], version: "0.1.0".to_string() };
    assert_eq!(accept_loaded_config(current).volumes.len(), 1);
    let m = ConfigManager::under("/home/u/.local/share");
    assert_eq!(m.get_config_path(), "/home/u/.local/share/galleonfs/volumes.json");
    assert_eq!(ConfigError::NoDataDirectory.message(), "Failed to get Linux data directory");
}

#[test]
fn missing_mount_points_unmount_volumes() {
    let mut a = Volume::new("a".to_string());
    a.mount("/gone".to_string());
    let mut b = Volume::new("b".to_string());
    b.mount("/here".to_string());
    let mut c = DaemonConfig { volumes: vec![a, b], version: "0.1.0".to_string() };
    assert!(migrate_if_needed(&mut c, &vec!["/gone".to_string()]));
    assert!(!c.volumes[0].is_mounted);
    assert!(c.volumes[1].is_mounted);
    assert!(!migrate_if_needed(&mut c, &vec!["/gone".to_string()]));
}

#[test]
fn the_daemon_client_address() {
    assert_eq!(DaemonClient::new(None).address(), "127.0.0.1:8888");
    assert_eq!(DaemonClient::new(Some(9000)).address(), "127.0.0.1:9000");
}

#[test]
fn the_missing_directory_is_named_per_platform() {
    let e = ConfigError::NoDataDirectory;
    assert_eq!(e.message_on(Platform::Windows), "Failed to get Windows AppData directory");
    assert_eq!(e.message_on(Platform::MacOs), "Failed to get macOS Application Support directory");
    assert_eq!(e.message_on(Platform::Linux), "Failed to get Linux data directory");
    assert_eq!(e.message_on(Platform::Other), "Unsupported platform for config directory");
}
