use galleonfs::backup::{restore_plan, BackupManager, BackupRepository};
use galleonfs::monitoring::{AlertFilter, AlertSeverity, HealthState, MonitoringManager, SystemMetrics, HISTORY_LIMIT};
use galleonfs::qos::ActiveQoSLimits;
use galleonfs::snapshot::{SnapshotManager, SnapshotPolicy};
use galleonfs::storage::FileStorageEngine;
use galleonfs::volume::VolumeManager;
use galleonfs::{
    AccessMode, BackupState, BackupStrategy, LabelSelector, PersistentVolumeClaim, ResourceRequirements, Volume,
    VolumeClaimSpec, VolumeClaimStatus, VolumeState, VolumeType,
};

fn metrics(t: i64) -> SystemMetrics {
    SystemMetrics {
        timestamp: t,
        total_volumes: 1,
        total_capacity_bytes: 10,
        used_capacity_bytes: 5,
        total_snapshots: 0,
        active_migrations: 0,
        failed_operations: 0,
    }
}

#[test]
fn system_metrics_keep_the_last_thousand() {
    let mut m = MonitoringManager::new();
    for t in 0..(HISTORY_LIMIT as i64 + 5) {
        m.record_system_metrics(metrics(t));
    }
    let all = m.get_system_metrics(None);
    assert_eq!(all.len(), HISTORY_LIMIT);
    assert_eq!(all[0].timestamp, 5);
    let recent = m.get_system_metrics(Some(1000));
    assert_eq!(recent.len(), 5);
    assert_eq!(recent[0], metrics(1000));
}

#[test]
fn alerts_are_raised_filtered_and_resolved() {
    let mut m = MonitoringManager::new();
    assert_eq!(m.get_health_status().overall_status, HealthState::Healthy);
    m.create_alert("disk_full", AlertSeverity::Critical, Some(3));
    m.create_alert("slow_io", AlertSeverity::Warning, None);
    let alerts = m.get_alerts(None);
    assert_eq!(alerts.len(), 2);
    assert_eq!(alerts[0].message, "Alert triggered for rule: disk_full");
    assert!(!alerts[0].resolved);
    let h = m.get_health_status();
    assert_eq!((h.overall_status, h.critical_alerts, h.warning_alerts), (HealthState::Critical, 1, 1));
    m.resolve_alert(alerts[0].id);
    let h = m.get_health_status();
    assert_eq!((h.overall_status, h.critical_alerts, h.warning_alerts), (HealthState::Warning, 0, 1));
    let open = m.get_alerts(Some(AlertFilter { severity: None, resolved: Some(false), start_time: None, end_time: None }));
    assert_eq!(open.len(), 1);
    assert_eq!(open[0].rule_name, "slow_io");
    let resolved = m.get_alerts(Some(AlertFilter { severity: Some(AlertSeverity::Critical), resolved: Some(true), start_time: None, end_time: None }));
    assert_eq!(resolved.len(), 1);
    assert!(resolved[0].resolved_at.is_some());
}

#[test]
fn qos_requests_fit_their_limits() {
    let mut q = ActiveQoSLimits::new(1, "gold".to_string());
    assert!(q.accept_request(60, 10, Some(100), None));
    assert!(!q.accept_request(50, 10, Some(100), None));
    assert_eq!(q.current_iops, 60);
    assert!(q.accept_request(40, 5, Some(100), Some(15)));
    assert!(!q.accept_request(0, 1, Some(100), Some(15)));
    q.record_io_completion(40, 5);
    assert_eq!((q.current_iops, q.current_throughput_mbps), (60, 10));
    q.record_io_completion(100, 100);
    assert_eq!((q.current_iops, q.current_throughput_mbps), (0, 0));
}

#[test]
fn bursts_last_their_duration() {
    let mut q = ActiveQoSLimits::new(1, "gold".to_string());
    assert!(!q.burst_applies(true, 60, 0));
    q.enable_burst(1_000);
    assert!(q.burst_applies(true, 60, 60_999));
    assert!(!q.burst_applies(true, 60, 61_000));
    assert!(!q.burst_applies(false, 60, 2_000));
    assert!(q.burst_applies(true, 1, 500));
    let s = q.status(100, 50);
    assert!(s.is_bursting);
    assert_eq!((s.iops_limit, s.throughput_limit, s.policy_name.as_str()), (100, 50, "gold"));
    q.disable_burst();
    assert!(!q.status(100, 50).is_bursting);
}

#[test]
fn storage_sizes_of_claims() {
    assert_eq!(VolumeManager::parse_storage_size("10Gi"), Ok(10737418240));
    assert_eq!(VolumeManager::parse_storage_size(" 512Mi "), Ok(536870912));
    assert_eq!(VolumeManager::parse_storage_size("64Ki"), Ok(65536));
    assert_eq!(VolumeManager::parse_storage_size("4096"), Ok(4096));
    assert_eq!(VolumeManager::parse_storage_size("1GiGi"), Ok(1073741824));
    assert_eq!(VolumeManager::parse_storage_size("abcGi"), Err("invalid digit found in string".to_string()));
    assert_eq!(VolumeManager::parse_storage_size("Gi"), Err("cannot parse integer from empty string".to_string()));
    assert_eq!(
        VolumeManager::parse_storage_size("abc"),
        Err("Invalid size format: invalid digit found in string".to_string())
    );
}

fn claim(requests: &[(&str, &str)], class: Option<&str>) -> PersistentVolumeClaim {
    PersistentVolumeClaim {
        id: 0xabc,
        name: "data-claim".to_string(),
        namespace: "default".to_string(),
        spec: VolumeClaimSpec {
            access_modes: vec![AccessMode::ReadWriteMany],
            storage_class: class.map(|c| c.to_string()),
            resources: ResourceRequirements {
                requests: requests.iter().map(|(k, v)| (k.to_string(), v.to_string())).collect(),
                limits: vec![],
            },
            selector: None,
            volume_name: None,
        },
        status: VolumeClaimStatus::Pending,
        labels: vec![],
        created_at: 0,
        updated_at: 0,
    }
}

#[test]
fn claims_are_provisioned_by_their_request() {
    let v = VolumeManager::provision_volume(&claim(&[("storage", "2Gi")], None)).unwrap();
    assert_eq!(v.name, "data-claim");
    assert_eq!(v.size_bytes, 2147483648);
    assert_eq!(v.storage_class, "default");
    assert_eq!(v.volume_type, VolumeType::Persistent);
    assert_eq!(v.access_modes, vec![AccessMode::ReadWriteMany]);
    assert_eq!(v.claim_ref, Some("00000000-0000-0000-0000-000000000abc".to_string()));
    let w = VolumeManager::provision_volume(&claim(&[("storage", "1Mi")], Some("fast"))).unwrap();
    assert_eq!(w.storage_class, "fast");
    assert_eq!(
        VolumeManager::provision_volume(&claim(&[("cpu", "2")], None)).unwrap_err(),
        "No storage size specified in claim"
    );
    assert_eq!(
        VolumeManager::provision_volume(&claim(&[("storage", "lots")], None)).unwrap_err(),
        "Invalid size format: invalid digit found in string"
    );
}

#[test]
fn binding_and_releasing_volumes() {
    let mut engine = FileStorageEngine::new("/tmp/galleon".to_string(), 4096);
    let v = Volume::new("v".to_string(), VolumeType::Persistent, 1, "c".to_string());
    let id = v.id;
    engine.create_volume(v, 1);
    VolumeManager::bind_volume(&mut engine, id, 2);
    assert_eq!(engine.get_volume(id).unwrap().state, VolumeState::Bound);
    VolumeManager::release_volume(&mut engine, id, 3);
    assert_eq!(engine.get_volume(id).unwrap().state, VolumeState::Released);
    assert_eq!(engine.get_volume(id).unwrap().updated_at, 3);
}

fn policy(name: &str) -> SnapshotPolicy {
    SnapshotPolicy {
        name: name.to_string(),
        schedule: "0 * * * *".to_string(),
        retention_count: 3,
        volume_selector: LabelSelector { match_labels: vec![] },
    }
}

#[test]
fn snapshot_policies_by_name() {
    let mut s = SnapshotManager::new();
    s.add_snapshot_policy(policy("hourly"));
    s.add_snapshot_policy(policy("daily"));
    s.add_snapshot_policy(policy("hourly"));
    let names: Vec<&str> = s.list_snapshot_policies().iter().map(|p| p.name.as_str()).collect();
    assert_eq!(names, vec!["daily", "hourly"]);
    s.remove_snapshot_policy("daily");
    assert_eq!(s.list_snapshot_policies().len(), 1);
    let engine = FileStorageEngine::new("/tmp/galleon".to_string(), 4096);
    assert_eq!(
        SnapshotManager::create_volume_from_snapshot(&engine, 5, "restored").unwrap_err(),
        "Snapshot not found"
    );
}

#[test]
fn backups_are_taken_completed_and_restored() {
    let repo = BackupRepository::new("/backups".to_string());
    assert_eq!(repo.backup_path(1), "/backups/00000000-0000-0000-0000-000000000001.backup");
    let mut engine = FileStorageEngine::new("/tmp/galleon".to_string(), 4096);
    let mut mgr = BackupManager::new("/backups".to_string());
    assert_eq!(mgr.create_backup(&engine, 9, "p", BackupStrategy::Full).unwrap_err(), "Volume not found");
    let v = Volume::new("db".to_string(), VolumeType::Persistent, 10000, "c".to_string());
    let id = v.id;
    engine.create_volume(v, 1);
    let b = mgr.create_backup(&engine, id, "nightly", BackupStrategy::Incremental).unwrap();
    assert!(b.name.starts_with("backup-db-"));
    assert_eq!(b.name.len(), "backup-db-".len() + 14);
    assert_eq!(b.state, BackupState::InProgress);
    assert_eq!(b.size_bytes, 10000);
    let bid = b.id;
    assert_eq!(mgr.restore_backup(bid, 10).unwrap_err(), "Backup not found");
    let done = mgr.backup_completed(b, 77);
    assert_eq!(done.state, BackupState::Completed);
    assert_eq!(done.completed_at, Some(77));
    assert_eq!(mgr.restore_backup(bid, 10000).unwrap(), vec![(0, 0, 4096), (1, 4096, 8192), (2, 8192, 10000)]);
    assert_eq!(mgr.list_backups(Some(id)).len(), 1);
    assert_eq!(mgr.list_backups(Some(id ^ 1)).len(), 0);
    mgr.delete_backup(bid);
    assert!(mgr.list_backups(None).is_empty());
    assert_eq!(restore_plan(0), vec![]);
}

#[test]
fn a_volume_is_made_from_a_snapshot_of_any_volume() {
    let mut engine = FileStorageEngine::new("/tmp/galleon".to_string(), 4096);
    let v = Volume::new("db".to_string(), VolumeType::Shared, 8192, "fast".to_string());
    let id = v.id;
    engine.create_volume(v, 1);
    let snap = engine.begin_snapshot(id, "snap", 5).unwrap();
    let sid = snap.id;
    engine.create_snapshot(snap);
    let restored = SnapshotManager::create_volume_from_snapshot(&engine, sid, "restored").unwrap();
    assert_eq!(restored.name, "restored");
    assert_eq!(restored.volume_type, VolumeType::Shared);
    assert_eq!(restored.size_bytes, 8192);
    assert_eq!(restored.storage_class, "fast");
}
