use galleonfs::galleon::{GalleonFS, ReplicaTally, ReplicationService};
use galleonfs::security::{AuditLogFilter, AuditResult, KeyManagementService, SecurityManager};
use galleonfs::storage::{recover_from_journal, write_op_block_exec, FileStorageEngine};
use galleonfs::{
    EncryptionConfig, JournalEntry, KeyManagementType, LabelSelector, PersistenceLevel, ReplicationStrategy,
    VolumeAccessPolicy, VolumeType, WriteConcern, WriteStep,
};

fn strings(v: &[&str]) -> Vec<String> {
    v.iter().map(|s| s.to_string()).collect()
}

fn pairs(v: &[(&str, &str)]) -> Vec<(String, String)> {
    v.iter().map(|(k, x)| (k.to_string(), x.to_string())).collect()
}

fn galleon(strategy: ReplicationStrategy, peers: &[&str]) -> GalleonFS {
    GalleonFS::new(
        FileStorageEngine::new("/tmp/galleon-test".to_string(), 4096),
        strategy,
        PersistenceLevel::High,
        strings(peers),
    )
}

#[test]
fn peers_are_kept_in_order_without_repeats() {
    let mut s = ReplicationService::new(strings(&["a:1"]));
    s.add_peer_address("b:2".to_string());
    s.add_peer_address("a:1".to_string());
    assert_eq!(s.get_peer_addresses(), strings(&["a:1", "b:2"]));
    s.remove_peer_address("a:1");
    assert_eq!(s.get_peer_addresses(), strings(&["b:2"]));
    s.update_peer_addresses(strings(&["c:3", "d:4"]));
    assert_eq!(s.get_peer_addresses(), strings(&["c:3", "d:4"]));
}

#[test]
fn synchronous_writes_need_their_concerns_replicas() {
    let s = ReplicationService::new(strings(&["a", "b", "c"]));
    assert_eq!(s.begin_synchronous(WriteConcern::WriteReplicated).required, 1);
    assert_eq!(s.begin_synchronous(WriteConcern::WriteDistributed).required, 3);
    assert_eq!(s.begin_synchronous(WriteConcern::WriteDurable).required, 0);
    let one = ReplicationService::new(strings(&["a"]));
    assert_eq!(one.begin_synchronous(WriteConcern::WriteDistributed).required, 1);
    let mut t = ReplicaTally { required: 2, successful: 0 };
    t.record_ack(true);
    t.record_ack(false);
    assert!(!t.done());
    assert_eq!(t.outcome(), Err((2, 1)));
    t.record_ack(true);
    assert!(t.done());
    assert_eq!(t.outcome(), Ok(()));
}

#[test]
fn a_block_write_is_journaled_under_its_volume_and_block() {
    let g = galleon(ReplicationStrategy::Synchronous, &["p"]);
    let (entry, steps) = g.write_block(0x11, 42, vec![1, 2, 3], WriteConcern::WriteReplicated);
    assert_eq!(entry.operation, "WRITE:00000000-0000-0000-0000-000000000011:42");
    assert_eq!(entry.data, vec![1, 2, 3]);
    assert!(!entry.committed);
    assert_eq!(
        steps,
        vec![WriteStep::JournalWrite, WriteStep::WriteBlock, WriteStep::ReplicateSynchronously, WriteStep::CommitJournal]
    );
    assert_eq!(write_op_block_exec(&entry.operation), Some(42));
    assert_eq!(write_op_block_exec("SNAPSHOT:x"), None);
}

#[test]
fn recovery_replays_uncommitted_writes_of_the_volume() {
    let mut done = JournalEntry::new(1, "WRITE:v:3".to_string(), vec![]);
    done.committed = true;
    let entries = vec![
        JournalEntry::new(1, "WRITE:v:7".to_string(), vec![]),
        done,
        JournalEntry::new(2, "WRITE:v:8".to_string(), vec![]),
        JournalEntry::new(1, "DELETE:v".to_string(), vec![]),
        JournalEntry::new(1, "WRITE:v:9".to_string(), vec![]),
    ];
    assert_eq!(recover_from_journal(&entries, 1), vec![(0, 7), (4, 9)]);
}

#[test]
fn new_volumes_are_named_and_recorded() {
    let mut g = galleon(ReplicationStrategy::Asynchronous, &[]);
    let v = g.new_volume(VolumeType::Ephemeral, 4096, "fast".to_string());
    assert!(v.name.starts_with("vol-"));
    assert_eq!(v.name.len(), 4 + 36);
    let id = v.id;
    let rec = g.create_volume(v, 99);
    assert_eq!(rec.updated_at, 99);
    assert_eq!(g.get_volume(id).unwrap().size_bytes, 4096);
    assert_eq!(g.list_volumes().len(), 1);
    g.delete_volume(id);
    assert!(g.get_volume(id).is_none());
    g.add_replication_peer("x:1".to_string());
    assert_eq!(g.get_replication_peers(), strings(&["x:1"]));
}

fn policy(name: &str, selector: &[(&str, &str)], users: &[&str], groups: &[&str], ops: &[&str]) -> VolumeAccessPolicy {
    VolumeAccessPolicy {
        name: name.to_string(),
        volume_selector: LabelSelector { match_labels: pairs(selector) },
        allowed_applications: vec![],
        allowed_users: strings(users),
        allowed_groups: strings(groups),
        operations: strings(ops),
    }
}

#[test]
fn access_is_granted_by_a_matching_policy_and_audited() {
    let mut s = SecurityManager::new();
    s.add_access_policy(policy("db", &[("app", "db")], &["alice"], &["ops"], &["read", "write"]));
    let labels = pairs(&[("app", "db")]);
    assert!(s.check_access("alice", &vec![], &labels, "read"));
    assert!(s.check_access("bob", &strings(&["ops"]), &labels, "write"));
    assert!(!s.check_access("bob", &vec![], &labels, "read"));
    assert!(!s.check_access("alice", &vec![], &labels, "delete"));
    assert!(!s.check_access("alice", &vec![], &pairs(&[("app", "web")]), "read"));
    let all = s.get_audit_logs(None);
    assert_eq!(all.len(), 5);
    assert_eq!(all[0].result, AuditResult::Success);
    assert_eq!(all[2].result, AuditResult::Denied);
    assert_eq!(all[0].resource, "volume");
    let denied = s.get_audit_logs(Some(AuditLogFilter {
        user: Some("alice".to_string()),
        action: None,
        result: Some(AuditResult::Denied),
        start_time: None,
        end_time: None,
    }));
    assert_eq!(denied.len(), 2);
    s.remove_access_policy("db");
    assert!(!s.check_access("alice", &vec![], &labels, "read"));
}

#[test]
fn volume_encryption_settings() {
    let mut s = SecurityManager::new();
    assert!(!s.is_volume_encrypted(5));
    s.set_volume_encryption(
        5,
        EncryptionConfig {
            enabled: true,
            algorithm: "AES-256-GCM".to_string(),
            key_management: KeyManagementType::Internal,
            key_rotation_days: 90,
        },
    );
    assert!(s.is_volume_encrypted(5));
    assert_eq!(s.get_volume_encryption(5).unwrap().key_rotation_days, 90);
    assert!(s.get_volume_encryption(6).is_none());
}

#[test]
fn keys_have_the_algorithms_length() {
    assert_eq!(KeyManagementService::generate_key_data("AES-256-GCM").unwrap().len(), 32);
    assert_eq!(KeyManagementService::generate_key_data("AES-128-GCM").unwrap().len(), 16);
    assert_eq!(
        KeyManagementService::generate_key_data("DES"),
        Err("Unsupported encryption algorithm: DES".to_string())
    );
    let mut k = KeyManagementService::new();
    let id = k.generate_key(9, "AES-128-GCM").unwrap();
    let key = k.get_key(id).unwrap();
    assert_eq!(key.volume_id, 9);
    assert_eq!(key.key_data.len(), 16);
    assert_eq!(key.created_at, key.last_rotated);
    assert!(k.rotate_key(id).is_ok());
    assert_eq!(k.get_key(id).unwrap().key_data.len(), 16);
    assert!(k.rotate_key(id ^ 1).is_ok());
    assert!(k.generate_key(9, "RC4").is_err());
    k.delete_key(id);
    assert!(k.get_key(id).is_none());
}
