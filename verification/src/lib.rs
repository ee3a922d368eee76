//! GalleonFS: volume management for a replicated block storage system.
//!
//! The library holds the data model (volumes, storage classes, claims,
//! snapshots, backups, migrations, policies) and the decisions the system
//! makes over it: volume and mount state changes, block placement, byte-range
//! I/O over blocks, journaling, replication plans, access control, quality of
//! service and monitoring.  Storage, network and file-system calls are made by
//! the callers between the steps planned here.
use vstd::prelude::*;

pub mod external;
pub mod text;
pub mod units;
pub mod block_io;
pub mod labels;
pub mod storage;
pub mod cluster;
pub mod types;
pub mod cross_platform_vfs;
pub mod daemon;
pub mod cli;
pub mod security;
pub mod migration;
pub mod backup;
pub mod volume_mount;
pub mod vfs;
pub mod galleon;
pub mod service;
pub mod qos;
pub mod monitoring;
pub mod snapshot;
pub mod volume;
pub mod vfs_service;
pub mod fuse_fs;

use crate::external::{crc32, crc32_of, new_uuid, now_millis};

verus! {

/// How long a volume lives.
#[derive(Clone, Copy, Debug, PartialEq, Eq, Structural)]
pub enum VolumeType {
    Ephemeral,
    Persistent,
    Shared,
}

/// Lifecycle state of a volume.
#[derive(Clone, Copy, Debug, PartialEq, Eq, Structural)]
pub enum VolumeState {
    Provisioning,
    Available,
    Bound,
    Mounted,
    Released,
    Snapshotting,
    Migrating,
    Failed,
}

/// How a volume may be attached.
#[derive(Clone, Copy, Debug, PartialEq, Eq, Structural)]
pub enum AccessMode {
    /// Read-write by a single node (RWO).
    ReadWriteOnce,
    /// Read-only by many nodes (ROX).
    ReadOnlyMany,
    /// Read-write by many nodes (RWX).
    ReadWriteMany,
}

/// Durability a volume is provisioned for.
#[derive(Clone, Copy, Debug, PartialEq, Eq, Structural)]
pub enum PersistenceLevel {
    /// Local disk, no redundancy.
    Basic,
    /// Local RAID, disk failure protection.
    Enhanced,
    /// Distributed, node failure protection.
    High,
    /// Geo-replicated, region failure protection.
    Maximum,
}

/// When a block write counts as done.
#[derive(Clone, Copy, Debug, PartialEq, Eq, Structural)]
pub enum WriteConcern {
    /// Primary commit only.
    WriteAcknowledged,
    /// Primary commit and flush.
    WriteDurable,
    /// Primary and one replica.
    WriteReplicated,
    /// Across failure domains.
    WriteDistributed,
}

/// Whether replicas are written before or after a write returns.
#[derive(Clone, Copy, Debug, PartialEq, Eq, Structural)]
pub enum ReplicationStrategy {
    Synchronous,
    Asynchronous,
}

/// A list of label keys and values.  Keys are meant to be distinct; a
/// lookup takes the first pair with the key.
pub type Labels = Vec<(String, String)>;

/// A storage volume.
#[derive(Debug)]
pub struct Volume {
    pub id: u128,
    pub name: String,
    pub volume_type: VolumeType,
    pub state: VolumeState,
    pub size_bytes: u64,
    pub access_modes: Vec<AccessMode>,
    pub storage_class: String,
    pub labels: Labels,
    /// Milliseconds since the Unix epoch.
    pub created_at: i64,
    /// Milliseconds since the Unix epoch.
    pub updated_at: i64,
    pub attached_nodes: Vec<String>,
    pub mount_path: Option<String>,
    pub claim_ref: Option<String>,
}

impl Volume {
    /// A new volume being provisioned: read-write-once, no labels, not
    /// attached, not mounted, not claimed, with a fresh random id.
    pub fn new(name: String, volume_type: VolumeType, size_bytes: u64, storage_class: String) -> (v: Self)
        ensures
            v.name@ == name@,
            v.volume_type == volume_type,
            v.state == VolumeState::Provisioning,
            v.size_bytes == size_bytes,
            v.access_modes@ == seq![AccessMode::ReadWriteOnce],
            v.storage_class@ == storage_class@,
            v.labels@.len() == 0,
            v.created_at == v.updated_at,
            v.attached_nodes@.len() == 0,
            v.mount_path is None,
            v.claim_ref is None,
    {
        let now = now_millis();
        let mut access_modes = Vec::new();
        access_modes.push(AccessMode::ReadWriteOnce);
        Volume {
            id: new_uuid(),
            name,
            volume_type,
            state: VolumeState::Provisioning,
            size_bytes,
            access_modes,
            storage_class,
            labels: Vec::new(),
            created_at: now,
            updated_at: now,
            attached_nodes: Vec::new(),
            mount_path: None,
            claim_ref: None,
        }
    }
}

/// A class of storage volumes can be provisioned from.
#[derive(Debug)]
pub struct StorageClass {
    pub name: String,
    pub provisioner: String,
    pub parameters: Labels,
    pub reclaim_policy: ReclaimPolicy,
    pub volume_binding_mode: VolumeBindingMode,
    pub allowed_topologies: Vec<String>,
    pub mount_options: Vec<String>,
}

/// What happens to a volume when its claim is released.
#[derive(Clone, Copy, Debug, PartialEq, Eq, Structural)]
pub enum ReclaimPolicy {
    Delete,
    Retain,
}

/// When a claim is bound to a volume.
#[derive(Clone, Copy, Debug, PartialEq, Eq, Structural)]
pub enum VolumeBindingMode {
    Immediate,
    WaitForFirstConsumer,
}

/// A request for storage.
#[derive(Debug)]
pub struct PersistentVolumeClaim {
    pub id: u128,
    pub name: String,
    pub namespace: String,
    pub spec: VolumeClaimSpec,
    pub status: VolumeClaimStatus,
    pub labels: Labels,
    pub created_at: i64,
    pub updated_at: i64,
}

/// What a claim asks for.
#[derive(Debug)]
pub struct VolumeClaimSpec {
    pub access_modes: Vec<AccessMode>,
    pub storage_class: Option<String>,
    pub resources: ResourceRequirements,
    pub selector: Option<LabelSelector>,
    pub volume_name: Option<String>,
}

/// Requested and limiting amounts of resources, by resource name.
#[derive(Debug)]
pub struct ResourceRequirements {
    pub requests: Labels,
    pub limits: Labels,
}

/// Selects objects whose labels hold all the given keys and values.
#[derive(Debug)]
pub struct LabelSelector {
    pub match_labels: Labels,
}

/// Binding state of a claim.
#[derive(Clone, Copy, Debug, PartialEq, Eq, Structural)]
pub enum VolumeClaimStatus {
    Pending,
    Bound,
    Lost,
}

/// A point-in-time copy of a volume.
#[derive(Debug)]
pub struct VolumeSnapshot {
    pub id: u128,
    pub name: String,
    pub volume_id: u128,
    pub size_bytes: u64,
    pub state: SnapshotState,
    pub created_at: i64,
    pub ready_to_use: bool,
    pub source_volume_mode: String,
    pub labels: Labels,
}

/// Readiness of a snapshot.
#[derive(Clone, Copy, Debug, PartialEq, Eq, Structural)]
pub enum SnapshotState {
    Pending,
    Ready,
    Error,
}

/// A group of devices that volumes are carved from.
#[derive(Debug)]
pub struct StoragePool {
    pub name: String,
    pub node_selector: LabelSelector,
    pub devices: Vec<String>,
    pub parameters: Labels,
    pub capacity_bytes: u64,
    pub available_bytes: u64,
    pub storage_class: String,
}

/// Upper bounds on a volume's I/O.
#[derive(Clone, Copy, Debug, PartialEq, Eq, Structural)]
pub struct QoSLimits {
    pub iops: Option<u64>,
    pub throughput_mbps: Option<u64>,
    pub latency_ms: Option<u64>,
}

/// Lower bounds promised for a volume's I/O.
#[derive(Clone, Copy, Debug, PartialEq, Eq, Structural)]
pub struct QoSGuarantees {
    pub iops: Option<u64>,
    pub throughput_mbps: Option<u64>,
}

/// How and when volumes are backed up.
#[derive(Debug)]
pub struct BackupPolicy {
    pub name: String,
    pub schedule: String,
    pub retention: BackupRetention,
    pub target: BackupTarget,
    pub strategy: BackupStrategy,
    pub consistency: ConsistencyLevel,
}

/// How many backups of each period are kept.
#[derive(Clone, Copy, Debug, PartialEq, Eq, Structural)]
pub struct BackupRetention {
    pub daily: u32,
    pub weekly: u32,
    pub monthly: u32,
}

/// Which volumes a backup policy covers.
#[derive(Debug)]
pub struct BackupTarget {
    pub volumes: Vec<LabelSelector>,
}

/// What a backup copies.
#[derive(Clone, Copy, Debug, PartialEq, Eq, Structural)]
pub enum BackupStrategy {
    Full,
    Incremental,
    Differential,
}

/// What a backup is consistent with.
#[derive(Clone, Copy, Debug, PartialEq, Eq, Structural)]
pub enum ConsistencyLevel {
    Crash,
    Application,
}

/// One backup of a volume.
#[derive(Debug)]
pub struct Backup {
    pub id: u128,
    pub name: String,
    pub volume_id: u128,
    pub policy_name: String,
    pub strategy: BackupStrategy,
    pub size_bytes: u64,
    pub state: BackupState,
    pub created_at: i64,
    pub completed_at: Option<i64>,
}

/// Progress of a backup.
#[derive(Clone, Copy, Debug, PartialEq, Eq, Structural)]
pub enum BackupState {
    InProgress,
    Completed,
    Failed,
    Expired,
}

/// A move of a volume to another class or place.
#[derive(Debug)]
pub struct Migration {
    pub id: u128,
    pub name: String,
    pub source_volume_id: u128,
    pub target_spec: MigrationTarget,
    pub strategy: MigrationStrategy,
    pub state: MigrationState,
    pub progress_percent: u8,
    pub started_at: i64,
    pub estimated_completion: Option<i64>,
}

/// Where a migration moves a volume.
#[derive(Debug)]
pub struct MigrationTarget {
    pub storage_class: String,
    pub node: Option<String>,
    pub zone: Option<String>,
    pub region: Option<String>,
}

/// Whether the volume stays in use during a migration.
#[derive(Clone, Copy, Debug, PartialEq, Eq, Structural)]
pub enum MigrationStrategy {
    Online,
    Offline,
}

/// Progress of a migration.
#[derive(Clone, Copy, Debug, PartialEq, Eq, Structural)]
pub enum MigrationState {
    Pending,
    Copying,
    Syncing,
    ReadyForCutover,
    CuttingOver,
    Completed,
    Failed,
}

/// Encryption settings of a volume.
#[derive(Debug)]
pub struct EncryptionConfig {
    pub enabled: bool,
    pub algorithm: String,
    pub key_management: KeyManagementType,
    pub key_rotation_days: u32,
}

/// Who manages encryption keys.
#[derive(Clone, Copy, Debug, PartialEq, Eq, Structural)]
pub enum KeyManagementType {
    Internal,
    External,
    CustomerManaged,
    HSM,
}

/// Who may do what with the volumes a selector picks.
#[derive(Debug)]
pub struct VolumeAccessPolicy {
    pub name: String,
    pub volume_selector: LabelSelector,
    pub allowed_applications: Vec<LabelSelector>,
    pub allowed_users: Vec<String>,
    pub allowed_groups: Vec<String>,
    pub operations: Vec<String>,
}

/// A block of volume data with its checksum.
#[derive(Debug)]
pub struct BlockData {
    pub volume_id: u128,
    pub block_id: u64,
    pub data: Vec<u8>,
    pub checksum: u32,
    pub encrypted: bool,
    pub compression: Option<String>,
    pub timestamp: i64,
}

impl BlockData {
    /// A block holding `data`, with the CRC-32 of the data as its checksum.
    pub fn new(volume_id: u128, block_id: u64, data: Vec<u8>) -> (b: Self)
        ensures
            b.volume_id == volume_id,
            b.block_id == block_id,
            b.data@ == data@,
            b.checksum == crc32_of(data@),
            !b.encrypted,
            b.compression is None,
    {
        let checksum = crc32(data.as_slice());
        BlockData {
            volume_id,
            block_id,
            data,
            checksum,
            encrypted: false,
            compression: None,
            timestamp: now_millis(),
        }
    }

    /// Whether the stored checksum matches the CRC-32 of the data.
    pub fn verify_checksum(&self) -> (ok: bool)
        ensures
            ok == (crc32_of(self.data@) == self.checksum),
    {
        crc32(self.data.as_slice()) == self.checksum
    }
}

/// A block just built from its data passes its checksum check, and keeps
/// passing it as long as neither the data nor the checksum change.
pub proof fn new_block_verifies(b: BlockData, data: Seq<u8>)
    requires
        b.data@ == data,
        b.checksum == crc32_of(data),
    ensures
        crc32_of(b.data@) == b.checksum,
{
}

/// One entry of the write-ahead journal.
#[derive(Debug)]
pub struct JournalEntry {
    pub id: u128,
    pub volume_id: u128,
    pub operation: String,
    /// Seconds since the Unix epoch.
    pub timestamp: u64,
    pub committed: bool,
    pub data: Vec<u8>,
}

impl JournalEntry {
    /// A new, uncommitted journal entry with a fresh random id.  The time is
    /// the clock's, in whole seconds (0 before the epoch).
    pub fn new(volume_id: u128, operation: String, data: Vec<u8>) -> (e: Self)
        ensures
            e.volume_id == volume_id,
            e.operation@ == operation@,
            !e.committed,
            e.data@ == data@,
    {
        let t = now_millis();
        let secs: u64 = if t < 0 { 0 } else { (t / 1000) as u64 };
        JournalEntry { id: new_uuid(), volume_id, operation, timestamp: secs, committed: false, data }
    }
}

/// One step of a block write.
#[derive(Clone, Copy, Debug, PartialEq, Eq, Structural)]
pub enum WriteStep {
    /// Record the write in the journal.
    JournalWrite,
    /// Write the block on the primary.
    WriteBlock,
    /// Flush the volume.
    Flush,
    /// Send the block to peers and wait for the concern's acknowledgements.
    ReplicateSynchronously,
    /// Send the block to peers without waiting.
    ReplicateAsynchronously,
    /// Mark the journal entry committed.
    CommitJournal,
}

/// The steps of a block write, in order, for a write concern and a
/// replication strategy.
pub open spec fn write_steps_spec(concern: WriteConcern, strategy: ReplicationStrategy) -> Seq<WriteStep> {
    match concern {
        WriteConcern::WriteAcknowledged => seq![
            WriteStep::JournalWrite,
            WriteStep::WriteBlock,
            WriteStep::CommitJournal,
        ],
        WriteConcern::WriteDurable => seq![
            WriteStep::JournalWrite,
            WriteStep::WriteBlock,
            WriteStep::Flush,
            WriteStep::CommitJournal,
        ],
        _ => seq![
            WriteStep::JournalWrite,
            WriteStep::WriteBlock,
            if strategy == ReplicationStrategy::Synchronous {
                WriteStep::ReplicateSynchronously
            } else {
                WriteStep::ReplicateAsynchronously
            },
            WriteStep::CommitJournal,
        ],
    }
}

/// The steps a block write takes: journal, write, then flush or replicate
/// as the write concern asks, then commit the journal entry.  A failing
/// step ends the write.
pub fn write_steps(concern: WriteConcern, strategy: ReplicationStrategy) -> (steps: Vec<WriteStep>)
    ensures
        steps@ == write_steps_spec(concern, strategy),
{
    let mut steps = Vec::new();
    steps.push(WriteStep::JournalWrite);
    steps.push(WriteStep::WriteBlock);
    match concern {
        WriteConcern::WriteAcknowledged => {},
        WriteConcern::WriteDurable => {
            steps.push(WriteStep::Flush);
        },
        _ => {
            match strategy {
                ReplicationStrategy::Synchronous => steps.push(WriteStep::ReplicateSynchronously),
                ReplicationStrategy::Asynchronous => steps.push(WriteStep::ReplicateAsynchronously),
            }
        },
    }
    steps.push(WriteStep::CommitJournal);
    assert(steps@ =~= write_steps_spec(concern, strategy));
    steps
}

/// Where a block write stands after some of its steps ran.
#[derive(Clone, Copy, Debug, PartialEq, Eq, Structural)]
pub enum WriteProgress {
    /// Take this step next.
    Run(WriteStep),
    /// The last step failed: the write ends with an error and no further
    /// step (flush, replication, commit) is taken.
    Failed,
    /// Every step ran: the write succeeded.
    Complete,
}

/// Where a block write stands once `done` of its steps ran, the last of
/// them with outcome `last_ok`: failed as soon as a step fails (a failing
/// step ends the write with an error), complete once every step ran,
/// otherwise at the next step in order.
pub fn next_write_step(steps: &Vec<WriteStep>, done: usize, last_ok: bool) -> (r: WriteProgress)
    requires
        done <= steps@.len(),
    ensures
        r == if done > 0 && !last_ok {
            WriteProgress::Failed
        } else if done == steps@.len() {
            WriteProgress::Complete
        } else {
            WriteProgress::Run(steps@[done as int])
        },
{
    if done > 0 && !last_ok {
        WriteProgress::Failed
    } else if done == steps.len() {
        WriteProgress::Complete
    } else {
        WriteProgress::Run(steps[done])
    }
}

/// The index of the first failed step, or the count of outcomes when none
/// failed.
pub open spec fn first_failure(outcomes: Seq<bool>) -> int
    decreases outcomes.len(),
{
    if outcomes.len() == 0 {
        0
    } else if !outcomes[0] {
        0
    } else {
        1 + first_failure(outcomes.drop_first())
    }
}

/// The steps a write takes when its steps end as `outcomes` say: each in
/// order, up to and including the first that fails.
pub open spec fn steps_taken(steps: Seq<WriteStep>, outcomes: Seq<bool>) -> Seq<WriteStep> {
    let k = first_failure(outcomes) + 1;
    steps.take(if k < steps.len() { k } else { steps.len() as int })
}

proof fn lemma_first_failure_nonneg(outcomes: Seq<bool>)
    ensures
        first_failure(outcomes) >= 0,
    decreases outcomes.len(),
{
    if outcomes.len() > 0 && outcomes[0] {
        lemma_first_failure_nonneg(outcomes.drop_first());
    }
}

/// A step that fails before the commit ends the write: the journal entry
/// is then never committed (and nothing after the failed step runs).
pub proof fn a_failed_step_ends_the_write(concern: WriteConcern, strategy: ReplicationStrategy, outcomes: Seq<bool>)
    requires
        first_failure(outcomes) < write_steps_spec(concern, strategy).len() - 1,
    ensures
        !steps_taken(write_steps_spec(concern, strategy), outcomes).contains(WriteStep::CommitJournal),
        steps_taken(write_steps_spec(concern, strategy), outcomes).len() == first_failure(outcomes) + 1,
{
    lemma_first_failure_nonneg(outcomes);
    let plan = write_steps_spec(concern, strategy);
    let t = steps_taken(plan, outcomes);
    assert forall|j: int| 0 <= j < plan.len() - 1 implies plan[j] != WriteStep::CommitJournal by {}
    if t.contains(WriteStep::CommitJournal) {
        let j = choose|j: int| 0 <= j < t.len() && t[j] == WriteStep::CommitJournal;
        assert(t[j] == plan[j]);
    }
}

/// A write that asks for replicas replicates synchronously exactly under
/// the synchronous strategy, and asynchronously exactly under the
/// asynchronous one; it never only flushes.
pub proof fn replicating_writes_follow_the_strategy(concern: WriteConcern, strategy: ReplicationStrategy)
    requires
        concern == WriteConcern::WriteReplicated || concern == WriteConcern::WriteDistributed,
    ensures
        write_steps_spec(concern, strategy).contains(WriteStep::ReplicateSynchronously)
            <==> strategy == ReplicationStrategy::Synchronous,
        write_steps_spec(concern, strategy).contains(WriteStep::ReplicateAsynchronously)
            <==> strategy == ReplicationStrategy::Asynchronous,
        !write_steps_spec(concern, strategy).contains(WriteStep::Flush),
{
    let p = write_steps_spec(concern, strategy);
    assert(p.len() == 4);
    assert(p[2] == WriteStep::ReplicateSynchronously || p[2] == WriteStep::ReplicateAsynchronously);
    if strategy == ReplicationStrategy::Synchronous {
        assert(p[2] == WriteStep::ReplicateSynchronously);
    } else {
        assert(p[2] == WriteStep::ReplicateAsynchronously);
    }
    if p.contains(WriteStep::ReplicateSynchronously) {
        let j = choose|j: int| 0 <= j < p.len() && p[j] == WriteStep::ReplicateSynchronously;
        assert(j == 2);
    }
    if p.contains(WriteStep::ReplicateAsynchronously) {
        let j = choose|j: int| 0 <= j < p.len() && p[j] == WriteStep::ReplicateAsynchronously;
        assert(j == 2);
    }
    if p.contains(WriteStep::Flush) {
        let j = choose|j: int| 0 <= j < p.len() && p[j] == WriteStep::Flush;
        assert(false);
    }
}

/// Every block write is journaled first and committed last.
pub proof fn writes_are_journaled_then_committed(concern: WriteConcern, strategy: ReplicationStrategy)
    ensures
        write_steps_spec(concern, strategy)[0] == WriteStep::JournalWrite,
        write_steps_spec(concern, strategy).last() == WriteStep::CommitJournal,
        write_steps_spec(concern, strategy).contains(WriteStep::WriteBlock),
{
    assert(write_steps_spec(concern, strategy)[1] == WriteStep::WriteBlock);
}

/// The name of a volume type as `{:?}` prints it.
pub open spec fn volume_type_name(t: VolumeType) -> Seq<char> {
    match t {
        VolumeType::Ephemeral => "Ephemeral"@,
        VolumeType::Persistent => "Persistent"@,
        VolumeType::Shared => "Shared"@,
    }
}

/// The name of a volume state as `{:?}` prints it.
pub open spec fn volume_state_name(s: VolumeState) -> Seq<char> {
    match s {
        VolumeState::Provisioning => "Provisioning"@,
        VolumeState::Available => "Available"@,
        VolumeState::Bound => "Bound"@,
        VolumeState::Mounted => "Mounted"@,
        VolumeState::Released => "Released"@,
        VolumeState::Snapshotting => "Snapshotting"@,
        VolumeState::Migrating => "Migrating"@,
        VolumeState::Failed => "Failed"@,
    }
}

/// The name of a volume type.
pub fn volume_type_str(t: VolumeType) -> (s: &'static str)
    ensures
        s@ == volume_type_name(t),
{
    match t {
        VolumeType::Ephemeral => "Ephemeral",
        VolumeType::Persistent => "Persistent",
        VolumeType::Shared => "Shared",
    }
}

/// The name of a volume state.
pub fn volume_state_str(st: VolumeState) -> (s: &'static str)
    ensures
        s@ == volume_state_name(st),
{
    match st {
        VolumeState::Provisioning => "Provisioning",
        VolumeState::Available => "Available",
        VolumeState::Bound => "Bound",
        VolumeState::Mounted => "Mounted",
        VolumeState::Released => "Released",
        VolumeState::Snapshotting => "Snapshotting",
        VolumeState::Migrating => "Migrating",
        VolumeState::Failed => "Failed",
    }
}

/// The name of an access mode as `{:?}` prints it.
pub open spec fn access_mode_name(m: AccessMode) -> Seq<char> {
    match m {
        AccessMode::ReadWriteOnce => "ReadWriteOnce"@,
        AccessMode::ReadOnlyMany => "ReadOnlyMany"@,
        AccessMode::ReadWriteMany => "ReadWriteMany"@,
    }
}

/// The names of access modes separated by `, `.
pub open spec fn access_mode_names(v: Seq<AccessMode>) -> Seq<char>
    decreases v.len(),
{
    if v.len() == 0 {
        Seq::empty()
    } else if v.len() == 1 {
        access_mode_name(v[0])
    } else {
        access_mode_names(v.drop_last()) + ", "@ + access_mode_name(v.last())
    }
}

/// A list of access modes as `{:?}` prints it: `[ReadWriteOnce, ...]`.
pub open spec fn access_modes_text(v: Seq<AccessMode>) -> Seq<char> {
    "["@ + access_mode_names(v) + "]"@
}

fn access_mode_str(m: AccessMode) -> (s: &'static str)
    ensures
        s@ == access_mode_name(m),
{
    match m {
        AccessMode::ReadWriteOnce => "ReadWriteOnce",
        AccessMode::ReadOnlyMany => "ReadOnlyMany",
        AccessMode::ReadWriteMany => "ReadWriteMany",
    }
}

/// The text `{:?}` prints for a list of access modes.
pub fn access_modes_string(v: &Vec<AccessMode>) -> (s: String)
    ensures
        s@ == access_modes_text(v@),
{
    let mut s = "[".to_owned();
    let mut i: usize = 0;
    while i < v.len()
        invariant
            i <= v@.len(),
            s@ == "["@ + access_mode_names(v@.subrange(0, i as int)),
        decreases v.len() - i,
    {
        let ghost s0 = s@;
        if i > 0 {
            crate::text::append_str(&mut s, ", ");
        }
        crate::text::append_str(&mut s, access_mode_str(v[i]));
        proof {
            let w = v@.subrange(0, i + 1);
            assert(w.drop_last() =~= v@.subrange(0, i as int));
            if i == 0 {
                assert(v@.subrange(0, 0) =~= Seq::<AccessMode>::empty());
                assert(s@ =~= "["@ + access_mode_names(w));
            } else {
                assert(s@ =~= "["@ + access_mode_names(w));
            }
        }
        i += 1;
    }
    assert(v@.subrange(0, v@.len() as int) =~= v@);
    crate::text::append_str(&mut s, "]");
    s
}

} // verus!
