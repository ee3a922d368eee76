//! The file system service as a whole: the storage engine's registry, the
//! storage classes and claims it knows, the peers it replicates to, and
//! the plan of a block write.
use vstd::prelude::*;
use crate::{
    AccessMode, BlockData, VolumeSnapshot, JournalEntry, PersistenceLevel, PersistentVolumeClaim, ReplicationStrategy,
    StorageClass, Volume, VolumeState, VolumeType, WriteConcern, WriteStep,
};
use crate::external::{crc32_of, new_uuid};
use crate::labels::{labels_view, strings_view};
use crate::storage::{
    changed_one, distinct_nodes, same_snapshot, snapshots_of, updated_one, volume_with_id, without_snapshot, FileStorageEngine,
    StorageError,
};
use crate::text::{
    append_chars, append_str, clone_opt_string, clone_pairs, clone_strings, decimal, decimal_chars,
    uuid_chars, uuid_text,
};
use crate::volume_mount::VolumeMountManager;

verus! {

/// Two volume records that hold the same values.
pub open spec fn same_volume(a: Volume, b: Volume) -> bool {
    &&& a.id == b.id
    &&& a.name@ == b.name@
    &&& a.volume_type == b.volume_type
    &&& a.state == b.state
    &&& a.size_bytes == b.size_bytes
    &&& a.access_modes@ == b.access_modes@
    &&& a.storage_class@ == b.storage_class@
    &&& labels_view(a.labels@) == labels_view(b.labels@)
    &&& a.created_at == b.created_at
    &&& a.updated_at == b.updated_at
    &&& strings_view(a.attached_nodes@) == strings_view(b.attached_nodes@)
    &&& a.mount_path == b.mount_path
    &&& a.claim_ref == b.claim_ref
}

/// A copy of a list of access modes.
pub fn copy_modes(v: &Vec<AccessMode>) -> (r: Vec<AccessMode>)
    ensures
        r@ == v@,
{
    let mut r: Vec<AccessMode> = Vec::new();
    let mut i: usize = 0;
    while i < v.len()
        invariant
            i <= v@.len(),
            r@ == v@.subrange(0, i as int),
        decreases v.len() - i,
    {
        r.push(v[i]);
        i += 1;
        assert(r@ =~= v@.subrange(0, i as int));
    }
    assert(v@.subrange(0, v@.len() as int) =~= v@);
    r
}

/// A copy of a volume record.
pub fn copy_volume(v: &Volume) -> (r: Volume)
    ensures
        same_volume(r, *v),
{
    Volume {
        id: v.id,
        name: v.name.clone(),
        volume_type: v.volume_type,
        state: v.state,
        size_bytes: v.size_bytes,
        access_modes: copy_modes(&v.access_modes),
        storage_class: v.storage_class.clone(),
        labels: clone_pairs(&v.labels),
        created_at: v.created_at,
        updated_at: v.updated_at,
        attached_nodes: clone_strings(&v.attached_nodes),
        mount_path: clone_opt_string(&v.mount_path),
        claim_ref: clone_opt_string(&v.claim_ref),
    }
}

/// Copies of a list of volume records, in order.
pub fn copy_volumes(v: &Vec<Volume>) -> (r: Vec<Volume>)
    ensures
        r@.len() == v@.len(),
        forall|i: int| 0 <= i < v@.len() ==> same_volume(#[trigger] r@[i], v@[i]),
{
    let mut r: Vec<Volume> = Vec::new();
    let mut i: usize = 0;
    while i < v.len()
        invariant
            i <= v@.len(),
            r@.len() == i,
            forall|t: int| 0 <= t < i ==> same_volume(#[trigger] r@[t], v@[t]),
        decreases v.len() - i,
    {
        r.push(copy_volume(&v[i]));
        i += 1;
    }
    r
}

/// Two storage classes that hold the same values.
pub open spec fn same_class(a: StorageClass, b: StorageClass) -> bool {
    &&& a.name@ == b.name@
    &&& a.provisioner@ == b.provisioner@
    &&& labels_view(a.parameters@) == labels_view(b.parameters@)
    &&& a.reclaim_policy == b.reclaim_policy
    &&& a.volume_binding_mode == b.volume_binding_mode
    &&& strings_view(a.allowed_topologies@) == strings_view(b.allowed_topologies@)
    &&& strings_view(a.mount_options@) == strings_view(b.mount_options@)
}

/// A copy of a storage class.
pub fn copy_class(c: &StorageClass) -> (r: StorageClass)
    ensures
        same_class(r, *c),
{
    StorageClass {
        name: c.name.clone(),
        provisioner: c.provisioner.clone(),
        parameters: clone_pairs(&c.parameters),
        reclaim_policy: c.reclaim_policy,
        volume_binding_mode: c.volume_binding_mode,
        allowed_topologies: clone_strings(&c.allowed_topologies),
        mount_options: clone_strings(&c.mount_options),
    }
}

/// Copies of a list of storage classes, in order.
pub fn copy_classes(v: &Vec<StorageClass>) -> (r: Vec<StorageClass>)
    ensures
        r@.len() == v@.len(),
        forall|i: int| 0 <= i < v@.len() ==> same_class(#[trigger] r@[i], v@[i]),
{
    let mut r: Vec<StorageClass> = Vec::new();
    let mut i: usize = 0;
    while i < v.len()
        invariant
            i <= v@.len(),
            r@.len() == i,
            forall|t: int| 0 <= t < i ==> same_class(#[trigger] r@[t], v@[t]),
        decreases v.len() - i,
    {
        r.push(copy_class(&v[i]));
        i += 1;
    }
    r
}

/// `s` without the elements equal to `x`, in order.
pub open spec fn without_text(s: Seq<Seq<char>>, x: Seq<char>) -> Seq<Seq<char>>
    decreases s.len(),
{
    if s.len() == 0 {
        s
    } else if s.last() == x {
        without_text(s.drop_last(), x)
    } else {
        without_text(s.drop_last(), x).push(s.last())
    }
}

/// How many acknowledged replicas a synchronous write waits for: one for
/// a replicated write, every peer (at least one) for a distributed write,
/// none otherwise.
pub open spec fn required_replicas_spec(concern: WriteConcern, peers: nat) -> nat {
    match concern {
        WriteConcern::WriteReplicated => 1,
        WriteConcern::WriteDistributed => if peers > 1 { peers } else { 1 },
        _ => 0,
    }
}

/// The peers blocks and new volumes are replicated to.
#[derive(Debug)]
pub struct ReplicationService {
    peer_addresses: Vec<String>,
}

/// The acknowledgements a synchronous replication has collected.
#[derive(Clone, Copy, Debug, PartialEq, Eq, Structural)]
pub struct ReplicaTally {
    pub required: usize,
    pub successful: usize,
}

impl ReplicaTally {
    /// Whether enough replicas acknowledged.
    pub fn done(&self) -> (b: bool)
        ensures
            b == (self.successful >= self.required),
    {
        self.successful >= self.required
    }

    /// Counts one peer's answer: a successful acknowledgement adds one.
    pub fn record_ack(&mut self, success: bool)
        requires
            old(self).successful < usize::MAX,
        ensures
            final(self).required == old(self).required,
            final(self).successful == old(self).successful + if success { 1int } else { 0int },
    {
        if success {
            self.successful = self.successful + 1;
        }
    }

    /// The outcome once every peer was tried or enough acknowledged: an
    /// error with the required and successful counts when too few did.
    pub fn outcome(&self) -> (r: Result<(), (usize, usize)>)
        ensures
            self.successful >= self.required ==> r == Ok::<(), (usize, usize)>(()),
            self.successful < self.required ==> r == Err::<(), (usize, usize)>((self.required, self.successful)),
    {
        if self.successful < self.required {
            Err((self.required, self.successful))
        } else {
            Ok(())
        }
    }
}

impl ReplicationService {
    /// The peer addresses, in order.
    pub closed spec fn peers_view(&self) -> Seq<Seq<char>> {
        strings_view(self.peer_addresses@)
    }

    /// A service replicating to `peer_addresses`.
    pub fn new(peer_addresses: Vec<String>) -> (s: Self)
        ensures
            s.peers_view() == strings_view(peer_addresses@),
    {
        ReplicationService { peer_addresses }
    }

    /// Replaces the peer list.
    pub fn update_peer_addresses(&mut self, new_peer_addresses: Vec<String>)
        ensures
            final(self).peers_view() == strings_view(new_peer_addresses@),
    {
        self.peer_addresses = new_peer_addresses;
    }

    /// Adds a peer at the end unless it is listed already.
    pub fn add_peer_address(&mut self, peer_address: String)
        ensures
            final(self).peers_view() == if old(self).peers_view().contains(peer_address@) {
                old(self).peers_view()
            } else {
                old(self).peers_view().push(peer_address@)
            },
    {
        if !crate::labels::contains_string(&self.peer_addresses, &peer_address) {
            let ghost p0 = self.peer_addresses@;
            self.peer_addresses.push(peer_address);
            assert(strings_view(self.peer_addresses@) =~= strings_view(p0).push(peer_address@));
        }
    }

    /// Removes every occurrence of a peer.
    pub fn remove_peer_address(&mut self, peer_address: &str)
        ensures
            final(self).peers_view() == without_text(old(self).peers_view(), peer_address@),
    {
        let ghost p0 = strings_view(self.peer_addresses@);
        let mut kept: Vec<String> = Vec::new();
        let mut i: usize = 0;
        while i < self.peer_addresses.len()
            invariant
                i <= self.peer_addresses@.len(),
                p0 == strings_view(self.peer_addresses@),
                strings_view(kept@) == without_text(p0.subrange(0, i as int), peer_address@),
            decreases self.peer_addresses.len() - i,
        {
            assert(p0.subrange(0, i + 1).drop_last() =~= p0.subrange(0, i as int));
            if !crate::text::str_eq(&self.peer_addresses[i], peer_address) {
                let ghost k0 = kept@;
                kept.push(self.peer_addresses[i].clone());
                assert(strings_view(kept@) =~= strings_view(k0).push(p0[i as int]));
            }
            i += 1;
        }
        assert(p0.subrange(0, p0.len() as int) =~= p0);
        self.peer_addresses = kept;
    }

    /// The peer addresses, in order.
    pub fn get_peer_addresses(&self) -> (r: Vec<String>)
        ensures
            strings_view(r@) == self.peers_view(),
    {
        clone_strings(&self.peer_addresses)
    }

    /// The tally a synchronous replication of a write starts from: the
    /// replicas the concern needs given the current peers, none yet.
    pub fn begin_synchronous(&self, write_concern: WriteConcern) -> (t: ReplicaTally)
        ensures
            t.required == required_replicas_spec(write_concern, self.peers_view().len()),
            t.successful == 0,
    {
        let n = self.peer_addresses.len();
        let required: usize = match write_concern {
            WriteConcern::WriteReplicated => 1,
            WriteConcern::WriteDistributed => if n > 1 { n } else { 1 },
            _ => 0,
        };
        ReplicaTally { required, successful: 0 }
    }
}

/// What a synchronous replication does next, given the tally so far and
/// the index of the next peer in the list.
#[derive(Debug, PartialEq, Eq)]
pub enum ReplicationStep {
    /// Send the block to the peer at this index and read its answer.
    Contact(usize),
    /// Stop: the outcome of the replication.
    Finish(Result<(), (usize, usize)>),
}

/// The step a synchronous replication over `peer_count` peers takes once
/// the peers before `next` were tried: nothing is sent when no replica is
/// required; otherwise the peers are tried in list order, one at a time,
/// and the replication stops as soon as enough acknowledged or the list
/// is exhausted, failing with the required and successful counts when too
/// few did.
pub fn replication_next(peer_count: usize, next: usize, tally: &ReplicaTally) -> (s: ReplicationStep)
    requires
        next <= peer_count,
    ensures
        tally.required == 0 ==> s == ReplicationStep::Finish(Ok(())),
        tally.required > 0 && tally.successful < tally.required && next < peer_count ==> s == ReplicationStep::Contact(next),
        tally.required > 0 && tally.successful >= tally.required ==> s == ReplicationStep::Finish(Ok(())),
        tally.required > 0 && tally.successful < tally.required && next == peer_count
            ==> s == ReplicationStep::Finish(Err((tally.required, tally.successful))),
{
    if tally.required == 0 {
        return ReplicationStep::Finish(Ok(()));
    }
    if tally.successful >= tally.required || next >= peer_count {
        ReplicationStep::Finish(tally.outcome())
    } else {
        ReplicationStep::Contact(next)
    }
}

/// A message between replicating nodes.
#[derive(Debug)]
pub enum ReplicationMessage {
    WriteBlock(BlockData),
    WriteAck { block_id: u64, success: bool },
    CreateVolume(Volume),
    VolumeCreated { volume_id: u128, success: bool },
    Heartbeat,
    HeartbeatAck,
}

/// Whether a peer's answer to a block sent for replication acknowledges it.
pub fn ack_counts(answer: &Option<ReplicationMessage>) -> (b: bool)
    ensures
        b == (*answer matches Some(ReplicationMessage::WriteAck { success, .. }) && success),
{
    match answer {
        Some(ReplicationMessage::WriteAck { success, .. }) => *success,
        _ => false,
    }
}

/// What a replica does with a message it received.
#[derive(Debug)]
pub enum ReplicaStep {
    /// Store the block, then answer with `replica_ack`.
    Store(BlockData),
    /// Create the volume, then answer with `replica_ack`.
    Create(Volume),
    /// Answer at once.
    Reply(ReplicationMessage),
    /// Nothing to do.
    Ignore,
}

/// The replica side of synchronous replication: a block whose checksum
/// verifies is stored, one whose checksum does not is refused with a
/// failed acknowledgement; a volume is created; a heartbeat is answered;
/// anything else is ignored.
pub fn replica_step(m: ReplicationMessage) -> (s: ReplicaStep)
    ensures
        match m {
            ReplicationMessage::WriteBlock(b) => if crc32_of(b.data@) == b.checksum {
                s == ReplicaStep::Store(b)
            } else {
                s == ReplicaStep::Reply(ReplicationMessage::WriteAck { block_id: b.block_id, success: false })
            },
            ReplicationMessage::CreateVolume(v) => s == ReplicaStep::Create(v),
            ReplicationMessage::Heartbeat => s == ReplicaStep::Reply(ReplicationMessage::HeartbeatAck),
            _ => s == ReplicaStep::Ignore,
        },
{
    match m {
        ReplicationMessage::WriteBlock(b) => {
            if b.verify_checksum() {
                ReplicaStep::Store(b)
            } else {
                let block_id = b.block_id;
                ReplicaStep::Reply(ReplicationMessage::WriteAck { block_id, success: false })
            }
        },
        ReplicationMessage::CreateVolume(v) => ReplicaStep::Create(v),
        ReplicationMessage::Heartbeat => ReplicaStep::Reply(ReplicationMessage::HeartbeatAck),
        _ => ReplicaStep::Ignore,
    }
}

/// The answer a replica sends once it stored a block or created a volume,
/// with whether that succeeded; other messages get none.
pub fn replica_ack(m: &ReplicationMessage, done: bool) -> (r: Option<ReplicationMessage>)
    ensures
        match *m {
            ReplicationMessage::WriteBlock(b) => r == Some(ReplicationMessage::WriteAck { block_id: b.block_id, success: done }),
            ReplicationMessage::CreateVolume(v) => r == Some(ReplicationMessage::VolumeCreated { volume_id: v.id, success: done }),
            _ => r is None,
        },
{
    match m {
        ReplicationMessage::WriteBlock(b) => Some(ReplicationMessage::WriteAck { block_id: b.block_id, success: done }),
        ReplicationMessage::CreateVolume(v) => Some(ReplicationMessage::VolumeCreated { volume_id: v.id, success: done }),
        _ => None,
    }
}

/// Adding a peer twice leaves the same list as adding it once, and a
/// removed peer is no longer listed.
pub proof fn peer_list_laws(peers: Seq<Seq<char>>, p: Seq<char>)
    ensures
        ({
            let once = if peers.contains(p) { peers } else { peers.push(p) };
            let twice = if once.contains(p) { once } else { once.push(p) };
            twice == once
        }),
        !without_text(peers, p).contains(p),
    decreases peers.len(),
{
    let once = if peers.contains(p) { peers } else { peers.push(p) };
    if !peers.contains(p) {
        assert(once[once.len() - 1] == p);
    }
    lemma_without_text_excludes(peers, p);
}

proof fn lemma_without_text_excludes(s: Seq<Seq<char>>, x: Seq<char>)
    ensures
        !without_text(s, x).contains(x),
    decreases s.len(),
{
    if s.len() > 0 {
        lemma_without_text_excludes(s.drop_last(), x);
        let w = without_text(s.drop_last(), x);
        if s.last() != x {
            assert forall|i: int| 0 <= i < w.push(s.last()).len() implies w.push(s.last())[i] != x by {
                if i < w.len() {
                    assert(w.push(s.last())[i] == w[i]);
                }
            }
        }
    }
}

/// Index of the storage class named `name`, or -1.
pub open spec fn class_index(s: Seq<StorageClass>, name: Seq<char>) -> int {
    if exists|i: int| 0 <= i < s.len() && s[i].name@ == name {
        choose|i: int| 0 <= i < s.len() && s[i].name@ == name
    } else {
        -1
    }
}

/// The storage class named `name`, if any.
pub open spec fn class_named(s: Seq<StorageClass>, name: Seq<char>) -> Option<StorageClass> {
    let i = class_index(s, name);
    if i >= 0 { Some(s[i]) } else { None }
}

/// No two storage classes share a name.
pub open spec fn distinct_class_names(s: Seq<StorageClass>) -> bool {
    forall|i: int, j: int| 0 <= i < s.len() && 0 <= j < s.len() && i != j ==> s[i].name@ != s[j].name@
}

/// Index of the claim with id `id`, or -1.
pub open spec fn claim_index(s: Seq<PersistentVolumeClaim>, id: u128) -> int {
    if exists|i: int| 0 <= i < s.len() && s[i].id == id {
        choose|i: int| 0 <= i < s.len() && s[i].id == id
    } else {
        -1
    }
}

/// The claim with id `id`, if any.
pub open spec fn claim_with_id(s: Seq<PersistentVolumeClaim>, id: u128) -> Option<PersistentVolumeClaim> {
    let i = claim_index(s, id);
    if i >= 0 { Some(s[i]) } else { None }
}

/// No two claims share an id.
pub open spec fn distinct_claim_ids(s: Seq<PersistentVolumeClaim>) -> bool {
    forall|i: int, j: int| 0 <= i < s.len() && 0 <= j < s.len() && i != j ==> s[i].id != s[j].id
}

proof fn lemma_class_index(s: Seq<StorageClass>, name: Seq<char>, i: int)
    requires
        distinct_class_names(s),
        0 <= i < s.len(),
        s[i].name@ == name,
    ensures
        class_index(s, name) == i,
{
}

proof fn lemma_claim_index(s: Seq<PersistentVolumeClaim>, id: u128, i: int)
    requires
        distinct_claim_ids(s),
        0 <= i < s.len(),
        s[i].id == id,
    ensures
        claim_index(s, id) == i,
{
}

/// The text of a block write's journal operation:
/// `WRITE:<volume id>:<block>`.
pub open spec fn write_op_text(volume_id: u128, block_id: u64) -> Seq<char> {
    "WRITE:"@ + uuid_text(volume_id) + ":"@ + decimal(block_id as nat)
}

/// A block write is journaled as an operation that recovery replays to
/// the same block: the entry `write_block` plans, left uncommitted, is
/// one of the writes `recover_from_journal` gives back for its volume.
pub proof fn journaled_write_replays_to_its_block(volume_id: u128, block_id: u64)
    ensures
        crate::storage::write_op_block(write_op_text(volume_id, block_id)) == Some(block_id),
{
    crate::storage::lemma_write_op_reads_back(volume_id, block_id);
}

/// The name a volume created on request gets: `vol-` and a fresh id.
pub open spec fn generated_volume_name(name: Seq<char>) -> bool {
    exists|u: u128| name == "vol-"@ + uuid_text(u)
}

/// The storage service: a storage engine's registry, storage classes,
/// claims and the replication peers.
#[derive(Debug)]
pub struct GalleonFS {
    storage_engine: FileStorageEngine,
    storage_classes: Vec<StorageClass>,
    volume_claims: Vec<PersistentVolumeClaim>,
    replication_service: ReplicationService,
    replication_strategy: ReplicationStrategy,
    persistence_level: PersistenceLevel,
}

impl GalleonFS {
    /// The engine's registry is well formed, class names and claim ids are
    /// distinct.
    pub open spec fn wf(&self) -> bool {
        &&& self.engine_view().wf()
        &&& distinct_class_names(self.classes_view())
        &&& distinct_claim_ids(self.claims_view())
    }

    pub closed spec fn engine_view(&self) -> FileStorageEngine {
        self.storage_engine
    }

    /// The storage classes, in the order first created.
    pub closed spec fn classes_view(&self) -> Seq<StorageClass> {
        self.storage_classes@
    }

    /// The claims, in the order first created.
    pub closed spec fn claims_view(&self) -> Seq<PersistentVolumeClaim> {
        self.volume_claims@
    }

    /// The replication peers.
    pub closed spec fn peers_view(&self) -> Seq<Seq<char>> {
        self.replication_service.peers_view()
    }

    pub closed spec fn strategy_view(&self) -> ReplicationStrategy {
        self.replication_strategy
    }

    pub closed spec fn persistence_view(&self) -> PersistenceLevel {
        self.persistence_level
    }

    /// A service over `storage_engine` with no classes or claims,
    /// replicating to `peer_addresses`.
    pub fn new(
        storage_engine: FileStorageEngine,
        replication_strategy: ReplicationStrategy,
        persistence_level: PersistenceLevel,
        peer_addresses: Vec<String>,
    ) -> (g: Self)
        requires
            storage_engine.wf(),
        ensures
            g.wf(),
            g.engine_view() == storage_engine,
            g.classes_view().len() == 0,
            g.claims_view().len() == 0,
            g.peers_view() == strings_view(peer_addresses@),
            g.strategy_view() == replication_strategy,
            g.persistence_view() == persistence_level,
    {
        GalleonFS {
            storage_engine,
            storage_classes: Vec::new(),
            volume_claims: Vec::new(),
            replication_service: ReplicationService::new(peer_addresses),
            replication_strategy,
            persistence_level,
        }
    }

    /// The storage engine's registry.
    pub fn storage_engine(&self) -> (e: &FileStorageEngine)
        ensures
            *e == self.engine_view(),
    {
        &self.storage_engine
    }

    fn find_class(&self, name: &str) -> (r: Option<usize>)
        requires
            self.wf(),
        ensures
            match r {
                Some(i) => i < self.classes_view().len() && class_index(self.classes_view(), name@) == i,
                None => class_index(self.classes_view(), name@) == -1,
            },
    {
        let mut i: usize = 0;
        while i < self.storage_classes.len()
            invariant
                i <= self.storage_classes@.len(),
                self.wf(),
                forall|t: int| 0 <= t < i ==> self.storage_classes@[t].name@ != name@,
            decreases self.storage_classes.len() - i,
        {
            if crate::text::str_eq(&self.storage_classes[i].name, name) {
                proof {
                    lemma_class_index(self.storage_classes@, name@, i as int);
                }
                return Some(i);
            }
            i += 1;
        }
        None
    }

    /// Adds a storage class; one with the same name is replaced.
    pub fn create_storage_class(&mut self, storage_class: StorageClass)
        requires
            old(self).wf(),
        ensures
            final(self).wf(),
            class_named(final(self).classes_view(), storage_class.name@) == Some(storage_class),
            forall|n: Seq<char>| n != storage_class.name@ ==> class_named(final(self).classes_view(), n)
                == class_named(old(self).classes_view(), n),
            final(self).engine_view() == old(self).engine_view(),
            final(self).claims_view() == old(self).claims_view(),
            final(self).peers_view() == old(self).peers_view(),
    {
        let ghost c0 = self.storage_classes@;
        let ghost name = storage_class.name@;
        match self.find_class(storage_class.name.as_str()) {
            Some(i) => {
                self.storage_classes.set(i, storage_class);
                proof {
                    let c1 = self.storage_classes@;
                    assert(distinct_class_names(c1)) by {
                        assert forall|a: int, b: int| 0 <= a < c1.len() && 0 <= b < c1.len() && a != b implies c1[a].name@ != c1[b].name@ by {
                            if a != i && b != i {
                                assert(c1[a] == c0[a] && c1[b] == c0[b]);
                            } else if a == i {
                                assert(c1[b] == c0[b]);
                                assert(c0[i as int].name@ == name);
                            } else {
                                assert(c1[a] == c0[a]);
                                assert(c0[i as int].name@ == name);
                            }
                        }
                    }
                    lemma_class_index(c1, name, i as int);
                    assert forall|n: Seq<char>| n != name implies class_named(c1, n) == class_named(c0, n) by {
                        if exists|k: int| 0 <= k < c0.len() && c0[k].name@ == n {
                            let k = choose|k: int| 0 <= k < c0.len() && c0[k].name@ == n;
                            lemma_class_index(c0, n, k);
                            assert(k != i);
                            assert(c1[k] == c0[k]);
                            lemma_class_index(c1, n, k);
                        } else {
                            assert forall|k: int| 0 <= k < c1.len() implies c1[k].name@ != n by {
                                if k != i {
                                    assert(c1[k] == c0[k]);
                                }
                            }
                        }
                    }
                }
            },
            None => {
                self.storage_classes.push(storage_class);
                proof {
                    let c1 = self.storage_classes@;
                    assert(distinct_class_names(c1)) by {
                        assert forall|a: int, b: int| 0 <= a < c1.len() && 0 <= b < c1.len() && a != b implies c1[a].name@ != c1[b].name@ by {
                            if a < c0.len() && b < c0.len() {
                                assert(c1[a] == c0[a] && c1[b] == c0[b]);
                            } else if a < c0.len() {
                                assert(c1[a] == c0[a]);
                            } else {
                                assert(c1[b] == c0[b]);
                            }
                        }
                    }
                    lemma_class_index(c1, name, c0.len() as int);
                    assert forall|n: Seq<char>| n != name implies class_named(c1, n) == class_named(c0, n) by {
                        if exists|k: int| 0 <= k < c0.len() && c0[k].name@ == n {
                            let k = choose|k: int| 0 <= k < c0.len() && c0[k].name@ == n;
                            lemma_class_index(c0, n, k);
                            assert(c1[k] == c0[k]);
                            lemma_class_index(c1, n, k);
                        } else {
                            assert forall|k: int| 0 <= k < c1.len() implies c1[k].name@ != n by {
                                if k < c0.len() {
                                    assert(c1[k] == c0[k]);
                                }
                            }
                        }
                    }
                }
            },
        }
    }

    /// The storage class named `name`.
    pub fn get_storage_class(&self, name: &str) -> (r: Option<&StorageClass>)
        requires
            self.wf(),
        ensures
            match r {
                Some(c) => class_named(self.classes_view(), name@) == Some(*c),
                None => class_named(self.classes_view(), name@) is None,
            },
    {
        match self.find_class(name) {
            Some(i) => Some(&self.storage_classes[i]),
            None => None,
        }
    }

    /// All storage classes.
    pub fn list_storage_classes(&self) -> (r: &Vec<StorageClass>)
        ensures
            r@ == self.classes_view(),
    {
        &self.storage_classes
    }

    fn find_claim(&self, id: u128) -> (r: Option<usize>)
        requires
            self.wf(),
        ensures
            match r {
                Some(i) => i < self.claims_view().len() && claim_index(self.claims_view(), id) == i,
                None => claim_index(self.claims_view(), id) == -1,
            },
    {
        let mut i: usize = 0;
        while i < self.volume_claims.len()
            invariant
                i <= self.volume_claims@.len(),
                self.wf(),
                forall|t: int| 0 <= t < i ==> self.volume_claims@[t].id != id,
            decreases self.volume_claims.len() - i,
        {
            if self.volume_claims[i].id == id {
                proof {
                    lemma_claim_index(self.volume_claims@, id, i as int);
                }
                return Some(i);
            }
            i += 1;
        }
        None
    }

    /// Records a claim (one with the same id is replaced) and gives its id.
    pub fn create_volume_claim(&mut self, claim: PersistentVolumeClaim) -> (id: u128)
        requires
            old(self).wf(),
        ensures
            final(self).wf(),
            id == claim.id,
            claim_with_id(final(self).claims_view(), id) == Some(claim),
            forall|other: u128| other != id ==> claim_with_id(final(self).claims_view(), other)
                == claim_with_id(old(self).claims_view(), other),
            final(self).engine_view() == old(self).engine_view(),
            final(self).classes_view() == old(self).classes_view(),
            final(self).peers_view() == old(self).peers_view(),
    {
        let ghost c0 = self.volume_claims@;
        let id = claim.id;
        match self.find_claim(id) {
            Some(i) => {
                self.volume_claims.set(i, claim);
                proof {
                    let c1 = self.volume_claims@;
                    assert(distinct_claim_ids(c1)) by {
                        assert forall|a: int, b: int| 0 <= a < c1.len() && 0 <= b < c1.len() && a != b implies c1[a].id != c1[b].id by {
                            if a != i {
                                assert(c1[a] == c0[a]);
                            }
                            if b != i {
                                assert(c1[b] == c0[b]);
                            }
                        }
                    }
                    lemma_claim_index(c1, id, i as int);
                    assert forall|o: u128| o != id implies claim_with_id(c1, o) == claim_with_id(c0, o) by {
                        if exists|k: int| 0 <= k < c0.len() && c0[k].id == o {
                            let k = choose|k: int| 0 <= k < c0.len() && c0[k].id == o;
                            lemma_claim_index(c0, o, k);
                            assert(c1[k] == c0[k]);
                            lemma_claim_index(c1, o, k);
                        } else {
                            assert forall|k: int| 0 <= k < c1.len() implies c1[k].id != o by {
                                if k != i {
                                    assert(c1[k] == c0[k]);
                                }
                            }
                        }
                    }
                }
            },
            None => {
                self.volume_claims.push(claim);
                proof {
                    let c1 = self.volume_claims@;
                    assert(distinct_claim_ids(c1)) by {
                        assert forall|a: int, b: int| 0 <= a < c1.len() && 0 <= b < c1.len() && a != b implies c1[a].id != c1[b].id by {
                            if a < c0.len() {
                                assert(c1[a] == c0[a]);
                            }
                            if b < c0.len() {
                                assert(c1[b] == c0[b]);
                            }
                        }
                    }
                    lemma_claim_index(c1, id, c0.len() as int);
                    assert forall|o: u128| o != id implies claim_with_id(c1, o) == claim_with_id(c0, o) by {
                        if exists|k: int| 0 <= k < c0.len() && c0[k].id == o {
                            let k = choose|k: int| 0 <= k < c0.len() && c0[k].id == o;
                            lemma_claim_index(c0, o, k);
                            assert(c1[k] == c0[k]);
                            lemma_claim_index(c1, o, k);
                        } else {
                            assert forall|k: int| 0 <= k < c1.len() implies c1[k].id != o by {
                                if k < c0.len() {
                                    assert(c1[k] == c0[k]);
                                }
                            }
                        }
                    }
                }
            },
        }
        id
    }

    /// The claim with id `claim_id`.
    pub fn get_volume_claim(&self, claim_id: u128) -> (r: Option<&PersistentVolumeClaim>)
        requires
            self.wf(),
        ensures
            match r {
                Some(c) => claim_with_id(self.claims_view(), claim_id) == Some(*c),
                None => claim_with_id(self.claims_view(), claim_id) is None,
            },
    {
        match self.find_claim(claim_id) {
            Some(i) => Some(&self.volume_claims[i]),
            None => None,
        }
    }
    /// The volume a create request makes, before its file exists: named
    /// `vol-` and a fresh id, of the given type, size and class, being
    /// provisioned.  The caller creates its file and then records it with
    /// `create_volume`.
    pub fn new_volume(&self, volume_type: VolumeType, size_bytes: u64, storage_class: String) -> (v: Volume)
        ensures
            generated_volume_name(v.name@),
            v.volume_type == volume_type,
            v.size_bytes == size_bytes,
            v.storage_class@ == storage_class@,
            v.state == VolumeState::Provisioning,
            v.access_modes@ == seq![AccessMode::ReadWriteOnce],
            v.labels@.len() == 0,
            v.attached_nodes@.len() == 0,
            v.mount_path is None,
            v.claim_ref is None,
    {
        let u = new_uuid();
        let mut name = "vol-".to_owned();
        let idc = uuid_chars(u);
        append_chars(&mut name, idc.as_slice());
        assert(name@ == "vol-"@ + uuid_text(u));
        Volume::new(name, volume_type, size_bytes, storage_class)
    }

    /// Records a volume whose file was just created and gives its record:
    /// the volume, available, updated at `now`.
    pub fn create_volume(&mut self, volume: Volume, now: i64) -> (r: Volume)
        requires
            old(self).wf(),
            distinct_nodes(volume),
        ensures
            final(self).wf(),
            same_volume(r, Volume { state: VolumeState::Available, updated_at: now, ..volume }),
            volume_with_id(final(self).engine_view().volumes_view(), volume.id) == Some(
                Volume { state: VolumeState::Available, updated_at: now, ..volume },
            ),
            forall|id: u128| id != volume.id ==> volume_with_id(final(self).engine_view().volumes_view(), id)
                == volume_with_id(old(self).engine_view().volumes_view(), id),
            final(self).classes_view() == old(self).classes_view(),
            final(self).claims_view() == old(self).claims_view(),
            final(self).peers_view() == old(self).peers_view(),
    {
        let record = copy_volume(&volume);
        self.storage_engine.create_volume(volume, now);
        let mut record = record;
        record.state = VolumeState::Available;
        record.updated_at = now;
        record
    }

    /// Forgets a volume after its file was removed.
    pub fn delete_volume(&mut self, volume_id: u128)
        requires
            old(self).wf(),
        ensures
            final(self).wf(),
            volume_with_id(final(self).engine_view().volumes_view(), volume_id) is None,
            forall|id: u128| id != volume_id ==> volume_with_id(final(self).engine_view().volumes_view(), id)
                == volume_with_id(old(self).engine_view().volumes_view(), id),
            final(self).classes_view() == old(self).classes_view(),
            final(self).claims_view() == old(self).claims_view(),
            final(self).peers_view() == old(self).peers_view(),
    {
        self.storage_engine.delete_volume(volume_id);
    }

    /// A copy of the volume with id `volume_id`.
    pub fn get_volume(&self, volume_id: u128) -> (r: Option<Volume>)
        requires
            self.wf(),
        ensures
            match volume_with_id(self.engine_view().volumes_view(), volume_id) {
                Some(v) => r matches Some(c) && same_volume(c, v),
                None => r is None,
            },
    {
        match self.storage_engine.get_volume(volume_id) {
            Some(v) => Some(copy_volume(v)),
            None => None,
        }
    }

    /// Copies of all volumes, in registration order.
    pub fn list_volumes(&self) -> (r: Vec<Volume>)
        ensures
            r@.len() == self.engine_view().volumes_view().len(),
            forall|i: int| 0 <= i < r@.len() ==> same_volume(#[trigger] r@[i], self.engine_view().volumes_view()[i]),
    {
        copy_volumes(self.storage_engine.list_volumes())
    }

    /// The plan of a block write: the journal entry to append first
    /// (`WRITE:<volume>:<block>`, the data, uncommitted) and the steps to
    /// take for the write concern under this service's replication
    /// strategy.
    pub fn write_block(&self, volume_id: u128, block_id: u64, data: Vec<u8>, write_concern: WriteConcern) -> (r: (JournalEntry, Vec<WriteStep>))
        ensures
            r.0.volume_id == volume_id,
            r.0.operation@ == write_op_text(volume_id, block_id),
            r.0.data@ == data@,
            !r.0.committed,
            r.1@ == crate::write_steps_spec(write_concern, self.strategy_view()),
    {
        let mut op = "WRITE:".to_owned();
        let idc = uuid_chars(volume_id);
        append_chars(&mut op, idc.as_slice());
        append_str(&mut op, ":");
        let bc = decimal_chars(block_id as u128);
        append_chars(&mut op, bc.as_slice());
        let entry = JournalEntry::new(volume_id, op, data);
        let steps = crate::write_steps(write_concern, self.replication_strategy);
        (entry, steps)
    }

    /// Records a volume's new size once its file was resized.
    pub fn expand_volume(&mut self, volume_id: u128, new_size: u64, now: i64)
        requires
            old(self).wf(),
        ensures
            final(self).wf(),
            changed_one(old(self).engine_view().volumes_view(), final(self).engine_view().volumes_view(), volume_id,
                |a: Volume, b: Volume| b == Volume { size_bytes: new_size, updated_at: now, ..a }),
            final(self).engine_view().snapshots_view() == old(self).engine_view().snapshots_view(),
            final(self).classes_view() == old(self).classes_view(),
            final(self).claims_view() == old(self).claims_view(),
            final(self).peers_view() == old(self).peers_view(),
    {
        self.storage_engine.expand_volume(volume_id, new_size, now);
    }

    /// Records a copy of volume `source_id` named `target_name` (see
    /// `FileStorageEngine::clone_volume`); the caller copies the file.
    pub fn clone_volume(&mut self, source_id: u128, target_name: &str, now: i64) -> (r: Result<u128, StorageError>)
        requires
            old(self).wf(),
        ensures
            final(self).wf(),
            final(self).classes_view() == old(self).classes_view(),
            final(self).claims_view() == old(self).claims_view(),
            final(self).peers_view() == old(self).peers_view(),
            match volume_with_id(old(self).engine_view().volumes_view(), source_id) {
                None => r == Err::<u128, StorageError>(StorageError::VolumeNotFound)
                    && final(self).engine_view().volumes_view() == old(self).engine_view().volumes_view(),
                Some(src) => r matches Ok(id) && volume_with_id(final(self).engine_view().volumes_view(), id) matches Some(t) && {
                    &&& t.name@ == target_name@
                    &&& t.volume_type == src.volume_type
                    &&& t.size_bytes == src.size_bytes
                    &&& t.storage_class@ == src.storage_class@
                    &&& t.state == VolumeState::Available
                    &&& t.access_modes@ == src.access_modes@
                    &&& t.labels@ == src.labels@
                    &&& forall|other: u128| other != id ==> volume_with_id(final(self).engine_view().volumes_view(), other)
                        == volume_with_id(old(self).engine_view().volumes_view(), other)
                },
            },
    {
        self.storage_engine.clone_volume(source_id, target_name, now)
    }

    /// The snapshot of `volume_id` named `snapshot_name` to take (see
    /// `FileStorageEngine::begin_snapshot`); the caller copies the file and
    /// then records it with `record_snapshot`.
    pub fn begin_snapshot(&self, volume_id: u128, snapshot_name: &str, now: i64) -> (r: Result<VolumeSnapshot, StorageError>)
        requires
            self.wf(),
        ensures
            match volume_with_id(self.engine_view().volumes_view(), volume_id) {
                None => r == Err::<VolumeSnapshot, StorageError>(StorageError::VolumeNotFound),
                Some(v) => r matches Ok(s) && s.name@ == snapshot_name@ && s.volume_id == volume_id
                    && s.size_bytes == v.size_bytes && s.created_at == now && !s.ready_to_use,
            },
    {
        self.storage_engine.begin_snapshot(volume_id, snapshot_name, now)
    }

    /// Records a snapshot whose copy is complete, ready to use.
    pub fn record_snapshot(&mut self, snapshot: VolumeSnapshot) -> (r: VolumeSnapshot)
        requires
            old(self).wf(),
        ensures
            final(self).wf(),
            final(self).engine_view().volumes_view() == old(self).engine_view().volumes_view(),
            final(self).engine_view().snapshots_view() == without_snapshot(old(self).engine_view().snapshots_view(), snapshot.id).push(
                VolumeSnapshot { state: crate::SnapshotState::Ready, ready_to_use: true, ..snapshot }),
            same_snapshot(r, VolumeSnapshot { state: crate::SnapshotState::Ready, ready_to_use: true, ..snapshot }),
            final(self).classes_view() == old(self).classes_view(),
            final(self).claims_view() == old(self).claims_view(),
            final(self).peers_view() == old(self).peers_view(),
    {
        self.storage_engine.create_snapshot(snapshot)
    }

    /// The snapshots of a volume, in the order taken.
    pub fn list_snapshots(&self, volume_id: u128) -> (r: Vec<VolumeSnapshot>)
        ensures
            r@.len() == snapshots_of(self.engine_view().snapshots_view(), volume_id).len(),
            forall|i: int| 0 <= i < r@.len() ==> same_snapshot(#[trigger] r@[i], snapshots_of(self.engine_view().snapshots_view(), volume_id)[i]),
    {
        self.storage_engine.list_snapshots(volume_id)
    }

    /// Records a restore once the snapshot's file was copied over the
    /// target volume's file (see `FileStorageEngine::restore_snapshot`).
    pub fn restore_snapshot(&mut self, snapshot_file_exists: bool, target_volume_id: u128, now: i64) -> (r: Result<(), StorageError>)
        requires
            old(self).wf(),
        ensures
            final(self).wf(),
            final(self).classes_view() == old(self).classes_view(),
            final(self).claims_view() == old(self).claims_view(),
            final(self).peers_view() == old(self).peers_view(),
            !snapshot_file_exists ==> r == Err::<(), StorageError>(StorageError::SnapshotNotFound)
                && final(self).engine_view().volumes_view() == old(self).engine_view().volumes_view(),
            snapshot_file_exists ==> r is Ok && updated_one(old(self).engine_view().volumes_view(),
                final(self).engine_view().volumes_view(), target_volume_id,
                |v: Volume| Volume { state: VolumeState::Available, updated_at: now, ..v }),
    {
        self.storage_engine.restore_snapshot(snapshot_file_exists, target_volume_id, now)
    }

    /// Marks a journal entry committed once its write is done, and gives
    /// the commit record to append to the journal file (see
    /// `FileStorageEngine::commit_journal_entry`).
    pub fn commit_journal_entry(&mut self, entry_id: u128, now_secs: u64) -> (r: Option<JournalEntry>)
        requires
            old(self).wf(),
        ensures
            final(self).wf(),
            final(self).engine_view().volumes_view() == old(self).engine_view().volumes_view(),
            final(self).classes_view() == old(self).classes_view(),
            final(self).claims_view() == old(self).claims_view(),
            final(self).peers_view() == old(self).peers_view(),
            match r {
                None => final(self).engine_view().journal_view() == old(self).engine_view().journal_view(),
                Some(c) => exists|i: int| 0 <= i < old(self).engine_view().journal_view().len()
                    && (#[trigger] old(self).engine_view().journal_view()[i]).id == entry_id
                    && final(self).engine_view().journal_view() == old(self).engine_view().journal_view().update(i,
                        JournalEntry { committed: true, ..old(self).engine_view().journal_view()[i] })
                    && c.operation@ == crate::storage::commit_text(entry_id) && c.committed,
            },
    {
        self.storage_engine.commit_journal_entry(entry_id, now_secs)
    }

    /// Records a journal entry after it was appended to the journal file.
    pub fn write_journal_entry(&mut self, entry: JournalEntry)
        requires
            old(self).wf(),
        ensures
            final(self).wf(),
            final(self).engine_view().volumes_view() == old(self).engine_view().volumes_view(),
            final(self).engine_view().journal_view()
                == crate::storage::without_entry(old(self).engine_view().journal_view(), entry.id).push(entry),
            final(self).classes_view() == old(self).classes_view(),
            final(self).peers_view() == old(self).peers_view(),
    {
        self.storage_engine.write_journal_entry(entry);
    }

    /// Records a mount with `manager` once its checks pass, judging a
    /// second mount by the storage class the volume names.
    pub fn mount_volume(
        &mut self,
        manager: &mut VolumeMountManager,
        volume_id: u128,
        mount_point: String,
        mount_options: Vec<String>,
    ) -> (r: Result<u128, crate::volume_mount::MountError>)
        requires
            old(self).wf(),
            old(manager).wf(),
        ensures
            final(self).wf(),
            final(manager).wf(),
            final(self).classes_view() == old(self).classes_view(),
            final(self).claims_view() == old(self).claims_view(),
            final(self).peers_view() == old(self).peers_view(),
            ({
                let vols = old(self).engine_view().volumes_view();
                let after = final(self).engine_view().volumes_view();
                let class = match volume_with_id(vols, volume_id) {
                    Some(v) => class_named(old(self).classes_view(), v.storage_class@),
                    None => None,
                };
                match crate::volume_mount::mount_refusal(old(manager).mounts_view(), volume_id, volume_with_id(vols, volume_id),
                    class, mount_point@, strings_view(mount_options@)) {
                    Some(e) => r == Err::<u128, crate::volume_mount::MountError>(e)
                        && final(manager).mounts_view() == old(manager).mounts_view()
                        && after == vols,
                    None => r matches Ok(id) && {
                        let rest = crate::volume_mount::without_mount(old(manager).mounts_view(), id);
                        let added = final(manager).mounts_view().last();
                        &&& final(manager).mounts_view() == rest.push(added)
                        &&& added.mount_id == id
                        &&& added.volume_id == volume_id
                        &&& added.mount_point == mount_point
                        &&& added.mount_options == mount_options
                        &&& added.state == crate::volume_mount::MountState::Mounted
                        &&& if crate::volume_mount::mounts_of(final(manager).mounts_view(), volume_id).len() == 1 {
                            exists|now: i64| #[trigger] crate::volume_mount::marked_mounted(vols, after, volume_id, now)
                        } else {
                            after == vols
                        }
                    },
                }
            }),
    {
        let class_name: Option<String> = match self.storage_engine.get_volume(volume_id) {
            Some(v) => Some(v.storage_class.clone()),
            None => None,
        };
        let idx = match &class_name {
            Some(n) => self.find_class(n.as_str()),
            None => None,
        };
        let class: Option<&StorageClass> = match idx {
            Some(i) => Some(&self.storage_classes[i]),
            None => None,
        };
        let ghost vols = self.storage_engine.volumes_view();
        let ghost want = match volume_with_id(vols, volume_id) {
            Some(v) => class_named(self.storage_classes@, v.storage_class@),
            None => None,
        };
        assert(match class { Some(c) => Some(*c), None => None } == want);
        let ghost refusal = crate::volume_mount::mount_refusal(manager.mounts_view(), volume_id, volume_with_id(vols, volume_id),
                    want, mount_point@, strings_view(mount_options@));
        let r = manager.mount_volume(&mut self.storage_engine, volume_id, class, mount_point, mount_options);
        proof {
            if refusal is None && crate::volume_mount::mounts_of(manager.mounts_view(), volume_id).len() == 1 {
                let w = choose|now: i64| #[trigger] crate::volume_mount::marked_mounted(vols, self.storage_engine.volumes_view(), volume_id, now);
                assert(crate::volume_mount::marked_mounted(vols, self.storage_engine.volumes_view(), volume_id, w));
                assert(crate::volume_mount::marked_mounted(old(self).engine_view().volumes_view(), self.engine_view().volumes_view(), volume_id, w));
            }
        }
        r
    }

    /// Removes the mount `mount_id` from `manager`; when it was the
    /// volume's last mount, the volume is marked available again.
    pub fn unmount_volume(&mut self, manager: &mut VolumeMountManager, mount_id: u128) -> (r: Result<(), crate::volume_mount::MountError>)
        requires
            old(self).wf(),
            old(manager).wf(),
        ensures
            final(self).wf(),
            final(manager).wf(),
            final(self).classes_view() == old(self).classes_view(),
            final(self).claims_view() == old(self).claims_view(),
            final(self).peers_view() == old(self).peers_view(),
            final(self).strategy_view() == old(self).strategy_view(),
            final(self).persistence_view() == old(self).persistence_view(),
            ({
                let ms = old(manager).mounts_view();
                let i = crate::volume_mount::mount_index(ms, mount_id);
                let vols = old(self).engine_view().volumes_view();
                let after = final(self).engine_view().volumes_view();
                if i < 0 {
                    &&& r == Err::<(), crate::volume_mount::MountError>(crate::volume_mount::MountError::MountNotFound(mount_id))
                    &&& final(manager).mounts_view() == ms
                    &&& after == vols
                } else {
                    let vid = ms[i].volume_id;
                    &&& r is Ok
                    &&& final(manager).mounts_view() == crate::volume_mount::without_mount(ms, mount_id)
                    &&& if crate::volume_mount::mounts_of(final(manager).mounts_view(), vid).len() == 0 {
                        exists|now: i64| #[trigger] crate::volume_mount::marked_available(vols, after, vid, now)
                    } else {
                        after == vols
                    }
                }
            }),
    {
        let ghost vols = self.storage_engine.volumes_view();
        let r = manager.unmount_volume(&mut self.storage_engine, mount_id);
        proof {
            let ms = old(manager).mounts_view();
            let i = crate::volume_mount::mount_index(ms, mount_id);
            if r is Ok && crate::volume_mount::mounts_of(manager.mounts_view(), ms[i].volume_id).len() == 0 {
                let w = choose|now: i64| #[trigger] crate::volume_mount::marked_available(vols, self.storage_engine.volumes_view(), ms[i].volume_id, now);
                assert(crate::volume_mount::marked_available(old(self).engine_view().volumes_view(), self.engine_view().volumes_view(), ms[i].volume_id, w));
            }
        }
        r
    }

    /// A mount manager with no mounts.
    pub fn create_mount_manager(&self) -> (m: VolumeMountManager)
        ensures
            m.wf(),
            m.mounts_view().len() == 0,
    {
        VolumeMountManager::new()
    }

    /// The replication service.
    pub fn replication_service(&self) -> (s: &ReplicationService)
        ensures
            s.peers_view() == self.peers_view(),
    {
        &self.replication_service
    }

    /// Replaces the replication peers.
    pub fn update_replication_peers(&mut self, peer_addresses: Vec<String>)
        requires
            old(self).wf(),
        ensures
            final(self).wf(),
            final(self).peers_view() == strings_view(peer_addresses@),
            final(self).engine_view() == old(self).engine_view(),
            final(self).classes_view() == old(self).classes_view(),
    {
        self.replication_service.update_peer_addresses(peer_addresses);
    }

    /// Adds a replication peer unless it is listed already.
    pub fn add_replication_peer(&mut self, peer_address: String)
        requires
            old(self).wf(),
        ensures
            final(self).wf(),
            final(self).peers_view() == if old(self).peers_view().contains(peer_address@) {
                old(self).peers_view()
            } else {
                old(self).peers_view().push(peer_address@)
            },
            final(self).engine_view() == old(self).engine_view(),
            final(self).classes_view() == old(self).classes_view(),
    {
        self.replication_service.add_peer_address(peer_address);
    }

    /// Removes a replication peer.
    pub fn remove_replication_peer(&mut self, peer_address: &str)
        requires
            old(self).wf(),
        ensures
            final(self).wf(),
            final(self).peers_view() == without_text(old(self).peers_view(), peer_address@),
            final(self).engine_view() == old(self).engine_view(),
            final(self).classes_view() == old(self).classes_view(),
    {
        self.replication_service.remove_peer_address(peer_address);
    }

    /// The replication peers, in order.
    pub fn get_replication_peers(&self) -> (r: Vec<String>)
        ensures
            strings_view(r@) == self.peers_view(),
    {
        self.replication_service.get_peer_addresses()
    }
}

} // verus!
