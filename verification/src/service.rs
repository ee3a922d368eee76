//! The storage daemon: its configuration, the requests the command line
//! sends it, the answers it gives, and what it decides for each request.
//! Files, sockets and the process itself are handled by the caller, which
//! carries out the action a request asks for and reports back.
use vstd::prelude::*;
use crate::{
    LabelSelector, PersistenceLevel, ReclaimPolicy, ReplicationStrategy, StorageClass, Volume,
    VolumeBindingMode, VolumeState, VolumeType,
};
use crate::external::{debug_path, new_uuid, parse_uuid, path_debug, uuid_parse};
use crate::galleon::{
    class_named, copy_classes, copy_volume, copy_volumes, generated_volume_name, same_class,
    same_volume, without_text, GalleonFS,
};
use crate::labels::{labels_view, strings_view};
use crate::storage::{distinct_nodes, volume_with_id, FileStorageEngine};
use crate::text::{
    append_chars, append_str, clone_opt_string, clone_strings, path_join, str_eq, uuid_chars, uuid_text,
};
use crate::volume_mount::{
    mount_error_message, mount_error_text, mount_index, mount_refusal, mounts_of, path_index, without_mount, MountError, MountState,
    VolumeMount, VolumeMountManager,
};

verus! {

/// Settings of the storage daemon.
#[derive(Debug)]
pub struct DaemonConfig {
    pub storage_path: String,
    pub block_size: u64,
    /// Address of the replication service.
    pub bind_address: String,
    /// Address the command line reaches the daemon at.
    pub ipc_address: String,
    pub peer_addresses: Vec<String>,
    pub replication_strategy: ReplicationStrategy,
    pub persistence_level: PersistenceLevel,
    /// Base directory volumes are mounted under; mounting is off without it.
    pub mount_point: Option<String>,
}

impl Default for DaemonConfig {
    fn default() -> (c: Self)
        ensures
            c.storage_path@ == "./galleonfs_storage"@,
            c.block_size == 4096,
            c.bind_address@ == "127.0.0.1:8080"@,
            c.ipc_address@ == "127.0.0.1:8090"@,
            c.peer_addresses@.len() == 0,
            c.replication_strategy == ReplicationStrategy::Synchronous,
            c.persistence_level == PersistenceLevel::Enhanced,
            c.mount_point is None,
    {
        DaemonConfig {
            storage_path: "./galleonfs_storage".to_owned(),
            block_size: 4096,
            bind_address: "127.0.0.1:8080".to_owned(),
            ipc_address: "127.0.0.1:8090".to_owned(),
            peer_addresses: Vec::new(),
            replication_strategy: ReplicationStrategy::Synchronous,
            persistence_level: PersistenceLevel::Enhanced,
            mount_point: None,
        }
    }
}

/// Two configurations that hold the same values.
pub open spec fn same_config(a: DaemonConfig, b: DaemonConfig) -> bool {
    &&& a.storage_path@ == b.storage_path@
    &&& a.block_size == b.block_size
    &&& a.bind_address@ == b.bind_address@
    &&& a.ipc_address@ == b.ipc_address@
    &&& strings_view(a.peer_addresses@) == strings_view(b.peer_addresses@)
    &&& a.replication_strategy == b.replication_strategy
    &&& a.persistence_level == b.persistence_level
    &&& a.mount_point == b.mount_point
}

/// A copy of a configuration.
pub fn copy_config(c: &DaemonConfig) -> (r: DaemonConfig)
    ensures
        same_config(r, *c),
{
    DaemonConfig {
        storage_path: c.storage_path.clone(),
        block_size: c.block_size,
        bind_address: c.bind_address.clone(),
        ipc_address: c.ipc_address.clone(),
        peer_addresses: clone_strings(&c.peer_addresses),
        replication_strategy: c.replication_strategy,
        persistence_level: c.persistence_level,
        mount_point: clone_opt_string(&c.mount_point),
    }
}

/// A request from the command line.
#[derive(Debug)]
#[allow(inconsistent_fields)]
pub enum IpcMessage {
    CreateVolume { volume_type: VolumeType, size_bytes: u64, storage_class: String, name: Option<String> },
    ListVolumes,
    GetVolume { id: u128 },
    GetVolumeByName { name: String },
    DeleteVolume { id: u128 },
    DeleteVolumeByName { name: String },
    MountVolume { id: u128, path: String, options: Vec<String> },
    /// The target is a mount id or a mount path.
    UnmountVolume { target: String },
    ClusterStatus,
    JoinCluster { peer_address: String },
    LeaveCluster { force: bool },
    ListPeers,
    Shutdown,
    Status,
    GetConfig,
    Restart,
    CreateStorageClass { storage_class: StorageClass },
    CreateStorageClassFromFile { config_file: String },
    ListStorageClasses,
    UpdateReplicationPeers { peer_addresses: Vec<String> },
    AddReplicationPeer { peer_address: String },
    RemoveReplicationPeer { peer_address: String },
    ListReplicationPeers,
}

/// The daemon's answer to a request.
#[derive(Debug)]
pub enum IpcResponse {
    Success,
    Volume(Volume),
    Volumes(Vec<Volume>),
    StorageClasses(Vec<StorageClass>),
    ClusterInfo { node_id: u128, peers: Vec<String>, cluster_size: usize },
    DaemonStatus { uptime: u64, version: String, storage_path: String, bind_address: String },
    Config(DaemonConfig),
    MountInfo { mount_id: u128, volume_id: u128, mount_path: String },
    ReplicationPeers(Vec<String>),
    Error(String),
}

/// What the daemon does for a request.
#[derive(Debug)]
pub enum DaemonAction {
    /// Send this answer.
    Reply(IpcResponse),
    /// Create the file of this new volume (of its size, at the engine's
    /// path for its id), then report with `finish_create_volume`.
    CreateVolumeFile(Volume),
    /// Remove the file of this volume if there is one, then report with
    /// `finish_delete_volume`.
    RemoveVolumeFile(u128),
    /// Make the mount point directory and the volume's interface files
    /// there, then report with `finish_mount`.
    Mount { volume_id: u128, path: String, options: Vec<String> },
    /// Remove the volume's interface files at the mount point `path`, then
    /// report with `finish_unmount`.
    Unmount { mount_id: u128, path: String },
    /// Stop the process without answering.
    Exit,
}

/// The action is an error answer with the given text.
pub open spec fn error_reply(a: DaemonAction, text: Seq<char>) -> bool {
    a matches DaemonAction::Reply(IpcResponse::Error(e)) && e@ == text
}

/// The response is an error with the given text.
pub open spec fn error_response(r: IpcResponse, text: Seq<char>) -> bool {
    r matches IpcResponse::Error(e) && e@ == text
}

/// Index of the first volume from index `i` on named `name`, or -1.
pub open spec fn first_named_from(v: Seq<Volume>, name: Seq<char>, i: int) -> int
    decreases v.len() - i,
{
    if i < 0 || i >= v.len() {
        -1
    } else if v[i].name@ == name {
        i
    } else {
        first_named_from(v, name, i + 1)
    }
}

/// Index of the first volume named `name`, or -1.
pub open spec fn first_named(v: Seq<Volume>, name: Seq<char>) -> int {
    first_named_from(v, name, 0)
}

/// The text of the error for a missing volume name.
pub open spec fn no_name_text(name: Seq<char>) -> Seq<char> {
    "Volume with name '"@ + name + "' not found"@
}

/// The text of the error for a request that needs mounting when it is off.
pub open spec fn mounting_off_text() -> Seq<char> {
    "Mount manager is not enabled. Start daemon with --mount-point to enable volume mounting."@
}

/// The storage daemon's state: its settings and the storage service.
#[derive(Debug)]
pub struct GalleonDaemon {
    config: DaemonConfig,
    galleonfs: GalleonFS,
    mounts: VolumeMountManager,
}

/// The class a mount of volume `id` is checked against: the class its
/// record names, when there is one.
pub open spec fn volume_class(fs: GalleonFS, id: u128) -> Option<StorageClass> {
    match volume_with_id(fs.engine_view().volumes_view(), id) {
        Some(v) => class_named(fs.classes_view(), v.storage_class@),
        None => None,
    }
}

/// The answer to a refused mount of volume `id` at `path`.
pub open spec fn mount_failure(vols: Seq<Volume>, id: u128, e: MountError, path: Seq<char>) -> Seq<char> {
    "Failed to mount volume: "@ + match volume_with_id(vols, id) {
        Some(v) => mount_error_message(e, path, v.volume_type, v.access_modes@),
        None => mount_error_message(e, path, VolumeType::Ephemeral, Seq::empty()),
    }
}

/// The mount an unmount request names: by id when the target reads as
/// one, else by mount point; -1 when there is none.
pub open spec fn unmount_target(ms: Seq<VolumeMount>, target: Seq<char>) -> int {
    match uuid_parse(target) {
        Some(id) => mount_index(ms, id),
        None => path_index(ms, target),
    }
}

/// Why an unmount request finds no mount.
pub open spec fn unmount_miss(target: Seq<char>) -> MountError {
    match uuid_parse(target) {
        Some(id) => MountError::MountNotFound(id),
        None => MountError::NoMountAtPath,
    }
}

/// What the daemon does for a request, and how its state changes.
#[verifier::opaque]
pub open spec fn processed(
    before: GalleonDaemon,
    message: IpcMessage,
    uptime: u64,
    version: Seq<char>,
    after: GalleonDaemon,
    a: DaemonAction,
) -> bool {
    let config = before.config_view();
    let fs = before.fs_view();
    let vols = fs.engine_view().volumes_view();
    let unchanged = after == before;
    match message {
        IpcMessage::CreateVolume { volume_type, size_bytes, storage_class, name } => unchanged && (a matches DaemonAction::CreateVolumeFile(v) && {
            &&& match name {
                Some(n) => v.name@ == n@,
                None => generated_volume_name(v.name@),
            }
            &&& v.volume_type == volume_type
            &&& v.size_bytes == size_bytes
            &&& v.storage_class@ == storage_class@
            &&& v.state == VolumeState::Provisioning
            &&& distinct_nodes(v)
        }),
        IpcMessage::ListVolumes => unchanged && (a matches DaemonAction::Reply(IpcResponse::Volumes(vs)) && {
            &&& vs@.len() == vols.len()
            &&& forall|i: int| 0 <= i < vols.len() ==> same_volume(#[trigger] vs@[i], vols[i])
        }),
        IpcMessage::GetVolume { id } => unchanged && match volume_with_id(vols, id) {
            Some(v) => a matches DaemonAction::Reply(IpcResponse::Volume(c)) && same_volume(c, v),
            None => error_reply(a, "Volume not found"@),
        },
        IpcMessage::GetVolumeByName { name } => unchanged && {
            let i = first_named(vols, name@);
            if i >= 0 {
                a matches DaemonAction::Reply(IpcResponse::Volume(c)) && same_volume(c, vols[i])
            } else {
                error_reply(a, no_name_text(name@))
            }
        },
        IpcMessage::DeleteVolume { id } => unchanged && a == DaemonAction::RemoveVolumeFile(id),
        IpcMessage::DeleteVolumeByName { name } => unchanged && {
            let i = first_named(vols, name@);
            if i >= 0 {
                a == DaemonAction::RemoveVolumeFile(vols[i].id)
            } else {
                error_reply(a, no_name_text(name@))
            }
        },
        IpcMessage::MountVolume { id, path, options } => unchanged && if config.mount_point is None {
            error_reply(a, mounting_off_text())
        } else {
            match mount_refusal(before.mounts_view(), id, volume_with_id(vols, id), volume_class(fs, id), path@, strings_view(options@)) {
                Some(e) => error_reply(a, mount_failure(vols, id, e, path@)),
                None => a matches DaemonAction::Mount { volume_id, path: p, options: o } && volume_id == id && p@ == path@
                    && strings_view(o@) == strings_view(options@),
            }
        },
        IpcMessage::UnmountVolume { target } => if config.mount_point is None {
            unchanged && error_reply(a, mounting_off_text())
        } else {
            let ms = before.mounts_view();
            let i = unmount_target(ms, target@);
            if i < 0 {
                unchanged && error_reply(a, "Failed to unmount volume: "@ + mount_error_message(unmount_miss(target@), target@,
                    VolumeType::Ephemeral, Seq::empty()))
            } else {
                &&& a matches DaemonAction::Unmount { mount_id, path } && mount_id == ms[i].mount_id && path@ == ms[i].mount_point@
                &&& after.config_view() == config
                &&& after.fs_view() == fs
                &&& after.mounts_view() == ms.update(i, VolumeMount { state: MountState::Unmounting, ..ms[i] })
            }
        },
        IpcMessage::ClusterStatus => unchanged && (a matches DaemonAction::Reply(IpcResponse::ClusterInfo { node_id: _, peers, cluster_size })
            && strings_view(peers@) == strings_view(config.peer_addresses@) && cluster_size == config.peer_addresses@.len() + 1),
        IpcMessage::ListPeers => unchanged && (a matches DaemonAction::Reply(IpcResponse::ClusterInfo { node_id: _, peers, cluster_size })
            && strings_view(peers@) == strings_view(config.peer_addresses@) && cluster_size == config.peer_addresses@.len() + 1),
        IpcMessage::JoinCluster { peer_address } => unchanged && error_reply(a,
            "Dynamic cluster joining not yet implemented. Restart daemon with --peer-addresses "@ + peer_address@),
        IpcMessage::LeaveCluster { force: _ } => unchanged && error_reply(a, "Cluster leave operation not yet implemented"@),
        IpcMessage::Shutdown => unchanged && a is Exit,
        IpcMessage::Status => unchanged && (a matches DaemonAction::Reply(IpcResponse::DaemonStatus { uptime: u, version: v, storage_path: sp, bind_address: ba })
            && u == uptime && v@ == version && sp@ == config.storage_path@ && ba@ == config.bind_address@),
        IpcMessage::GetConfig => unchanged && (a matches DaemonAction::Reply(IpcResponse::Config(c)) && same_config(c, config)),
        IpcMessage::Restart => unchanged && error_reply(a, "Daemon restart not yet implemented. Please stop and start manually."@),
        IpcMessage::CreateStorageClass { storage_class } => {
            &&& a matches DaemonAction::Reply(IpcResponse::Success)
            &&& after.config_view() == config
            &&& after.mounts_view() == before.mounts_view()
            &&& class_named(after.fs_view().classes_view(), storage_class.name@) == Some(storage_class)
            &&& forall|n: Seq<char>| n != storage_class.name@ ==> class_named(after.fs_view().classes_view(), n)
                == class_named(fs.classes_view(), n)
            &&& after.fs_view().engine_view() == fs.engine_view()
            &&& after.fs_view().peers_view() == fs.peers_view()
        },
        IpcMessage::CreateStorageClassFromFile { config_file } => unchanged && error_reply(a,
            "Storage class creation from file not yet implemented: "@ + path_debug(config_file@)),
        IpcMessage::ListStorageClasses => unchanged && (a matches DaemonAction::Reply(IpcResponse::StorageClasses(cs)) && {
            &&& cs@.len() == fs.classes_view().len()
            &&& forall|i: int| 0 <= i < cs@.len() ==> same_class(#[trigger] cs@[i], fs.classes_view()[i])
        }),
        IpcMessage::UpdateReplicationPeers { peer_addresses } => {
            &&& a matches DaemonAction::Reply(IpcResponse::Success)
            &&& after.config_view() == config
            &&& after.mounts_view() == before.mounts_view()
            &&& after.fs_view().peers_view() == strings_view(peer_addresses@)
            &&& after.fs_view().engine_view() == fs.engine_view()
            &&& after.fs_view().classes_view() == fs.classes_view()
        },
        IpcMessage::AddReplicationPeer { peer_address } => {
            &&& a matches DaemonAction::Reply(IpcResponse::Success)
            &&& after.config_view() == config
            &&& after.mounts_view() == before.mounts_view()
            &&& after.fs_view().peers_view() == if fs.peers_view().contains(peer_address@) {
                fs.peers_view()
            } else {
                fs.peers_view().push(peer_address@)
            }
            &&& after.fs_view().engine_view() == fs.engine_view()
            &&& after.fs_view().classes_view() == fs.classes_view()
        },
        IpcMessage::RemoveReplicationPeer { peer_address } => {
            &&& a matches DaemonAction::Reply(IpcResponse::Success)
            &&& after.config_view() == config
            &&& after.mounts_view() == before.mounts_view()
            &&& after.fs_view().peers_view() == without_text(fs.peers_view(), peer_address@)
            &&& after.fs_view().engine_view() == fs.engine_view()
            &&& after.fs_view().classes_view() == fs.classes_view()
        },
        IpcMessage::ListReplicationPeers => unchanged && (a matches DaemonAction::Reply(IpcResponse::ReplicationPeers(p))
            && strings_view(p@) == fs.peers_view()),
    }
}

fn error_action(text: String) -> (a: DaemonAction)
    ensures
        error_reply(a, text@),
{
    DaemonAction::Reply(IpcResponse::Error(text))
}

fn prefixed(prefix: &str, rest: &str) -> (s: String)
    ensures
        s@ == prefix@ + rest@,
{
    let mut s = prefix.to_owned();
    append_str(&mut s, rest);
    s
}

fn no_name_string(name: &str) -> (s: String)
    ensures
        s@ == no_name_text(name@),
{
    let mut s = "Volume with name '".to_owned();
    append_str(&mut s, name);
    append_str(&mut s, "' not found");
    s
}

fn find_named(v: &Vec<Volume>, name: &str) -> (r: Option<usize>)
    ensures
        match r {
            Some(i) => i < v@.len() && first_named(v@, name@) == i,
            None => first_named(v@, name@) == -1,
        },
{
    let mut i: usize = 0;
    while i < v.len()
        invariant
            i <= v@.len(),
            first_named(v@, name@) == first_named_from(v@, name@, i as int),
        decreases v.len() - i,
    {
        if str_eq(&v[i].name, name) {
            return Some(i);
        }
        i += 1;
    }
    None
}

impl GalleonDaemon {
    /// The storage service is well formed and the peer count leaves room
    /// for this node.
    pub open spec fn wf(&self) -> bool {
        &&& self.fs_view().wf()
        &&& self.config_view().peer_addresses@.len() < usize::MAX
        &&& self.mount_table_wf()
    }

    /// The mount table's ids and mount points are distinct.
    pub closed spec fn mount_table_wf(&self) -> bool {
        self.mounts.wf()
    }

    /// The volumes mounted through this daemon, in the order mounted.
    pub closed spec fn mounts_view(&self) -> Seq<VolumeMount> {
        self.mounts.mounts_view()
    }

    pub closed spec fn config_view(&self) -> DaemonConfig {
        self.config
    }

    pub closed spec fn fs_view(&self) -> GalleonFS {
        self.galleonfs
    }

    /// A daemon for `config`: a storage engine at its storage path with
    /// its block size, replicating to its peers with its strategy.
    pub fn new(config: DaemonConfig) -> (d: Self)
        requires
            config.peer_addresses@.len() < usize::MAX,
        ensures
            d.wf(),
            d.config_view() == config,
            d.fs_view().engine_view().path_view() == config.storage_path@,
            d.fs_view().engine_view().block_size_view() == config.block_size,
            d.fs_view().engine_view().volumes_view().len() == 0,
            d.fs_view().classes_view().len() == 0,
            d.fs_view().peers_view() == strings_view(config.peer_addresses@),
            d.fs_view().strategy_view() == config.replication_strategy,
            d.fs_view().persistence_view() == config.persistence_level,
            d.mounts_view().len() == 0,
    {
        let engine = FileStorageEngine::new(config.storage_path.clone(), config.block_size);
        let galleonfs = GalleonFS::new(
            engine,
            config.replication_strategy,
            config.persistence_level,
            clone_strings(&config.peer_addresses),
        );
        GalleonDaemon { config, galleonfs, mounts: VolumeMountManager::new() }
    }

    /// The daemon's settings.
    pub fn config(&self) -> (c: &DaemonConfig)
        ensures
            *c == self.config_view(),
    {
        &self.config
    }

    /// The storage service.
    pub fn galleonfs(&self) -> (g: &GalleonFS)
        ensures
            *g == self.fs_view(),
    {
        &self.galleonfs
    }

    /// Decides what to do for a request (see `processed`).  `uptime_secs`
    /// is how long the daemon has run and `version` its version text.
    #[verifier::spinoff_prover]
    pub fn process_ipc_message(&mut self, message: IpcMessage, uptime_secs: u64, version: &str) -> (a: DaemonAction)
        requires
            old(self).wf(),
        ensures
            final(self).wf(),
            processed(*old(self), message, uptime_secs, version@, *final(self), a),
    {
        let ghost before = *self;
        let ghost msg = message;
        let a = match message {
            IpcMessage::CreateVolume { volume_type, size_bytes, storage_class, name } => {
                self.create_volume_action(volume_type, size_bytes, storage_class, name)
            },
            IpcMessage::ListVolumes => self.list_volumes_reply(),
            IpcMessage::GetVolume { id } => self.get_volume_reply(id),
            IpcMessage::GetVolumeByName { name } => self.get_volume_by_name_reply(name.as_str()),
            IpcMessage::DeleteVolume { id } => DaemonAction::RemoveVolumeFile(id),
            IpcMessage::DeleteVolumeByName { name } => self.delete_by_name_action(name.as_str()),
            IpcMessage::MountVolume { id, path, options } => self.mount_action(id, path, options),
            IpcMessage::UnmountVolume { target } => self.unmount_action(target.as_str()),
            IpcMessage::ClusterStatus => self.cluster_info(),
            IpcMessage::ListPeers => self.cluster_info(),
            IpcMessage::JoinCluster { peer_address } => error_action(prefixed(
                "Dynamic cluster joining not yet implemented. Restart daemon with --peer-addresses ",
                peer_address.as_str(),
            )),
            IpcMessage::LeaveCluster { force: _ } => error_action("Cluster leave operation not yet implemented".to_owned()),
            IpcMessage::Shutdown => DaemonAction::Exit,
            IpcMessage::Status => DaemonAction::Reply(IpcResponse::DaemonStatus {
                uptime: uptime_secs,
                version: version.to_owned(),
                storage_path: self.config.storage_path.clone(),
                bind_address: self.config.bind_address.clone(),
            }),
            IpcMessage::GetConfig => DaemonAction::Reply(IpcResponse::Config(copy_config(&self.config))),
            IpcMessage::Restart => error_action("Daemon restart not yet implemented. Please stop and start manually.".to_owned()),
            IpcMessage::CreateStorageClass { storage_class } => {
                self.galleonfs.create_storage_class(storage_class);
                DaemonAction::Reply(IpcResponse::Success)
            },
            IpcMessage::CreateStorageClassFromFile { config_file } => {
                let d = debug_path(config_file.as_str());
                error_action(prefixed("Storage class creation from file not yet implemented: ", d.as_str()))
            },
            IpcMessage::ListStorageClasses => self.list_classes_reply(),
            IpcMessage::UpdateReplicationPeers { peer_addresses } => {
                self.galleonfs.update_replication_peers(peer_addresses);
                DaemonAction::Reply(IpcResponse::Success)
            },
            IpcMessage::AddReplicationPeer { peer_address } => {
                self.galleonfs.add_replication_peer(peer_address);
                DaemonAction::Reply(IpcResponse::Success)
            },
            IpcMessage::RemoveReplicationPeer { peer_address } => {
                self.galleonfs.remove_replication_peer(peer_address.as_str());
                DaemonAction::Reply(IpcResponse::Success)
            },
            IpcMessage::ListReplicationPeers => {
                DaemonAction::Reply(IpcResponse::ReplicationPeers(self.galleonfs.get_replication_peers()))
            },
        };
        proof {
            reveal(processed);
        }
        a
    }

    /// The volume to create: named as asked, or `vol-` and a fresh id when
    /// no name is given.
    fn create_volume_action(&self, volume_type: VolumeType, size_bytes: u64, storage_class: String, name: Option<String>) -> (a: DaemonAction)
        ensures
            a matches DaemonAction::CreateVolumeFile(v) && {
                &&& match name {
                    Some(n) => v.name@ == n@,
                    None => generated_volume_name(v.name@),
                }
                &&& v.volume_type == volume_type
                &&& v.size_bytes == size_bytes
                &&& v.storage_class@ == storage_class@
                &&& v.state == VolumeState::Provisioning
                &&& distinct_nodes(v)
            },
    {
        let mut v = self.galleonfs.new_volume(volume_type, size_bytes, storage_class);
        match name {
            Some(n) => {
                v.name = n;
            },
            None => {},
        }
        proof {
            assert(strings_view(v.attached_nodes@) =~= Seq::<Seq<char>>::empty());
        }
        DaemonAction::CreateVolumeFile(v)
    }

    fn list_volumes_reply(&self) -> (a: DaemonAction)
        ensures
            a matches DaemonAction::Reply(IpcResponse::Volumes(vs)) && {
                &&& vs@.len() == self.fs_view().engine_view().volumes_view().len()
                &&& forall|i: int| 0 <= i < vs@.len() ==> same_volume(#[trigger] vs@[i], self.fs_view().engine_view().volumes_view()[i])
            },
    {
        DaemonAction::Reply(IpcResponse::Volumes(self.galleonfs.list_volumes()))
    }

    fn get_volume_reply(&self, id: u128) -> (a: DaemonAction)
        requires
            self.wf(),
        ensures
            match volume_with_id(self.fs_view().engine_view().volumes_view(), id) {
                Some(v) => a matches DaemonAction::Reply(IpcResponse::Volume(c)) && same_volume(c, v),
                None => error_reply(a, "Volume not found"@),
            },
    {
        match self.galleonfs.get_volume(id) {
            Some(v) => DaemonAction::Reply(IpcResponse::Volume(v)),
            None => error_action("Volume not found".to_owned()),
        }
    }

    fn get_volume_by_name_reply(&self, name: &str) -> (a: DaemonAction)
        ensures
            ({
                let vols = self.fs_view().engine_view().volumes_view();
                let i = first_named(vols, name@);
                if i >= 0 {
                    a matches DaemonAction::Reply(IpcResponse::Volume(c)) && same_volume(c, vols[i])
                } else {
                    error_reply(a, no_name_text(name@))
                }
            }),
    {
        let vols = self.galleonfs.storage_engine().list_volumes();
        match find_named(vols, name) {
            Some(i) => DaemonAction::Reply(IpcResponse::Volume(copy_volume(&vols[i]))),
            None => error_action(no_name_string(name)),
        }
    }

    fn delete_by_name_action(&self, name: &str) -> (a: DaemonAction)
        ensures
            ({
                let vols = self.fs_view().engine_view().volumes_view();
                let i = first_named(vols, name@);
                if i >= 0 {
                    a == DaemonAction::RemoveVolumeFile(vols[i].id)
                } else {
                    error_reply(a, no_name_text(name@))
                }
            }),
    {
        let vols = self.galleonfs.storage_engine().list_volumes();
        match find_named(vols, name) {
            Some(i) => DaemonAction::RemoveVolumeFile(vols[i].id),
            None => error_action(no_name_string(name)),
        }
    }

    /// A mount request is checked against the daemon's mount table: the
    /// volume must exist and be available (or already mounted through the
    /// table), the path must be free, and a second mount must be allowed.
    fn mount_action(&self, id: u128, path: String, options: Vec<String>) -> (a: DaemonAction)
        requires
            self.wf(),
        ensures
            if self.config_view().mount_point is None {
                error_reply(a, mounting_off_text())
            } else {
                let vols = self.fs_view().engine_view().volumes_view();
                match mount_refusal(self.mounts_view(), id, volume_with_id(vols, id), volume_class(self.fs_view(), id), path@,
                    strings_view(options@)) {
                    Some(e) => error_reply(a, mount_failure(vols, id, e, path@)),
                    None => a matches DaemonAction::Mount { volume_id, path: p, options: o } && volume_id == id && p@ == path@
                        && strings_view(o@) == strings_view(options@),
                }
            },
    {
        if self.config.mount_point.is_none() {
            return error_action(mounting_off_string());
        }
        let engine = self.galleonfs.storage_engine();
        let class = match engine.get_volume(id) {
            Some(v) => self.galleonfs.get_storage_class(v.storage_class.as_str()),
            None => None,
        };
        match self.mounts.check_mount(engine, id, class, path.as_str(), &options) {
            Ok(()) => DaemonAction::Mount { volume_id: id, path, options },
            Err(e) => {
                let t = self.mount_failure_string(id, &e, path.as_str());
                error_action(t)
            },
        }
    }

    fn mount_failure_string(&self, id: u128, e: &MountError, path: &str) -> (s: String)
        requires
            self.wf(),
        ensures
            s@ == mount_failure(self.fs_view().engine_view().volumes_view(), id, *e, path@),
    {
        let engine = self.galleonfs.storage_engine();
        let (vt, modes) = match engine.get_volume(id) {
            Some(v) => (v.volume_type, copy_volume(v).access_modes),
            None => (VolumeType::Ephemeral, Vec::new()),
        };
        proof {
            assert(modes@ =~= match volume_with_id(engine.volumes_view(), id) {
                Some(v) => v.access_modes@,
                None => Seq::<crate::AccessMode>::empty(),
            });
        }
        let t = mount_error_text(e, path, vt, &modes);
        prefixed("Failed to mount volume: ", t.as_str())
    }

    /// An unmount request names a mount by its id or by its mount point;
    /// the mount found is marked as being taken down and its interface
    /// files are to be removed.
    fn unmount_action(&mut self, target: &str) -> (a: DaemonAction)
        requires
            old(self).wf(),
        ensures
            final(self).wf(),
            final(self).config_view() == old(self).config_view(),
            final(self).fs_view() == old(self).fs_view(),
            if old(self).config_view().mount_point is None {
                error_reply(a, mounting_off_text()) && *final(self) == *old(self)
            } else {
                let ms = old(self).mounts_view();
                let i = unmount_target(ms, target@);
                if i < 0 {
                    error_reply(a, "Failed to unmount volume: "@ + mount_error_message(unmount_miss(target@), target@,
                        VolumeType::Ephemeral, Seq::empty())) && *final(self) == *old(self)
                } else {
                    &&& a matches DaemonAction::Unmount { mount_id, path } && mount_id == ms[i].mount_id && path@ == ms[i].mount_point@
                    &&& final(self).mounts_view() == ms.update(i, VolumeMount { state: MountState::Unmounting, ..ms[i] })
                }
            },
    {
        if self.config.mount_point.is_none() {
            return error_action(mounting_off_string());
        }
        let found = match parse_uuid(target) {
            Some(mount_id) => self.mounts.has_mount(mount_id),
            None => self.mounts.get_mount_by_path(target).is_some(),
        };
        if !found {
            let e = match parse_uuid(target) {
                Some(mount_id) => MountError::MountNotFound(mount_id),
                None => MountError::NoMountAtPath,
            };
            let t = mount_error_text(&e, target, VolumeType::Ephemeral, &Vec::new());
            return error_action(prefixed("Failed to unmount volume: ", t.as_str()));
        }
        let begun: Result<(u128, String), MountError> = match parse_uuid(target) {
            Some(mount_id) => match self.mounts.begin_unmount(mount_id) {
                Ok(p) => Ok((mount_id, p)),
                Err(e) => Err(e),
            },
            None => self.mounts.begin_unmount_path(target),
        };
        match begun {
            Ok((mount_id, path)) => DaemonAction::Unmount { mount_id, path },
            Err(e) => {
                proof {
                    assert(false);
                }
                error_action("Failed to unmount volume".to_owned())
            },
        }
    }

    fn list_classes_reply(&self) -> (a: DaemonAction)
        ensures
            a matches DaemonAction::Reply(IpcResponse::StorageClasses(cs)) && {
                &&& cs@.len() == self.fs_view().classes_view().len()
                &&& forall|i: int| 0 <= i < cs@.len() ==> same_class(#[trigger] cs@[i], self.fs_view().classes_view()[i])
            },
    {
        DaemonAction::Reply(IpcResponse::StorageClasses(copy_classes(self.galleonfs.list_storage_classes())))
    }

    /// Answers a create request once the new volume's file was made (or
    /// not): the volume is recorded, available, and sent back; a failure
    /// is reported and nothing is recorded.
    pub fn finish_create_volume(&mut self, volume: Volume, created: Result<(), String>, now: i64) -> (r: IpcResponse)
        requires
            old(self).wf(),
            distinct_nodes(volume),
        ensures
            final(self).wf(),
            final(self).config_view() == old(self).config_view(),
            match created {
                Ok(()) => {
                    let rec = Volume { state: VolumeState::Available, updated_at: now, ..volume };
                    &&& r matches IpcResponse::Volume(c) && same_volume(c, rec)
                    &&& volume_with_id(final(self).fs_view().engine_view().volumes_view(), volume.id) == Some(rec)
                    &&& forall|id: u128| id != volume.id ==> volume_with_id(final(self).fs_view().engine_view().volumes_view(), id)
                        == volume_with_id(old(self).fs_view().engine_view().volumes_view(), id)
                    &&& final(self).fs_view().classes_view() == old(self).fs_view().classes_view()
                    &&& final(self).fs_view().peers_view() == old(self).fs_view().peers_view()
                },
                Err(e) => error_response(r, "Failed to create volume: "@ + e@) && *final(self) == *old(self),
            },
    {
        match created {
            Ok(()) => IpcResponse::Volume(self.galleonfs.create_volume(volume, now)),
            Err(e) => IpcResponse::Error(prefixed("Failed to create volume: ", e.as_str())),
        }
    }

    /// Answers a delete request once the volume's file was removed (or
    /// not): the volume is forgotten; a failure is reported and the volume
    /// kept.
    pub fn finish_delete_volume(&mut self, volume_id: u128, removed: Result<(), String>) -> (r: IpcResponse)
        requires
            old(self).wf(),
        ensures
            final(self).wf(),
            final(self).config_view() == old(self).config_view(),
            match removed {
                Ok(()) => {
                    &&& r is Success
                    &&& volume_with_id(final(self).fs_view().engine_view().volumes_view(), volume_id) is None
                    &&& forall|id: u128| id != volume_id ==> volume_with_id(final(self).fs_view().engine_view().volumes_view(), id)
                        == volume_with_id(old(self).fs_view().engine_view().volumes_view(), id)
                    &&& final(self).fs_view().classes_view() == old(self).fs_view().classes_view()
                    &&& final(self).fs_view().peers_view() == old(self).fs_view().peers_view()
                },
                Err(e) => error_response(r, "Failed to delete volume: "@ + e@) && *final(self) == *old(self),
            },
    {
        match removed {
            Ok(()) => {
                self.galleonfs.delete_volume(volume_id);
                IpcResponse::Success
            },
            Err(e) => IpcResponse::Error(prefixed("Failed to delete volume: ", e.as_str())),
        }
    }

    /// Answers a mount request once the mount point and the volume's
    /// interface files were made (or not): the mount is recorded in the
    /// daemon's mount table, and the volume is marked mounted when it is its
    /// first mount.  A failure is reported.
    pub fn finish_mount(&mut self, volume_id: u128, path: String, options: Vec<String>, prepared: Result<(), String>) -> (r: IpcResponse)
        requires
            old(self).wf(),
        ensures
            final(self).wf(),
            final(self).config_view() == old(self).config_view(),
            final(self).fs_view().classes_view() == old(self).fs_view().classes_view(),
            match prepared {
                Err(e) => error_response(r, "Failed to mount volume: "@ + e@) && *final(self) == *old(self),
                Ok(()) => {
                    let vols = old(self).fs_view().engine_view().volumes_view();
                    let after = final(self).fs_view().engine_view().volumes_view();
                    let ms = old(self).mounts_view();
                    match mount_refusal(ms, volume_id, volume_with_id(vols, volume_id), volume_class(old(self).fs_view(), volume_id),
                        path@, strings_view(options@)) {
                        Some(e) => error_response(r, mount_failure(vols, volume_id, e, path@)) && after == vols
                            && final(self).mounts_view() == ms,
                        None => r matches IpcResponse::MountInfo { mount_id, volume_id: vid, mount_path: p } && {
                            let added = final(self).mounts_view().last();
                            &&& vid == volume_id && p@ == path@
                            &&& final(self).mounts_view() == without_mount(ms, mount_id).push(added)
                            &&& added.mount_id == mount_id && added.volume_id == volume_id && added.mount_point@ == path@
                            &&& added.mount_options == options && added.state == MountState::Mounted
                            &&& if mounts_of(final(self).mounts_view(), volume_id).len() == 1 {
                                exists|now: i64| #[trigger] crate::volume_mount::marked_mounted(vols, after, volume_id, now)
                            } else {
                                after == vols
                            }
                        },
                    }
                },
            },
    {
        if let Err(e) = prepared {
            return IpcResponse::Error(prefixed("Failed to mount volume: ", e.as_str()));
        }
        let ghost vols = self.galleonfs.engine_view().volumes_view();
        let failure_base = self.galleonfs.storage_engine().get_volume(volume_id).is_some();
        let shown = path.clone();
        let vt_modes = match self.galleonfs.storage_engine().get_volume(volume_id) {
            Some(v) => (v.volume_type, copy_volume(v).access_modes),
            None => (VolumeType::Ephemeral, Vec::new()),
        };
        proof {
            assert(vt_modes.1@ =~= match volume_with_id(vols, volume_id) {
                Some(v) => v.access_modes@,
                None => Seq::<crate::AccessMode>::empty(),
            });
        }
        match self.galleonfs.mount_volume(&mut self.mounts, volume_id, path, options) {
            Ok(mount_id) => {
                proof {
                    let after = self.galleonfs.engine_view().volumes_view();
                    if mounts_of(self.mounts.mounts_view(), volume_id).len() == 1 {
                        let w = choose|now: i64| #[trigger] crate::volume_mount::marked_mounted(vols, after, volume_id, now);
                        assert(crate::volume_mount::marked_mounted(old(self).fs_view().engine_view().volumes_view(),
                            self.fs_view().engine_view().volumes_view(), volume_id, w));
                    }
                }
                IpcResponse::MountInfo { mount_id, volume_id, mount_path: shown }
            },
            Err(e) => {
                let t = mount_error_text(&e, shown.as_str(), vt_modes.0, &vt_modes.1);
                IpcResponse::Error(prefixed("Failed to mount volume: ", t.as_str()))
            },
        }
    }

    /// Answers an unmount request once the mount's interface files were
    /// removed (or not): the mount leaves the daemon's mount table, and the
    /// volume is marked available again when it was its last mount.  A
    /// failure is reported and leaves the mount being taken down.
    pub fn finish_unmount(&mut self, mount_id: u128, cleaned: Result<(), String>) -> (r: IpcResponse)
        requires
            old(self).wf(),
        ensures
            final(self).wf(),
            final(self).config_view() == old(self).config_view(),
            final(self).fs_view().classes_view() == old(self).fs_view().classes_view(),
            match cleaned {
                Err(e) => error_response(r, "Failed to unmount volume: "@ + e@) && *final(self) == *old(self),
                Ok(()) => {
                    let ms = old(self).mounts_view();
                    let i = mount_index(ms, mount_id);
                    let vols = old(self).fs_view().engine_view().volumes_view();
                    let after = final(self).fs_view().engine_view().volumes_view();
                    if i < 0 {
                        &&& error_response(r, "Failed to unmount volume: "@ + mount_error_message(MountError::MountNotFound(mount_id),
                            Seq::empty(), VolumeType::Ephemeral, Seq::empty()))
                        &&& final(self).mounts_view() == ms
                        &&& after == vols
                    } else {
                        let vid = ms[i].volume_id;
                        &&& r == IpcResponse::Success
                        &&& final(self).mounts_view() == without_mount(ms, mount_id)
                        &&& if mounts_of(final(self).mounts_view(), vid).len() == 0 {
                            exists|now: i64| #[trigger] crate::volume_mount::marked_available(vols, after, vid, now)
                        } else {
                            after == vols
                        }
                    }
                },
            },
    {
        if let Err(e) = cleaned {
            return IpcResponse::Error(prefixed("Failed to unmount volume: ", e.as_str()));
        }
        let ghost vols = self.galleonfs.engine_view().volumes_view();
        match self.galleonfs.unmount_volume(&mut self.mounts, mount_id) {
            Ok(()) => {
                proof {
                    let ms = old(self).mounts_view();
                    let i = mount_index(ms, mount_id);
                    let after = self.galleonfs.engine_view().volumes_view();
                    if mounts_of(self.mounts.mounts_view(), ms[i].volume_id).len() == 0 {
                        let w = choose|now: i64| #[trigger] crate::volume_mount::marked_available(vols, after, ms[i].volume_id, now);
                        assert(crate::volume_mount::marked_available(old(self).fs_view().engine_view().volumes_view(),
                            self.fs_view().engine_view().volumes_view(), ms[i].volume_id, w));
                    }
                }
                IpcResponse::Success
            },
            Err(e) => {
                let t = mount_error_text(&e, "", VolumeType::Ephemeral, &Vec::new());
                IpcResponse::Error(prefixed("Failed to unmount volume: ", t.as_str()))
            },
        }
    }

    /// Adds the two standard storage classes: `fast-local-ssd` (local SSD,
    /// ext4, not encrypted, deleted with its claim, bound at once) and
    /// `encrypted-storage` (distributed, AES-256-GCM with internal keys,
    /// three replicas, retained, bound on first use).
    pub fn setup_default_storage_classes(&mut self)
        requires
            old(self).wf(),
        ensures
            final(self).wf(),
            final(self).config_view() == old(self).config_view(),
            final(self).fs_view().engine_view() == old(self).fs_view().engine_view(),
            class_named(final(self).fs_view().classes_view(), "fast-local-ssd"@) matches Some(c) && fast_local_ssd(c),
            class_named(final(self).fs_view().classes_view(), "encrypted-storage"@) matches Some(c) && encrypted_storage(c),
            forall|n: Seq<char>| n != "fast-local-ssd"@ && n != "encrypted-storage"@ ==> class_named(final(self).fs_view().classes_view(), n)
                == class_named(old(self).fs_view().classes_view(), n),
    {
        let fast = fast_local_ssd_class();
        let encrypted = encrypted_storage_class();
        proof {
            reveal_strlit("fast-local-ssd");
            reveal_strlit("encrypted-storage");
            assert("fast-local-ssd"@[0] != "encrypted-storage"@[0]);
        }
        self.galleonfs.create_storage_class(fast);
        self.galleonfs.create_storage_class(encrypted);
    }

    /// The volumes that have no file system mounted yet, in order, each
    /// with the directory under `base_mount_point` named after it.
    pub fn volumes_to_auto_mount(&self, base_mount_point: &str, mounted: &Vec<u128>) -> (r: Vec<(u128, String)>)
        ensures
            r@.len() == auto_mount_plan(self.fs_view().engine_view().volumes_view(), base_mount_point@, mounted@).len(),
            forall|i: int| 0 <= i < r@.len() ==> (#[trigger] r@[i]).0 == auto_mount_plan(
                self.fs_view().engine_view().volumes_view(), base_mount_point@, mounted@)[i].0
                && r@[i].1@ == auto_mount_plan(self.fs_view().engine_view().volumes_view(), base_mount_point@, mounted@)[i].1,
    {
        let vols = self.galleonfs.storage_engine().list_volumes();
        let ghost plan = auto_mount_plan(vols@, base_mount_point@, mounted@);
        let mut r: Vec<(u128, String)> = Vec::new();
        let mut i: usize = 0;
        while i < vols.len()
            invariant
                i <= vols@.len(),
                r@.len() == auto_mount_plan(vols@.subrange(0, i as int), base_mount_point@, mounted@).len(),
                forall|k: int| 0 <= k < r@.len() ==> (#[trigger] r@[k]).0 == auto_mount_plan(vols@.subrange(0, i as int), base_mount_point@, mounted@)[k].0
                    && r@[k].1@ == auto_mount_plan(vols@.subrange(0, i as int), base_mount_point@, mounted@)[k].1,
            decreases vols.len() - i,
        {
            let ghost before = auto_mount_plan(vols@.subrange(0, i as int), base_mount_point@, mounted@);
            assert(vols@.subrange(0, i + 1).drop_last() =~= vols@.subrange(0, i as int));
            let v = &vols[i];
            if !contains_id(mounted, v.id) {
                let name = crate::text::chars_of(v.name.as_str());
                let p = crate::text::join_path(base_mount_point, name.as_slice());
                r.push((v.id, p));
            }
            i += 1;
        }
        assert(vols@.subrange(0, vols@.len() as int) =~= vols@);
        r
    }

    fn cluster_info(&self) -> (a: DaemonAction)
        requires
            self.wf(),
        ensures
            a matches DaemonAction::Reply(IpcResponse::ClusterInfo { node_id: _, peers, cluster_size })
                && strings_view(peers@) == strings_view(self.config_view().peer_addresses@)
                && cluster_size == self.config_view().peer_addresses@.len() + 1,
    {
        DaemonAction::Reply(IpcResponse::ClusterInfo {
            node_id: new_uuid(),
            peers: clone_strings(&self.config.peer_addresses),
            cluster_size: self.config.peer_addresses.len() + 1,
        })
    }
}

fn contains_id(v: &Vec<u128>, id: u128) -> (b: bool)
    ensures
        b == v@.contains(id),
{
    let mut i: usize = 0;
    while i < v.len()
        invariant
            i <= v@.len(),
            forall|k: int| 0 <= k < i ==> v@[k] != id,
        decreases v.len() - i,
    {
        if v[i] == id {
            return true;
        }
        i += 1;
    }
    false
}

/// The volumes without a mounted file system, each with its directory
/// under `base`.
pub open spec fn auto_mount_plan(v: Seq<Volume>, base: Seq<char>, mounted: Seq<u128>) -> Seq<(u128, Seq<char>)>
    decreases v.len(),
{
    if v.len() == 0 {
        Seq::empty()
    } else {
        let prev = auto_mount_plan(v.drop_last(), base, mounted);
        if mounted.contains(v.last().id) {
            prev
        } else {
            prev.push((v.last().id, path_join(base, v.last().name@)))
        }
    }
}

/// The standard local SSD class.
pub open spec fn fast_local_ssd(c: StorageClass) -> bool {
    &&& c.name@ == "fast-local-ssd"@
    &&& c.provisioner@ == "galleonfs.io/local-ssd"@
    &&& labels_view(c.parameters@) == seq![("disk_type"@, "ssd"@), ("fs_type"@, "ext4"@), ("encryption"@, "false"@)]
    &&& c.reclaim_policy == ReclaimPolicy::Delete
    &&& c.volume_binding_mode == VolumeBindingMode::Immediate
    &&& strings_view(c.allowed_topologies@) == seq!["zone-a"@, "zone-b"@]
    &&& strings_view(c.mount_options@) == seq!["noatime"@, "nodiratime"@]
}

/// The standard encrypted, replicated class.
pub open spec fn encrypted_storage(c: StorageClass) -> bool {
    &&& c.name@ == "encrypted-storage"@
    &&& c.provisioner@ == "galleonfs.io/distributed"@
    &&& labels_view(c.parameters@) == seq![("encryption"@, "true"@), ("encryption_algorithm"@, "AES-256-GCM"@),
        ("key_management"@, "internal-kms"@), ("replication"@, "3"@)]
    &&& c.reclaim_policy == ReclaimPolicy::Retain
    &&& c.volume_binding_mode == VolumeBindingMode::WaitForFirstConsumer
    &&& strings_view(c.allowed_topologies@) == seq!["zone-a"@, "zone-b"@, "zone-c"@]
    &&& strings_view(c.mount_options@) == seq!["noatime"@]
}

fn pair(k: &str, v: &str) -> (p: (String, String))
    ensures
        p.0@ == k@,
        p.1@ == v@,
{
    (k.to_owned(), v.to_owned())
}

fn fast_local_ssd_class() -> (c: StorageClass)
    ensures
        fast_local_ssd(c),
{
    let mut parameters: Vec<(String, String)> = Vec::new();
    parameters.push(pair("disk_type", "ssd"));
    parameters.push(pair("fs_type", "ext4"));
    parameters.push(pair("encryption", "false"));
    let mut topologies: Vec<String> = Vec::new();
    topologies.push("zone-a".to_owned());
    topologies.push("zone-b".to_owned());
    let mut options: Vec<String> = Vec::new();
    options.push("noatime".to_owned());
    options.push("nodiratime".to_owned());
    let c = StorageClass {
        name: "fast-local-ssd".to_owned(),
        provisioner: "galleonfs.io/local-ssd".to_owned(),
        parameters,
        reclaim_policy: ReclaimPolicy::Delete,
        volume_binding_mode: VolumeBindingMode::Immediate,
        allowed_topologies: topologies,
        mount_options: options,
    };
    assert(labels_view(c.parameters@) =~= seq![("disk_type"@, "ssd"@), ("fs_type"@, "ext4"@), ("encryption"@, "false"@)]);
    assert(strings_view(c.allowed_topologies@) =~= seq!["zone-a"@, "zone-b"@]);
    assert(strings_view(c.mount_options@) =~= seq!["noatime"@, "nodiratime"@]);
    c
}

fn encrypted_storage_class() -> (c: StorageClass)
    ensures
        encrypted_storage(c),
{
    let mut parameters: Vec<(String, String)> = Vec::new();
    parameters.push(pair("encryption", "true"));
    parameters.push(pair("encryption_algorithm", "AES-256-GCM"));
    parameters.push(pair("key_management", "internal-kms"));
    parameters.push(pair("replication", "3"));
    let mut topologies: Vec<String> = Vec::new();
    topologies.push("zone-a".to_owned());
    topologies.push("zone-b".to_owned());
    topologies.push("zone-c".to_owned());
    let mut options: Vec<String> = Vec::new();
    options.push("noatime".to_owned());
    let c = StorageClass {
        name: "encrypted-storage".to_owned(),
        provisioner: "galleonfs.io/distributed".to_owned(),
        parameters,
        reclaim_policy: ReclaimPolicy::Retain,
        volume_binding_mode: VolumeBindingMode::WaitForFirstConsumer,
        allowed_topologies: topologies,
        mount_options: options,
    };
    assert(labels_view(c.parameters@) =~= seq![("encryption"@, "true"@), ("encryption_algorithm"@, "AES-256-GCM"@),
        ("key_management"@, "internal-kms"@), ("replication"@, "3"@)]);
    assert(strings_view(c.allowed_topologies@) =~= seq!["zone-a"@, "zone-b"@, "zone-c"@]);
    assert(strings_view(c.mount_options@) =~= seq!["noatime"@]);
    c
}

/// A message framed for the daemon's socket: its length as four
/// little-endian bytes, then the message.
pub open spec fn framed(payload: Seq<u8>) -> Seq<u8> {
    let n = payload.len();
    seq![(n % 256) as u8, ((n / 256) % 256) as u8, ((n / 65536) % 256) as u8, ((n / 16777216) % 256) as u8] + payload
}

/// Frames a message: its length as four little-endian bytes, then the
/// message.
pub fn encode_frame(payload: &[u8]) -> (r: Vec<u8>)
    requires
        payload@.len() <= u32::MAX,
    ensures
        r@ == framed(payload@),
{
    let n = payload.len();
    let mut r: Vec<u8> = Vec::new();
    r.push((n % 256) as u8);
    r.push(((n / 256) % 256) as u8);
    r.push(((n / 65536) % 256) as u8);
    r.push(((n / 16777216) % 256) as u8);
    let mut i: usize = 0;
    while i < payload.len()
        invariant
            i <= payload@.len(),
            n == payload@.len(),
            r@ == seq![(n % 256) as u8, ((n / 256) % 256) as u8, ((n / 65536) % 256) as u8, ((n / 16777216) % 256) as u8]
                + payload@.subrange(0, i as int),
        decreases payload.len() - i,
    {
        r.push(payload[i]);
        i += 1;
        assert(r@ =~= seq![(n % 256) as u8, ((n / 256) % 256) as u8, ((n / 65536) % 256) as u8, ((n / 16777216) % 256) as u8]
            + payload@.subrange(0, i as int));
    }
    assert(payload@.subrange(0, n as int) =~= payload@);
    r
}

/// The length a frame header announces: its four bytes read as a
/// little-endian number.
pub fn frame_length(header: &[u8]) -> (n: u32)
    requires
        header@.len() >= 4,
    ensures
        n == header@[0] + header@[1] * 256 + header@[2] * 65536 + header@[3] * 16777216,
{
    let b0 = header[0] as u32;
    let b1 = header[1] as u32;
    let b2 = header[2] as u32;
    let b3 = header[3] as u32;
    b0 + b1 * 256 + b2 * 65536 + b3 * 16777216
}

/// A frame's header announces the length of the message it frames.
pub proof fn frame_length_round_trip(payload: Seq<u8>)
    requires
        payload.len() <= u32::MAX,
    ensures
        ({
            let f = framed(payload);
            f[0] + f[1] * 256 + f[2] * 65536 + f[3] * 16777216 == payload.len()
        }),
{
    let n = payload.len();
    let f = framed(payload);
    assert(f[0] == (n % 256) as u8);
    assert(f[1] == ((n / 256) % 256) as u8);
    assert(f[2] == ((n / 65536) % 256) as u8);
    assert(f[3] == ((n / 16777216) % 256) as u8);
    assert((n % 256) + ((n / 256) % 256) * 256 + ((n / 65536) % 256) * 65536 + ((n / 16777216) % 256) * 16777216 == n) by (nonlinear_arith)
        requires n <= 0xffff_ffff;
}

fn mounting_off_string() -> (s: String)
    ensures
        s@ == mounting_off_text(),
{
    "Mount manager is not enabled. Start daemon with --mount-point to enable volume mounting.".to_owned()
}


/// An unmount request that names a mount just made, by its id or by its
/// mount point, finds that mount, and taking it down leaves the daemon's
/// mount table as it was before the mount.
pub proof fn unmount_finds_the_new_mount(ms: Seq<VolumeMount>, added: VolumeMount, target: Seq<char>)
    requires
        crate::volume_mount::distinct_mounts(without_mount(ms, added.mount_id).push(added)),
        uuid_parse(target) == Some(added.mount_id) || (uuid_parse(target) is None && target == added.mount_point@),
    ensures
        ({
            let after = without_mount(ms, added.mount_id).push(added);
            &&& unmount_target(after, target) == after.len() - 1
            &&& after[unmount_target(after, target)] == added
            &&& without_mount(after, added.mount_id) == without_mount(ms, added.mount_id)
        }),
{
    let after = without_mount(ms, added.mount_id).push(added);
    let n = after.len() - 1;
    assert(after[n] == added);
    crate::volume_mount::unmount_undoes_mount(ms, added);
    if uuid_parse(target) is Some {
        let k = mount_index(after, added.mount_id);
        assert(0 <= k < after.len() && after[k].mount_id == added.mount_id);
    } else {
        crate::volume_mount::lookup_finds_new_mount(ms, added);
    }
}

} // verus!
