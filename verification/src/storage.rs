//! The file-backed storage engine's bookkeeping: the registry of volumes
//! and snapshots, volume state changes, file locations, block offsets and
//! journal recovery.  The files themselves are created, resized, copied,
//! read and written by the caller.
use vstd::prelude::*;
use crate::{JournalEntry, Labels, Volume, VolumeSnapshot, VolumeState, SnapshotState};
use crate::external::new_uuid;
use crate::labels::{labels_view, label_lookup, labels_remove, labels_set, strings_view};
use crate::text::{
    append_chars, chars_of, clone_opt_string, clone_pairs, clone_strings, decimal, decimal_chars,
    join_path, parse_decimal, parse_unsigned, path_join, string_of, uuid_chars, uuid_text,
    NumberParse,
};

verus! {

/// Errors of the storage engine's checks.
#[derive(Clone, Copy, Debug, PartialEq, Eq, Structural)]
pub enum StorageError {
    /// No volume has the id.
    VolumeNotFound,
    /// A shrink asked for a size that is not smaller than the current one.
    NotSmaller,
    /// No snapshot has the id.
    SnapshotNotFound,
}

/// Bookkeeping of a storage engine that keeps each volume in a file.
#[derive(Debug)]
pub struct FileStorageEngine {
    volumes: Vec<Volume>,
    snapshots: Vec<VolumeSnapshot>,
    storage_path: String,
    block_size: u64,
    journal_entries: Vec<JournalEntry>,
}

/// Ids of a list of volumes.
pub open spec fn volume_ids(v: Seq<Volume>) -> Seq<u128> {
    v.map_values(|x: Volume| x.id)
}

/// Index of the volume with id `id`, or -1.
pub open spec fn index_of_id(v: Seq<Volume>, id: u128) -> int {
    if exists|i: int| 0 <= i < v.len() && v[i].id == id {
        choose|i: int| 0 <= i < v.len() && v[i].id == id
    } else {
        -1
    }
}

/// The volume with id `id`, if any.
pub open spec fn volume_with_id(v: Seq<Volume>, id: u128) -> Option<Volume> {
    let i = index_of_id(v, id);
    if i >= 0 { Some(v[i]) } else { None }
}

/// No two volumes share an id.
pub open spec fn distinct_ids(v: Seq<Volume>) -> bool {
    forall|i: int, j: int| 0 <= i < v.len() && 0 <= j < v.len() && i != j ==> v[i].id != v[j].id
}

/// A volume's node list holds no node twice.
pub open spec fn distinct_nodes(v: Volume) -> bool {
    strings_view(v.attached_nodes@).no_duplicates()
}

proof fn lemma_index_of_id(v: Seq<Volume>, id: u128, i: int)
    requires
        distinct_ids(v),
        0 <= i < v.len(),
        v[i].id == id,
    ensures
        index_of_id(v, id) == i,
{
}

proof fn lemma_no_index(v: Seq<Volume>, id: u128)
    requires
        forall|i: int| 0 <= i < v.len() ==> v[i].id != id,
    ensures
        index_of_id(v, id) == -1,
{
}

impl FileStorageEngine {
    /// Registry invariant: volume ids are distinct and no volume lists a node twice.
    pub closed spec fn wf(&self) -> bool {
        &&& distinct_ids(self.volumes@)
        &&& forall|i: int| 0 <= i < self.volumes@.len() ==> distinct_nodes(#[trigger] self.volumes@[i])
    }

    /// The volumes, in registration order.
    pub closed spec fn volumes_view(&self) -> Seq<Volume> {
        self.volumes@
    }

    /// The snapshots, in creation order.
    pub closed spec fn snapshots_view(&self) -> Seq<VolumeSnapshot> {
        self.snapshots@
    }

    /// The journal entries, in the order written.
    pub closed spec fn journal_view(&self) -> Seq<JournalEntry> {
        self.journal_entries@
    }

    pub closed spec fn path_view(&self) -> Seq<char> {
        self.storage_path@
    }

    pub closed spec fn block_size_view(&self) -> u64 {
        self.block_size
    }

    /// An engine with no volumes, snapshots or journal entries.
    pub fn new(storage_path: String, block_size: u64) -> (e: Self)
        ensures
            e.wf(),
            e.volumes_view().len() == 0,
            e.snapshots_view().len() == 0,
            e.journal_view().len() == 0,
            e.path_view() == storage_path@,
            e.block_size_view() == block_size,
    {
        FileStorageEngine {
            volumes: Vec::new(),
            snapshots: Vec::new(),
            storage_path,
            block_size,
            journal_entries: Vec::new(),
        }
    }

    /// The file that holds a volume: `<storage>/<uuid>.vol`.
    pub fn get_volume_path(&self, volume_id: u128) -> (p: String)
        ensures
            p@ == path_join(self.path_view(), uuid_text(volume_id) + seq!['.', 'v', 'o', 'l']),
    {
        let mut name = uuid_chars(volume_id);
        name.push('.');
        name.push('v');
        name.push('o');
        name.push('l');
        join_path(self.storage_path.as_str(), name.as_slice())
    }

    /// The file that holds a snapshot: `<storage>/snapshots/<uuid>.snap`.
    pub fn get_snapshot_path(&self, snapshot_id: u128) -> (p: String)
        ensures
            p@ == path_join(
                path_join(self.path_view(), seq!['s', 'n', 'a', 'p', 's', 'h', 'o', 't', 's']),
                uuid_text(snapshot_id) + seq!['.', 's', 'n', 'a', 'p'],
            ),
    {
        let dir_name = seq_chars_snapshots();
        let dir = join_path(self.storage_path.as_str(), dir_name.as_slice());
        let mut name = uuid_chars(snapshot_id);
        name.push('.');
        name.push('s');
        name.push('n');
        name.push('a');
        name.push('p');
        join_path(dir.as_str(), name.as_slice())
    }

    /// Byte offset of a block in its volume file.
    pub fn block_offset(&self, block_id: u64) -> (off: u64)
        requires
            block_id * self.block_size_view() <= u64::MAX,
        ensures
            off == block_id * self.block_size_view(),
    {
        block_id * self.block_size
    }

    fn find_volume(&self, volume_id: u128) -> (r: Option<usize>)
        requires
            self.wf(),
        ensures
            match r {
                Some(i) => i < self.volumes@.len() && self.volumes@[i as int].id == volume_id
                    && index_of_id(self.volumes@, volume_id) == i,
                None => index_of_id(self.volumes@, volume_id) == -1,
            },
    {
        let mut i: usize = 0;
        while i < self.volumes.len()
            invariant
                i <= self.volumes@.len(),
                distinct_ids(self.volumes@),
                forall|t: int| 0 <= t < i ==> self.volumes@[t].id != volume_id,
            decreases self.volumes.len() - i,
        {
            if self.volumes[i].id == volume_id {
                proof {
                    lemma_index_of_id(self.volumes@, volume_id, i as int);
                }
                return Some(i);
            }
            i += 1;
        }
        proof {
            lemma_no_index(self.volumes@, volume_id);
        }
        None
    }

    /// Records a volume whose file was just created: it becomes available
    /// and replaces any volume with the same id.
    pub fn create_volume(&mut self, volume: Volume, now: i64)
        requires
            old(self).wf(),
            distinct_nodes(volume),
        ensures
            final(self).wf(),
            volume_with_id(final(self).volumes_view(), volume.id) == Some(
                Volume { state: VolumeState::Available, updated_at: now, ..volume },
            ),
            forall|id: u128| id != volume.id ==> volume_with_id(final(self).volumes_view(), id)
                == volume_with_id(old(self).volumes_view(), id),
    {
        let mut volume = volume;
        volume.state = VolumeState::Available;
        volume.updated_at = now;
        let id = volume.id;
        self.delete_volume(id);
        let ghost before = self.volumes@;
        self.volumes.push(volume);
        proof {
            let v = self.volumes@;
            assert(distinct_ids(v)) by {
                assert forall|i: int, j: int| 0 <= i < v.len() && 0 <= j < v.len() && i != j implies v[i].id != v[j].id by {
                    if i == v.len() - 1 {
                        if v[j].id == id {
                            lemma_index_of_id(before, id, j);
                        }
                    } else if j == v.len() - 1 {
                        if v[i].id == id {
                            lemma_index_of_id(before, id, i);
                        }
                    }
                }
            }
            lemma_index_of_id(v, id, v.len() - 1);
            assert forall|other: u128| other != id implies volume_with_id(v, other) == volume_with_id(before, other) by {
                if exists|i: int| 0 <= i < before.len() && before[i].id == other {
                    let i = choose|i: int| 0 <= i < before.len() && before[i].id == other;
                    lemma_index_of_id(before, other, i);
                    lemma_index_of_id(v, other, i);
                } else {
                    lemma_no_index(before, other);
                    lemma_no_index(v, other);
                }
            }
        }
    }

    /// Forgets the volume with the given id (after its file is removed).
    pub fn delete_volume(&mut self, volume_id: u128)
        requires
            old(self).wf(),
        ensures
            final(self).wf(),
            volume_with_id(final(self).volumes_view(), volume_id) is None,
            forall|id: u128| id != volume_id ==> volume_with_id(final(self).volumes_view(), id)
                == volume_with_id(old(self).volumes_view(), id),
            final(self).snapshots_view() == old(self).snapshots_view(),
            final(self).journal_view() == old(self).journal_view(),
            final(self).path_view() == old(self).path_view(),
            final(self).block_size_view() == old(self).block_size_view(),
    {
        let ghost before = self.volumes@;
        match self.find_volume(volume_id) {
            Some(i) => {
                self.volumes.remove(i);
                proof {
                    let v = self.volumes@;
                    assert forall|a: int| 0 <= a < v.len() implies v[a].id != volume_id by {
                        if a < i {
                            assert(v[a] == before[a]);
                        } else {
                            assert(v[a] == before[a + 1]);
                        }
                    }
                    lemma_no_index(v, volume_id);
                    assert forall|id: u128| id != volume_id implies volume_with_id(v, id) == volume_with_id(before, id) by {
                        if exists|k: int| 0 <= k < before.len() && before[k].id == id {
                            let k = choose|k: int| 0 <= k < before.len() && before[k].id == id;
                            lemma_index_of_id(before, id, k);
                            assert(k != i);
                            if k < i {
                                lemma_index_of_id(v, id, k);
                            } else {
                                lemma_index_of_id(v, id, k - 1);
                            }
                        } else {
                            lemma_no_index(before, id);
                            lemma_no_index(v, id);
                        }
                    }
                }
            },
            None => {},
        }
    }

    /// The volume with the given id.
    pub fn get_volume(&self, volume_id: u128) -> (r: Option<&Volume>)
        requires
            self.wf(),
        ensures
            match r {
                Some(v) => volume_with_id(self.volumes_view(), volume_id) == Some(*v),
                None => volume_with_id(self.volumes_view(), volume_id) is None,
            },
    {
        match self.find_volume(volume_id) {
            Some(i) => Some(&self.volumes[i]),
            None => None,
        }
    }

    /// All volumes, in registration order.
    pub fn list_volumes(&self) -> (r: &Vec<Volume>)
        ensures
            r@ == self.volumes_view(),
    {
        &self.volumes
    }

    /// Sets a volume's state (no change when the id is unknown).
    pub fn update_volume_state(&mut self, volume_id: u128, state: VolumeState, now: i64)
        requires
            old(self).wf(),
        ensures
            final(self).wf(),
            updated_one(old(self).volumes_view(), final(self).volumes_view(), volume_id,
                |v: Volume| Volume { state, updated_at: now, ..v }),
    {
        match self.find_volume(volume_id) {
            Some(i) => {
                let ghost old_v = self.volumes@[i as int];
                let mut v = self.volumes.remove(i);
                v.state = state;
                v.updated_at = now;
                self.volumes.insert(i, v);
                proof {
                    assert(self.volumes@ =~= old(self).volumes@.update(i as int, Volume { state, updated_at: now, ..old_v }));
                    lemma_update_keeps_wf(old(self).volumes@, i as int, Volume { state, updated_at: now, ..old_v });
                    lemma_updated_one_at(old(self).volumes@, self.volumes@, volume_id, i as int,
                        |v: Volume| Volume { state, updated_at: now, ..v });
                }
            },
            None => {
                proof {
                    lemma_updated_one_none(old(self).volumes@, volume_id,
                        |v: Volume| Volume { state, updated_at: now, ..v });
                }
            },
        }
    }
}


/// The registry after the volume with id `id`, if there is one, went
/// through a change that `rel` relates old to new; other volumes are kept.
pub open spec fn changed_one(before: Seq<Volume>, after: Seq<Volume>, id: u128, rel: spec_fn(Volume, Volume) -> bool) -> bool {
    let i = index_of_id(before, id);
    if i >= 0 {
        &&& after.len() == before.len()
        &&& forall|k: int| 0 <= k < before.len() && k != i ==> after[k] == before[k]
        &&& rel(before[i], after[i])
    } else {
        after == before
    }
}

proof fn lemma_changed(before: Seq<Volume>, after: Seq<Volume>, i: int, v: Volume, rel: spec_fn(Volume, Volume) -> bool)
    requires
        distinct_ids(before),
        forall|k: int| 0 <= k < before.len() ==> distinct_nodes(#[trigger] before[k]),
        0 <= i < before.len(),
        after == before.update(i, v),
        v.id == before[i].id,
        distinct_nodes(v),
        rel(before[i], v),
    ensures
        distinct_ids(after),
        forall|k: int| 0 <= k < after.len() ==> distinct_nodes(#[trigger] after[k]),
        changed_one(before, after, v.id, rel),
{
    lemma_update_keeps_wf(before, i, v);
    lemma_index_of_id(before, v.id, i);
}

/// Volume changes of the engine.  Each takes effect on the volume with the
/// given id and leaves the registry unchanged when no volume has it.
impl FileStorageEngine {
    /// Records a new size after the volume file was resized.
    pub fn expand_volume(&mut self, volume_id: u128, new_size: u64, now: i64)
        requires
            old(self).wf(),
        ensures
            final(self).wf(),
            changed_one(old(self).volumes_view(), final(self).volumes_view(), volume_id,
                |a: Volume, b: Volume| b == Volume { size_bytes: new_size, updated_at: now, ..a }),
            final(self).snapshots_view() == old(self).snapshots_view(),
    {
        if let Some(i) = self.find_volume(volume_id) {
            let ghost before = self.volumes@;
            let mut v = self.volumes.remove(i);
            v.size_bytes = new_size;
            v.updated_at = now;
            self.volumes.insert(i, v);
            proof {
                assert(self.volumes@ =~= before.update(i as int, v));
                lemma_changed(before, self.volumes@, i as int, v,
                    |a: Volume, b: Volume| b == Volume { size_bytes: new_size, updated_at: now, ..a });
            }
        }
    }

    /// Checks a shrink request: the volume must exist and the new size must
    /// be smaller than the current one.  A passing shrink is then carried
    /// out as an expand to the smaller size.
    pub fn check_shrink(&self, volume_id: u128, new_size: u64) -> (r: Result<(), StorageError>)
        requires
            self.wf(),
        ensures
            match volume_with_id(self.volumes_view(), volume_id) {
                None => r == Err::<(), StorageError>(StorageError::VolumeNotFound),
                Some(v) => if new_size >= v.size_bytes {
                    r == Err::<(), StorageError>(StorageError::NotSmaller)
                } else {
                    r == Ok::<(), StorageError>(())
                },
            },
    {
        match self.find_volume(volume_id) {
            Some(i) => if new_size >= self.volumes[i].size_bytes {
                Err(StorageError::NotSmaller)
            } else {
                Ok(())
            },
            None => Err(StorageError::VolumeNotFound),
        }
    }

    /// Attaches a node: a node not yet attached is added and the volume
    /// becomes bound; attaching an attached node changes nothing.
    pub fn attach_volume(&mut self, volume_id: u128, node: &String, now: i64)
        requires
            old(self).wf(),
        ensures
            final(self).wf(),
            changed_one(old(self).volumes_view(), final(self).volumes_view(), volume_id,
                |a: Volume, b: Volume| if strings_view(a.attached_nodes@).contains(node@) {
                    b == a
                } else {
                    &&& b == Volume { attached_nodes: b.attached_nodes, state: VolumeState::Bound, updated_at: now, ..a }
                    &&& b.attached_nodes@ == a.attached_nodes@.push(*node)
                }),
    {
        if let Some(i) = self.find_volume(volume_id) {
            let ghost before = self.volumes@;
            let ghost rel = |a: Volume, b: Volume| if strings_view(a.attached_nodes@).contains(node@) {
                b == a
            } else {
                &&& b == Volume { attached_nodes: b.attached_nodes, state: VolumeState::Bound, updated_at: now, ..a }
                &&& b.attached_nodes@ == a.attached_nodes@.push(*node)
            };
            let mut v = self.volumes.remove(i);
            if !crate::labels::contains_string(&v.attached_nodes, node) {
                let ghost nodes0 = v.attached_nodes@;
                v.attached_nodes.push(node.clone());
                v.state = VolumeState::Bound;
                v.updated_at = now;
                proof {
                    assert(strings_view(v.attached_nodes@) =~= strings_view(nodes0).push(node@));
                }
            }
            self.volumes.insert(i, v);
            proof {
                assert(self.volumes@ =~= before.update(i as int, v));
                lemma_changed(before, self.volumes@, i as int, v, rel);
            }
        }
    }

    /// Detaches a node; a volume left with no node becomes available.
    pub fn detach_volume(&mut self, volume_id: u128, node: &String, now: i64)
        requires
            old(self).wf(),
        ensures
            final(self).wf(),
            changed_one(old(self).volumes_view(), final(self).volumes_view(), volume_id,
                |a: Volume, b: Volume| {
                    &&& strings_view(b.attached_nodes@) == without(strings_view(a.attached_nodes@), node@)
                    &&& b == Volume {
                        attached_nodes: b.attached_nodes,
                        state: if b.attached_nodes@.len() == 0 { VolumeState::Available } else { a.state },
                        updated_at: now,
                        ..a
                    }
                }),
    {
        if let Some(i) = self.find_volume(volume_id) {
            let ghost before = self.volumes@;
            let ghost rel = |a: Volume, b: Volume| {
                &&& strings_view(b.attached_nodes@) == without(strings_view(a.attached_nodes@), node@)
                &&& b == Volume {
                    attached_nodes: b.attached_nodes,
                    state: if b.attached_nodes@.len() == 0 { VolumeState::Available } else { a.state },
                    updated_at: now,
                    ..a
                }
            };
            let mut v = self.volumes.remove(i);
            let kept = retain_other_strings(&v.attached_nodes, node);
            v.attached_nodes = kept;
            if v.attached_nodes.len() == 0 {
                v.state = VolumeState::Available;
            }
            v.updated_at = now;
            self.volumes.insert(i, v);
            proof {
                assert(self.volumes@ =~= before.update(i as int, v));
                lemma_changed(before, self.volumes@, i as int, v, rel);
            }
        }
    }

    /// Records a mount: the volume remembers the path and becomes mounted.
    pub fn mount_volume(&mut self, volume_id: u128, mount_path: String, now: i64)
        requires
            old(self).wf(),
        ensures
            final(self).wf(),
            changed_one(old(self).volumes_view(), final(self).volumes_view(), volume_id,
                |a: Volume, b: Volume| b == Volume { mount_path: Some(mount_path), state: VolumeState::Mounted, updated_at: now, ..a }),
    {
        if let Some(i) = self.find_volume(volume_id) {
            let ghost before = self.volumes@;
            let mut v = self.volumes.remove(i);
            v.mount_path = Some(mount_path);
            v.state = VolumeState::Mounted;
            v.updated_at = now;
            self.volumes.insert(i, v);
            proof {
                assert(self.volumes@ =~= before.update(i as int, v));
                lemma_changed(before, self.volumes@, i as int, v,
                    |a: Volume, b: Volume| b == Volume { mount_path: Some(mount_path), state: VolumeState::Mounted, updated_at: now, ..a });
            }
        }
    }

    /// Records an unmount: the path is forgotten and the volume is bound if
    /// nodes are still attached, available otherwise.
    pub fn unmount_volume(&mut self, volume_id: u128, now: i64)
        requires
            old(self).wf(),
        ensures
            final(self).wf(),
            changed_one(old(self).volumes_view(), final(self).volumes_view(), volume_id,
                |a: Volume, b: Volume| b == Volume {
                    mount_path: None,
                    state: if a.attached_nodes@.len() == 0 { VolumeState::Available } else { VolumeState::Bound },
                    updated_at: now,
                    ..a
                }),
    {
        if let Some(i) = self.find_volume(volume_id) {
            let ghost before = self.volumes@;
            let mut v = self.volumes.remove(i);
            v.mount_path = None;
            v.state = if v.attached_nodes.len() == 0 { VolumeState::Available } else { VolumeState::Bound };
            v.updated_at = now;
            self.volumes.insert(i, v);
            proof {
                assert(self.volumes@ =~= before.update(i as int, v));
                lemma_changed(before, self.volumes@, i as int, v,
                    |a: Volume, b: Volume| b == Volume {
                        mount_path: None,
                        state: if a.attached_nodes@.len() == 0 { VolumeState::Available } else { VolumeState::Bound },
                        updated_at: now,
                        ..a
                    });
            }
        }
    }

    /// Moves a volume to another storage class.
    pub fn transform_volume(&mut self, volume_id: u128, target_class: &String, now: i64)
        requires
            old(self).wf(),
        ensures
            final(self).wf(),
            changed_one(old(self).volumes_view(), final(self).volumes_view(), volume_id,
                |a: Volume, b: Volume| b == Volume { storage_class: *target_class, updated_at: now, ..a }),
    {
        if let Some(i) = self.find_volume(volume_id) {
            let ghost before = self.volumes@;
            let mut v = self.volumes.remove(i);
            v.storage_class = target_class.clone();
            v.updated_at = now;
            self.volumes.insert(i, v);
            proof {
                assert(self.volumes@ =~= before.update(i as int, v));
                lemma_changed(before, self.volumes@, i as int, v,
                    |a: Volume, b: Volume| b == Volume { storage_class: *target_class, updated_at: now, ..a });
            }
        }
    }

    /// Sets a label on a volume (replacing the value of an existing key).
    pub fn set_volume_label(&mut self, volume_id: u128, key: &String, value: &String, now: i64)
        requires
            old(self).wf(),
        ensures
            final(self).wf(),
            changed_one(old(self).volumes_view(), final(self).volumes_view(), volume_id,
                |a: Volume, b: Volume| {
                    &&& labels_view(b.labels@) == labels_set(labels_view(a.labels@), key@, value@)
                    &&& b == Volume { labels: b.labels, updated_at: now, ..a }
                }),
    {
        if let Some(i) = self.find_volume(volume_id) {
            let ghost before = self.volumes@;
            let mut v = self.volumes.remove(i);
            let l = crate::labels::set_label(&v.labels, key, value);
            v.labels = l;
            v.updated_at = now;
            self.volumes.insert(i, v);
            proof {
                assert(self.volumes@ =~= before.update(i as int, v));
                lemma_changed(before, self.volumes@, i as int, v, |a: Volume, b: Volume| {
                    &&& labels_view(b.labels@) == labels_set(labels_view(a.labels@), key@, value@)
                    &&& b == Volume { labels: b.labels, updated_at: now, ..a }
                });
            }
        }
    }

    /// Removes a label from a volume.
    pub fn remove_volume_label(&mut self, volume_id: u128, key: &String, now: i64)
        requires
            old(self).wf(),
        ensures
            final(self).wf(),
            changed_one(old(self).volumes_view(), final(self).volumes_view(), volume_id,
                |a: Volume, b: Volume| {
                    &&& labels_view(b.labels@) == labels_remove(labels_view(a.labels@), key@)
                    &&& b == Volume { labels: b.labels, updated_at: now, ..a }
                }),
    {
        if let Some(i) = self.find_volume(volume_id) {
            let ghost before = self.volumes@;
            let mut v = self.volumes.remove(i);
            let l = crate::labels::remove_label(&v.labels, key);
            v.labels = l;
            v.updated_at = now;
            self.volumes.insert(i, v);
            proof {
                assert(self.volumes@ =~= before.update(i as int, v));
                lemma_changed(before, self.volumes@, i as int, v, |a: Volume, b: Volume| {
                    &&& labels_view(b.labels@) == labels_remove(labels_view(a.labels@), key@)
                    &&& b == Volume { labels: b.labels, updated_at: now, ..a }
                });
            }
        }
    }
}

/// `s` with every occurrence of `x` taken out.
pub open spec fn without<A>(s: Seq<A>, x: A) -> Seq<A>
    decreases s.len(),
{
    if s.len() == 0 {
        s
    } else if s.last() == x {
        without(s.drop_last(), x)
    } else {
        without(s.drop_last(), x).push(s.last())
    }
}

proof fn lemma_without_push<A>(s: Seq<A>, y: A, x: A)
    ensures
        without(s.push(y), x) == if y == x { without(s, x) } else { without(s, x).push(y) },
{
    assert(s.push(y).drop_last() =~= s);
}

proof fn lemma_without_contains<A>(s: Seq<A>, x: A, y: A)
    ensures
        without(s, x).contains(y) <==> (s.contains(y) && y != x),
    decreases s.len(),
{
    if s.len() > 0 {
        let d = s.drop_last();
        let z = s.last();
        lemma_without_contains(d, x, y);
        assert(s =~= d.push(z));
        vstd::seq_lib::lemma_seq_contains_after_push(d, z, y);
        vstd::seq_lib::lemma_seq_contains_after_push(without(d, x), z, y);
    }
}

proof fn lemma_without_no_dup<A>(s: Seq<A>, x: A)
    requires
        s.no_duplicates(),
    ensures
        without(s, x).no_duplicates(),
    decreases s.len(),
{
    if s.len() > 0 {
        let d = s.drop_last();
        assert(d.no_duplicates());
        lemma_without_no_dup(d, x);
        if s.last() != x {
            lemma_without_contains(d, x, s.last());
            assert(!d.contains(s.last())) by {
                if d.contains(s.last()) {
                    let i = choose|i: int| 0 <= i < d.len() && d[i] == s.last();
                    assert(s[i] == s[s.len() - 1]);
                }
            }
            let w = without(d, x);
            assert forall|i: int, j: int| 0 <= i < w.push(s.last()).len() && 0 <= j < w.push(s.last()).len() && i != j
                implies w.push(s.last())[i] != w.push(s.last())[j] by {
                if i == w.len() {
                    assert(w.contains(w[j]));
                } else if j == w.len() {
                    assert(w.contains(w[i]));
                }
            }
        }
    }
}

/// The strings of a list other than `s`, in order.
pub fn retain_other_strings(list: &Vec<String>, s: &String) -> (r: Vec<String>)
    ensures
        strings_view(r@) == without(strings_view(list@), s@),
        strings_view(list@).no_duplicates() ==> strings_view(r@).no_duplicates(),
{
    let mut r: Vec<String> = Vec::new();
    let mut i: usize = 0;
    while i < list.len()
        invariant
            i <= list@.len(),
            strings_view(r@) == without(strings_view(list@.subrange(0, i as int)), s@),
        decreases list.len() - i,
    {
        let ghost pre = strings_view(list@.subrange(0, i as int));
        let ghost r0 = r@;
        assert(strings_view(list@.subrange(0, i + 1)) =~= pre.push(list@[i as int]@));
        proof {
            lemma_without_push(pre, list@[i as int]@, s@);
        }
        if list[i] != *s {
            r.push(list[i].clone());
            assert(strings_view(r@) =~= strings_view(r0).push(list@[i as int]@));
        }
        i += 1;
    }
    assert(list@.subrange(0, list@.len() as int) =~= list@);
    proof {
        if strings_view(list@).no_duplicates() {
            lemma_without_no_dup(strings_view(list@), s@);
        }
    }
    r
}

proof fn lemma_update_keeps_wf(before: Seq<Volume>, i: int, v: Volume)
    requires
        distinct_ids(before),
        forall|k: int| 0 <= k < before.len() ==> distinct_nodes(#[trigger] before[k]),
        0 <= i < before.len(),
        v.id == before[i].id,
        distinct_nodes(v),
    ensures
        distinct_ids(before.update(i, v)),
        forall|k: int| 0 <= k < before.len() ==> distinct_nodes(#[trigger] before.update(i, v)[k]),
{
    let after = before.update(i, v);
    assert forall|a: int, b: int| 0 <= a < after.len() && 0 <= b < after.len() && a != b implies after[a].id != after[b].id by {
        assert(after[a].id == before[a].id);
        assert(after[b].id == before[b].id);
    }
    assert forall|k: int| 0 <= k < before.len() implies distinct_nodes(#[trigger] after[k]) by {
        if k != i {
            assert(after[k] == before[k]);
        }
    }
}

/// The registry after changing at most the volume with id `id` by `f`: if
/// the volume exists it is replaced in place by `f` of it, otherwise nothing
/// changes.
pub open spec fn updated_one(before: Seq<Volume>, after: Seq<Volume>, id: u128, f: spec_fn(Volume) -> Volume) -> bool {
    let i = index_of_id(before, id);
    if i >= 0 { after == before.update(i, f(before[i])) } else { after == before }
}

proof fn lemma_updated_one_at(before: Seq<Volume>, after: Seq<Volume>, id: u128, i: int, f: spec_fn(Volume) -> Volume)
    requires
        distinct_ids(before),
        0 <= i < before.len(),
        before[i].id == id,
        after == before.update(i, f(before[i])),
    ensures
        updated_one(before, after, id, f),
{
    lemma_index_of_id(before, id, i);
}

proof fn lemma_updated_one_none(before: Seq<Volume>, id: u128, f: spec_fn(Volume) -> Volume)
    requires
        index_of_id(before, id) == -1,
    ensures
        updated_one(before, before, id, f),
{
}

fn seq_chars_snapshots() -> (v: Vec<char>)
    ensures
        v@ == seq!['s', 'n', 'a', 'p', 's', 'h', 'o', 't', 's'],
{
    let mut v = Vec::new();
    v.push('s');
    v.push('n');
    v.push('a');
    v.push('p');
    v.push('s');
    v.push('h');
    v.push('o');
    v.push('t');
    v.push('s');
    assert(v@ =~= seq!['s', 'n', 'a', 'p', 's', 'h', 'o', 't', 's']);
    v
}

/// Index of the first `:` at or after `i`, or the length of `s`.
pub open spec fn colon_from(s: Seq<char>, i: int) -> int
    decreases s.len() - i,
{
    if i >= s.len() {
        s.len() as int
    } else if s[i] == ':' {
        i
    } else {
        colon_from(s, i + 1)
    }
}

/// The block a journal operation writes: for `WRITE:<volume>:<block>...`,
/// the third `:`-separated field read as a `u64`.
pub open spec fn write_op_block(op: Seq<char>) -> Option<u64> {
    let c1 = colon_from(op, 0);
    let c2 = colon_from(op, c1 + 1);
    let field = op.subrange(c2 + 1, colon_from(op, c2 + 1));
    if op.len() >= 6 && op.subrange(0, 6) == "WRITE:"@ && c1 < op.len() && c2 < op.len() {
        match parse_unsigned(field, u64::MAX as nat) {
            NumberParse::Value(b) => Some(b),
            _ => None,
        }
    } else {
        None
    }
}

proof fn lemma_colon_from_skips(s: Seq<char>, i: int, j: int)
    requires
        0 <= i <= j <= s.len(),
        forall|k: int| i <= k < j ==> s[k] != ':',
        j == s.len() || s[j] == ':',
    ensures
        colon_from(s, i) == j,
    decreases j - i,
{
    if i < j {
        lemma_colon_from_skips(s, i + 1, j);
    }
}

/// A block write's journal operation, `WRITE:<volume>:<block>`, reads back
/// as a write of that block.
pub proof fn lemma_write_op_reads_back(volume_id: u128, block_id: u64)
    ensures
        write_op_block("WRITE:"@ + uuid_text(volume_id) + ":"@ + decimal(block_id as nat)) == Some(block_id),
{
    reveal_strlit("WRITE:");
    reveal_strlit(":");
    let u = uuid_text(volume_id);
    let d = decimal(block_id as nat);
    let op = "WRITE:"@ + u + ":"@ + d;
    crate::text::lemma_uuid_text_no_colon(volume_id);
    crate::text::lemma_decimal_reads_back(block_id as nat);
    assert(op.len() == 43 + d.len());
    assert(op[5] == ':');
    lemma_colon_from_skips(op, 0, 5);
    assert forall|k: int| 6 <= k < 42 implies op[k] != ':' by {
        assert(op[k] == u[k - 6]);
    }
    assert(op[42] == ':');
    lemma_colon_from_skips(op, 6, 42);
    assert forall|k: int| 43 <= k < op.len() implies op[k] != ':' by {
        assert(op[k] == d[k - 43]);
        assert(crate::text::is_digit(d[k - 43]));
    }
    lemma_colon_from_skips(op, 43, op.len() as int);
    assert(op.subrange(43, op.len() as int) =~= d);
    assert(op.subrange(0, 6) =~= "WRITE:"@);
    assert(crate::text::number_body(d) == d);
}

fn colon_from_exec(s: &[char], i: usize) -> (r: usize)
    requires
        i <= s@.len(),
    ensures
        r == colon_from(s@, i as int),
        i <= r <= s@.len(),
    decreases s@.len() - i,
{
    if i >= s.len() {
        s.len()
    } else if s[i] == ':' {
        i
    } else {
        colon_from_exec(s, i + 1)
    }
}

/// The block a journal operation writes, if it is a block write.
pub fn write_op_block_exec(op: &str) -> (r: Option<u64>)
    ensures
        r == write_op_block(op@),
{
    let s = chars_of(op);
    let n = s.len();
    if n < 6 {
        return None;
    }
    let head = crate::units::slice_prefix(s.as_slice(), 6);
    let prefix = chars_of("WRITE:");
    let mut k: usize = 0;
    proof {
        reveal_strlit("WRITE:");
    }
    while k < 6
        invariant
            k <= 6,
            n == s@.len(),
            s@ == op@,
            n >= 6,
            head@ == s@.subrange(0, 6),
            prefix@ == "WRITE:"@,
            prefix@.len() == 6,
            forall|t: int| 0 <= t < k ==> head@[t] == prefix@[t],
        decreases 6 - k,
    {
        if head[k] != prefix[k] {
            assert(s@.subrange(0, 6)[k as int] != "WRITE:"@[k as int]);
            assert(op@.subrange(0, 6) != "WRITE:"@);
            return None;
        }
        k += 1;
    }
    assert(s@.subrange(0, 6) =~= "WRITE:"@);
    let c1 = colon_from_exec(s.as_slice(), 0);
    if c1 >= n {
        return None;
    }
    let c2 = colon_from_exec(s.as_slice(), c1 + 1);
    if c2 >= n {
        return None;
    }
    let c3 = colon_from_exec(s.as_slice(), c2 + 1);
    let field = vstd::slice::slice_subrange(s.as_slice(), c2 + 1, c3);
    match crate::text::parse_decimal(field, u64::MAX) {
        NumberParse::Value(b) => Some(b),
        _ => None,
    }
}

/// The uncommitted block writes of a volume a journal replays, in order:
/// each as the index of its entry and the block it writes.
pub open spec fn replay_plan(entries: Seq<JournalEntry>, volume_id: u128) -> Seq<(int, u64)>
    decreases entries.len(),
{
    if entries.len() == 0 {
        Seq::empty()
    } else {
        let prev = replay_plan(entries.drop_last(), volume_id);
        let e = entries.last();
        if e.volume_id == volume_id && !e.committed {
            match write_op_block(e.operation@) {
                Some(b) => prev.push(((entries.len() - 1) as int, b)),
                None => prev,
            }
        } else {
            prev
        }
    }
}

/// The writes to replay for a volume after a crash: the uncommitted
/// `WRITE:` entries whose block number reads, in journal order.
pub fn recover_from_journal(entries: &Vec<JournalEntry>, volume_id: u128) -> (r: Vec<(usize, u64)>)
    ensures
        r@.len() == replay_plan(entries@, volume_id).len(),
        forall|i: int| 0 <= i < r@.len() ==> (#[trigger] r@[i]).0 as int == replay_plan(entries@, volume_id)[i].0
            && r@[i].1 == replay_plan(entries@, volume_id)[i].1,
{
    let mut r: Vec<(usize, u64)> = Vec::new();
    let mut i: usize = 0;
    assert(entries@.take(0) =~= Seq::<JournalEntry>::empty());
    while i < entries.len()
        invariant
            i <= entries@.len(),
            r@.len() == replay_plan(entries@.take(i as int), volume_id).len(),
            forall|t: int| 0 <= t < r@.len() ==> (#[trigger] r@[t]).0 as int == replay_plan(entries@.take(i as int), volume_id)[t].0
                && r@[t].1 == replay_plan(entries@.take(i as int), volume_id)[t].1,
        decreases entries.len() - i,
    {
        let ghost pre = entries@.take(i as int);
        let ghost post = entries@.take(i + 1);
        assert(post.drop_last() =~= pre);
        assert(post.last() == entries@[i as int]);
        let e = &entries[i];
        if e.volume_id == volume_id && !e.committed {
            match write_op_block_exec(e.operation.as_str()) {
                Some(b) => {
                    let ghost r0 = r@;
                    r.push((i, b));
                    assert forall|t: int| 0 <= t < r@.len() implies (#[trigger] r@[t]).0 as int == replay_plan(post, volume_id)[t].0
                        && r@[t].1 == replay_plan(post, volume_id)[t].1 by {
                        if t < r0.len() {
                            assert(r@[t] == r0[t]);
                        }
                    }
                },
                None => {},
            }
        }
        i += 1;
    }
    assert(entries@.take(entries@.len() as int) =~= entries@);
    r
}

/// Two snapshots hold the same values.
pub open spec fn same_snapshot(a: VolumeSnapshot, b: VolumeSnapshot) -> bool {
    &&& a.id == b.id
    &&& a.name == b.name
    &&& a.volume_id == b.volume_id
    &&& a.size_bytes == b.size_bytes
    &&& a.state == b.state
    &&& a.created_at == b.created_at
    &&& a.ready_to_use == b.ready_to_use
    &&& a.source_volume_mode == b.source_volume_mode
    &&& a.labels@ == b.labels@
}

/// A copy of a snapshot record.
pub fn copy_snapshot(s: &VolumeSnapshot) -> (r: VolumeSnapshot)
    ensures
        same_snapshot(r, *s),
{
    VolumeSnapshot {
        id: s.id,
        name: s.name.clone(),
        volume_id: s.volume_id,
        size_bytes: s.size_bytes,
        state: s.state,
        created_at: s.created_at,
        ready_to_use: s.ready_to_use,
        source_volume_mode: s.source_volume_mode.clone(),
        labels: clone_pairs(&s.labels),
    }
}

/// The snapshots of a volume, in order.
pub open spec fn snapshots_of(s: Seq<VolumeSnapshot>, volume_id: u128) -> Seq<VolumeSnapshot>
    decreases s.len(),
{
    if s.len() == 0 {
        Seq::empty()
    } else if s.last().volume_id == volume_id {
        snapshots_of(s.drop_last(), volume_id).push(s.last())
    } else {
        snapshots_of(s.drop_last(), volume_id)
    }
}

/// The snapshots without the one with id `id`.
pub open spec fn without_snapshot(s: Seq<VolumeSnapshot>, id: u128) -> Seq<VolumeSnapshot>
    decreases s.len(),
{
    if s.len() == 0 {
        s
    } else if s.last().id == id {
        without_snapshot(s.drop_last(), id)
    } else {
        without_snapshot(s.drop_last(), id).push(s.last())
    }
}

/// The journal without the entries with id `id`.
pub open spec fn without_entry(s: Seq<JournalEntry>, id: u128) -> Seq<JournalEntry>
    decreases s.len(),
{
    if s.len() == 0 {
        s
    } else if s.last().id == id {
        without_entry(s.drop_last(), id)
    } else {
        without_entry(s.drop_last(), id).push(s.last())
    }
}

/// The text `COMMIT:<id>` a commit record carries.
pub open spec fn commit_text(id: u128) -> Seq<char> {
    "COMMIT:"@ + uuid_text(id)
}

impl FileStorageEngine {
    /// A snapshot of `volume_id` named `snapshot_name`, being taken: the
    /// volume's size, a fresh id, pending.  The caller copies the volume's
    /// file to the snapshot's path and then records it.
    pub fn begin_snapshot(&self, volume_id: u128, snapshot_name: &str, now: i64) -> (r: Result<VolumeSnapshot, StorageError>)
        requires
            self.wf(),
        ensures
            match volume_with_id(self.volumes_view(), volume_id) {
                None => r == Err::<VolumeSnapshot, StorageError>(StorageError::VolumeNotFound),
                Some(v) => r matches Ok(s) && {
                    &&& s.name@ == snapshot_name@
                    &&& s.volume_id == volume_id
                    &&& s.size_bytes == v.size_bytes
                    &&& s.state == SnapshotState::Pending
                    &&& s.created_at == now
                    &&& !s.ready_to_use
                    &&& s.source_volume_mode@ == "Filesystem"@
                    &&& s.labels@.len() == 0
                },
            },
    {
        let v = match self.get_volume(volume_id) {
            Some(v) => v,
            None => return Err(StorageError::VolumeNotFound),
        };
        Ok(VolumeSnapshot {
            id: new_uuid(),
            name: snapshot_name.to_owned(),
            volume_id,
            size_bytes: v.size_bytes,
            state: SnapshotState::Pending,
            created_at: now,
            ready_to_use: false,
            source_volume_mode: "Filesystem".to_owned(),
            labels: Vec::new(),
        })
    }

    /// Records a snapshot whose copy is complete: ready to use.  A snapshot
    /// with the same id is replaced.  Gives a copy of the record.
    pub fn create_snapshot(&mut self, snapshot: VolumeSnapshot) -> (r: VolumeSnapshot)
        requires
            old(self).wf(),
        ensures
            final(self).wf(),
            final(self).volumes_view() == old(self).volumes_view(),
            final(self).journal_view() == old(self).journal_view(),
            final(self).snapshots_view() == without_snapshot(old(self).snapshots_view(), snapshot.id).push(
                VolumeSnapshot { state: SnapshotState::Ready, ready_to_use: true, ..snapshot }),
            same_snapshot(r, VolumeSnapshot { state: SnapshotState::Ready, ready_to_use: true, ..snapshot }),
    {
        let mut snap = snapshot;
        snap.state = SnapshotState::Ready;
        snap.ready_to_use = true;
        self.delete_snapshot(snap.id);
        let copy = copy_snapshot(&snap);
        self.snapshots.push(snap);
        copy
    }

    /// Forgets a snapshot (after its file is removed).
    pub fn delete_snapshot(&mut self, snapshot_id: u128)
        requires
            old(self).wf(),
        ensures
            final(self).wf(),
            final(self).volumes_view() == old(self).volumes_view(),
            final(self).journal_view() == old(self).journal_view(),
            final(self).snapshots_view() == without_snapshot(old(self).snapshots_view(), snapshot_id),
    {
        let ghost s0 = self.snapshots@;
        let mut rest: Vec<VolumeSnapshot> = Vec::new();
        std::mem::swap(&mut rest, &mut self.snapshots);
        let n = rest.len();
        let mut i: usize = 0;
        assert(s0.take(0) =~= Seq::<VolumeSnapshot>::empty());
        assert(s0.skip(0) =~= s0);
        while rest.len() > 0
            invariant
                n == s0.len(),
                i + rest@.len() == n,
                rest@ == s0.skip(i as int),
                self.snapshots@ == without_snapshot(s0.take(i as int), snapshot_id),
                self.volumes == old(self).volumes,
                self.journal_entries == old(self).journal_entries,
                s0 == old(self).snapshots@,
            decreases rest.len(),
        {
            let x = rest.remove(0);
            proof {
                assert(x == s0[i as int]);
                assert(s0.take(i + 1).drop_last() =~= s0.take(i as int));
                assert(s0.take(i + 1).last() == s0[i as int]);
                assert(rest@ =~= s0.skip(i + 1));
            }
            if x.id != snapshot_id {
                self.snapshots.push(x);
            }
            i += 1;
        }
        assert(s0.take(n as int) =~= s0);
    }

    /// Copies of the snapshots of a volume, in order.
    /// Every snapshot the engine holds, of any volume, in order.
    pub fn all_snapshots(&self) -> (r: &Vec<VolumeSnapshot>)
        ensures
            r@ == self.snapshots_view(),
    {
        &self.snapshots
    }

    pub fn list_snapshots(&self, volume_id: u128) -> (r: Vec<VolumeSnapshot>)
        ensures
            r@.len() == snapshots_of(self.snapshots_view(), volume_id).len(),
            forall|i: int| 0 <= i < r@.len() ==> same_snapshot(#[trigger] r@[i], snapshots_of(self.snapshots_view(), volume_id)[i]),
    {
        let mut r: Vec<VolumeSnapshot> = Vec::new();
        let mut i: usize = 0;
        assert(self.snapshots@.take(0) =~= Seq::<VolumeSnapshot>::empty());
        while i < self.snapshots.len()
            invariant
                i <= self.snapshots@.len(),
                r@.len() == snapshots_of(self.snapshots@.take(i as int), volume_id).len(),
                forall|t: int| 0 <= t < r@.len() ==> same_snapshot(#[trigger] r@[t], snapshots_of(self.snapshots@.take(i as int), volume_id)[t]),
            decreases self.snapshots.len() - i,
        {
            assert(self.snapshots@.take(i + 1).drop_last() =~= self.snapshots@.take(i as int));
            if self.snapshots[i].volume_id == volume_id {
                r.push(copy_snapshot(&self.snapshots[i]));
            }
            i += 1;
        }
        assert(self.snapshots@.take(self.snapshots@.len() as int) =~= self.snapshots@);
        r
    }

    /// After a snapshot's file was copied over the target volume's file,
    /// the target becomes available; without a snapshot file the restore
    /// fails and nothing changes.
    pub fn restore_snapshot(&mut self, snapshot_file_exists: bool, target_volume_id: u128, now: i64) -> (r: Result<(), StorageError>)
        requires
            old(self).wf(),
        ensures
            final(self).wf(),
            !snapshot_file_exists ==> r == Err::<(), StorageError>(StorageError::SnapshotNotFound)
                && final(self).volumes_view() == old(self).volumes_view(),
            snapshot_file_exists ==> r is Ok && updated_one(old(self).volumes_view(), final(self).volumes_view(), target_volume_id,
                |v: Volume| Volume { state: VolumeState::Available, updated_at: now, ..v }),
    {
        if !snapshot_file_exists {
            return Err(StorageError::SnapshotNotFound);
        }
        self.update_volume_state(target_volume_id, VolumeState::Available, now);
        Ok(())
    }

    /// A copy of volume `source_id` named `target_name`, with a fresh id:
    /// same type, size, class, access modes and labels, available.  The
    /// caller copies the volume's file to the new id's path.
    pub fn clone_volume(&mut self, source_id: u128, target_name: &str, now: i64) -> (r: Result<u128, StorageError>)
        requires
            old(self).wf(),
        ensures
            final(self).wf(),
            match volume_with_id(old(self).volumes_view(), source_id) {
                None => r == Err::<u128, StorageError>(StorageError::VolumeNotFound)
                    && final(self).volumes_view() == old(self).volumes_view(),
                Some(src) => r matches Ok(id) && volume_with_id(final(self).volumes_view(), id) matches Some(t) && {
                    &&& t.name@ == target_name@
                    &&& t.volume_type == src.volume_type
                    &&& t.size_bytes == src.size_bytes
                    &&& t.storage_class@ == src.storage_class@
                    &&& t.state == VolumeState::Available
                    &&& t.access_modes@ == src.access_modes@
                    &&& t.labels@ == src.labels@
                    &&& t.attached_nodes@.len() == 0
                    &&& forall|other: u128| other != id ==> volume_with_id(final(self).volumes_view(), other)
                        == volume_with_id(old(self).volumes_view(), other)
                },
            },
    {
        let src = match self.get_volume(source_id) {
            Some(v) => v,
            None => return Err(StorageError::VolumeNotFound),
        };
        let mut target = Volume::new(target_name.to_owned(), src.volume_type, src.size_bytes, src.storage_class.clone());
        let mut modes: Vec<crate::AccessMode> = Vec::new();
        let mut k: usize = 0;
        while k < src.access_modes.len()
            invariant
                k <= src.access_modes@.len(),
                modes@ == src.access_modes@.subrange(0, k as int),
            decreases src.access_modes.len() - k,
        {
            modes.push(src.access_modes[k]);
            k += 1;
            assert(modes@ =~= src.access_modes@.subrange(0, k as int));
        }
        assert(src.access_modes@.subrange(0, src.access_modes@.len() as int) =~= src.access_modes@);
        target.access_modes = modes;
        target.labels = clone_pairs(&src.labels);
        let id = target.id;
        proof {
            assert(strings_view(target.attached_nodes@).no_duplicates());
        }
        self.create_volume(target, now);
        Ok(id)
    }

    /// Records a journal entry (after it is appended to the journal file);
    /// an entry with the same id is replaced.
    pub fn write_journal_entry(&mut self, entry: JournalEntry)
        requires
            old(self).wf(),
        ensures
            final(self).wf(),
            final(self).volumes_view() == old(self).volumes_view(),
            final(self).snapshots_view() == old(self).snapshots_view(),
            final(self).journal_view() == without_entry(old(self).journal_view(), entry.id).push(entry),
    {
        let ghost j0 = self.journal_entries@;
        let id = entry.id;
        let mut rest: Vec<JournalEntry> = Vec::new();
        std::mem::swap(&mut rest, &mut self.journal_entries);
        let n = rest.len();
        let mut i: usize = 0;
        assert(j0.take(0) =~= Seq::<JournalEntry>::empty());
        assert(j0.skip(0) =~= j0);
        while rest.len() > 0
            invariant
                n == j0.len(),
                i + rest@.len() == n,
                rest@ == j0.skip(i as int),
                self.journal_entries@ == without_entry(j0.take(i as int), id),
                self.volumes == old(self).volumes,
                self.snapshots == old(self).snapshots,
                j0 == old(self).journal_entries@,
            decreases rest.len(),
        {
            let x = rest.remove(0);
            proof {
                assert(x == j0[i as int]);
                assert(j0.take(i + 1).drop_last() =~= j0.take(i as int));
                assert(j0.take(i + 1).last() == j0[i as int]);
                assert(rest@ =~= j0.skip(i + 1));
            }
            if x.id != id {
                self.journal_entries.push(x);
            }
            i += 1;
        }
        assert(j0.take(n as int) =~= j0);
        self.journal_entries.push(entry);
    }

    /// Marks the journal entry `entry_id` committed and gives the commit
    /// record to append to the journal file: a fresh id, the entry's
    /// volume, `COMMIT:<entry id>`, the time in seconds, committed, no
    /// data.  With no such entry nothing changes.
    pub fn commit_journal_entry(&mut self, entry_id: u128, now_secs: u64) -> (r: Option<JournalEntry>)
        requires
            old(self).wf(),
        ensures
            final(self).wf(),
            final(self).volumes_view() == old(self).volumes_view(),
            final(self).snapshots_view() == old(self).snapshots_view(),
            final(self).journal_view().len() == old(self).journal_view().len(),
            match r {
                None => final(self).journal_view() == old(self).journal_view()
                    && forall|i: int| 0 <= i < old(self).journal_view().len() ==> (#[trigger] old(self).journal_view()[i]).id != entry_id,
                Some(c) => exists|i: int| 0 <= i < old(self).journal_view().len() && (#[trigger] old(self).journal_view()[i]).id == entry_id
                    && final(self).journal_view() == old(self).journal_view().update(i,
                        JournalEntry { committed: true, ..old(self).journal_view()[i] })
                    && c.volume_id == old(self).journal_view()[i].volume_id
                    && c.operation@ == commit_text(entry_id)
                    && c.timestamp == now_secs
                    && c.committed
                    && c.data@.len() == 0,
            },
    {
        let mut i: usize = 0;
        while i < self.journal_entries.len()
            invariant
                i <= self.journal_entries@.len(),
                old(self).wf(),
                self.journal_entries == old(self).journal_entries,
                self.volumes == old(self).volumes,
                self.snapshots == old(self).snapshots,
                forall|t: int| 0 <= t < i ==> (#[trigger] self.journal_entries@[t]).id != entry_id,
            decreases self.journal_entries.len() - i,
        {
            if self.journal_entries[i].id == entry_id {
                let ghost j0 = self.journal_entries@;
                let mut e = self.journal_entries.remove(i);
                e.committed = true;
                let vid = e.volume_id;
                self.journal_entries.insert(i, e);
                assert(self.journal_entries@ =~= j0.update(i as int, JournalEntry { committed: true, ..j0[i as int] }));
                let mut op = "COMMIT:".to_owned();
                let idc = uuid_chars(entry_id);
                append_chars(&mut op, idc.as_slice());
                assert(op@ == commit_text(entry_id));
                assert(old(self).journal_view()[i as int].id == entry_id);
                assert(self.journal_view() == old(self).journal_view().update(i as int,
                    JournalEntry { committed: true, ..old(self).journal_view()[i as int] }));
                return Some(JournalEntry {
                    id: new_uuid(),
                    volume_id: vid,
                    operation: op,
                    timestamp: now_secs,
                    committed: true,
                    data: Vec::new(),
                });
            }
            i += 1;
        }
        None
    }

    /// Marks a volume encrypted: label `encrypted` set to `true`.
    pub fn encrypt_volume(&mut self, volume_id: u128, now: i64)
        requires
            old(self).wf(),
        ensures
            final(self).wf(),
            updated_one(old(self).volumes_view(), final(self).volumes_view(), volume_id, |v: Volume| v)
                || changed_one(old(self).volumes_view(), final(self).volumes_view(), volume_id, |a: Volume, b: Volume| {
                    &&& labels_view(b.labels@) == labels_set(labels_view(a.labels@), "encrypted"@, "true"@)
                    &&& b == Volume { labels: b.labels, updated_at: now, ..a }
                }),
    {
        let k = "encrypted".to_owned();
        let v = "true".to_owned();
        self.set_volume_label(volume_id, &k, &v, now);
    }

    /// Drops a volume's `encrypted` label.
    pub fn decrypt_volume(&mut self, volume_id: u128, now: i64)
        requires
            old(self).wf(),
        ensures
            final(self).wf(),
            updated_one(old(self).volumes_view(), final(self).volumes_view(), volume_id, |v: Volume| v)
                || changed_one(old(self).volumes_view(), final(self).volumes_view(), volume_id, |a: Volume, b: Volume| {
                    &&& labels_view(b.labels@) == labels_remove(labels_view(a.labels@), "encrypted"@)
                    &&& b == Volume { labels: b.labels, updated_at: now, ..a }
                }),
    {
        let k = "encrypted".to_owned();
        self.remove_volume_label(volume_id, &k, now);
    }

    /// Records a key rotation: label `key_rotation` set to the time in
    /// seconds.
    pub fn rotate_encryption_key(&mut self, volume_id: u128, now: i64, now_secs: u64)
        requires
            old(self).wf(),
        ensures
            final(self).wf(),
            updated_one(old(self).volumes_view(), final(self).volumes_view(), volume_id, |v: Volume| v)
                || changed_one(old(self).volumes_view(), final(self).volumes_view(), volume_id, |a: Volume, b: Volume| {
                    &&& labels_view(b.labels@) == labels_set(labels_view(a.labels@), "key_rotation"@, decimal(now_secs as nat))
                    &&& b == Volume { labels: b.labels, updated_at: now, ..a }
                }),
    {
        let k = "key_rotation".to_owned();
        let d = decimal_chars(now_secs as u128);
        let v = string_of(d.as_slice());
        self.set_volume_label(volume_id, &k, &v, now);
    }
}

} // verus!
