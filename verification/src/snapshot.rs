//! Snapshot policies, and the volume made from a snapshot.
use vstd::prelude::*;
use crate::{LabelSelector, Volume, VolumeSnapshot, VolumeState};
use crate::storage::{volume_with_id, FileStorageEngine};
use crate::text::str_eq;

verus! {

/// When snapshots are taken of the volumes a selector picks, and how many
/// are kept.
#[derive(Debug)]
pub struct SnapshotPolicy {
    pub name: String,
    pub schedule: String,
    pub retention_count: u32,
    pub volume_selector: LabelSelector,
}

/// The policies without those named `name`, in order.
pub open spec fn without_policy(s: Seq<SnapshotPolicy>, name: Seq<char>) -> Seq<SnapshotPolicy> {
    s.filter(|p: SnapshotPolicy| p.name@ != name)
}

/// Index of the first snapshot with id `id` from index `i` on, or -1.
pub open spec fn snapshot_from(s: Seq<VolumeSnapshot>, id: u128, i: int) -> int
    decreases s.len() - i,
{
    if i < 0 || i >= s.len() {
        -1
    } else if s[i].id == id {
        i
    } else {
        snapshot_from(s, id, i + 1)
    }
}

/// The snapshot policies.
#[derive(Debug)]
pub struct SnapshotManager {
    snapshot_policies: Vec<SnapshotPolicy>,
}

impl SnapshotManager {
    /// The policies.
    pub closed spec fn policies_view(&self) -> Seq<SnapshotPolicy> {
        self.snapshot_policies@
    }

    /// No policies.
    pub fn new() -> (m: Self)
        ensures
            m.policies_view().len() == 0,
    {
        SnapshotManager { snapshot_policies: Vec::new() }
    }

    fn drop_named(&mut self, name: &str)
        ensures
            final(self).policies_view() == without_policy(old(self).policies_view(), name@),
    {
        let mut old_list: Vec<SnapshotPolicy> = Vec::new();
        std::mem::swap(&mut old_list, &mut self.snapshot_policies);
        let ghost s0 = old_list@;
        let mut kept: Vec<SnapshotPolicy> = Vec::new();
        let n = old_list.len();
        let mut i: usize = 0;
        while i < n
            invariant
                i <= n,
                n == s0.len(),
                old_list@ == s0.subrange(i as int, n as int),
                kept@ == without_policy(s0.subrange(0, i as int), name@),
            decreases n - i,
        {
            let p = old_list.remove(0);
            proof {
                assert(p == s0[i as int]);
                assert(s0.subrange(0, i + 1).drop_last() =~= s0.subrange(0, i as int));
                reveal(Seq::filter);
            }
            if !str_eq(&p.name, name) {
                kept.push(p);
            }
            i += 1;
            proof {
                assert(old_list@ =~= s0.subrange(i as int, n as int));
            }
        }
        assert(s0.subrange(0, n as int) =~= s0);
        self.snapshot_policies = kept;
    }

    /// Adds a policy; one with the same name is replaced.
    pub fn add_snapshot_policy(&mut self, policy: SnapshotPolicy)
        ensures
            final(self).policies_view() == without_policy(old(self).policies_view(), policy.name@).push(policy),
    {
        self.drop_named(policy.name.as_str());
        self.snapshot_policies.push(policy);
    }

    /// Removes the policy named `policy_name`.
    pub fn remove_snapshot_policy(&mut self, policy_name: &str)
        ensures
            final(self).policies_view() == without_policy(old(self).policies_view(), policy_name@),
    {
        self.drop_named(policy_name);
    }

    /// The policies.
    pub fn list_snapshot_policies(&self) -> (r: &Vec<SnapshotPolicy>)
        ensures
            r@ == self.policies_view(),
    {
        &self.snapshot_policies
    }

    /// The volume to make from a snapshot, before its file exists: named
    /// `volume_name`, of the snapshot's size and the source volume's type
    /// and class.  The snapshot is looked for among all the engine holds,
    /// whatever its volume.  The caller creates the file, records the
    /// volume and restores the snapshot's data into it.
    pub fn create_volume_from_snapshot(engine: &FileStorageEngine, snapshot_id: u128, volume_name: &str) -> (r: Result<Volume, String>)
        requires
            engine.wf(),
        ensures
            ({
                let snaps = engine.snapshots_view();
                let i = snapshot_from(snaps, snapshot_id, 0);
                if i < 0 {
                    r matches Err(e) && e@ == "Snapshot not found"@
                } else {
                    match volume_with_id(engine.volumes_view(), snaps[i].volume_id) {
                        None => r matches Err(e) && e@ == "Source volume not found"@,
                        Some(src) => r matches Ok(v) && {
                            &&& v.name@ == volume_name@
                            &&& v.volume_type == src.volume_type
                            &&& v.size_bytes == snaps[i].size_bytes
                            &&& v.storage_class@ == src.storage_class@
                            &&& v.state == VolumeState::Provisioning
                        },
                    }
                }
            }),
    {
        let snaps = engine.all_snapshots();
        let ghost want = engine.snapshots_view();
        let mut i: usize = 0;
        while i < snaps.len()
            invariant
                i <= snaps@.len(),
                engine.wf(),
                want == engine.snapshots_view(),
                snaps@ == want,
                snapshot_from(want, snapshot_id, 0) == snapshot_from(want, snapshot_id, i as int),
            decreases snaps.len() - i,
        {
            if snaps[i].id == snapshot_id {
                let s = &snaps[i];
                assert(snapshot_from(want, snapshot_id, i as int) == i);
                return match engine.get_volume(s.volume_id) {
                    None => Err("Source volume not found".to_owned()),
                    Some(src) => Ok(Volume::new(volume_name.to_owned(), src.volume_type, s.size_bytes, src.storage_class.clone())),
                };
            }
            i += 1;
        }
        Err("Snapshot not found".to_owned())
    }
}

} // verus!
