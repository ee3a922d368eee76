//! Mount bookkeeping: which volume is mounted where, whether a volume may be
//! mounted once more, and the position of an open volume file.  Directories
//! and interface files at the mount points are made by the caller.
use vstd::prelude::*;
use crate::{AccessMode, StorageClass, Volume, VolumeState, VolumeType, access_modes_string, access_modes_text,
    volume_state_name, volume_state_str, volume_type_name, volume_type_str};
use crate::external::{new_uuid, now_millis};
use crate::labels::{contains_text, label_lookup, labels_view, strings_view, text_contains};
use crate::storage::{volume_with_id, FileStorageEngine};
use crate::text::{all_digits, append_chars, append_str, uuid_chars, uuid_text, chars_of, clone_strings, digits_value, parse_decimal, parse_unsigned, NumberParse};

verus! {

/// Stage of a mount.
#[derive(Clone, Copy, Debug, PartialEq, Eq, Structural)]
pub enum MountState {
    Mounting,
    Mounted,
    Unmounting,
    Failed,
}

/// A volume mounted at a path.  `mounted_at` is in milliseconds since the
/// Unix epoch.
#[derive(Debug)]
pub struct VolumeMount {
    pub mount_id: u128,
    pub volume_id: u128,
    pub mount_point: String,
    pub mount_options: Vec<String>,
    pub state: MountState,
    pub mounted_at: Option<i64>,
    pub mount_count: u32,
}

impl VolumeMount {
    /// A mount of `volume_id` at `mount_point` being set up, with a fresh id.
    pub fn new(volume_id: u128, mount_point: String, mount_options: Vec<String>) -> (m: Self)
        ensures
            m.volume_id == volume_id,
            m.mount_point == mount_point,
            m.mount_options == mount_options,
            m.state == MountState::Mounting,
            m.mounted_at is None,
            m.mount_count == 1,
    {
        VolumeMount {
            mount_id: new_uuid(),
            volume_id,
            mount_point,
            mount_options,
            state: MountState::Mounting,
            mounted_at: None,
            mount_count: 1,
        }
    }
}

/// Why a mount or an unmount is refused.
#[derive(Clone, Copy, Debug, PartialEq, Eq, Structural)]
pub enum MountError {
    /// No volume has the id.
    VolumeNotFound(u128),
    /// The volume is not in the `Available` state.
    NotAvailable(u128, VolumeState),
    /// A mount already uses the path.
    PathAlreadyMounted,
    /// The volume is mounted and may not be mounted again.
    NoMultipleMounts(u128),
    /// No mount has the id.
    MountNotFound(u128),
    /// No mount uses the path.
    NoMountAtPath,
}

/// The message of a mount error: `path` is the mount point asked for, and
/// `volume_type` and `modes` describe the volume refused a second mount.
pub open spec fn mount_error_message(e: MountError, path: Seq<char>, volume_type: VolumeType, modes: Seq<AccessMode>) -> Seq<char> {
    match e {
        MountError::VolumeNotFound(id) => "Volume not found: "@ + uuid_text(id),
        MountError::NotAvailable(id, st) => "Volume "@ + uuid_text(id) + " is not available for mounting (state: "@
            + volume_state_name(st) + ")"@,
        MountError::PathAlreadyMounted => "Path already mounted: "@ + path,
        MountError::NoMultipleMounts(id) => "Volume "@ + uuid_text(id) + " does not support multiple concurrent mounts (type: "@
            + volume_type_name(volume_type) + ", access_modes: "@ + access_modes_text(modes) + ")"@,
        MountError::MountNotFound(id) => "Mount not found: "@ + uuid_text(id),
        MountError::NoMountAtPath => "No mount at path: "@ + path,
    }
}

/// The text of a mount error (see `mount_error_message`).
pub fn mount_error_text(e: &MountError, path: &str, volume_type: VolumeType, modes: &Vec<AccessMode>) -> (s: String)
    ensures
        s@ == mount_error_message(*e, path@, volume_type, modes@),
{
    let mut s = String::new();
    match e {
        MountError::VolumeNotFound(id) => {
            append_str(&mut s, "Volume not found: ");
            append_chars(&mut s, uuid_chars(*id).as_slice());
        },
        MountError::NotAvailable(id, st) => {
            append_str(&mut s, "Volume ");
            append_chars(&mut s, uuid_chars(*id).as_slice());
            append_str(&mut s, " is not available for mounting (state: ");
            append_str(&mut s, volume_state_str(*st));
            append_str(&mut s, ")");
        },
        MountError::PathAlreadyMounted => {
            append_str(&mut s, "Path already mounted: ");
            append_str(&mut s, path);
        },
        MountError::NoMultipleMounts(id) => {
            append_str(&mut s, "Volume ");
            append_chars(&mut s, uuid_chars(*id).as_slice());
            append_str(&mut s, " does not support multiple concurrent mounts (type: ");
            append_str(&mut s, volume_type_str(volume_type));
            append_str(&mut s, ", access_modes: ");
            let m = access_modes_string(modes);
            append_str(&mut s, m.as_str());
            append_str(&mut s, ")");
        },
        MountError::MountNotFound(id) => {
            append_str(&mut s, "Mount not found: ");
            append_chars(&mut s, uuid_chars(*id).as_slice());
        },
        MountError::NoMountAtPath => {
            append_str(&mut s, "No mount at path: ");
            append_str(&mut s, path);
        },
    }
    s
}

/// The mount options ask for a read-only mount.
pub open spec fn readonly_options(opts: Seq<Seq<char>>) -> bool {
    exists|i: int| 0 <= i < opts.len() && (#[trigger] opts[i] == "ro"@ || opts[i] == "readonly"@)
}

/// What `str::parse::<i32>` tells of a replica count: `Some(n > 1)` when
/// the text is a valid `i32`, `None` when it is not.
pub open spec fn count_above_one(s: Seq<char>) -> Option<bool> {
    if s.len() > 0 && s[0] == '-' {
        let body = s.drop_first();
        if body.len() > 0 && all_digits(body) && digits_value(body) <= 2147483648 {
            Some(false)
        } else {
            None
        }
    } else {
        match parse_unsigned(s, 2147483647) {
            NumberParse::Value(n) => Some(n > 1),
            _ => None,
        }
    }
}

/// Whether a volume is replicated, judged from its storage class (a
/// `replication` parameter, or a distributed provisioner) and, failing
/// that, from the name of the class.
pub open spec fn replicated(volume: Volume, class: Option<StorageClass>) -> bool {
    let by_name = contains_text(volume.storage_class@, "encrypted"@)
        || contains_text(volume.storage_class@, "distributed"@)
        || contains_text(volume.storage_class@, "replicated"@);
    match class {
        Some(c) => {
            let by_count = match label_lookup(labels_view(c.parameters@), "replication"@) {
                Some(v) => count_above_one(v),
                None => None,
            };
            match by_count {
                Some(b) => b,
                None => if contains_text(c.provisioner@, "distributed"@) { true } else { by_name },
            }
        },
        None => by_name,
    }
}

/// Whether a volume that is already mounted may be mounted once more with
/// these options.
pub open spec fn allows_multiple_mounts(volume: Volume, opts: Seq<Seq<char>>, class: Option<StorageClass>) -> bool {
    if volume.access_modes@.contains(AccessMode::ReadOnlyMany) {
        true
    } else if volume.access_modes@.contains(AccessMode::ReadWriteMany) {
        true
    } else if volume.volume_type == VolumeType::Shared {
        true
    } else if readonly_options(opts) {
        true
    } else if replicated(volume, class) {
        true
    } else if volume.access_modes@.contains(AccessMode::ReadWriteOnce) && volume.volume_type == VolumeType::Persistent {
        false
    } else {
        true
    }
}

/// Whether a replica-count text reads as an `i32` above one.
pub fn replica_count_above_one(s: &str) -> (r: Option<bool>)
    ensures
        r == count_above_one(s@),
{
    let c = chars_of(s);
    if c.len() > 0 && c[0] == '-' {
        let body = crate::units::slice_prefix(c.as_slice(), c.len());
        let rest = vstd::slice::slice_subrange(body, 1, c.len());
        assert(rest@ =~= s@.drop_first());
        if rest.len() > 0 && rest[0] != '+' {
            let p = parse_decimal(rest, 2147483648);
            proof {
                assert(crate::text::number_body(rest@) == rest@);
            }
            match p {
                NumberParse::Value(_) => Some(false),
                _ => None,
            }
        } else {
            proof {
                if rest@.len() > 0 {
                    assert(!crate::text::is_digit(rest@[0]));
                }
            }
            None
        }
    } else {
        match parse_decimal(c.as_slice(), 2147483647) {
            NumberParse::Value(n) => Some(n > 1),
            _ => None,
        }
    }
}

fn options_readonly(opts: &Vec<String>) -> (r: bool)
    ensures
        r == readonly_options(strings_view(opts@)),
{
    let ro = "ro".to_owned();
    let readonly = "readonly".to_owned();
    let mut i: usize = 0;
    while i < opts.len()
        invariant
            i <= opts@.len(),
            ro@ == "ro"@,
            readonly@ == "readonly"@,
            forall|t: int| 0 <= t < i ==> opts@[t]@ != "ro"@ && opts@[t]@ != "readonly"@,
        decreases opts.len() - i,
    {
        if opts[i] == ro || opts[i] == readonly {
            assert(strings_view(opts@)[i as int] == opts@[i as int]@);
            return true;
        }
        i += 1;
    }
    assert(!readonly_options(strings_view(opts@))) by {
        if readonly_options(strings_view(opts@)) {
            let t = choose|t: int| 0 <= t < strings_view(opts@).len()
                && (#[trigger] strings_view(opts@)[t] == "ro"@ || strings_view(opts@)[t] == "readonly"@);
            assert(strings_view(opts@)[t] == opts@[t]@);
        }
    }
    false
}

fn has_access_mode(modes: &Vec<AccessMode>, m: AccessMode) -> (r: bool)
    ensures
        r == modes@.contains(m),
{
    let mut i: usize = 0;
    while i < modes.len()
        invariant
            i <= modes@.len(),
            forall|t: int| 0 <= t < i ==> modes@[t] != m,
        decreases modes.len() - i,
    {
        if modes[i] == m {
            return true;
        }
        i += 1;
    }
    false
}

/// Whether a volume is replicated: its class's `replication` parameter
/// when that reads as a number, else a distributed provisioner, else the
/// words `encrypted`, `distributed` or `replicated` in its class name.
pub fn is_volume_replicated(volume: &Volume, storage_class: Option<&StorageClass>) -> (r: bool)
    ensures
        r == replicated(*volume, match storage_class { Some(c) => Some(*c), None => None }),
{
    if let Some(c) = storage_class {
        let key = "replication".to_owned();
        match crate::labels::get_label(&c.parameters, &key) {
            Some(v) => {
                match replica_count_above_one(v.as_str()) {
                    Some(b) => {
                        return b;
                    },
                    None => {},
                }
            },
            None => {},
        }
        if text_contains(c.provisioner.as_str(), "distributed") {
            return true;
        }
    }
    text_contains(volume.storage_class.as_str(), "encrypted")
        || text_contains(volume.storage_class.as_str(), "distributed")
        || text_contains(volume.storage_class.as_str(), "replicated")
}

/// Whether a mounted volume may be mounted again with `mount_options`.
pub fn can_support_multiple_mounts(volume: &Volume, mount_options: &Vec<String>, storage_class: Option<&StorageClass>) -> (r: bool)
    ensures
        r == allows_multiple_mounts(*volume, strings_view(mount_options@),
            match storage_class { Some(c) => Some(*c), None => None }),
{
    let is_readonly = options_readonly(mount_options);
    if has_access_mode(&volume.access_modes, AccessMode::ReadOnlyMany) {
        return true;
    }
    if has_access_mode(&volume.access_modes, AccessMode::ReadWriteMany) {
        return true;
    }
    if volume.volume_type == VolumeType::Shared {
        return true;
    }
    if is_readonly {
        return true;
    }
    if is_volume_replicated(volume, storage_class) {
        return true;
    }
    if has_access_mode(&volume.access_modes, AccessMode::ReadWriteOnce) && volume.volume_type == VolumeType::Persistent {
        return false;
    }
    true
}

/// Ids of a list of mounts.
pub open spec fn mount_ids(m: Seq<VolumeMount>) -> Seq<u128> {
    m.map_values(|x: VolumeMount| x.mount_id)
}

/// No two mounts share an id or a mount point.
pub open spec fn distinct_mounts(m: Seq<VolumeMount>) -> bool {
    forall|i: int, j: int| 0 <= i < m.len() && 0 <= j < m.len() && i != j ==>
        m[i].mount_id != m[j].mount_id && m[i].mount_point@ != m[j].mount_point@
}

/// Index of the mount with id `id`, or -1.
pub open spec fn mount_index(m: Seq<VolumeMount>, id: u128) -> int {
    if exists|i: int| 0 <= i < m.len() && m[i].mount_id == id {
        choose|i: int| 0 <= i < m.len() && m[i].mount_id == id
    } else {
        -1
    }
}

/// Index of the mount at `path`, or -1.
pub open spec fn path_index(m: Seq<VolumeMount>, path: Seq<char>) -> int {
    if exists|i: int| 0 <= i < m.len() && m[i].mount_point@ == path {
        choose|i: int| 0 <= i < m.len() && m[i].mount_point@ == path
    } else {
        -1
    }
}

/// The mounts of a volume, in the order they were made.
pub open spec fn mounts_of(m: Seq<VolumeMount>, volume_id: u128) -> Seq<VolumeMount>
    decreases m.len(),
{
    if m.len() == 0 {
        Seq::empty()
    } else if m.last().volume_id == volume_id {
        mounts_of(m.drop_last(), volume_id).push(m.last())
    } else {
        mounts_of(m.drop_last(), volume_id)
    }
}

/// The mounts without the one with id `id`.
pub open spec fn without_mount(m: Seq<VolumeMount>, id: u128) -> Seq<VolumeMount> {
    let i = mount_index(m, id);
    if i >= 0 { m.remove(i) } else { m }
}

/// Why mounting `volume_id` at `path` with `opts` is refused, if it is.
pub open spec fn mount_refusal(
    mounts: Seq<VolumeMount>,
    volume_id: u128,
    volume: Option<Volume>,
    class: Option<StorageClass>,
    path: Seq<char>,
    opts: Seq<Seq<char>>,
) -> Option<MountError> {
    match volume {
        None => Some(MountError::VolumeNotFound(volume_id)),
        Some(v) => if !(v.state == VolumeState::Available || (v.state == VolumeState::Mounted && mounts_of(mounts, volume_id).len() > 0)) {
            Some(MountError::NotAvailable(volume_id, v.state))
        } else if path_index(mounts, path) >= 0 {
            Some(MountError::PathAlreadyMounted)
        } else if mounts_of(mounts, volume_id).len() > 0 && !allows_multiple_mounts(v, opts, class) {
            Some(MountError::NoMultipleMounts(volume_id))
        } else {
            None
        },
    }
}

/// The engine's record of `volume_id` is marked mounted at `now`.
pub open spec fn marked_mounted(before: Seq<Volume>, after: Seq<Volume>, volume_id: u128, now: i64) -> bool {
    crate::storage::updated_one(before, after, volume_id, |v: Volume| Volume { state: VolumeState::Mounted, updated_at: now, ..v })
}

/// Two mounts hold the same values.
pub open spec fn same_mount(a: VolumeMount, b: VolumeMount) -> bool {
    &&& a.mount_id == b.mount_id
    &&& a.volume_id == b.volume_id
    &&& a.mount_point == b.mount_point
    &&& a.mount_options@ == b.mount_options@
    &&& a.state == b.state
    &&& a.mounted_at == b.mounted_at
    &&& a.mount_count == b.mount_count
}

/// A copy of a mount.
pub fn copy_mount(m: &VolumeMount) -> (r: VolumeMount)
    ensures
        same_mount(r, *m),
{
    VolumeMount {
        mount_id: m.mount_id,
        volume_id: m.volume_id,
        mount_point: m.mount_point.clone(),
        mount_options: clone_strings(&m.mount_options),
        state: m.state,
        mounted_at: m.mounted_at,
        mount_count: m.mount_count,
    }
}

/// The table of mounts.
#[derive(Debug)]
pub struct VolumeMountManager {
    mounts: Vec<VolumeMount>,
}

fn find_mount(m: &Vec<VolumeMount>, id: u128) -> (r: Option<usize>)
    ensures
        match r {
            Some(i) => i < m@.len() && m@[i as int].mount_id == id,
            None => forall|i: int| 0 <= i < m@.len() ==> m@[i].mount_id != id,
        },
{
    let mut i: usize = 0;
    while i < m.len()
        invariant
            i <= m@.len(),
            forall|t: int| 0 <= t < i ==> m@[t].mount_id != id,
        decreases m.len() - i,
    {
        if m[i].mount_id == id {
            return Some(i);
        }
        i += 1;
    }
    None
}

fn find_path(m: &Vec<VolumeMount>, path: &str) -> (r: Option<usize>)
    ensures
        match r {
            Some(i) => i < m@.len() && m@[i as int].mount_point@ == path@,
            None => forall|i: int| 0 <= i < m@.len() ==> m@[i].mount_point@ != path@,
        },
{
    let p = path.to_owned();
    let mut i: usize = 0;
    while i < m.len()
        invariant
            i <= m@.len(),
            p@ == path@,
            forall|t: int| 0 <= t < i ==> m@[t].mount_point@ != path@,
        decreases m.len() - i,
    {
        if m[i].mount_point == p {
            return Some(i);
        }
        i += 1;
    }
    None
}

proof fn lemma_mounts_of_len(m: Seq<VolumeMount>, volume_id: u128)
    ensures
        mounts_of(m, volume_id).len() > 0 <==> exists|i: int| 0 <= i < m.len() && m[i].volume_id == volume_id,
        mounts_of(m, volume_id).len() <= m.len(),
    decreases m.len(),
{
    if m.len() > 0 {
        let d = m.drop_last();
        lemma_mounts_of_len(d, volume_id);
        if exists|i: int| 0 <= i < d.len() && d[i].volume_id == volume_id {
            let i = choose|i: int| 0 <= i < d.len() && d[i].volume_id == volume_id;
            assert(m[i].volume_id == volume_id);
        }
        if exists|i: int| 0 <= i < m.len() && m[i].volume_id == volume_id {
            let i = choose|i: int| 0 <= i < m.len() && m[i].volume_id == volume_id;
            if i < d.len() {
                assert(d[i].volume_id == volume_id);
            }
        }
    }
}

fn count_volume_mounts(m: &Vec<VolumeMount>, volume_id: u128) -> (n: usize)
    ensures
        n == mounts_of(m@, volume_id).len(),
{
    let mut n: usize = 0;
    let mut i: usize = 0;
    assert(m@.take(0) =~= Seq::<VolumeMount>::empty());
    while i < m.len()
        invariant
            i <= m@.len(),
            n == mounts_of(m@.take(i as int), volume_id).len(),
            n <= i,
        decreases m.len() - i,
    {
        assert(m@.take(i + 1).drop_last() =~= m@.take(i as int));
        if m[i].volume_id == volume_id {
            n += 1;
        }
        i += 1;
    }
    assert(m@.take(m@.len() as int) =~= m@);
    n
}

proof fn lemma_mount_index(m: Seq<VolumeMount>, id: u128, i: int)
    requires
        distinct_mounts(m),
        0 <= i < m.len(),
        m[i].mount_id == id,
    ensures
        mount_index(m, id) == i,
{
}

proof fn lemma_remove_keeps_distinct(m: Seq<VolumeMount>, i: int)
    requires
        distinct_mounts(m),
        0 <= i < m.len(),
    ensures
        distinct_mounts(m.remove(i)),
        forall|j: int| 0 <= j < m.remove(i).len() ==> #[trigger] m.remove(i)[j] == m[if j < i { j } else { j + 1 }],
{
    let r = m.remove(i);
    assert forall|a: int, b: int| 0 <= a < r.len() && 0 <= b < r.len() && a != b implies
        r[a].mount_id != r[b].mount_id && r[a].mount_point@ != r[b].mount_point@ by {
        let sa = if a < i { a } else { a + 1 };
        let sb = if b < i { b } else { b + 1 };
        assert(r[a] == m[sa] && r[b] == m[sb]);
    }
}

impl VolumeMountManager {
    /// Mount ids and mount points are distinct.
    pub closed spec fn wf(&self) -> bool {
        distinct_mounts(self.mounts@)
    }

    /// The mounts, in the order they were made.
    pub closed spec fn mounts_view(&self) -> Seq<VolumeMount> {
        self.mounts@
    }

    /// An empty table.
    pub fn new() -> (m: Self)
        ensures
            m.wf(),
            m.mounts_view().len() == 0,
    {
        VolumeMountManager { mounts: Vec::new() }
    }

    /// Checks a mount of `volume_id` at `mount_point`: the volume exists and
    /// is available (or mounted already through this table), the path is free, and a volume that is already mounted
    /// allows another mount.  `storage_class` is the volume's class, looked
    /// up by its name.
    pub fn check_mount(
        &self,
        engine: &FileStorageEngine,
        volume_id: u128,
        storage_class: Option<&StorageClass>,
        mount_point: &str,
        mount_options: &Vec<String>,
    ) -> (r: Result<(), MountError>)
        requires
            self.wf(),
            engine.wf(),
        ensures
            match mount_refusal(self.mounts_view(), volume_id, volume_with_id(engine.volumes_view(), volume_id),
                match storage_class { Some(c) => Some(*c), None => None }, mount_point@, strings_view(mount_options@)) {
                Some(e) => r == Err::<(), MountError>(e),
                None => r is Ok,
            },
    {
        let volume = match engine.get_volume(volume_id) {
            Some(v) => v,
            None => return Err(MountError::VolumeNotFound(volume_id)),
        };
        let existing = count_volume_mounts(&self.mounts, volume_id);
        if !(volume.state == VolumeState::Available || (volume.state == VolumeState::Mounted && existing > 0)) {
            return Err(MountError::NotAvailable(volume_id, volume.state));
        }
        match find_path(&self.mounts, mount_point) {
            Some(i) => {
                return Err(MountError::PathAlreadyMounted);
            },
            None => {},
        }
        if existing > 0 {
            if !can_support_multiple_mounts(volume, mount_options, storage_class) {
                return Err(MountError::NoMultipleMounts(volume_id));
            }
        }
        Ok(())
    }

    /// Records a mount of `volume_id` at `mount_point` once the checks of
    /// `check_mount` pass, and marks the volume mounted in the engine when
    /// this is its first mount.  Returns the new mount's id.
    pub fn mount_volume(
        &mut self,
        engine: &mut FileStorageEngine,
        volume_id: u128,
        storage_class: Option<&StorageClass>,
        mount_point: String,
        mount_options: Vec<String>,
    ) -> (r: Result<u128, MountError>)
        requires
            old(self).wf(),
            old(engine).wf(),
        ensures
            final(self).wf(),
            final(engine).wf(),
            match mount_refusal(old(self).mounts_view(), volume_id, volume_with_id(old(engine).volumes_view(), volume_id),
                match storage_class { Some(c) => Some(*c), None => None }, mount_point@, strings_view(mount_options@)) {
                Some(e) => r == Err::<u128, MountError>(e) && final(self).mounts_view() == old(self).mounts_view()
                    && final(engine).volumes_view() == old(engine).volumes_view(),
                None => r matches Ok(id) && {
                    let rest = without_mount(old(self).mounts_view(), id);
                    let added = final(self).mounts_view().last();
                    &&& final(self).mounts_view() == rest.push(added)
                    &&& added.mount_id == id
                    &&& added.volume_id == volume_id
                    &&& added.mount_point == mount_point
                    &&& added.mount_options == mount_options
                    &&& added.state == MountState::Mounted
                    &&& added.mounted_at is Some
                    &&& added.mount_count == 1
                    &&& if mounts_of(final(self).mounts_view(), volume_id).len() == 1 {
                        exists|now: i64| #[trigger] marked_mounted(old(engine).volumes_view(), final(engine).volumes_view(), volume_id, now)
                    } else {
                        final(engine).volumes_view() == old(engine).volumes_view()
                    }
                },
            },
    {
        let checked = self.check_mount(engine, volume_id, storage_class, mount_point.as_str(), &mount_options);
        if let Err(e) = checked {
            return Err(e);
        }
        let mut mount = VolumeMount::new(volume_id, mount_point, mount_options);
        let mount_id = mount.mount_id;
        mount.state = MountState::Mounted;
        mount.mounted_at = Some(now_millis());
        let ghost m0 = self.mounts@;
        let ghost path = mount.mount_point@;
        assert(forall|t: int| 0 <= t < m0.len() ==> m0[t].mount_point@ != path);
        match find_mount(&self.mounts, mount_id) {
            Some(i) => {
                proof {
                    lemma_mount_index(m0, mount_id, i as int);
                    lemma_remove_keeps_distinct(m0, i as int);
                }
                self.mounts.remove(i);
                proof {
                    assert forall|t: int| 0 <= t < self.mounts@.len() implies self.mounts@[t].mount_point@ != path
                        && self.mounts@[t].mount_id != mount_id by {
                        let s = if t < i { t } else { t + 1 };
                        assert(self.mounts@[t] == m0[s]);
                    }
                }
            },
            None => {},
        }
        let ghost m1 = self.mounts@;
        assert(m1 == without_mount(m0, mount_id));
        self.mounts.push(mount);
        proof {
            assert(self.mounts@ == m1.push(mount));
            assert(distinct_mounts(self.mounts@)) by {
                assert forall|a: int, b: int| 0 <= a < self.mounts@.len() && 0 <= b < self.mounts@.len() && a != b implies
                    self.mounts@[a].mount_id != self.mounts@[b].mount_id
                    && self.mounts@[a].mount_point@ != self.mounts@[b].mount_point@ by {
                    if a < m1.len() && b < m1.len() {
                        assert(self.mounts@[a] == m1[a] && self.mounts@[b] == m1[b]);
                    } else if a < m1.len() {
                        assert(self.mounts@[a] == m1[a]);
                    } else {
                        assert(self.mounts@[b] == m1[b]);
                    }
                }
            }
        }
        let count = count_volume_mounts(&self.mounts, volume_id);
        let ghost vols0 = engine.volumes_view();
        if count == 1 {
            let now = now_millis();
            engine.update_volume_state(volume_id, VolumeState::Mounted, now);
            assert(marked_mounted(vols0, engine.volumes_view(), volume_id, now));
        }
        assert(self.mounts@.last() == mount);
        assert(mount.mount_point == mount_point);
        Ok(mount_id)
    }

    /// Marks the mount `mount_id` as being taken down and gives its mount
    /// point, whose interface files the caller then removes.
    pub fn begin_unmount(&mut self, mount_id: u128) -> (r: Result<String, MountError>)
        requires
            old(self).wf(),
        ensures
            final(self).wf(),
            match r {
                Ok(p) => {
                    let i = mount_index(old(self).mounts_view(), mount_id);
                    &&& i >= 0
                    &&& p == old(self).mounts_view()[i].mount_point
                    &&& final(self).mounts_view() == old(self).mounts_view().update(i,
                        VolumeMount { state: MountState::Unmounting, ..old(self).mounts_view()[i] })
                },
                Err(e) => e == MountError::MountNotFound(mount_id) && mount_index(old(self).mounts_view(), mount_id) < 0
                    && final(self).mounts_view() == old(self).mounts_view(),
            },
    {
        let ghost m0 = self.mounts@;
        match find_mount(&self.mounts, mount_id) {
            Some(i) => {
                proof {
                    lemma_mount_index(m0, mount_id, i as int);
                }
                let mut m = self.mounts.remove(i);
                m.state = MountState::Unmounting;
                let p = m.mount_point.clone();
                self.mounts.insert(i, m);
                proof {
                    assert(self.mounts@ =~= m0.update(i as int, m));
                    assert(distinct_mounts(self.mounts@)) by {
                        assert forall|a: int, b: int| 0 <= a < self.mounts@.len() && 0 <= b < self.mounts@.len() && a != b implies
                            self.mounts@[a].mount_id != self.mounts@[b].mount_id
                            && self.mounts@[a].mount_point@ != self.mounts@[b].mount_point@ by {
                            assert(self.mounts@[a].mount_id == m0[a].mount_id && self.mounts@[a].mount_point == m0[a].mount_point);
                            assert(self.mounts@[b].mount_id == m0[b].mount_id && self.mounts@[b].mount_point == m0[b].mount_point);
                        }
                    }
                }
                Ok(p)
            },
            None => Err(MountError::MountNotFound(mount_id)),
        }
    }

    /// Whether the table holds a mount with id `mount_id`.
    pub fn has_mount(&self, mount_id: u128) -> (b: bool)
        requires
            self.wf(),
        ensures
            b == (mount_index(self.mounts_view(), mount_id) >= 0),
    {
        match find_mount(&self.mounts, mount_id) {
            Some(i) => {
                proof {
                    lemma_mount_index(self.mounts@, mount_id, i as int);
                }
                true
            },
            None => false,
        }
    }

    /// Marks the mount at `mount_point` as being taken down and gives its
    /// id and mount point.
    pub fn begin_unmount_path(&mut self, mount_point: &str) -> (r: Result<(u128, String), MountError>)
        requires
            old(self).wf(),
        ensures
            final(self).wf(),
            match r {
                Ok((id, p)) => {
                    let i = path_index(old(self).mounts_view(), mount_point@);
                    &&& i >= 0
                    &&& id == old(self).mounts_view()[i].mount_id
                    &&& p == old(self).mounts_view()[i].mount_point
                    &&& final(self).mounts_view() == old(self).mounts_view().update(i,
                        VolumeMount { state: MountState::Unmounting, ..old(self).mounts_view()[i] })
                },
                Err(e) => e == MountError::NoMountAtPath && path_index(old(self).mounts_view(), mount_point@) < 0
                    && final(self).mounts_view() == old(self).mounts_view(),
            },
    {
        match find_path(&self.mounts, mount_point) {
            Some(i) => {
                let id = self.mounts[i].mount_id;
                proof {
                    lemma_mount_index(self.mounts@, id, i as int);
                    assert(path_index(self.mounts@, mount_point@) == i as int);
                }
                match self.begin_unmount(id) {
                    Ok(p) => Ok((id, p)),
                    Err(e) => Err(e),
                }
            },
            None => Err(MountError::NoMountAtPath),
        }
    }

    /// Removes the mount `mount_id`; when it was the volume's last mount,
    /// the volume is marked available again in the engine.
    pub fn unmount_volume(&mut self, engine: &mut FileStorageEngine, mount_id: u128) -> (r: Result<(), MountError>)
        requires
            old(self).wf(),
            old(engine).wf(),
        ensures
            final(self).wf(),
            final(engine).wf(),
            match r {
                Ok(_) => {
                    let i = mount_index(old(self).mounts_view(), mount_id);
                    let vid = old(self).mounts_view()[i].volume_id;
                    &&& i >= 0
                    &&& final(self).mounts_view() == without_mount(old(self).mounts_view(), mount_id)
                    &&& if mounts_of(final(self).mounts_view(), vid).len() == 0 {
                        exists|now: i64| #[trigger] marked_available(old(engine).volumes_view(), final(engine).volumes_view(), vid, now)
                    } else {
                        final(engine).volumes_view() == old(engine).volumes_view()
                    }
                },
                Err(e) => e == MountError::MountNotFound(mount_id) && mount_index(old(self).mounts_view(), mount_id) < 0
                    && final(self).mounts_view() == old(self).mounts_view()
                    && final(engine).volumes_view() == old(engine).volumes_view(),
            },
    {
        let ghost m0 = self.mounts@;
        match find_mount(&self.mounts, mount_id) {
            Some(i) => {
                proof {
                    lemma_mount_index(m0, mount_id, i as int);
                    lemma_remove_keeps_distinct(m0, i as int);
                }
                let m = self.mounts.remove(i);
                let vid = m.volume_id;
                let count = count_volume_mounts(&self.mounts, vid);
                let ghost vols0 = engine.volumes_view();
                if count == 0 {
                    let now = now_millis();
                    engine.update_volume_state(vid, VolumeState::Available, now);
                    assert(marked_available(vols0, engine.volumes_view(), vid, now));
                }
                Ok(())
            },
            None => Err(MountError::MountNotFound(mount_id)),
        }
    }

    /// Removes the mount at `mount_point`, as `unmount_volume` does.
    pub fn unmount_path(&mut self, engine: &mut FileStorageEngine, mount_point: &str) -> (r: Result<(), MountError>)
        requires
            old(self).wf(),
            old(engine).wf(),
        ensures
            final(self).wf(),
            final(engine).wf(),
            match r {
                Ok(_) => {
                    let i = path_index(old(self).mounts_view(), mount_point@);
                    &&& i >= 0
                    &&& final(self).mounts_view() == without_mount(old(self).mounts_view(), old(self).mounts_view()[i].mount_id)
                },
                Err(e) => e == MountError::NoMountAtPath && path_index(old(self).mounts_view(), mount_point@) < 0
                    && final(self).mounts_view() == old(self).mounts_view()
                    && final(engine).volumes_view() == old(engine).volumes_view(),
            },
    {
        match find_path(&self.mounts, mount_point) {
            Some(i) => {
                let id = self.mounts[i].mount_id;
                proof {
                    lemma_mount_index(self.mounts@, id, i as int);
                }
                self.unmount_volume(engine, id)
            },
            None => Err(MountError::NoMountAtPath),
        }
    }

    /// Copies of the mounts of a volume, in the order they were made.
    pub fn get_volume_mounts(&self, volume_id: u128) -> (r: Vec<VolumeMount>)
        ensures
            r@.len() == mounts_of(self.mounts_view(), volume_id).len(),
            forall|i: int| 0 <= i < r@.len() ==> same_mount(#[trigger] r@[i], mounts_of(self.mounts_view(), volume_id)[i]),
    {
        let mut r: Vec<VolumeMount> = Vec::new();
        let mut i: usize = 0;
        assert(self.mounts@.take(0) =~= Seq::<VolumeMount>::empty());
        while i < self.mounts.len()
            invariant
                i <= self.mounts@.len(),
                r@.len() == mounts_of(self.mounts@.take(i as int), volume_id).len(),
                forall|t: int| 0 <= t < r@.len() ==> same_mount(#[trigger] r@[t], mounts_of(self.mounts@.take(i as int), volume_id)[t]),
            decreases self.mounts.len() - i,
        {
            assert(self.mounts@.take(i + 1).drop_last() =~= self.mounts@.take(i as int));
            if self.mounts[i].volume_id == volume_id {
                r.push(copy_mount(&self.mounts[i]));
            }
            i += 1;
        }
        assert(self.mounts@.take(self.mounts@.len() as int) =~= self.mounts@);
        r
    }

    /// All mounts.
    pub fn list_mounts(&self) -> (r: &Vec<VolumeMount>)
        ensures
            r@ == self.mounts_view(),
    {
        &self.mounts
    }

    /// The mount at `mount_point`, if any.
    pub fn get_mount_by_path(&self, mount_point: &str) -> (r: Option<&VolumeMount>)
        requires
            self.wf(),
        ensures
            match r {
                Some(m) => path_index(self.mounts_view(), mount_point@) >= 0
                    && *m == self.mounts_view()[path_index(self.mounts_view(), mount_point@)],
                None => path_index(self.mounts_view(), mount_point@) < 0,
            },
    {
        match find_path(&self.mounts, mount_point) {
            Some(i) => {
                assert(path_index(self.mounts@, mount_point@) == i as int);
                Some(&self.mounts[i])
            },
            None => None,
        }
    }

    /// A handle on the volume mounted at `mount_point`, positioned at its
    /// start.
    pub fn open_volume_file(&self, engine: &FileStorageEngine, mount_point: &str) -> (r: Result<GalleonVolumeFile, MountError>)
        requires
            self.wf(),
            engine.wf(),
        ensures
            match r {
                Ok(f) => {
                    let i = path_index(self.mounts_view(), mount_point@);
                    let vid = self.mounts_view()[i].volume_id;
                    &&& i >= 0
                    &&& volume_with_id(engine.volumes_view(), vid) matches Some(v)
                    &&& f.volume_id_view() == vid
                    &&& f.volume_size_view() == v.size_bytes
                    &&& f.position_view() == 0
                },
                Err(MountError::NoMountAtPath) => path_index(self.mounts_view(), mount_point@) < 0,
                Err(MountError::VolumeNotFound(vid)) => {
                    let i = path_index(self.mounts_view(), mount_point@);
                    &&& i >= 0
                    &&& vid == self.mounts_view()[i].volume_id
                    &&& volume_with_id(engine.volumes_view(), vid) is None
                },
                Err(_) => false,
            },
    {
        let m = match self.get_mount_by_path(mount_point) {
            Some(m) => m,
            None => return Err(MountError::NoMountAtPath),
        };
        let vid = m.volume_id;
        match engine.get_volume(vid) {
            Some(v) => Ok(GalleonVolumeFile { volume_id: vid, volume_size: v.size_bytes, position: 0 }),
            None => Err(MountError::VolumeNotFound(vid)),
        }
    }
}

/// The engine's record of `volume_id` is marked available at `now`.
pub open spec fn marked_available(before: Seq<Volume>, after: Seq<Volume>, volume_id: u128, now: i64) -> bool {
    crate::storage::updated_one(before, after, volume_id, |v: Volume| Volume { state: VolumeState::Available, updated_at: now, ..v })
}

/// Taking down a mount undoes making it: the table is as it was before,
/// less any earlier mount that had the same id.
pub proof fn unmount_undoes_mount(m: Seq<VolumeMount>, added: VolumeMount)
    requires
        distinct_mounts(without_mount(m, added.mount_id).push(added)),
    ensures
        without_mount(without_mount(m, added.mount_id).push(added), added.mount_id) == without_mount(m, added.mount_id),
        !mount_ids(m).contains(added.mount_id) ==> without_mount(m, added.mount_id) == m,
{
    let rest = without_mount(m, added.mount_id);
    let after = rest.push(added);
    let n = rest.len() as int;
    assert(after[n].mount_id == added.mount_id);
    lemma_mount_index(after, added.mount_id, n);
    assert(after.remove(n) =~= rest);
    if !mount_ids(m).contains(added.mount_id) {
        if exists|i: int| 0 <= i < m.len() && m[i].mount_id == added.mount_id {
            let i = choose|i: int| 0 <= i < m.len() && m[i].mount_id == added.mount_id;
            assert(mount_ids(m)[i] == added.mount_id);
        }
    }
}

/// A mount just recorded is what a look-up by its mount point finds.
pub proof fn lookup_finds_new_mount(m: Seq<VolumeMount>, added: VolumeMount)
    requires
        distinct_mounts(without_mount(m, added.mount_id).push(added)),
    ensures
        ({
            let after = without_mount(m, added.mount_id).push(added);
            &&& path_index(after, added.mount_point@) == after.len() - 1
            &&& after[path_index(after, added.mount_point@)] == added
        }),
{
    let after = without_mount(m, added.mount_id).push(added);
    let n = after.len() - 1;
    assert(after[n] == added);
    let k = path_index(after, added.mount_point@);
    assert(0 <= k < after.len() && after[k].mount_point@ == added.mount_point@);
}

/// Mounting a volume that was available and then taking its only mount
/// down leaves its record as it was, but for the time it was last
/// updated.
pub proof fn mount_then_unmount_restores_volume(vols: Seq<Volume>, mid: Seq<Volume>, after: Seq<Volume>, volume_id: u128, t1: i64, t2: i64)
    requires
        crate::storage::distinct_ids(vols),
        volume_with_id(vols, volume_id) matches Some(v) && v.state == VolumeState::Available,
        marked_mounted(vols, mid, volume_id, t1),
        marked_available(mid, after, volume_id, t2),
    ensures
        ({
            let i = crate::storage::index_of_id(vols, volume_id);
            after == vols.update(i, Volume { updated_at: t2, ..vols[i] })
        }),
{
    let i = crate::storage::index_of_id(vols, volume_id);
    assert(0 <= i < vols.len() && vols[i].id == volume_id);
    assert(mid == vols.update(i, Volume { state: VolumeState::Mounted, updated_at: t1, ..vols[i] }));
    assert(crate::storage::distinct_ids(mid)) by {
        assert forall|a: int, b: int| 0 <= a < mid.len() && 0 <= b < mid.len() && a != b implies mid[a].id != mid[b].id by {
            assert(mid[a].id == vols[a].id && mid[b].id == vols[b].id);
        }
    }
    assert(mid[i].id == volume_id);
    let j = crate::storage::index_of_id(mid, volume_id);
    assert(0 <= j < mid.len() && mid[j].id == volume_id);
    assert(j == i);
    assert(after =~= vols.update(i, Volume { updated_at: t2, ..vols[i] }));
}

/// Once its mount is taken down, a mount point that was free before the
/// mount is free again.
pub proof fn unmounted_path_is_free(m: Seq<VolumeMount>, added: VolumeMount)
    requires
        distinct_mounts(without_mount(m, added.mount_id).push(added)),
        path_index(m, added.mount_point@) < 0,
    ensures
        path_index(without_mount(without_mount(m, added.mount_id).push(added), added.mount_id), added.mount_point@) < 0,
{
    unmount_undoes_mount(m, added);
    let r = without_mount(m, added.mount_id);
    if path_index(r, added.mount_point@) >= 0 {
        let k = path_index(r, added.mount_point@);
        let i = mount_index(m, added.mount_id);
        if i >= 0 {
            let s = if k < i { k } else { k + 1 };
            assert(r[k] == m[s]);
        } else {
            assert(r[k] == m[k]);
        }
    }
}

/// Where a seek moves the position of a volume file.
#[derive(Clone, Copy, Debug, PartialEq, Eq, Structural)]
pub enum SeekFrom {
    Start(u64),
    End(i64),
    Current(i64),
}

/// Reading and writing position within a mounted volume.
pub struct GalleonVolumeFile {
    volume_id: u128,
    volume_size: u64,
    position: u64,
}

/// The position after a seek from `position` in a volume of `size` bytes:
/// clamped to the volume's end going forward, and to its start going back.
pub open spec fn seek_target(position: u64, size: u64, pos: SeekFrom) -> int {
    match pos {
        SeekFrom::Start(off) => if off < size { off as int } else { size as int },
        SeekFrom::Current(off) => if off >= 0 {
            if position + off < size { position + off } else { size as int }
        } else {
            if position + off >= 0 { position + off } else { 0 }
        },
        SeekFrom::End(off) => if off >= 0 {
            size as int
        } else {
            if size + off >= 0 { size + off } else { 0 }
        },
    }
}

/// A seek that stays within the integer widths: forward moves do not pass
/// `u64::MAX`, and backward moves are not by `i64::MIN`.
pub open spec fn seek_in_range(position: u64, size: u64, pos: SeekFrom) -> bool {
    match pos {
        SeekFrom::Start(_) => true,
        SeekFrom::Current(off) => if off >= 0 { position + off <= u64::MAX } else { off != i64::MIN },
        SeekFrom::End(off) => if off >= 0 { size + off <= u64::MAX } else { off != i64::MIN },
    }
}

impl GalleonVolumeFile {
    pub closed spec fn volume_id_view(&self) -> u128 {
        self.volume_id
    }

    pub closed spec fn volume_size_view(&self) -> u64 {
        self.volume_size
    }

    pub closed spec fn position_view(&self) -> u64 {
        self.position
    }

    /// A handle on a volume of `volume_size` bytes, at its start.
    pub fn new(volume_id: u128, volume_size: u64) -> (f: Self)
        ensures
            f.volume_id_view() == volume_id,
            f.volume_size_view() == volume_size,
            f.position_view() == 0,
    {
        GalleonVolumeFile { volume_id, volume_size, position: 0 }
    }

    /// Moves the position and returns it.
    pub fn seek(&mut self, pos: SeekFrom) -> (r: u64)
        requires
            seek_in_range(old(self).position_view(), old(self).volume_size_view(), pos),
        ensures
            r == final(self).position_view(),
            r == seek_target(old(self).position_view(), old(self).volume_size_view(), pos),
            final(self).volume_id_view() == old(self).volume_id_view(),
            final(self).volume_size_view() == old(self).volume_size_view(),
    {
        match pos {
            SeekFrom::Start(offset) => {
                self.position = if offset < self.volume_size { offset } else { self.volume_size };
            },
            SeekFrom::Current(offset) => {
                if offset >= 0 {
                    let p = self.position + offset as u64;
                    self.position = if p < self.volume_size { p } else { self.volume_size };
                } else {
                    self.position = self.position.saturating_sub((-offset) as u64);
                }
            },
            SeekFrom::End(offset) => {
                if offset >= 0 {
                    let p = self.volume_size + offset as u64;
                    self.position = if p < self.volume_size { p } else { self.volume_size };
                } else {
                    self.position = self.volume_size.saturating_sub((-offset) as u64);
                }
            },
        }
        self.position
    }

    /// Moves the position past `n` bytes just read or written there (a
    /// read or write goes on from where the last one ended).
    pub fn advance(&mut self, n: usize)
        requires
            old(self).position_view() + n <= u64::MAX,
        ensures
            final(self).position_view() == old(self).position_view() + n,
            final(self).volume_id_view() == old(self).volume_id_view(),
            final(self).volume_size_view() == old(self).volume_size_view(),
    {
        self.position = self.position + n as u64;
    }

    /// The current position.
    pub fn position(&self) -> (p: u64)
        ensures
            p == self.position_view(),
    {
        self.position
    }

    /// The volume's size in bytes.
    pub fn volume_size(&self) -> (s: u64)
        ensures
            s == self.volume_size_view(),
    {
        self.volume_size
    }

    /// The volume's id.
    pub fn volume_id(&self) -> (id: u128)
        ensures
            id == self.volume_id_view(),
    {
        self.volume_id
    }
}


/// A replicated volume may always be mounted again, whatever its type,
/// access modes and the options asked for.
pub proof fn replicated_volumes_mount_again(volume: Volume, opts: Seq<Seq<char>>, class: Option<StorageClass>)
    requires
        replicated(volume, class),
    ensures
        allows_multiple_mounts(volume, opts, class),
{
}

/// Without a storage class to go by, a volume whose class name mentions
/// `encrypted`, `distributed` or `replicated` may always be mounted again;
/// with a class, so may one whose class asks for more than one replica, or
/// whose class has no replica count and a distributed provisioner.
pub proof fn replicated_by_class_mounts_again(volume: Volume, opts: Seq<Seq<char>>, class: Option<StorageClass>)
    ensures
        class is None && (contains_text(volume.storage_class@, "encrypted"@)
            || contains_text(volume.storage_class@, "distributed"@)
            || contains_text(volume.storage_class@, "replicated"@))
            ==> allows_multiple_mounts(volume, opts, class),
        class matches Some(c) && label_lookup(labels_view(c.parameters@), "replication"@) matches Some(v)
            && count_above_one(v) == Some(true)
            ==> allows_multiple_mounts(volume, opts, class),
        class matches Some(c) && label_lookup(labels_view(c.parameters@), "replication"@) is None
            && contains_text(c.provisioner@, "distributed"@)
            ==> allows_multiple_mounts(volume, opts, class),
{
}


/// A volume may be mounted again when some mode allows many readers or
/// writers, when it is shared, or when the mount is read-only; a
/// persistent, read-write-once volume that is not replicated and has none
/// of these may not.
pub proof fn when_volumes_mount_again(volume: Volume, opts: Seq<Seq<char>>, class: Option<StorageClass>)
    ensures
        volume.access_modes@.contains(AccessMode::ReadOnlyMany) ==> allows_multiple_mounts(volume, opts, class),
        volume.access_modes@.contains(AccessMode::ReadWriteMany) ==> allows_multiple_mounts(volume, opts, class),
        volume.volume_type == VolumeType::Shared ==> allows_multiple_mounts(volume, opts, class),
        opts.contains("ro"@) ==> allows_multiple_mounts(volume, opts, class),
        opts.contains("readonly"@) ==> allows_multiple_mounts(volume, opts, class),
        !volume.access_modes@.contains(AccessMode::ReadOnlyMany) && !volume.access_modes@.contains(AccessMode::ReadWriteMany)
            && volume.access_modes@.contains(AccessMode::ReadWriteOnce) && volume.volume_type == VolumeType::Persistent
            && !opts.contains("ro"@) && !opts.contains("readonly"@) && !replicated(volume, class)
            ==> !allows_multiple_mounts(volume, opts, class),
{
    if opts.contains("ro"@) {
        let i = choose|i: int| 0 <= i < opts.len() && opts[i] == "ro"@;
        assert(readonly_options(opts));
    }
    if opts.contains("readonly"@) {
        let i = choose|i: int| 0 <= i < opts.len() && opts[i] == "readonly"@;
        assert(readonly_options(opts));
    }
    if readonly_options(opts) {
        let i = choose|i: int| 0 <= i < opts.len() && (opts[i] == "ro"@ || opts[i] == "readonly"@);
        assert(opts.contains(opts[i]));
    }
}

} // verus!
