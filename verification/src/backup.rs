//! Backups of volumes: where their data is kept, their records, and the
//! blocks a backup is read from and restored to.  The files and blocks
//! themselves are read and written by the caller.
use vstd::prelude::*;
use crate::{Backup, BackupState, BackupStrategy, Volume};
use crate::external::{chrono_text, format_time, new_uuid, now_millis};
use crate::storage::{volume_with_id, FileStorageEngine};
use crate::text::{append_chars, append_str, chars_of, join_path, path_join, uuid_chars, uuid_text};

verus! {

/// Size of a block read into or written from a backup.
pub const BACKUP_BLOCK_SIZE: u64 = 4096;

/// The directory backups are kept in.
#[derive(Debug)]
pub struct BackupRepository {
    storage_path: String,
}

/// The file of a backup: `<directory>/<id>.backup`.
pub open spec fn backup_file(dir: Seq<char>, id: u128) -> Seq<char> {
    path_join(dir, uuid_text(id) + ".backup"@)
}

impl BackupRepository {
    /// The directory.
    pub closed spec fn path_view(&self) -> Seq<char> {
        self.storage_path@
    }

    /// A repository in `storage_path` (the caller makes the directory).
    pub fn new(storage_path: String) -> (r: Self)
        ensures
            r.path_view() == storage_path@,
    {
        BackupRepository { storage_path }
    }

    /// The file that holds a backup's data.
    pub fn backup_path(&self, backup_id: u128) -> (p: String)
        ensures
            p@ == backup_file(self.path_view(), backup_id),
    {
        let mut name: Vec<char> = uuid_chars(backup_id);
        let suffix = chars_of(".backup");
        let mut i: usize = 0;
        let ghost n0 = name@;
        while i < suffix.len()
            invariant
                i <= suffix@.len(),
                name@ == n0 + suffix@.subrange(0, i as int),
            decreases suffix.len() - i,
        {
            name.push(suffix[i]);
            i += 1;
            assert(name@ =~= n0 + suffix@.subrange(0, i as int));
        }
        assert(suffix@.subrange(0, suffix@.len() as int) =~= suffix@);
        join_path(self.storage_path.as_str(), name.as_slice())
    }
}

/// Two backup records that hold the same values.
pub open spec fn same_backup(a: Backup, b: Backup) -> bool {
    &&& a.id == b.id
    &&& a.name@ == b.name@
    &&& a.volume_id == b.volume_id
    &&& a.policy_name@ == b.policy_name@
    &&& a.strategy == b.strategy
    &&& a.size_bytes == b.size_bytes
    &&& a.state == b.state
    &&& a.created_at == b.created_at
    &&& a.completed_at == b.completed_at
}

fn copy_backup(b: &Backup) -> (r: Backup)
    ensures
        same_backup(r, *b),
{
    Backup {
        id: b.id,
        name: b.name.clone(),
        volume_id: b.volume_id,
        policy_name: b.policy_name.clone(),
        strategy: b.strategy,
        size_bytes: b.size_bytes,
        state: b.state,
        created_at: b.created_at,
        completed_at: b.completed_at,
    }
}

/// The name of a backup of a volume taken at `millis`:
/// `backup-<volume>-<YYYYmmddHHMMSS>` (the stamp left out where the time
/// is out of range).
pub open spec fn backup_name(volume_name: Seq<char>, millis: i64) -> Seq<char> {
    "backup-"@ + volume_name + "-"@ + match chrono_text(millis, "%Y%m%d%H%M%S"@) {
        Some(t) => t,
        None => Seq::empty(),
    }
}

/// The byte range `[start, end)` of `len` bytes of backup data that goes
/// to block `k`.
pub open spec fn chunk_range(len: nat, k: nat) -> (nat, nat) {
    let start = k * 4096;
    (start, if start + 4096 <= len { start + 4096 } else { len })
}

/// The blocks a backup of `len` bytes is written back to, in order, each
/// with its byte range.
pub open spec fn restore_chunks(len: nat) -> Seq<(u64, u64, u64)> {
    Seq::new((len + 4095) / 4096, |k: int| (k as u64, chunk_range(len, k as nat).0 as u64, chunk_range(len, k as nat).1 as u64))
}

/// The backups without those with id `id`, in order.
pub open spec fn without_backup(s: Seq<Backup>, id: u128) -> Seq<Backup> {
    s.filter(|b: Backup| b.id != id)
}

/// The backups of a volume (all of them without one), in order.
pub open spec fn backups_of(s: Seq<Backup>, volume_id: Option<u128>) -> Seq<Backup> {
    match volume_id {
        Some(v) => s.filter(|b: Backup| b.volume_id == v),
        None => s,
    }
}

/// Index of the first backup with id `id` from index `i` on, or -1.
pub open spec fn backup_from(s: Seq<Backup>, id: u128, i: int) -> int
    decreases s.len() - i,
{
    if i < 0 || i >= s.len() {
        -1
    } else if s[i].id == id {
        i
    } else {
        backup_from(s, id, i + 1)
    }
}

/// The backup records, oldest first; recording a backup replaces one with
/// the same id.
#[derive(Debug)]
pub struct BackupManager {
    backups: Vec<Backup>,
    backup_repository: BackupRepository,
}

impl BackupManager {
    /// The backups.
    pub closed spec fn backups_view(&self) -> Seq<Backup> {
        self.backups@
    }

    /// The repository.
    pub closed spec fn repository_view(&self) -> BackupRepository {
        self.backup_repository
    }

    /// No backups, data kept in `repository_path`.
    pub fn new(repository_path: String) -> (m: Self)
        ensures
            m.backups_view().len() == 0,
            m.repository_view().path_view() == repository_path@,
    {
        BackupManager { backups: Vec::new(), backup_repository: BackupRepository::new(repository_path) }
    }

    /// The repository.
    pub fn repository(&self) -> (r: &BackupRepository)
        ensures
            *r == self.repository_view(),
    {
        &self.backup_repository
    }

    /// The backup to take of a volume: a fresh id, named after the volume
    /// and the time, of the volume's size, in progress.  The caller takes
    /// a snapshot named `backup-<id>`, reads the volume's blocks into the
    /// repository file and records the backup with `backup_completed`.
    pub fn create_backup(&self, engine: &FileStorageEngine, volume_id: u128, policy_name: &str, strategy: BackupStrategy) -> (r: Result<Backup, String>)
        requires
            engine.wf(),
        ensures
            match volume_with_id(engine.volumes_view(), volume_id) {
                None => r matches Err(e) && e@ == "Volume not found"@,
                Some(v) => r matches Ok(b) && {
                    &&& b.name@ == backup_name(v.name@, b.created_at)
                    &&& b.volume_id == volume_id
                    &&& b.policy_name@ == policy_name@
                    &&& b.strategy == strategy
                    &&& b.size_bytes == v.size_bytes
                    &&& b.state == BackupState::InProgress
                    &&& b.completed_at is None
                },
            },
    {
        let v = match engine.get_volume(volume_id) {
            Some(v) => v,
            None => return Err("Volume not found".to_owned()),
        };
        let now = now_millis();
        let mut name = "backup-".to_owned();
        append_str(&mut name, v.name.as_str());
        append_str(&mut name, "-");
        match format_time(now, "%Y%m%d%H%M%S") {
            Some(t) => append_str(&mut name, t.as_str()),
            None => {},
        }
        proof {
            match chrono_text(now, "%Y%m%d%H%M%S"@) {
                Some(t) => {},
                None => {
                    assert(name@ =~= backup_name(v.name@, now));
                },
            }
        }
        Ok(Backup {
            id: new_uuid(),
            name,
            volume_id,
            policy_name: policy_name.to_owned(),
            strategy,
            size_bytes: v.size_bytes,
            state: BackupState::InProgress,
            created_at: now,
            completed_at: None,
        })
    }

    fn drop_id(&mut self, id: u128)
        ensures
            final(self).backups_view() == without_backup(old(self).backups_view(), id),
            final(self).repository_view() == old(self).repository_view(),
    {
        let mut old_list: Vec<Backup> = Vec::new();
        std::mem::swap(&mut old_list, &mut self.backups);
        let ghost s0 = old_list@;
        let mut kept: Vec<Backup> = Vec::new();
        let n = old_list.len();
        let mut i: usize = 0;
        while i < n
            invariant
                i <= n,
                n == s0.len(),
                old_list@ == s0.subrange(i as int, n as int),
                kept@ == without_backup(s0.subrange(0, i as int), id),
            decreases n - i,
        {
            let b = old_list.remove(0);
            proof {
                assert(b == s0[i as int]);
                assert(s0.subrange(0, i + 1).drop_last() =~= s0.subrange(0, i as int));
                reveal(Seq::filter);
            }
            if b.id != id {
                kept.push(b);
            }
            i += 1;
            proof {
                assert(old_list@ =~= s0.subrange(i as int, n as int));
            }
        }
        assert(s0.subrange(0, n as int) =~= s0);
        self.backups = kept;
    }

    /// Records a backup whose data is stored: completed at `now`; gives a
    /// copy of the record.
    pub fn backup_completed(&mut self, backup: Backup, now: i64) -> (r: Backup)
        ensures
            same_backup(r, Backup { state: BackupState::Completed, completed_at: Some(now), ..backup }),
            final(self).backups_view() == without_backup(old(self).backups_view(), backup.id).push(
                Backup { state: BackupState::Completed, completed_at: Some(now), ..backup }),
            final(self).repository_view() == old(self).repository_view(),
    {
        let mut b = backup;
        b.state = BackupState::Completed;
        b.completed_at = Some(now);
        let r = copy_backup(&b);
        self.drop_id(b.id);
        self.backups.push(b);
        r
    }

    /// The blocks to write a backup's data back to, each with its byte
    /// range of the data, once the backup is known and completed; the
    /// caller reads the repository file, writes the blocks and flushes.
    pub fn restore_backup(&self, backup_id: u128, data_len: usize) -> (r: Result<Vec<(u64, u64, u64)>, String>)
        ensures
            ({
                let i = backup_from(self.backups_view(), backup_id, 0);
                if i < 0 {
                    r matches Err(e) && e@ == "Backup not found"@
                } else if self.backups_view()[i].state != BackupState::Completed {
                    r matches Err(e) && e@ == "Backup is not in completed state"@
                } else {
                    r matches Ok(c) && c@ == restore_chunks(data_len as nat)
                }
            }),
    {
        let mut i: usize = 0;
        while i < self.backups.len()
            invariant
                i <= self.backups@.len(),
                backup_from(self.backups@, backup_id, 0) == backup_from(self.backups@, backup_id, i as int),
            decreases self.backups.len() - i,
        {
            if self.backups[i].id == backup_id {
                if self.backups[i].state != BackupState::Completed {
                    return Err("Backup is not in completed state".to_owned());
                }
                return Ok(restore_plan(data_len));
            }
            i += 1;
        }
        Err("Backup not found".to_owned())
    }

    /// Copies of the backups (of one volume, when given), oldest first.
    pub fn list_backups(&self, volume_id: Option<u128>) -> (r: Vec<Backup>)
        ensures
            r@.len() == backups_of(self.backups_view(), volume_id).len(),
            forall|i: int| 0 <= i < r@.len() ==> same_backup(#[trigger] r@[i], backups_of(self.backups_view(), volume_id)[i]),
    {
        let ghost s = self.backups@;
        let mut r: Vec<Backup> = Vec::new();
        let mut i: usize = 0;
        while i < self.backups.len()
            invariant
                i <= s.len(),
                s == self.backups@,
                r@.len() == backups_of(s.subrange(0, i as int), volume_id).len(),
                forall|t: int| 0 <= t < r@.len() ==> same_backup(#[trigger] r@[t], backups_of(s.subrange(0, i as int), volume_id)[t]),
            decreases self.backups.len() - i,
        {
            let b = &self.backups[i];
            proof {
                assert(s.subrange(0, i + 1).drop_last() =~= s.subrange(0, i as int));
                reveal(Seq::filter);
            }
            let keep = match volume_id {
                Some(v) => b.volume_id == v,
                None => true,
            };
            if keep {
                let ghost r0 = r@;
                r.push(copy_backup(b));
                proof {
                    assert forall|t: int| 0 <= t < r@.len() implies same_backup(#[trigger] r@[t],
                        backups_of(s.subrange(0, i + 1), volume_id)[t]) by {
                        if t < r0.len() {
                            assert(r@[t] == r0[t]);
                        }
                    }
                }
            }
            i += 1;
        }
        assert(s.subrange(0, s.len() as int) =~= s);
        r
    }

    /// Forgets a backup (after its file was removed).
    pub fn delete_backup(&mut self, backup_id: u128)
        ensures
            final(self).backups_view() == without_backup(old(self).backups_view(), backup_id),
            final(self).repository_view() == old(self).repository_view(),
    {
        self.drop_id(backup_id);
    }
}

/// The blocks `len` bytes of backup data are written back to (see
/// `restore_chunks`).
pub fn restore_plan(len: usize) -> (r: Vec<(u64, u64, u64)>)
    ensures
        r@ == restore_chunks(len as nat),
{
    let n = (len as u64) / 4096 + if (len as u64) % 4096 == 0 { 0 } else { 1 };
    let mut r: Vec<(u64, u64, u64)> = Vec::new();
    let mut k: u64 = 0;
    while k < n
        invariant
            k <= n,
            n == (len + 4095) / 4096,
            r@ == restore_chunks(len as nat).subrange(0, k as int),
        decreases n - k,
    {
        assert(k * 4096 < len) by (nonlinear_arith)
            requires k < n, n == (len + 4095) / 4096;
        let start = k * 4096;
        let rest = len as u64 - start;
        let end = if rest >= 4096 { start + 4096 } else { len as u64 };
        r.push((k, start, end));
        k += 1;
        assert(r@ =~= restore_chunks(len as nat).subrange(0, k as int));
    }
    assert(restore_chunks(len as nat).subrange(0, n as int) =~= restore_chunks(len as nat));
    r
}

} // verus!
