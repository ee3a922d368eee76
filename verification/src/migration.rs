//! Migrations of volumes to another class or place: their records, the
//! volume a migration creates, and the progress and state a migration
//! goes through while its blocks are copied by the caller.
use vstd::prelude::*;
use std::collections::HashMap;
use crate::{Migration, MigrationState, MigrationStrategy, MigrationTarget, Volume, VolumeState};
use crate::external::{new_uuid, now_millis};
use crate::storage::{volume_with_id, FileStorageEngine};
use crate::text::{append_chars, append_str, clone_opt_string, uuid_chars, uuid_text};

verus! {

/// Size of a block copied by a migration.
pub const MIGRATION_BLOCK_SIZE: u64 = 4096;

/// How many blocks hold `size` bytes.
pub open spec fn block_count(size: nat) -> nat {
    (size + 4095) / 4096
}

/// Two migration records that hold the same values.
pub open spec fn same_migration(a: Migration, b: Migration) -> bool {
    &&& a.id == b.id
    &&& a.name@ == b.name@
    &&& a.source_volume_id == b.source_volume_id
    &&& a.target_spec.storage_class@ == b.target_spec.storage_class@
    &&& a.target_spec.node == b.target_spec.node
    &&& a.target_spec.zone == b.target_spec.zone
    &&& a.target_spec.region == b.target_spec.region
    &&& a.strategy == b.strategy
    &&& a.state == b.state
    &&& a.progress_percent == b.progress_percent
    &&& a.started_at == b.started_at
    &&& a.estimated_completion == b.estimated_completion
}

/// A copy of a migration record.
pub fn copy_migration(m: &Migration) -> (r: Migration)
    ensures
        same_migration(r, *m),
{
    Migration {
        id: m.id,
        name: m.name.clone(),
        source_volume_id: m.source_volume_id,
        target_spec: MigrationTarget {
            storage_class: m.target_spec.storage_class.clone(),
            node: clone_opt_string(&m.target_spec.node),
            zone: clone_opt_string(&m.target_spec.zone),
            region: clone_opt_string(&m.target_spec.region),
        },
        strategy: m.strategy,
        state: m.state,
        progress_percent: m.progress_percent,
        started_at: m.started_at,
        estimated_completion: m.estimated_completion,
    }
}

/// The progress after copying block `block_id` of `num_blocks`: its share
/// of 100 for an offline migration, of 80 for an online one (whose last
/// fifth is the sync and cutover), rounded down.
pub open spec fn copy_progress(strategy: MigrationStrategy, block_id: nat, num_blocks: nat) -> nat {
    let scale: nat = match strategy {
        MigrationStrategy::Offline => 100,
        MigrationStrategy::Online => 80,
    };
    (block_id + 1) * scale / num_blocks
}

/// The migrations after cancelling `id`: one that has not got past
/// syncing fails; others stay.
pub open spec fn cancelled(m0: Map<u128, Migration>, id: u128) -> Map<u128, Migration> {
    if m0.contains_key(id) && (m0[id].state == MigrationState::Pending || m0[id].state == MigrationState::Copying
        || m0[id].state == MigrationState::Syncing) {
        m0.insert(id, Migration { state: MigrationState::Failed, ..m0[id] })
    } else {
        m0
    }
}

/// The migrations after approving the cutover of `id`: one ready for
/// cutover cuts over; others stay.
pub open spec fn approved(m0: Map<u128, Migration>, id: u128) -> Map<u128, Migration> {
    if m0.contains_key(id) && m0[id].state == MigrationState::ReadyForCutover {
        m0.insert(id, Migration { state: MigrationState::CuttingOver, ..m0[id] })
    } else {
        m0
    }
}

/// The migration records.
#[derive(Debug)]
pub struct MigrationManager {
    migrations: HashMap<u128, Migration>,
}

impl MigrationManager {
    /// The migrations by id.
    pub closed spec fn migrations_view(&self) -> Map<u128, Migration> {
        self.migrations@
    }

    /// No migrations.
    pub fn new() -> (m: Self)
        ensures
            m.migrations_view().dom().len() == 0,
    {
        let m = MigrationManager { migrations: HashMap::new() };
        assert(m.migrations@.dom() =~= Set::<u128>::empty());
        m
    }

    /// Records a new migration of a volume and gives a copy: a fresh id,
    /// named `migration-` and another fresh id, pending, at 0%, started
    /// now.
    pub fn create_migration(&mut self, source_volume_id: u128, target_spec: MigrationTarget, strategy: MigrationStrategy) -> (r: Migration)
        ensures
            r.source_volume_id == source_volume_id,
            r.target_spec.storage_class@ == target_spec.storage_class@,
            r.target_spec.node == target_spec.node,
            r.target_spec.zone == target_spec.zone,
            r.target_spec.region == target_spec.region,
            r.strategy == strategy,
            r.state == MigrationState::Pending,
            r.progress_percent == 0,
            r.estimated_completion is None,
            exists|u: u128| r.name@ == "migration-"@ + uuid_text(u),
            final(self).migrations_view().contains_key(r.id),
            same_migration(final(self).migrations_view()[r.id], r),
            final(self).migrations_view().remove(r.id) == old(self).migrations_view().remove(r.id),
    {
        let mut name = "migration-".to_owned();
        let u = new_uuid();
        append_chars(&mut name, uuid_chars(u).as_slice());
        assert(name@ == "migration-"@ + uuid_text(u));
        let migration = Migration {
            id: new_uuid(),
            name,
            source_volume_id,
            target_spec,
            strategy,
            state: MigrationState::Pending,
            progress_percent: 0,
            started_at: now_millis(),
            estimated_completion: None,
        };
        let r = copy_migration(&migration);
        let id = migration.id;
        self.migrations.insert(id, migration);
        assert(self.migrations@.remove(id) =~= old(self).migrations@.remove(id));
        r
    }

    fn set_state(&mut self, migration_id: u128, state: MigrationState, progress: Option<u8>)
        ensures
            old(self).migrations_view().contains_key(migration_id) ==> final(self).migrations_view()
                == old(self).migrations_view().insert(migration_id, Migration {
                    state,
                    progress_percent: match progress {
                        Some(p) => p,
                        None => old(self).migrations_view()[migration_id].progress_percent,
                    },
                    ..old(self).migrations_view()[migration_id]
                }),
            !old(self).migrations_view().contains_key(migration_id) ==> final(self).migrations_view() == old(self).migrations_view(),
    {
        match self.migrations.remove(&migration_id) {
            Some(mut m) => {
                m.state = state;
                if let Some(p) = progress {
                    m.progress_percent = p;
                }
                self.migrations.insert(migration_id, m);
                proof {
                    assert(self.migrations@ =~= old(self).migrations@.insert(migration_id, m));
                }
            },
            None => {
                assert(self.migrations@ =~= old(self).migrations@);
            },
        }
    }

    /// Moves a migration to copying.
    pub fn start_migration(&mut self, migration_id: u128)
        ensures
            old(self).migrations_view().contains_key(migration_id) ==> final(self).migrations_view()
                == old(self).migrations_view().insert(migration_id, Migration {
                    state: MigrationState::Copying,
                    ..old(self).migrations_view()[migration_id]
                }),
            !old(self).migrations_view().contains_key(migration_id) ==> final(self).migrations_view() == old(self).migrations_view(),
    {
        self.set_state(migration_id, MigrationState::Copying, None);
    }

    /// The volume a migration copies into, before its file exists: the
    /// source volume's name with `-migrated`, its type and size, in the
    /// target class.  After recording it, the copy is at 10%.
    pub fn target_volume(&self, engine: &FileStorageEngine, migration_id: u128) -> (r: Result<Volume, String>)
        requires
            engine.wf(),
        ensures
            !self.migrations_view().contains_key(migration_id) ==> (r matches Err(e) && e@ == "Migration not found"@),
            self.migrations_view().contains_key(migration_id) ==> {
                let m = self.migrations_view()[migration_id];
                match volume_with_id(engine.volumes_view(), m.source_volume_id) {
                    None => r matches Err(e) && e@ == "Source volume not found"@,
                    Some(src) => r matches Ok(v) && {
                        &&& v.name@ == src.name@ + "-migrated"@
                        &&& v.volume_type == src.volume_type
                        &&& v.size_bytes == src.size_bytes
                        &&& v.storage_class@ == m.target_spec.storage_class@
                        &&& v.state == VolumeState::Provisioning
                    },
                }
            },
    {
        let m = match self.migrations.get(&migration_id) {
            Some(m) => m,
            None => return Err("Migration not found".to_owned()),
        };
        let src = match engine.get_volume(m.source_volume_id) {
            Some(v) => v,
            None => return Err("Source volume not found".to_owned()),
        };
        let mut name = src.name.clone();
        append_str(&mut name, "-migrated");
        Ok(Volume::new(name, src.volume_type, src.size_bytes, m.target_spec.storage_class.clone()))
    }

    /// Records that the target volume exists and the copy begins: copying,
    /// at 10%.
    pub fn target_created(&mut self, migration_id: u128)
        ensures
            old(self).migrations_view().contains_key(migration_id) ==> final(self).migrations_view()
                == old(self).migrations_view().insert(migration_id, Migration {
                    state: MigrationState::Copying,
                    progress_percent: 10,
                    ..old(self).migrations_view()[migration_id]
                }),
            !old(self).migrations_view().contains_key(migration_id) ==> final(self).migrations_view() == old(self).migrations_view(),
    {
        self.set_state(migration_id, MigrationState::Copying, Some(10));
    }

    /// Records that block `block_id` of `num_blocks` was copied: the
    /// progress becomes its share (see `copy_progress`); an online
    /// migration at 80% or more is syncing.
    pub fn block_copied(&mut self, migration_id: u128, strategy: MigrationStrategy, block_id: u64, num_blocks: u64)
        requires
            block_id < num_blocks,
            (block_id + 1) * 100 <= u64::MAX,
        ensures
            old(self).migrations_view().contains_key(migration_id) ==> {
                let m = old(self).migrations_view()[migration_id];
                let p = copy_progress(strategy, block_id as nat, num_blocks as nat);
                final(self).migrations_view() == old(self).migrations_view().insert(migration_id, Migration {
                    progress_percent: p as u8,
                    state: if strategy == MigrationStrategy::Online && p >= 80 { MigrationState::Syncing } else { m.state },
                    ..m
                })
            },
            !old(self).migrations_view().contains_key(migration_id) ==> final(self).migrations_view() == old(self).migrations_view(),
    {
        let scale: u64 = match strategy {
            MigrationStrategy::Offline => 100,
            MigrationStrategy::Online => 80,
        };
        proof {
            assert((block_id + 1) * scale <= num_blocks * scale) by (nonlinear_arith)
                requires block_id < num_blocks;
            assert((block_id + 1) * scale / (num_blocks as int) <= scale) by (nonlinear_arith)
                requires (block_id + 1) * scale <= num_blocks * scale, num_blocks > 0;
        }
        let p = ((block_id + 1) * scale / num_blocks) as u8;
        match self.migrations.remove(&migration_id) {
            Some(mut m) => {
                m.progress_percent = p;
                if matches!(strategy, MigrationStrategy::Online) && p >= 80 {
                    m.state = MigrationState::Syncing;
                }
                self.migrations.insert(migration_id, m);
                proof {
                    assert(self.migrations@ =~= old(self).migrations@.insert(migration_id, m));
                }
            },
            None => {
                assert(self.migrations@ =~= old(self).migrations@);
            },
        }
    }

    /// Records that an online migration's copy is in sync: ready for
    /// cutover at 90%.
    pub fn ready_for_cutover(&mut self, migration_id: u128)
        ensures
            old(self).migrations_view().contains_key(migration_id) ==> final(self).migrations_view()
                == old(self).migrations_view().insert(migration_id, Migration {
                    state: MigrationState::ReadyForCutover,
                    progress_percent: 90,
                    ..old(self).migrations_view()[migration_id]
                }),
            !old(self).migrations_view().contains_key(migration_id) ==> final(self).migrations_view() == old(self).migrations_view(),
    {
        self.set_state(migration_id, MigrationState::ReadyForCutover, Some(90));
    }

    /// Records that an online migration is cutting over, at 95%.
    pub fn cutting_over(&mut self, migration_id: u128)
        ensures
            old(self).migrations_view().contains_key(migration_id) ==> final(self).migrations_view()
                == old(self).migrations_view().insert(migration_id, Migration {
                    state: MigrationState::CuttingOver,
                    progress_percent: 95,
                    ..old(self).migrations_view()[migration_id]
                }),
            !old(self).migrations_view().contains_key(migration_id) ==> final(self).migrations_view() == old(self).migrations_view(),
    {
        self.set_state(migration_id, MigrationState::CuttingOver, Some(95));
    }

    /// Records that a migration finished: completed, at 100%.
    pub fn complete_migration(&mut self, migration_id: u128)
        ensures
            old(self).migrations_view().contains_key(migration_id) ==> final(self).migrations_view()
                == old(self).migrations_view().insert(migration_id, Migration {
                    state: MigrationState::Completed,
                    progress_percent: 100,
                    ..old(self).migrations_view()[migration_id]
                }),
            !old(self).migrations_view().contains_key(migration_id) ==> final(self).migrations_view() == old(self).migrations_view(),
    {
        self.set_state(migration_id, MigrationState::Completed, Some(100));
    }

    /// Records that a migration failed.
    pub fn fail_migration(&mut self, migration_id: u128)
        ensures
            old(self).migrations_view().contains_key(migration_id) ==> final(self).migrations_view()
                == old(self).migrations_view().insert(migration_id, Migration {
                    state: MigrationState::Failed,
                    ..old(self).migrations_view()[migration_id]
                }),
            !old(self).migrations_view().contains_key(migration_id) ==> final(self).migrations_view() == old(self).migrations_view(),
    {
        self.set_state(migration_id, MigrationState::Failed, None);
    }

    /// A copy of the migration with the id.
    pub fn get_migration(&self, migration_id: u128) -> (r: Option<Migration>)
        ensures
            match r {
                Some(m) => self.migrations_view().contains_key(migration_id) && same_migration(m, self.migrations_view()[migration_id]),
                None => !self.migrations_view().contains_key(migration_id),
            },
    {
        match self.migrations.get(&migration_id) {
            Some(m) => Some(copy_migration(m)),
            None => None,
        }
    }

    /// Cancels a migration that has not yet got past syncing: it fails.
    /// Others are left as they are.
    pub fn cancel_migration(&mut self, migration_id: u128)
        ensures
            final(self).migrations_view() == cancelled(old(self).migrations_view(), migration_id),
    {
        let cancellable = match self.migrations.get(&migration_id) {
            Some(m) => matches!(m.state, MigrationState::Pending | MigrationState::Copying | MigrationState::Syncing),
            None => false,
        };
        if cancellable {
            self.set_state(migration_id, MigrationState::Failed, None);
        }
    }

    /// Lets a migration ready for cutover cut over.  Others are left as
    /// they are.
    pub fn approve_cutover(&mut self, migration_id: u128)
        ensures
            final(self).migrations_view() == approved(old(self).migrations_view(), migration_id),
    {
        let ready = match self.migrations.get(&migration_id) {
            Some(m) => m.state == MigrationState::ReadyForCutover,
            None => false,
        };
        if ready {
            self.set_state(migration_id, MigrationState::CuttingOver, None);
        }
    }
}

/// How many blocks a volume of `size` bytes has.
pub fn num_blocks(size: u64) -> (n: u64)
    ensures
        n == block_count(size as nat),
{
    let full = size / 4096;
    if size % 4096 == 0 { full } else { full + 1 }
}

/// Cancelling a migration that has not got past syncing and then
/// approving its cutover leaves it failed: a cancelled migration never
/// cuts over.
pub proof fn cancelled_migration_is_not_cut_over(m: Map<u128, Migration>, id: u128)
    requires
        m.contains_key(id),
        m[id].state == MigrationState::Pending || m[id].state == MigrationState::Copying || m[id].state == MigrationState::Syncing,
    ensures
        approved(cancelled(m, id), id).contains_key(id),
        approved(cancelled(m, id), id)[id].state == MigrationState::Failed,
{
}


/// Copying the last block of an offline migration brings it to 100 per
/// cent, of an online one to 80 (the rest is the sync and cutover); each
/// block copied so far counts for an equal share, and progress never
/// passes those marks.
pub proof fn copy_progress_reaches_its_mark(block_id: nat, num_blocks: nat)
    requires
        block_id < num_blocks,
    ensures
        copy_progress(MigrationStrategy::Offline, block_id, num_blocks) == (block_id + 1) * 100 / num_blocks,
        copy_progress(MigrationStrategy::Online, block_id, num_blocks) == (block_id + 1) * 80 / num_blocks,
        copy_progress(MigrationStrategy::Offline, (num_blocks - 1) as nat, num_blocks) == 100,
        copy_progress(MigrationStrategy::Online, (num_blocks - 1) as nat, num_blocks) == 80,
        copy_progress(MigrationStrategy::Offline, block_id, num_blocks) <= 100,
        copy_progress(MigrationStrategy::Online, block_id, num_blocks) <= 80,
{
    let n = num_blocks as int;
    assert(n * 100 / n == 100) by (nonlinear_arith) requires n > 0;
    assert(n * 80 / n == 80) by (nonlinear_arith) requires n > 0;
    assert((num_blocks - 1) as nat + 1 == n);
    let b = block_id as int;
    assert((b + 1) * 100 <= n * 100) by (nonlinear_arith) requires b < n;
    assert((b + 1) * 80 <= n * 80) by (nonlinear_arith) requires b < n;
    assert((b + 1) * 100 / n <= n * 100 / n) by (nonlinear_arith)
        requires (b + 1) * 100 <= n * 100, n > 0;
    assert((b + 1) * 80 / n <= n * 80 / n) by (nonlinear_arith)
        requires (b + 1) * 80 <= n * 80, n > 0;
}

} // verus!
