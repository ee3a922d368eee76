# galleonfs

A distributed block storage system (volumes, snapshots, backups,
migrations, mounts, replication and a block-level file system), written in
Verus: the decisions and data structures are verified against their
contracts, and a thin program around them does the I/O.

## Layout

- `src/` — the verified library.
  - `lib.rs` — volumes, claims, storage classes, block data and the write
    plan (journal, write, flush or replicate, commit), with its laws.
  - `storage.rs` — the storage engine's registry of volumes, snapshots and
    journal entries.
  - `galleon.rs` — the storage service, replication tallies and stepping,
    and the replica side of synchronous replication.
  - `service.rs` — the daemon: what it does for each request, including
    its mount table.
  - `volume_mount.rs`, `block_io.rs` — mounts and byte-range reads and
    writes over a volume's blocks.
  - `vfs/`, `vfs_service.rs`, `cross_platform_vfs.rs`, `fuse_fs.rs` —
    the file-system layers kept inside volumes.
  - `cluster.rs`, `vfs/cluster.rs`, `vfs/replication.rs` — cluster
    membership and replica placement.
  - `snapshot.rs`, `backup.rs`, `migration.rs`, `qos.rs`, `monitoring.rs`,
    `security.rs` — the managers.
  - `cli/`, `daemon/`, `types/` — command steps, daemon state and the
    shared types.
  - `external.rs`, `text.rs` — the calls into crc32fast, uuid, rand,
    chrono and dirs, and character helpers.
- `tests/` — the tests, run against the compiled library.
- `app/` — the program: file I/O for volume blocks, the event queue
  runner, and the entry point.
