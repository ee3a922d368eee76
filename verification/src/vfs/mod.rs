//! The volume layer for large volumes: how a volume is cut into blocks
//! and shards, where its replicas go and how consistent they are kept,
//! judged from its storage class and size.
use vstd::prelude::*;
use crate::Labels;
use crate::external::{new_uuid, now_millis};
use crate::labels::{contains_text, text_contains};

pub mod cluster;
pub mod event_handler;
pub mod file_mapping;
pub mod replication;

verus! {

/// Block size of the volume layer: 64 KiB.
pub const VFS_BLOCK_SIZE: u64 = 65536;

/// Most blocks a shard holds (1 TiB of 64 KiB blocks).
pub const MAX_BLOCKS_PER_SHARD: u64 = 16_777_216;

/// Version of the volume metadata format.
pub const VFS_METADATA_VERSION: u32 = 1;

/// How strongly replicas are kept consistent.
#[derive(Clone, Copy, Debug, PartialEq, Eq, Structural)]
pub enum ConsistencyLevel {
    Eventual,
    Strong,
    GlobalStrong,
}

/// Where replicas are placed.
#[derive(Debug)]
pub enum PlacementPolicy {
    Spread,
    Balanced,
    ZoneAware,
    Custom(Labels),
}

/// Settings of a volume.
#[derive(Debug)]
pub struct VfsVolumeMetadata {
    pub version: u32,
    pub encryption_enabled: bool,
    pub compression_enabled: bool,
    pub deduplication_enabled: bool,
    pub consistency_level: ConsistencyLevel,
    pub placement_policy: PlacementPolicy,
}

impl Default for VfsVolumeMetadata {
    fn default() -> (m: Self)
        ensures
            m.version == VFS_METADATA_VERSION,
            !m.encryption_enabled && !m.compression_enabled && !m.deduplication_enabled,
            m.consistency_level == ConsistencyLevel::Strong,
            m.placement_policy is Balanced,
    {
        VfsVolumeMetadata {
            version: VFS_METADATA_VERSION,
            encryption_enabled: false,
            compression_enabled: false,
            deduplication_enabled: false,
            consistency_level: ConsistencyLevel::Strong,
            placement_policy: PlacementPolicy::Balanced,
        }
    }
}

/// A volume of the volume layer.  `created_at` is in milliseconds since the
/// Unix epoch.
#[derive(Debug)]
pub struct VfsVolume {
    pub id: u128,
    pub name: String,
    pub size_bytes: u64,
    pub block_count: u64,
    pub shard_count: u32,
    pub replication_factor: u8,
    pub storage_class: String,
    pub created_at: i64,
    pub metadata: VfsVolumeMetadata,
}

/// Shards by size alone: one below 1 GB, one per 10 GB below 100 GB, one
/// per 100 GB below 10 TB, one per TB beyond, at least one.
pub open spec fn base_shards(size: u64) -> u64 {
    if size < 1_000_000_000 {
        1
    } else if size < 100_000_000_000 {
        if size / 10_000_000_000 >= 1 { size / 10_000_000_000 } else { 1 }
    } else if size < 10_000_000_000_000 {
        if size / 100_000_000_000 >= 1 { size / 100_000_000_000 } else { 1 }
    } else {
        if size / 1_000_000_000_000 >= 1 { size / 1_000_000_000_000 } else { 1 }
    }
}

/// The shard count of a volume: the larger of the size-based count and the
/// count the block limit per shard asks for (each as a 32-bit number), at
/// most four per cluster node.
pub open spec fn shard_count_for(size: u64, block_count: u64, cluster_size: u32) -> u32 {
    let base = base_shards(size) as u32;
    let by_blocks = (if block_count / MAX_BLOCKS_PER_SHARD >= 1 { block_count / MAX_BLOCKS_PER_SHARD } else { 1 }) as u32;
    let m = if base >= by_blocks { base } else { by_blocks };
    let cap = (cluster_size * 4) as u32;
    if m <= cap { m } else { cap }
}

/// The shard count for a volume of `size_bytes` in `block_count` blocks on
/// a cluster of `cluster_size` nodes.
pub fn calculate_optimal_shard_count(size_bytes: u64, block_count: u64, cluster_size: u32) -> (n: u32)
    requires
        cluster_size * 4 <= u32::MAX,
    ensures
        n == shard_count_for(size_bytes, block_count, cluster_size),
{
    let base: u32 = if size_bytes < 1_000_000_000 {
        1
    } else if size_bytes < 100_000_000_000 {
        let q = size_bytes / 10_000_000_000;
        (if q >= 1 { q } else { 1 }) as u32
    } else if size_bytes < 10_000_000_000_000 {
        let q = size_bytes / 100_000_000_000;
        (if q >= 1 { q } else { 1 }) as u32
    } else {
        let q = size_bytes / 1_000_000_000_000;
        (if q >= 1 { q } else { 1 }) as u32
    };
    let qb = block_count / MAX_BLOCKS_PER_SHARD;
    let by_blocks = (if qb >= 1 { qb } else { 1 }) as u32;
    let m = if base >= by_blocks { base } else { by_blocks };
    let cap = cluster_size * 4;
    if m <= cap { m } else { cap }
}

/// The placement for a class and size: spread for fast or SSD classes,
/// zone-aware for encrypted or secure ones, and for distributed ones
/// zone-aware above 1 TB and balanced otherwise; balanced by default.
pub open spec fn placement_for(class: Seq<char>, size: u64) -> PlacementPolicy {
    if contains_text(class, "fast"@) || contains_text(class, "ssd"@) {
        PlacementPolicy::Spread
    } else if contains_text(class, "encrypted"@) || contains_text(class, "secure"@) {
        PlacementPolicy::ZoneAware
    } else if contains_text(class, "distributed"@) {
        if size > 1_000_000_000_000 { PlacementPolicy::ZoneAware } else { PlacementPolicy::Balanced }
    } else {
        PlacementPolicy::Balanced
    }
}

/// The placement policy for a storage class and volume size.
pub fn determine_placement_policy(storage_class: &str, size_bytes: u64) -> (p: PlacementPolicy)
    ensures
        p == placement_for(storage_class@, size_bytes),
{
    if text_contains(storage_class, "fast") || text_contains(storage_class, "ssd") {
        PlacementPolicy::Spread
    } else if text_contains(storage_class, "encrypted") || text_contains(storage_class, "secure") {
        PlacementPolicy::ZoneAware
    } else if text_contains(storage_class, "distributed") {
        if size_bytes > 1_000_000_000_000 { PlacementPolicy::ZoneAware } else { PlacementPolicy::Balanced }
    } else {
        PlacementPolicy::Balanced
    }
}

/// The consistency for a class: eventual for fast or performance classes,
/// strong for encrypted or secure ones, global for distributed or
/// replicated ones; strong by default.
pub open spec fn consistency_for(class: Seq<char>) -> ConsistencyLevel {
    if contains_text(class, "fast"@) || contains_text(class, "performance"@) {
        ConsistencyLevel::Eventual
    } else if contains_text(class, "encrypted"@) || contains_text(class, "secure"@) {
        ConsistencyLevel::Strong
    } else if contains_text(class, "distributed"@) || contains_text(class, "replicated"@) {
        ConsistencyLevel::GlobalStrong
    } else {
        ConsistencyLevel::Strong
    }
}

/// The consistency level for a storage class.
pub fn determine_consistency_level(storage_class: &str) -> (c: ConsistencyLevel)
    ensures
        c == consistency_for(storage_class@),
{
    if text_contains(storage_class, "fast") || text_contains(storage_class, "performance") {
        ConsistencyLevel::Eventual
    } else if text_contains(storage_class, "encrypted") || text_contains(storage_class, "secure") {
        ConsistencyLevel::Strong
    } else if text_contains(storage_class, "distributed") || text_contains(storage_class, "replicated") {
        ConsistencyLevel::GlobalStrong
    } else {
        ConsistencyLevel::Strong
    }
}

/// The number of 64 KiB blocks that hold `size` bytes.
pub open spec fn vfs_block_count(size: u64) -> u64 {
    ((size + VFS_BLOCK_SIZE - 1) / VFS_BLOCK_SIZE as int) as u64
}

/// The record of a new volume, as the volume layer makes it before storage,
/// replication and the cluster set it up: its blocks, shards, placement,
/// consistency and the features its class name asks for, with a fresh id.
pub fn new_vfs_volume(name: String, size_bytes: u64, replication_factor: u8, storage_class: String, cluster_size: u32)
    -> (v: VfsVolume)
    requires
        size_bytes + VFS_BLOCK_SIZE <= u64::MAX,
        cluster_size * 4 <= u32::MAX,
    ensures
        v.name == name,
        v.size_bytes == size_bytes,
        v.block_count == vfs_block_count(size_bytes),
        v.shard_count == shard_count_for(size_bytes, vfs_block_count(size_bytes), cluster_size),
        v.replication_factor == replication_factor,
        v.storage_class == storage_class,
        v.metadata.version == VFS_METADATA_VERSION,
        v.metadata.encryption_enabled == contains_text(storage_class@, "encrypted"@),
        v.metadata.compression_enabled == contains_text(storage_class@, "compressed"@),
        v.metadata.deduplication_enabled == contains_text(storage_class@, "dedup"@),
        v.metadata.consistency_level == consistency_for(storage_class@),
        v.metadata.placement_policy == placement_for(storage_class@, size_bytes),
{
    let id = new_uuid();
    let block_count = (size_bytes + VFS_BLOCK_SIZE - 1) / VFS_BLOCK_SIZE;
    let shard_count = calculate_optimal_shard_count(size_bytes, block_count, cluster_size);
    let placement_policy = determine_placement_policy(storage_class.as_str(), size_bytes);
    let consistency_level = determine_consistency_level(storage_class.as_str());
    let encryption_enabled = text_contains(storage_class.as_str(), "encrypted");
    let compression_enabled = text_contains(storage_class.as_str(), "compressed");
    let deduplication_enabled = text_contains(storage_class.as_str(), "dedup");
    VfsVolume {
        id,
        name,
        size_bytes,
        block_count,
        shard_count,
        replication_factor,
        storage_class,
        created_at: now_millis(),
        metadata: VfsVolumeMetadata {
            version: VFS_METADATA_VERSION,
            encryption_enabled,
            compression_enabled,
            deduplication_enabled,
            consistency_level,
            placement_policy,
        },
    }
}

/// Where a file write lands in one mapped block: the offset of the write
/// past the block's start (zero when the write starts before it) and how
/// many of the data's bytes go there, at most what is left of the block.
pub open spec fn block_write_window(offset: u64, block_id: u64, data_len: nat) -> (u64, u64) {
    let start = block_id * VFS_BLOCK_SIZE;
    let block_offset: u64 = if offset >= start { (offset - start) as u64 } else { 0 };
    let room = VFS_BLOCK_SIZE - block_offset;
    (block_offset, if data_len <= room { data_len as u64 } else { room as u64 })
}

/// The offset within block `block_id` and the byte count a file event
/// writes there, for data of `data_len` bytes at `offset`.
pub fn file_event_block_write(offset: u64, block_id: u64, data_len: usize) -> (r: (u64, u64))
    requires
        block_id * VFS_BLOCK_SIZE <= u64::MAX,
        offset - block_id * VFS_BLOCK_SIZE <= VFS_BLOCK_SIZE,
    ensures
        r == block_write_window(offset, block_id, data_len as nat),
{
    let start = block_id * VFS_BLOCK_SIZE;
    let block_offset = offset.saturating_sub(start);
    let room = VFS_BLOCK_SIZE - block_offset;
    let n = data_len as u64;
    (block_offset, if n <= room { n } else { room })
}

} // verus!
