//! Replication of the volume layer: each volume's replication settings,
//! how they follow its access pattern, and the tasks that copy written
//! blocks to other nodes.  The copies are sent by the caller.
use vstd::prelude::*;
use std::collections::HashMap;
use std::collections::HashSet;
use crate::external::{new_uuid, now_millis};
use super::{ConsistencyLevel, VfsVolume};

verus! {

/// Kinds of storage media.
#[derive(Clone, Copy, Debug, PartialEq, Eq, Structural)]
pub enum StorageTier {
    NVMe,
    SSD,
    HDD,
    Memory,
    Archive,
}

/// Settings for replicas kept in other zones.
#[derive(Clone, Copy, Debug)]
pub struct CrossZoneConfig {
    pub min_zones: u8,
    pub max_latency_ms: u32,
    pub bandwidth_limit_mbps: Option<u32>,
}

/// Replica counts of a volume.
#[derive(Clone, Copy, Debug)]
pub struct ReplicationConfig {
    pub base_replicas: u8,
    pub current_replicas: u8,
    pub consistency_level: ConsistencyLevel,
    pub cross_zone_config: CrossZoneConfig,
    pub hot_data_replicas: u8,
    pub cold_data_replicas: u8,
}

/// Optimizations applied to a volume's replication.
#[derive(Clone, Copy, Debug)]
pub struct ReplicationOptimizations {
    pub delta_compression: bool,
    pub write_batching: bool,
    pub async_replication: bool,
    pub predictive_prefetch: bool,
    pub cross_replica_dedup: bool,
}

/// Where a volume's replicas are.
#[derive(Debug)]
pub struct DynamicPlacement {
    pub primary_nodes: Vec<u128>,
    pub secondary_nodes: Vec<u128>,
    pub cache_nodes: Vec<u128>,
    pub zone_distribution: Vec<(String, u8)>,
    pub tier_distribution: Vec<(StorageTier, u8)>,
}

/// The replication of one volume.  `last_updated` is in seconds since the
/// Unix epoch.
#[derive(Debug)]
pub struct ReplicationStrategy {
    pub volume_id: u128,
    pub config: ReplicationConfig,
    pub placement: DynamicPlacement,
    pub optimizations: ReplicationOptimizations,
    pub last_updated: u64,
}

/// Kind of access to a block.
#[derive(Clone, Copy, Debug, PartialEq, Eq, Structural)]
pub enum AccessType {
    Read,
    Write,
}

/// Direction of a sequential access run.
#[derive(Clone, Copy, Debug, PartialEq, Eq, Structural)]
pub enum AccessDirection {
    Forward,
    Backward,
    Random,
}

/// A run of sequential block accesses.
#[derive(Clone, Copy, Debug)]
pub struct SequentialPattern {
    pub start_block: u64,
    pub length: u64,
    pub direction: AccessDirection,
    pub frequency: u32,
}

/// What the access analysis found for a volume.
#[derive(Debug)]
pub struct VolumeAccessPatterns {
    pub hot_blocks: HashSet<u64>,
    pub cold_blocks: HashSet<u64>,
    pub sequential_patterns: Vec<SequentialPattern>,
}

impl VolumeAccessPatterns {
    /// No hot or cold blocks and no runs.
    pub fn new() -> (p: Self)
        ensures
            p.hot_blocks@ == Set::<u64>::empty(),
            p.cold_blocks@ == Set::<u64>::empty(),
            p.sequential_patterns@.len() == 0,
    {
        let p = VolumeAccessPatterns { hot_blocks: HashSet::new(), cold_blocks: HashSet::new(), sequential_patterns: Vec::new() };
        assert(p.hot_blocks@ =~= Set::<u64>::empty());
        assert(p.cold_blocks@ =~= Set::<u64>::empty());
        p
    }

    /// Some block is hot.
    pub fn is_hot_data(&self) -> (r: bool)
        ensures
            r == !self.hot_blocks@.is_empty(),
    {
        !self.hot_blocks.is_empty()
    }

    /// Some block is cold and none is hot.
    pub fn is_cold_data(&self) -> (r: bool)
        ensures
            r == (!self.cold_blocks@.is_empty() && self.hot_blocks@.is_empty()),
    {
        !self.cold_blocks.is_empty() && self.hot_blocks.is_empty()
    }
}

/// Measured performance of a node's storage.
#[derive(Clone, Copy, Debug)]
pub struct StoragePerformance {
    pub random_read_iops: u32,
    pub random_write_iops: u32,
    pub sequential_read_mbps: u32,
    pub sequential_write_mbps: u32,
    pub avg_latency_us: u32,
}

/// Limits on where replicas may go.
#[derive(Debug)]
pub struct PlacementConstraints {
    pub required_zones: Vec<String>,
    pub forbidden_zones: Vec<String>,
    pub required_tiers: Vec<StorageTier>,
    pub max_latency_ms: u32,
    pub min_bandwidth_mbps: u32,
    pub anti_affinity: Vec<String>,
}

/// Compression used when copying.
#[derive(Clone, Copy, Debug, PartialEq, Eq, Structural)]
pub enum CompressionAlgorithm {
    /// No compression.
    Uncompressed,
    LZ4,
    Zstd,
    Brotli,
}

/// Health of a volume's replicas.
#[derive(Clone, Copy, Debug, PartialEq, Eq, Structural)]
pub enum ReplicationState {
    Healthy,
    Syncing,
    Inconsistent,
    Degraded,
    Failed,
}

/// A copy of one block to other nodes.  `created_at` is in milliseconds
/// since the Unix epoch.
#[derive(Debug)]
pub struct ReplicationTask {
    pub id: u128,
    pub source_node: u128,
    pub destination_nodes: Vec<u128>,
    pub volume_id: u128,
    pub shard_id: u32,
    pub block_id: u64,
    pub data: Vec<u8>,
    pub priority: u8,
    pub consistency_level: ConsistencyLevel,
    pub created_at: i64,
}

/// The replica settings a new volume starts with: its replication factor,
/// two zones from three replicas on, one more replica for hot data and one
/// fewer (at least one) for cold data.
pub open spec fn initial_config(rf: u8, level: ConsistencyLevel) -> ReplicationConfig {
    ReplicationConfig {
        base_replicas: rf,
        current_replicas: rf,
        consistency_level: level,
        cross_zone_config: CrossZoneConfig {
            min_zones: if rf > 2 { 2 } else { 1 },
            max_latency_ms: 100,
            bandwidth_limit_mbps: None,
        },
        hot_data_replicas: (rf + 1) as u8,
        cold_data_replicas: if rf >= 2 { (rf - 1) as u8 } else { 1 },
    }
}

/// The replica settings of a new volume.
pub fn create_initial_replication_config(volume: &VfsVolume) -> (c: ReplicationConfig)
    requires
        volume.replication_factor < 255,
    ensures
        c == initial_config(volume.replication_factor, volume.metadata.consistency_level),
{
    let rf = volume.replication_factor;
    let less = rf.saturating_sub(1);
    ReplicationConfig {
        base_replicas: rf,
        current_replicas: rf,
        consistency_level: volume.metadata.consistency_level,
        cross_zone_config: CrossZoneConfig {
            min_zones: if rf > 2 { 2 } else { 1 },
            max_latency_ms: 100,
            bandwidth_limit_mbps: None,
        },
        hot_data_replicas: rf + 1,
        cold_data_replicas: if less >= 1 { less } else { 1 },
    }
}

/// The optimizations for a volume: delta compression above 100 GiB,
/// prefetch above 10 GiB (whole GiB counted), batching always,
/// asynchronous copies for eventual consistency, deduplication when the
/// volume deduplicates.
pub fn determine_optimizations(volume: &VfsVolume) -> (o: ReplicationOptimizations)
    ensures
        o.delta_compression == (volume.size_bytes / 1_073_741_824 > 100),
        o.write_batching,
        o.async_replication == (volume.metadata.consistency_level == ConsistencyLevel::Eventual),
        o.predictive_prefetch == (volume.size_bytes / 1_073_741_824 > 10),
        o.cross_replica_dedup == volume.metadata.deduplication_enabled,
{
    let size_gb = volume.size_bytes / (1024 * 1024 * 1024);
    ReplicationOptimizations {
        delta_compression: size_gb > 100,
        write_batching: true,
        async_replication: volume.metadata.consistency_level == ConsistencyLevel::Eventual,
        predictive_prefetch: size_gb > 10,
        cross_replica_dedup: volume.metadata.deduplication_enabled,
    }
}

/// Priority of a copy (0 first): global consistency first, eventual last.
pub open spec fn priority_for(level: ConsistencyLevel) -> u8 {
    match level {
        ConsistencyLevel::GlobalStrong => 0,
        ConsistencyLevel::Strong => 1,
        ConsistencyLevel::Eventual => 2,
    }
}

/// The priority of copies of a volume's blocks.
pub fn calculate_priority(strategy: &ReplicationStrategy) -> (p: u8)
    ensures
        p == priority_for(strategy.config.consistency_level),
{
    match strategy.config.consistency_level {
        ConsistencyLevel::GlobalStrong => 0,
        ConsistencyLevel::Strong => 1,
        ConsistencyLevel::Eventual => 2,
    }
}

/// The replica count after an access analysis: the hot count for hot data,
/// the cold count for cold data, unchanged otherwise.
pub open spec fn replicas_after_analysis(c: ReplicationConfig, hot: bool, cold: bool) -> u8 {
    if hot { c.hot_data_replicas } else if cold { c.cold_data_replicas } else { c.current_replicas }
}

fn empty_placement() -> (p: DynamicPlacement)
    ensures
        p.primary_nodes@.len() == 0,
        p.secondary_nodes@.len() == 0,
        p.cache_nodes@.len() == 0,
        p.zone_distribution@.len() == 0,
        p.tier_distribution@.len() == 0,
{
    DynamicPlacement {
        primary_nodes: Vec::new(),
        secondary_nodes: Vec::new(),
        cache_nodes: Vec::new(),
        zone_distribution: Vec::new(),
        tier_distribution: Vec::new(),
    }
}

fn current_timestamp() -> (t: u64)
    ensures
        t <= 9223372036854775u64,
{
    let ms = now_millis();
    if ms <= 0 { 0 } else { (ms / 1000) as u64 }
}

/// The replication strategies of the volumes, and the copies queued.
pub struct ReplicationManager {
    node_id: u128,
    strategies: HashMap<u128, ReplicationStrategy>,
    tasks: Vec<ReplicationTask>,
}

impl ReplicationManager {
    pub closed spec fn node_id_view(&self) -> u128 {
        self.node_id
    }

    pub closed spec fn strategies_view(&self) -> Map<u128, ReplicationStrategy> {
        self.strategies@
    }

    pub closed spec fn tasks_view(&self) -> Seq<ReplicationTask> {
        self.tasks@
    }

    /// A manager on node `node_id` with no volume.
    pub fn new(node_id: u128) -> (m: Self)
        ensures
            m.node_id_view() == node_id,
            m.strategies_view() == Map::<u128, ReplicationStrategy>::empty(),
            m.tasks_view().len() == 0,
    {
        ReplicationManager { node_id, strategies: HashMap::new(), tasks: Vec::new() }
    }

    /// Records the strategy of a new volume: the initial replica settings,
    /// an empty placement, and the optimizations for its size and class.
    pub fn setup_volume_replication(&mut self, volume: &VfsVolume)
        requires
            volume.replication_factor < 255,
        ensures
            final(self).node_id_view() == old(self).node_id_view(),
            final(self).tasks_view() == old(self).tasks_view(),
            final(self).strategies_view() == old(self).strategies_view().insert(volume.id,
                final(self).strategies_view()[volume.id]),
            ({
                let s = final(self).strategies_view()[volume.id];
                &&& s.volume_id == volume.id
                &&& s.config == initial_config(volume.replication_factor, volume.metadata.consistency_level)
                &&& s.placement.primary_nodes@.len() == 0
                &&& s.optimizations.delta_compression == (volume.size_bytes / 1_073_741_824 > 100)
                &&& s.optimizations.predictive_prefetch == (volume.size_bytes / 1_073_741_824 > 10)
                &&& s.optimizations.async_replication == (volume.metadata.consistency_level == ConsistencyLevel::Eventual)
                &&& s.optimizations.cross_replica_dedup == volume.metadata.deduplication_enabled
                &&& s.optimizations.write_batching
            }),
    {
        let placement = empty_placement();
        let config = create_initial_replication_config(volume);
        let optimizations = determine_optimizations(volume);
        let strategy = ReplicationStrategy {
            volume_id: volume.id,
            config,
            placement,
            optimizations,
            last_updated: current_timestamp(),
        };
        self.strategies.insert(volume.id, strategy);
    }

    /// Queues a copy of a written block to the volume's primary nodes, at
    /// the volume's priority; a volume with no strategy gets no copy.
    /// Tells whether a copy was queued.
    pub fn replicate_block(&mut self, volume_id: u128, shard_id: u32, block_id: u64, data: Vec<u8>) -> (queued: bool)
        ensures
            final(self).node_id_view() == old(self).node_id_view(),
            final(self).strategies_view() == old(self).strategies_view(),
            queued == old(self).strategies_view().contains_key(volume_id),
            !queued ==> final(self).tasks_view() == old(self).tasks_view(),
            queued ==> ({
                let s = old(self).strategies_view()[volume_id];
                let t = final(self).tasks_view().last();
                &&& final(self).tasks_view().drop_last() == old(self).tasks_view()
                &&& t.source_node == old(self).node_id_view()
                &&& t.destination_nodes@ == s.placement.primary_nodes@
                &&& t.volume_id == volume_id
                &&& t.shard_id == shard_id
                &&& t.block_id == block_id
                &&& t.data == data
                &&& t.priority == priority_for(s.config.consistency_level)
                &&& t.consistency_level == s.config.consistency_level
            }),
    {
        let (dest, priority, level) = match self.strategies.get(&volume_id) {
            Some(s) => (s.placement.primary_nodes.clone(), calculate_priority(s), s.config.consistency_level),
            None => {
                return false;
            },
        };
        let task = ReplicationTask {
            id: new_uuid(),
            source_node: self.node_id,
            destination_nodes: dest,
            volume_id,
            shard_id,
            block_id,
            data,
            priority,
            consistency_level: level,
            created_at: now_millis(),
        };
        self.tasks.push(task);
        assert(self.tasks@.drop_last() =~= old(self).tasks@);
        true
    }

    /// Adjusts a volume's replica count to what its access pattern calls
    /// for, resets its placement for recomputation and stamps it.
    pub fn optimize_volume_strategy(&mut self, volume_id: u128, patterns: &VolumeAccessPatterns)
        ensures
            final(self).node_id_view() == old(self).node_id_view(),
            final(self).tasks_view() == old(self).tasks_view(),
            !old(self).strategies_view().contains_key(volume_id) ==> final(self).strategies_view() == old(self).strategies_view(),
            old(self).strategies_view().contains_key(volume_id) ==> ({
                let s0 = old(self).strategies_view()[volume_id];
                let s = final(self).strategies_view()[volume_id];
                &&& final(self).strategies_view() == old(self).strategies_view().insert(volume_id, s)
                &&& s.config == ReplicationConfig {
                    current_replicas: replicas_after_analysis(s0.config, !patterns.hot_blocks@.is_empty(),
                        !patterns.cold_blocks@.is_empty() && patterns.hot_blocks@.is_empty()),
                    ..s0.config
                }
                &&& s.volume_id == s0.volume_id
                &&& s.optimizations == s0.optimizations
                &&& s.placement.primary_nodes@.len() == 0
            }),
    {
        let mut strategy = match self.strategies.remove(&volume_id) {
            Some(s) => s,
            None => {
                return;
            },
        };
        if patterns.is_hot_data() {
            strategy.config.current_replicas = strategy.config.hot_data_replicas;
        } else if patterns.is_cold_data() {
            strategy.config.current_replicas = strategy.config.cold_data_replicas;
        }
        strategy.placement = empty_placement();
        strategy.last_updated = current_timestamp();
        self.strategies.insert(volume_id, strategy);
        proof {
            assert(self.strategies@ =~= old(self).strategies@.insert(volume_id, self.strategies@[volume_id]));
        }
    }

    /// Forgets a volume's strategy.
    pub fn stop_volume_replication(&mut self, volume_id: u128)
        ensures
            final(self).node_id_view() == old(self).node_id_view(),
            final(self).tasks_view() == old(self).tasks_view(),
            final(self).strategies_view() == old(self).strategies_view().remove(volume_id),
    {
        self.strategies.remove(&volume_id);
    }

    /// Hands the queued copies to the sender, oldest first.
    pub fn take_tasks(&mut self) -> (t: Vec<ReplicationTask>)
        ensures
            t@ == old(self).tasks_view(),
            final(self).tasks_view().len() == 0,
            final(self).node_id_view() == old(self).node_id_view(),
            final(self).strategies_view() == old(self).strategies_view(),
    {
        let mut out: Vec<ReplicationTask> = Vec::new();
        std::mem::swap(&mut out, &mut self.tasks);
        out
    }
}

} // verus!
