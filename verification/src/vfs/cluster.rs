//! Membership of the volume layer's cluster: peers, their capacity and
//! zones, which peers hold a volume, and which peers are dropped after
//! going silent.
use vstd::prelude::*;
use crate::Labels;
use crate::cluster::{pair_ids, pick_ranked, ranked_first, take_ids};
use crate::external::{new_uuid, now_millis};
use crate::labels::strings_view;
use super::{PlacementPolicy, VfsVolume};

verus! {

/// Resources of a peer.
#[derive(Clone, Copy, Debug)]
pub struct NodeCapacity {
    pub total_storage_bytes: u64,
    pub available_storage_bytes: u64,
    pub cpu_cores: u32,
    pub memory_bytes: u64,
    pub network_bandwidth_mbps: u32,
    pub iops_capability: u32,
}

/// Status of a peer.
#[derive(Clone, Copy, Debug, PartialEq, Eq, Structural)]
pub enum NodeStatus {
    Active,
    Draining,
    Unreachable,
    Left,
}

/// A peer.  Times are seconds since the Unix epoch.
#[derive(Debug)]
pub struct ClusterNode {
    pub id: u128,
    pub address: String,
    pub zone: Option<String>,
    pub labels: Labels,
    pub capacity: NodeCapacity,
    pub status: NodeStatus,
    pub last_heartbeat: u64,
    pub join_time: u64,
}

/// Membership state.  `created_at` is in seconds since the Unix epoch.
#[derive(Debug)]
pub struct ClusterState {
    pub cluster_id: u128,
    pub leader_id: Option<u128>,
    pub member_count: u32,
    pub zones: Vec<String>,
    pub created_at: u64,
}

/// A summary of the cluster for monitoring.
#[derive(Debug)]
pub struct ClusterStatus {
    pub cluster_id: u128,
    pub node_id: u128,
    pub is_leader: bool,
    pub total_nodes: u32,
    pub active_nodes: u32,
    pub zones: Vec<String>,
    pub total_capacity_bytes: u64,
    pub available_capacity_bytes: u64,
}

/// Why no placement can be made.
#[derive(Clone, Copy, Debug, PartialEq, Eq, Structural)]
pub enum PlacementError {
    /// No peer is active.
    NoActiveNodes,
}

/// The capacity a node reports until it is measured.
pub fn detect_node_capacity() -> (c: NodeCapacity)
    ensures
        c.total_storage_bytes == 1_000_000_000_000,
        c.available_storage_bytes == 800_000_000_000,
        c.cpu_cores == 8,
        c.memory_bytes == 32_000_000_000,
        c.network_bandwidth_mbps == 1000,
        c.iops_capability == 10000,
{
    NodeCapacity {
        total_storage_bytes: 1_000_000_000_000,
        available_storage_bytes: 800_000_000_000,
        cpu_cores: 8,
        memory_bytes: 32_000_000_000,
        network_bandwidth_mbps: 1000,
        iops_capability: 10000,
    }
}

/// The active peers, in order.
pub open spec fn active_nodes(peers: Seq<ClusterNode>) -> Seq<ClusterNode>
    decreases peers.len(),
{
    if peers.len() == 0 {
        Seq::empty()
    } else if peers.last().status == NodeStatus::Active {
        active_nodes(peers.drop_last()).push(peers.last())
    } else {
        active_nodes(peers.drop_last())
    }
}

/// Each node as its id and available storage.
pub open spec fn capacity_pairs(nodes: Seq<ClusterNode>) -> Seq<(u128, u64)> {
    nodes.map_values(|n: ClusterNode| (n.id, n.capacity.available_storage_bytes))
}

/// No two peers share an id.
pub open spec fn distinct_peer_ids(peers: Seq<ClusterNode>) -> bool {
    forall|i: int, j: int| 0 <= i < peers.len() && 0 <= j < peers.len() && i != j ==> peers[i].id != peers[j].id
}

/// Each node as its id and zone.
pub open spec fn id_zones(nodes: Seq<ClusterNode>) -> Seq<(u128, Option<String>)> {
    nodes.map_values(|n: ClusterNode| (n.id, n.zone))
}

/// The zones that occur, each once, in order of first appearance.
pub open spec fn zones_of(nodes: Seq<(u128, Option<String>)>) -> Seq<Seq<char>>
    decreases nodes.len(),
{
    if nodes.len() == 0 {
        Seq::empty()
    } else {
        let z = zones_of(nodes.drop_last());
        match nodes.last().1 {
            Some(s) => if z.contains(s@) { z } else { z.push(s@) },
            None => z,
        }
    }
}

/// The ids in zone `zone`, in order.
pub open spec fn zone_members(nodes: Seq<(u128, Option<String>)>, zone: Seq<char>) -> Seq<u128>
    decreases nodes.len(),
{
    if nodes.len() == 0 {
        Seq::empty()
    } else {
        let m = zone_members(nodes.drop_last(), zone);
        match nodes.last().1 {
            Some(s) => if s@ == zone { m.push(nodes.last().0) } else { m },
            None => m,
        }
    }
}

/// Round-robin over the zones for `k` replicas: replica `i` goes to zone
/// `i mod z`, to that zone's member number `i / z` where there is one.
pub open spec fn zone_round_robin(nodes: Seq<(u128, Option<String>)>, k: nat) -> Seq<u128>
    decreases k,
{
    if k == 0 {
        Seq::empty()
    } else {
        let prev = zone_round_robin(nodes, (k - 1) as nat);
        let zs = zones_of(nodes);
        let i = k - 1;
        let zone = zs[i % (zs.len() as int)];
        let members = zone_members(nodes, zone);
        if i / (zs.len() as int) < members.len() { prev.push(members[i / (zs.len() as int)]) } else { prev }
    }
}

/// The nodes a policy places `k` replicas on, among the active peers.
pub open spec fn vfs_placement(policy: PlacementPolicy, active: Seq<ClusterNode>, k: nat, ids: Seq<u128>) -> bool {
    match policy {
        PlacementPolicy::Spread => ids == capacity_pairs(active).map_values(|p: (u128, u64)| p.0),
        PlacementPolicy::Balanced => exists|chosen: Seq<(u128, u64)>|
            ranked_first(capacity_pairs(active), if k <= active.len() { k } else { active.len() }, chosen, true)
                && ids == pair_ids(chosen),
        PlacementPolicy::ZoneAware => ids == zone_round_robin(id_zones(active), k),
        PlacementPolicy::Custom(_) => ids == pair_ids(capacity_pairs(active).take(if k <= active.len() { k as int } else { active.len() as int })),
    }
}

/// Sum of a capacity field over nodes.
pub open spec fn total_storage(nodes: Seq<ClusterNode>) -> nat
    decreases nodes.len(),
{
    if nodes.len() == 0 { 0 } else { (total_storage(nodes.drop_last()) + nodes.last().capacity.total_storage_bytes) as nat }
}

pub open spec fn available_storage(nodes: Seq<ClusterNode>) -> nat
    decreases nodes.len(),
{
    if nodes.len() == 0 { 0 } else { (available_storage(nodes.drop_last()) + nodes.last().capacity.available_storage_bytes) as nat }
}

/// The peers that stay after a cleanup at `now`: this node, and every
/// other peer heard from within 180 seconds.
pub open spec fn kept_after_cleanup(peers: Seq<ClusterNode>, self_id: u128, now: u64) -> Seq<ClusterNode>
    decreases peers.len(),
{
    if peers.len() == 0 {
        Seq::empty()
    } else {
        let k = kept_after_cleanup(peers.drop_last(), self_id, now);
        let n = peers.last();
        if n.id != self_id && now - n.last_heartbeat > 180 { k } else { k.push(n) }
    }
}

/// Bookkeeping of the volume layer's cluster as seen from one node.
pub struct ClusterManager {
    node_id: u128,
    peers: Vec<ClusterNode>,
    cluster_state: ClusterState,
    bootstrap_peers: Vec<String>,
}

fn current_timestamp() -> (t: u64)
    ensures
        t <= 9223372036854775u64,
{
    let ms = now_millis();
    if ms <= 0 { 0 } else { (ms / 1000) as u64 }
}

proof fn lemma_active_step(p: Seq<ClusterNode>, i: int)
    requires
        0 <= i < p.len(),
    ensures
        active_nodes(p.take(i + 1)) == if p[i].status == NodeStatus::Active {
            active_nodes(p.take(i)).push(p[i])
        } else {
            active_nodes(p.take(i))
        },
{
    assert(p.take(i + 1).drop_last() =~= p.take(i));
    assert(p.take(i + 1).last() == p[i]);
}

proof fn lemma_active_ids(p: Seq<ClusterNode>)
    requires
        distinct_peer_ids(p),
    ensures
        distinct_peer_ids(active_nodes(p)),
        forall|i: int| 0 <= i < active_nodes(p).len() ==> exists|j: int| 0 <= j < p.len() && p[j] == #[trigger] active_nodes(p)[i],
    decreases p.len(),
{
    if p.len() > 0 {
        let d = p.drop_last();
        assert(distinct_peer_ids(d));
        lemma_active_ids(d);
        let a = active_nodes(d);
        assert forall|i: int| 0 <= i < active_nodes(p).len() implies exists|j: int| 0 <= j < p.len() && p[j] == #[trigger] active_nodes(p)[i] by {
            if i < a.len() {
                let j = choose|j: int| 0 <= j < d.len() && d[j] == a[i];
                assert(p[j] == a[i]);
            } else {
                assert(p[p.len() - 1] == active_nodes(p)[i]);
            }
        }
        if p.last().status == NodeStatus::Active {
            assert forall|x: int, y: int| 0 <= x < active_nodes(p).len() && 0 <= y < active_nodes(p).len() && x != y
                implies active_nodes(p)[x].id != active_nodes(p)[y].id by {
                if x < a.len() && y < a.len() {
                } else if x < a.len() {
                    let j = choose|j: int| 0 <= j < d.len() && d[j] == a[x];
                    assert(p[j] == a[x]);
                } else {
                    let j = choose|j: int| 0 <= j < d.len() && d[j] == a[y];
                    assert(p[j] == a[y]);
                }
            }
        }
    }
}

proof fn lemma_pairs_ids_distinct(n: Seq<ClusterNode>)
    requires
        distinct_peer_ids(n),
    ensures
        pair_ids(capacity_pairs(n)).no_duplicates(),
        capacity_pairs(n).no_duplicates(),
{
    let c = capacity_pairs(n);
    assert forall|a: int, b: int| 0 <= a < c.len() && 0 <= b < c.len() && a != b implies pair_ids(c)[a] != pair_ids(c)[b] by {
        assert(pair_ids(c)[a] == n[a].id && pair_ids(c)[b] == n[b].id);
    }
    crate::cluster::lemma_no_dup_of_ids(c);
}

fn active_peers(peers: &Vec<ClusterNode>) -> (r: Vec<(u128, u64)>)
    ensures
        r@ == capacity_pairs(active_nodes(peers@)),
{
    let mut r: Vec<(u128, u64)> = Vec::new();
    let mut i: usize = 0;
    assert(peers@.take(0) =~= Seq::<ClusterNode>::empty());
    while i < peers.len()
        invariant
            i <= peers@.len(),
            r@ == capacity_pairs(active_nodes(peers@.take(i as int))),
        decreases peers.len() - i,
    {
        proof {
            lemma_active_step(peers@, i as int);
        }
        if peers[i].status == NodeStatus::Active {
            r.push((peers[i].id, peers[i].capacity.available_storage_bytes));
            assert(r@ =~= capacity_pairs(active_nodes(peers@.take(i + 1))));
        }
        i += 1;
    }
    assert(peers@.take(peers@.len() as int) =~= peers@);
    r
}

proof fn lemma_absent_zone_empty(s: Seq<(u128, Option<String>)>, z: Seq<char>)
    requires
        !zones_of(s).contains(z),
    ensures
        zone_members(s, z).len() == 0,
    decreases s.len(),
{
    if s.len() > 0 {
        let d = s.drop_last();
        match s.last().1 {
            Some(x) => {
                if zones_of(d).contains(x@) {
                    lemma_absent_zone_empty(d, z);
                } else {
                    assert(zones_of(s) == zones_of(d).push(x@));
                    assert(zones_of(s)[zones_of(d).len() as int] == x@);
                    if zones_of(d).contains(z) {
                        let t = choose|t: int| 0 <= t < zones_of(d).len() && zones_of(d)[t] == z;
                        assert(zones_of(s)[t] == z);
                    }
                    lemma_absent_zone_empty(d, z);
                }
            },
            None => {
                lemma_absent_zone_empty(d, z);
            },
        }
    }
}

proof fn lemma_zones_distinct(s: Seq<(u128, Option<String>)>)
    ensures
        zones_of(s).no_duplicates(),
    decreases s.len(),
{
    if s.len() > 0 {
        lemma_zones_distinct(s.drop_last());
        let d = zones_of(s.drop_last());
        match s.last().1 {
            Some(x) => {
                if !d.contains(x@) {
                    assert forall|a: int, b: int| 0 <= a < d.push(x@).len() && 0 <= b < d.push(x@).len() && a != b
                        implies d.push(x@)[a] != d.push(x@)[b] by {
                        if a < d.len() && b < d.len() {
                        } else if a < d.len() {
                            assert(d.contains(d[a]));
                        } else {
                            assert(d.contains(d[b]));
                        }
                    }
                }
            },
            None => {},
        }
    }
}

/// Groups ids by zone: the zones in order of first appearance and, for
/// each, its ids in order.
fn group_by_zone(az: &Vec<(u128, Option<String>)>) -> (r: (Vec<String>, Vec<Vec<u128>>))
    ensures
        r.0@.len() == r.1@.len(),
        r.0@.map_values(|x: String| x@) == zones_of(az@),
        forall|t: int| 0 <= t < r.1@.len() ==> (#[trigger] r.1@[t])@ == zone_members(az@, r.0@[t]@),
{
    let mut names: Vec<String> = Vec::new();
    let mut members: Vec<Vec<u128>> = Vec::new();
    let mut i: usize = 0;
    assert(az@.take(0) =~= Seq::<(u128, Option<String>)>::empty());
    assert(names@.map_values(|x: String| x@) =~= Seq::<Seq<char>>::empty());
    while i < az.len()
        invariant
            i <= az@.len(),
            names@.len() == members@.len(),
            names@.map_values(|x: String| x@) == zones_of(az@.take(i as int)),
            forall|t: int| 0 <= t < members@.len() ==> (#[trigger] members@[t])@ == zone_members(az@.take(i as int), names@[t]@),
        decreases az.len() - i,
    {
        let ghost pre = az@.take(i as int);
        let ghost post = az@.take(i + 1);
        assert(post.drop_last() =~= pre);
        assert(post.last() == az@[i as int]);
        let ghost nm0 = names@;
        let ghost mb0 = members@;
        match &az[i].1 {
            Some(z) => {
                let mut t: usize = 0;
                let mut found: Option<usize> = None;
                while t < names.len() && found.is_none()
                    invariant
                        t <= names@.len(),
                        names@ == nm0,
                        found matches Some(u) ==> u < names@.len() && names@[u as int]@ == z@,
                        found is None ==> forall|u: int| 0 <= u < t ==> names@[u]@ != z@,
                    decreases names.len() - t + if found is None { 1int } else { 0int },
                {
                    if names[t] == *z {
                        found = Some(t);
                    } else {
                        t += 1;
                    }
                }
                proof {
                    assert(nm0.map_values(|x: String| x@).len() == nm0.len());
                }
                match found {
                    Some(t) => {
                        let mut list = members.remove(t);
                        list.push(az[i].0);
                        members.insert(t, list);
                        proof {
                            assert(zones_of(pre).contains(z@)) by {
                                assert(nm0.map_values(|x: String| x@)[t as int] == z@);
                            }
                            assert(zones_of(post) == zones_of(pre));
                            lemma_zones_distinct(pre);
                            assert forall|u: int| 0 <= u < members@.len() implies (#[trigger] members@[u])@ == zone_members(post, names@[u]@) by {
                                assert(nm0.map_values(|x: String| x@)[u] == nm0[u]@);
                                assert(nm0.map_values(|x: String| x@)[t as int] == nm0[t as int]@);
                                if u != t {
                                    assert(members@[u] == mb0[u]);
                                    assert(names@[u]@ != z@);
                                } else {
                                    assert(members@[u]@ =~= mb0[u]@.push(az@[i as int].0));
                                }
                            }
                        }
                    },
                    None => {
                        names.push(z.clone());
                        let mut list: Vec<u128> = Vec::new();
                        list.push(az[i].0);
                        members.push(list);
                        proof {
                            assert(!zones_of(pre).contains(z@)) by {
                                if zones_of(pre).contains(z@) {
                                    let u = choose|u: int| 0 <= u < zones_of(pre).len() && zones_of(pre)[u] == z@;
                                    assert(nm0.map_values(|x: String| x@)[u] == nm0[u]@);
                                }
                            }
                            lemma_absent_zone_empty(pre, z@);
                            assert(names@.map_values(|x: String| x@) =~= zones_of(post));
                            assert forall|u: int| 0 <= u < members@.len() implies (#[trigger] members@[u])@ == zone_members(post, names@[u]@) by {
                                if u < mb0.len() {
                                    assert(members@[u] == mb0[u]);
                                    assert(names@[u] == nm0[u]);
                                    assert(nm0.map_values(|x: String| x@)[u] == nm0[u]@);
                                    assert(zones_of(pre).contains(nm0[u]@));
                                } else {
                                    assert(list@ =~= zone_members(pre, z@).push(az@[i as int].0));
                                }
                            }
                        }
                    },
                }
            },
            None => {
                proof {
                    assert(zones_of(post) == zones_of(pre));
                }
            },
        }
        i += 1;
    }
    assert(az@.take(az@.len() as int) =~= az@);
    (names, members)
}

impl ClusterManager {
    /// Peer ids are distinct and this node is among the peers.
    pub closed spec fn wf(&self) -> bool {
        distinct_peer_ids(self.peers@)
    }

    pub closed spec fn node_id_view(&self) -> u128 {
        self.node_id
    }

    pub closed spec fn peers_view(&self) -> Seq<ClusterNode> {
        self.peers@
    }

    pub closed spec fn state_view(&self) -> ClusterState {
        self.cluster_state
    }

    /// A single-node cluster led by `node_id`, with a fresh cluster id; the
    /// node's zone and labels are what the caller detected.
    pub fn new(node_id: u128, zone: Option<String>, labels: Labels) -> (m: Self)
        ensures
            m.wf(),
            m.node_id_view() == node_id,
            m.peers_view().len() == 1,
            m.peers_view()[0].id == node_id,
            m.peers_view()[0].address@ == "127.0.0.1:8080"@,
            m.peers_view()[0].zone == zone,
            m.peers_view()[0].labels == labels,
            m.peers_view()[0].status == NodeStatus::Active,
            m.peers_view()[0].last_heartbeat == m.peers_view()[0].join_time,
            m.state_view().leader_id == Some(node_id),
            m.state_view().member_count == 1,
            m.state_view().zones@.len() == 0,
    {
        let now = current_timestamp();
        let mut peers: Vec<ClusterNode> = Vec::new();
        peers.push(ClusterNode {
            id: node_id,
            address: "127.0.0.1:8080".to_owned(),
            zone,
            labels,
            capacity: detect_node_capacity(),
            status: NodeStatus::Active,
            last_heartbeat: now,
            join_time: now,
        });
        let created = current_timestamp();
        ClusterManager {
            node_id,
            peers,
            cluster_state: ClusterState {
                cluster_id: new_uuid(),
                leader_id: Some(node_id),
                member_count: 1,
                zones: Vec::new(),
                created_at: created,
            },
            bootstrap_peers: Vec::new(),
        }
    }

    /// The peers, in order.
    pub fn peers(&self) -> (p: &Vec<ClusterNode>)
        ensures
            p@ == self.peers_view(),
    {
        &self.peers
    }

    /// The nodes that hold a volume's replicas under `policy`: every active
    /// peer to spread; the active peers with the most free storage first
    /// to balance; round-robin over the active peers' zones to be
    /// zone-aware; the first active peers for a custom policy.
    pub fn select_placement_nodes(&self, policy: &PlacementPolicy, replication_factor: u8) -> (r: Result<Vec<u128>, PlacementError>)
        requires
            self.wf(),
            policy is ZoneAware && replication_factor > 0 && active_nodes(self.peers_view()).len() > 0
                ==> zones_of(id_zones(active_nodes(self.peers_view()))).len() > 0,
        ensures
            active_nodes(self.peers_view()).len() == 0 ==> r == Err::<Vec<u128>, PlacementError>(PlacementError::NoActiveNodes),
            active_nodes(self.peers_view()).len() > 0 ==> (r matches Ok(ids)
                && vfs_placement(*policy, active_nodes(self.peers_view()), replication_factor as nat, ids@)),
    {
        let pairs = active_peers(&self.peers);
        let ghost active = active_nodes(self.peers@);
        proof {
            lemma_active_ids(self.peers@);
            lemma_pairs_ids_distinct(active);
        }
        if pairs.len() == 0 {
            return Err(PlacementError::NoActiveNodes);
        }
        let rf = replication_factor as usize;
        let k = if rf <= pairs.len() { rf } else { pairs.len() };
        match policy {
            PlacementPolicy::Spread => {
                let ids = take_ids(&pairs, pairs.len());
                assert(pairs@.take(pairs@.len() as int) =~= pairs@);
                Ok(ids)
            },
            PlacementPolicy::Balanced => {
                let ghost c0 = pairs@;
                let chosen = pick_ranked(pairs, k, true);
                let ids = take_ids(&chosen, k);
                assert(chosen@.take(k as int) =~= chosen@);
                Ok(ids)
            },
            PlacementPolicy::ZoneAware => {
                let az = self.active_zones();
                let (names, members) = group_by_zone(&az);
                let mut selected: Vec<u128> = Vec::new();
                let mut i: usize = 0;
                proof {
                    assert(names@.map_values(|x: String| x@).len() == names@.len());
                }
                while i < rf
                    invariant
                        i <= rf,
                        rf == replication_factor as usize,
                        names@.len() == members@.len(),
                        names@.map_values(|x: String| x@) == zones_of(az@),
                        rf > 0 ==> names@.len() > 0,
                        forall|t: int| 0 <= t < members@.len() ==> (#[trigger] members@[t])@ == zone_members(az@, names@[t]@),
                        selected@ == zone_round_robin(az@, i as nat),
                    decreases rf - i,
                {
                    let zc = names.len();
                    let zi = i % zc;
                    let mi = i / zc;
                    proof {
                        assert(names@.map_values(|x: String| x@)[zi as int] == names@[zi as int]@);
                    }
                    if mi < members[zi].len() {
                        selected.push(members[zi][mi]);
                    }
                    i += 1;
                }
                Ok(selected)
            },
            PlacementPolicy::Custom(_) => {
                let ids = take_ids(&pairs, k);
                Ok(ids)
            },
        }
    }

    /// The active peers' ids and zones, in order.
    fn active_zones(&self) -> (r: Vec<(u128, Option<String>)>)
        ensures
            r@ == id_zones(active_nodes(self.peers_view())),
    {
        let mut r: Vec<(u128, Option<String>)> = Vec::new();
        let mut i: usize = 0;
        assert(self.peers@.take(0) =~= Seq::<ClusterNode>::empty());
        while i < self.peers.len()
            invariant
                i <= self.peers@.len(),
                r@ == id_zones(active_nodes(self.peers@.take(i as int))),
            decreases self.peers.len() - i,
        {
            proof {
                lemma_active_step(self.peers@, i as int);
            }
            if self.peers[i].status == NodeStatus::Active {
                let z = crate::text::clone_opt_string(&self.peers[i].zone);
                r.push((self.peers[i].id, z));
                assert(r@ =~= id_zones(active_nodes(self.peers@.take(i + 1))));
            }
            i += 1;
        }
        assert(self.peers@.take(self.peers@.len() as int) =~= self.peers@);
        r
    }

    /// The nodes a volume's replicas are registered on.
    pub fn register_volume(&self, volume: &VfsVolume) -> (r: Result<Vec<u128>, PlacementError>)
        requires
            self.wf(),
            volume.metadata.placement_policy is ZoneAware && volume.replication_factor > 0
                && active_nodes(self.peers_view()).len() > 0
                ==> zones_of(id_zones(active_nodes(self.peers_view()))).len() > 0,
        ensures
            active_nodes(self.peers_view()).len() == 0 ==> r == Err::<Vec<u128>, PlacementError>(PlacementError::NoActiveNodes),
            active_nodes(self.peers_view()).len() > 0 ==> (r matches Ok(ids) && vfs_placement(volume.metadata.placement_policy,
                active_nodes(self.peers_view()), volume.replication_factor as nat, ids@)),
    {
        self.select_placement_nodes(&volume.metadata.placement_policy, volume.replication_factor)
    }

    /// Drops every peer other than this node not heard from for more than
    /// 180 seconds at `now`, counting each out of the membership.
    pub fn cleanup_unreachable_nodes_at(&mut self, now: u64)
        requires
            old(self).wf(),
        ensures
            final(self).wf(),
            final(self).node_id_view() == old(self).node_id_view(),
            final(self).peers_view() == kept_after_cleanup(old(self).peers_view(), old(self).node_id_view(), now),
            final(self).state_view().member_count == {
                let removed = old(self).peers_view().len() - final(self).peers_view().len();
                if old(self).state_view().member_count >= removed { (old(self).state_view().member_count - removed) as u32 } else { 0u32 }
            },
            final(self).state_view().cluster_id == old(self).state_view().cluster_id,
            final(self).state_view().leader_id == old(self).state_view().leader_id,
    {
        let ghost orig = self.peers@;
        let mut rest: Vec<ClusterNode> = Vec::new();
        std::mem::swap(&mut rest, &mut self.peers);
        let mut i: usize = 0;
        let mut removed: usize = 0;
        let n = rest.len();
        assert(orig.take(0) =~= Seq::<ClusterNode>::empty());
        assert(orig.skip(0) =~= orig);
        while rest.len() > 0
            invariant
                n == orig.len(),
                i + rest@.len() == n,
                rest@ == orig.skip(i as int),
                self.peers@ == kept_after_cleanup(orig.take(i as int), self.node_id, now),
                removed + self.peers@.len() == i,
                self.node_id == old(self).node_id,
                self.cluster_state == old(self).cluster_state,
                orig == old(self).peers@,
            decreases rest.len(),
        {
            let node = rest.remove(0);
            proof {
                assert(node == orig[i as int]);
                assert(orig.take(i + 1).drop_last() =~= orig.take(i as int));
                assert(orig.take(i + 1).last() == orig[i as int]);
                assert(rest@ =~= orig.skip(i + 1));
            }
            if node.id != self.node_id && node.last_heartbeat < now && now - node.last_heartbeat > 180 {
                removed += 1;
            } else {
                self.peers.push(node);
            }
            i += 1;
        }
        assert(orig.take(n as int) =~= orig);
        let mut j: usize = 0;
        while j < removed
            invariant
                j <= removed,
                self.cluster_state.member_count == if old(self).cluster_state.member_count >= j {
                    (old(self).cluster_state.member_count - j) as u32
                } else {
                    0u32
                },
                self.cluster_state.cluster_id == old(self).cluster_state.cluster_id,
                self.cluster_state.leader_id == old(self).cluster_state.leader_id,
                self.node_id == old(self).node_id,
                self.peers@ == kept_after_cleanup(orig, self.node_id, now),
                removed + self.peers@.len() == orig.len(),
                orig == old(self).peers@,
            decreases removed - j,
        {
            self.cluster_state.member_count = self.cluster_state.member_count.saturating_sub(1);
            j += 1;
        }
        proof {
            lemma_kept_distinct(orig, self.node_id, now);
        }
    }

    /// Drops the peers gone silent, at the current time: the outcome is
    /// that of `cleanup_unreachable_nodes_at` at the time the clock gave.
    pub fn cleanup_unreachable_nodes(&mut self) -> (r: Result<(), PlacementError>)
        requires
            old(self).wf(),
            forall|i: int| 0 <= i < old(self).peers_view().len() && old(self).peers_view()[i].id != old(self).node_id_view()
                ==> #[trigger] old(self).peers_view()[i].last_heartbeat <= u64::MAX,
        ensures
            final(self).wf(),
            r is Ok,
            final(self).node_id_view() == old(self).node_id_view(),
            exists|now: u64| #[trigger] kept_after_cleanup(old(self).peers_view(), old(self).node_id_view(), now) == final(self).peers_view(),
            final(self).state_view().member_count == {
                let removed = old(self).peers_view().len() - final(self).peers_view().len();
                if old(self).state_view().member_count >= removed { (old(self).state_view().member_count - removed) as u32 } else { 0u32 }
            },
            final(self).state_view().cluster_id == old(self).state_view().cluster_id,
            final(self).state_view().leader_id == old(self).state_view().leader_id,
    {
        let now = current_timestamp();
        self.cleanup_unreachable_nodes_at(now);
        Ok(())
    }

    /// Every peer's id and zone, in order.
    fn all_zones(&self) -> (r: Vec<(u128, Option<String>)>)
        ensures
            r@ == id_zones(self.peers_view()),
    {
        let mut r: Vec<(u128, Option<String>)> = Vec::new();
        let mut i: usize = 0;
        while i < self.peers.len()
            invariant
                i <= self.peers@.len(),
                r@ == id_zones(self.peers@.take(i as int)),
            decreases self.peers.len() - i,
        {
            let z = crate::text::clone_opt_string(&self.peers[i].zone);
            r.push((self.peers[i].id, z));
            i += 1;
            assert(r@ =~= id_zones(self.peers@.take(i as int)));
        }
        assert(self.peers@.take(self.peers@.len() as int) =~= self.peers@);
        r
    }

    /// A summary of the cluster: its id, whether this node leads, how many
    /// peers there are and how many are active, the zones of the peers
    /// (each once), and the active peers' total and free storage.
    pub fn get_status(&self) -> (st: ClusterStatus)
        requires
            self.wf(),
            total_storage(active_nodes(self.peers_view())) <= u64::MAX,
            available_storage(active_nodes(self.peers_view())) <= u64::MAX,
        ensures
            st.cluster_id == self.state_view().cluster_id,
            st.node_id == self.node_id_view(),
            st.is_leader == (self.state_view().leader_id == Some(self.node_id_view())),
            st.total_nodes == self.peers_view().len() as u32,
            st.active_nodes == active_nodes(self.peers_view()).len() as u32,
            strings_view(st.zones@) == zones_of(id_zones(self.peers_view())),
            st.total_capacity_bytes == total_storage(active_nodes(self.peers_view())),
            st.available_capacity_bytes == available_storage(active_nodes(self.peers_view())),
    {
        let mut active: usize = 0;
        let mut total: u64 = 0;
        let mut avail: u64 = 0;
        let mut i: usize = 0;
        assert(self.peers@.take(0) =~= Seq::<ClusterNode>::empty());
        while i < self.peers.len()
            invariant
                i <= self.peers@.len(),
                active == active_nodes(self.peers@.take(i as int)).len(),
                total == total_storage(active_nodes(self.peers@.take(i as int))),
                avail == available_storage(active_nodes(self.peers@.take(i as int))),
                total_storage(active_nodes(self.peers@)) <= u64::MAX,
                available_storage(active_nodes(self.peers@)) <= u64::MAX,
            decreases self.peers.len() - i,
        {
            proof {
                lemma_active_step(self.peers@, i as int);
                lemma_sums_grow(self.peers@, i as int + 1);
                lemma_sum_push(active_nodes(self.peers@.take(i as int)), self.peers@[i as int]);
                lemma_sum_push(self.peers@.take(i as int), self.peers@[i as int]);
                assert(self.peers@.take(i as int).len() == i);
            }
            if self.peers[i].status == NodeStatus::Active {
                active += 1;
                total = total + self.peers[i].capacity.total_storage_bytes;
                avail = avail + self.peers[i].capacity.available_storage_bytes;
            }
            i += 1;
        }
        assert(self.peers@.take(self.peers@.len() as int) =~= self.peers@);
        let az = self.all_zones();
        let (names, _members) = group_by_zone(&az);
        proof {
            assert(strings_view(names@) =~= names@.map_values(|x: String| x@));
        }
        ClusterStatus {
            cluster_id: self.cluster_state.cluster_id,
            node_id: self.node_id,
            is_leader: self.cluster_state.leader_id == Some(self.node_id),
            total_nodes: self.peers.len() as u32,
            active_nodes: active as u32,
            zones: names,
            total_capacity_bytes: total,
            available_capacity_bytes: avail,
        }
    }

    /// The number of peers, as a 32-bit count.
    pub fn get_cluster_size(&self) -> (n: u32)
        ensures
            n == self.peers_view().len() as u32,
    {
        self.peers.len() as u32
    }
}

proof fn lemma_sums_grow(p: Seq<ClusterNode>, i: int)
    requires
        0 <= i <= p.len(),
    ensures
        total_storage(active_nodes(p.take(i))) <= total_storage(active_nodes(p)),
        available_storage(active_nodes(p.take(i))) <= available_storage(active_nodes(p)),
    decreases p.len() - i,
{
    if i < p.len() {
        lemma_sums_grow(p, i + 1);
        lemma_active_step(p, i);
        lemma_sum_push(active_nodes(p.take(i)), p[i]);
    } else {
        assert(p.take(i) =~= p);
    }
}

proof fn lemma_sum_push(s: Seq<ClusterNode>, x: ClusterNode)
    ensures
        total_storage(s.push(x)) == total_storage(s) + x.capacity.total_storage_bytes,
        available_storage(s.push(x)) == available_storage(s) + x.capacity.available_storage_bytes,
        active_nodes(s).len() <= s.len(),
    decreases s.len(),
{
    assert(s.push(x).drop_last() =~= s);
    if s.len() > 0 {
        lemma_sum_push(s.drop_last(), s.last());
    }
}

proof fn lemma_kept_subseq(p: Seq<ClusterNode>, self_id: u128, now: u64)
    ensures
        forall|i: int| 0 <= i < kept_after_cleanup(p, self_id, now).len() ==>
            exists|j: int| 0 <= j < p.len() && p[j] == #[trigger] kept_after_cleanup(p, self_id, now)[i],
    decreases p.len(),
{
    if p.len() > 0 {
        let d = p.drop_last();
        lemma_kept_subseq(d, self_id, now);
        let k = kept_after_cleanup(d, self_id, now);
        assert forall|i: int| 0 <= i < kept_after_cleanup(p, self_id, now).len() implies
            exists|j: int| 0 <= j < p.len() && p[j] == #[trigger] kept_after_cleanup(p, self_id, now)[i] by {
            if i < k.len() {
                let j = choose|j: int| 0 <= j < d.len() && d[j] == k[i];
                assert(p[j] == k[i]);
            } else {
                assert(p[p.len() - 1] == kept_after_cleanup(p, self_id, now)[i]);
            }
        }
    }
}

proof fn lemma_kept_distinct(p: Seq<ClusterNode>, self_id: u128, now: u64)
    requires
        distinct_peer_ids(p),
    ensures
        distinct_peer_ids(kept_after_cleanup(p, self_id, now)),
    decreases p.len(),
{
    if p.len() > 0 {
        let d = p.drop_last();
        assert(distinct_peer_ids(d));
        lemma_kept_distinct(d, self_id, now);
        lemma_kept_subseq(d, self_id, now);
        let k = kept_after_cleanup(d, self_id, now);
        let kp = kept_after_cleanup(p, self_id, now);
        assert forall|a: int, b: int| 0 <= a < kp.len() && 0 <= b < kp.len() && a != b implies kp[a].id != kp[b].id by {
            if a < k.len() && b < k.len() {
            } else if a < k.len() {
                let j = choose|j: int| 0 <= j < d.len() && d[j] == k[a];
                assert(p[j] == k[a]);
            } else {
                let j = choose|j: int| 0 <= j < d.len() && d[j] == k[b];
                assert(p[j] == k[b]);
            }
        }
    }
}


/// A spread placement puts a replica on every active peer, in order,
/// whatever the replication factor.
pub proof fn spread_places_on_every_active_peer(active: Seq<ClusterNode>, k: nat, ids: Seq<u128>)
    requires
        vfs_placement(PlacementPolicy::Spread, active, k, ids),
    ensures
        ids.len() == active.len(),
        forall|i: int| 0 <= i < active.len() ==> #[trigger] ids[i] == active[i].id,
{
}


/// A custom placement takes the first active peers, as many as the
/// replication factor asks (all of them when there are fewer); a balanced
/// one takes as many active peers, most free storage first: no active peer
/// left out has more free storage than one taken.
pub proof fn custom_and_balanced_placements(active: Seq<ClusterNode>, k: nat, ids: Seq<u128>, labels: Labels)
    requires
        distinct_peer_ids(active),
    ensures
        vfs_placement(PlacementPolicy::Custom(labels), active, k, ids) ==> {
            &&& ids.len() == if k <= active.len() { k } else { active.len() }
            &&& forall|i: int| 0 <= i < ids.len() ==> #[trigger] ids[i] == active[i].id
        },
        vfs_placement(PlacementPolicy::Balanced, active, k, ids) ==> {
            &&& ids.len() == if k <= active.len() { k } else { active.len() }
            &&& forall|i: int| 0 <= i < ids.len() ==> crate::cluster::pair_ids(capacity_pairs(active)).contains(#[trigger] ids[i])
            &&& forall|j: int, m: int| 0 <= j < active.len() && 0 <= m < active.len()
                && ids.contains(#[trigger] active[j].id) && !ids.contains(#[trigger] active[m].id)
                ==> active[m].capacity.available_storage_bytes <= active[j].capacity.available_storage_bytes
        },
{
    let n = if k <= active.len() { k } else { active.len() };
    if vfs_placement(PlacementPolicy::Custom(labels), active, k, ids) {
        assert forall|i: int| 0 <= i < ids.len() implies #[trigger] ids[i] == active[i].id by {
            assert(capacity_pairs(active).take(n as int)[i] == capacity_pairs(active)[i]);
        }
    }
    if vfs_placement(PlacementPolicy::Balanced, active, k, ids) {
        let cands = capacity_pairs(active);
        let chosen = choose|chosen: Seq<(u128, u64)>|
            crate::cluster::ranked_first(cands, n, chosen, true) && ids == crate::cluster::pair_ids(chosen);
        assert forall|i: int| 0 <= i < ids.len() implies crate::cluster::pair_ids(cands).contains(#[trigger] ids[i]) by {
            assert(cands.contains(chosen[i]));
            let j = choose|j: int| 0 <= j < cands.len() && cands[j] == chosen[i];
            assert(ids[i] == chosen[i].0);
            assert(crate::cluster::pair_ids(cands)[j] == ids[i]);
        }
        assert forall|j: int, m: int| 0 <= j < active.len() && 0 <= m < active.len()
            && ids.contains(#[trigger] active[j].id) && !ids.contains(#[trigger] active[m].id)
            implies active[m].capacity.available_storage_bytes <= active[j].capacity.available_storage_bytes by {
            let t = choose|t: int| 0 <= t < ids.len() && ids[t] == active[j].id;
            assert(ids[t] == chosen[t].0);
            assert(cands.contains(chosen[t]));
            let x = choose|x: int| 0 <= x < cands.len() && cands[x] == chosen[t];
            assert(cands[x].0 == active[x].id);
            assert(x == j);
            let p = cands[m];
            assert(cands.contains(p));
            if chosen.contains(p) {
                let u = choose|u: int| 0 <= u < chosen.len() && chosen[u] == p;
                assert(ids[u] == p.0);
                assert(ids.contains(active[m].id));
            }
            assert(crate::cluster::ranks_before(chosen[t].1, p.1, true));
        }
    }
}

} // verus!
