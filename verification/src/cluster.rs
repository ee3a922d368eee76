//! Cluster membership: the nodes of a cluster, its leader, node health and
//! the choice of nodes that hold a volume's replicas.
use vstd::prelude::*;
use crate::Labels;
use crate::external::{new_uuid, now_millis};
use crate::labels::strings_view;
use crate::text::{append_chars, append_str, clone_strings, decimal, decimal_chars, string_of, uuid_chars, uuid_text};

verus! {

/// Status of a node in the cluster.
#[derive(Clone, Copy, Debug, PartialEq, Eq, Structural)]
pub enum NodeStatus {
    Active,
    Unavailable,
    Leaving,
    Removed,
}

/// Role of a node in the cluster.
#[derive(Clone, Copy, Debug, PartialEq, Eq, Structural)]
pub enum NodeRole {
    Manager,
    Worker,
}

/// Resources a node offers.
#[derive(Debug)]
pub struct NodeCapabilities {
    pub available_storage: u64,
    pub total_storage: u64,
    pub available_memory: u64,
    pub cpu_cores: u32,
    pub supported_storage_classes: Vec<String>,
    pub network_bandwidth: u64,
}

/// A member of the cluster.  Times are milliseconds since the Unix epoch.
#[derive(Debug)]
pub struct ClusterNode {
    pub id: u128,
    pub address: String,
    pub status: NodeStatus,
    pub role: NodeRole,
    pub joined_at: i64,
    pub last_heartbeat: i64,
    pub capabilities: NodeCapabilities,
}

/// A placement rule of a custom strategy.
#[derive(Debug)]
pub struct PlacementRule {
    pub name: String,
    pub node_selector: Labels,
    pub weight: i32,
}

/// How replicas are spread over nodes.
#[derive(Debug)]
pub enum PlacementStrategy {
    Spread,
    Affinity,
    Balanced,
    Custom(Vec<PlacementRule>),
}

/// Cluster settings.
#[derive(Debug)]
pub struct ClusterConfig {
    pub default_replication_factor: u32,
    pub heartbeat_interval: u64,
    pub node_timeout: u64,
    pub min_managers: u32,
    pub auto_promote: bool,
    pub placement_strategy: PlacementStrategy,
}

/// The settings a cluster starts with.
pub open spec fn default_config(c: ClusterConfig) -> bool {
    &&& c.default_replication_factor == 3
    &&& c.heartbeat_interval == 30
    &&& c.node_timeout == 90
    &&& c.min_managers == 1
    &&& c.auto_promote
    &&& c.placement_strategy is Spread
}

impl Default for ClusterConfig {
    fn default() -> (c: Self)
        ensures
            default_config(c),
    {
        ClusterConfig {
            default_replication_factor: 3,
            heartbeat_interval: 30,
            node_timeout: 90,
            min_managers: 1,
            auto_promote: true,
            placement_strategy: PlacementStrategy::Spread,
        }
    }
}

/// Membership of a cluster.  Node ids are distinct.
#[derive(Debug)]
pub struct ClusterState {
    pub cluster_id: u128,
    pub name: String,
    pub nodes: Vec<ClusterNode>,
    pub leader: Option<u128>,
    pub config: ClusterConfig,
    pub created_at: i64,
    pub updated_at: i64,
}

/// Errors of cluster operations.
#[derive(Clone, Copy, Debug, PartialEq, Eq, Structural)]
pub enum ClusterError {
    /// The node is not part of any cluster.
    NotInCluster,
    /// Fewer suitable nodes than replicas.
    InsufficientNodes { replication_factor: u32, available: usize },
}

/// The message of an error.
pub open spec fn cluster_error_text(e: ClusterError) -> Seq<char> {
    match e {
        ClusterError::NotInCluster => "Node is not part of any cluster"@,
        ClusterError::InsufficientNodes { replication_factor, available } =>
            "Insufficient nodes available for replication factor "@ + decimal(replication_factor as nat)
                + ". Need "@ + decimal(replication_factor as nat) + ", have "@ + decimal(available as nat),
    }
}

impl ClusterError {
    /// The message of the error.
    pub fn message(&self) -> (s: String)
        ensures
            s@ == cluster_error_text(*self),
    {
        match self {
            ClusterError::NotInCluster => {
                let s = "Node is not part of any cluster".to_owned();
                s
            },
            ClusterError::InsufficientNodes { replication_factor, available } => {
                let mut s = "Insufficient nodes available for replication factor ".to_owned();
                let rf = decimal_chars(*replication_factor as u128);
                append_chars(&mut s, rf.as_slice());
                append_str(&mut s, ". Need ");
                append_chars(&mut s, rf.as_slice());
                append_str(&mut s, ", have ");
                let n = decimal_chars(*available as u128);
                append_chars(&mut s, n.as_slice());
                s
            },
        }
    }
}

/// Ids of a list of nodes.
pub open spec fn node_ids(nodes: Seq<ClusterNode>) -> Seq<u128> {
    nodes.map_values(|n: ClusterNode| n.id)
}

/// No two nodes share an id.
pub open spec fn distinct_node_ids(nodes: Seq<ClusterNode>) -> bool {
    forall|i: int, j: int| 0 <= i < nodes.len() && 0 <= j < nodes.len() && i != j ==> nodes[i].id != nodes[j].id
}

/// Index of the node with id `id`, or -1.
pub open spec fn node_index(nodes: Seq<ClusterNode>, id: u128) -> int {
    if exists|i: int| 0 <= i < nodes.len() && nodes[i].id == id {
        choose|i: int| 0 <= i < nodes.len() && nodes[i].id == id
    } else {
        -1
    }
}

/// The nodes without the one with id `id`.
pub open spec fn without_node(nodes: Seq<ClusterNode>, id: u128) -> Seq<ClusterNode> {
    let i = node_index(nodes, id);
    if i >= 0 { nodes.remove(i) } else { nodes }
}

/// A node can hold a replica of a volume of `size` bytes in `class`.
pub open spec fn is_suitable(n: ClusterNode, class: Seq<char>, size: u64) -> bool {
    &&& n.status == NodeStatus::Active
    &&& strings_view(n.capabilities.supported_storage_classes@).contains(class)
    &&& n.capabilities.available_storage >= size
}

/// The suitable nodes, in order, each as its id and available storage.
pub open spec fn candidates(nodes: Seq<ClusterNode>, class: Seq<char>, size: u64) -> Seq<(u128, u64)>
    decreases nodes.len(),
{
    if nodes.len() == 0 {
        Seq::empty()
    } else {
        let init = candidates(nodes.drop_last(), class, size);
        if is_suitable(nodes.last(), class, size) {
            init.push((nodes.last().id, nodes.last().capabilities.available_storage))
        } else {
            init
        }
    }
}

/// Ids of a list of (id, storage) pairs.
pub open spec fn pair_ids(s: Seq<(u128, u64)>) -> Seq<u128> {
    s.map_values(|p: (u128, u64)| p.0)
}

/// `a` ranks before `b`: it is at least as large when the largest go
/// first, at most as large when the smallest go first.
pub open spec fn ranks_before(a: u64, b: u64, largest: bool) -> bool {
    if largest { a >= b } else { a <= b }
}

/// `chosen` is `k` of the candidates, those that rank first by their second
/// component (largest or smallest first), in rank order.
pub open spec fn ranked_first(cands: Seq<(u128, u64)>, k: nat, chosen: Seq<(u128, u64)>, largest: bool) -> bool {
    &&& chosen.len() == k
    &&& chosen.no_duplicates()
    &&& forall|i: int| 0 <= i < k ==> cands.contains(#[trigger] chosen[i])
    &&& forall|i: int, j: int| 0 <= i < j < k ==> ranks_before(chosen[i].1, chosen[j].1, largest)
    &&& forall|p: (u128, u64), i: int| #![trigger cands.contains(p), chosen[i]]
        cands.contains(p) && !chosen.contains(p) && 0 <= i < k ==> ranks_before(chosen[i].1, p.1, largest)
}

/// `chosen` is `k` of the candidates with the most available storage,
/// largest first.
pub open spec fn largest_first(cands: Seq<(u128, u64)>, k: nat, chosen: Seq<(u128, u64)>) -> bool {
    ranked_first(cands, k, chosen, true)
}

/// The nodes a strategy places `k` replicas on, given the candidates in order.
pub open spec fn placement_of(strategy: PlacementStrategy, cands: Seq<(u128, u64)>, k: nat, ids: Seq<u128>) -> bool {
    match strategy {
        PlacementStrategy::Balanced => exists|chosen: Seq<(u128, u64)>|
            largest_first(cands, k, chosen) && ids == pair_ids(chosen),
        _ => ids == pair_ids(cands.take(k as int)),
    }
}

/// A placement of `k` replicas over at least `k` candidates names `k`
/// nodes, each of them a candidate's; a balanced placement names them by
/// most available storage first, none left out having more than one
/// chosen.
pub proof fn placement_names_candidates(strategy: PlacementStrategy, cands: Seq<(u128, u64)>, k: nat, ids: Seq<u128>)
    requires
        k <= cands.len(),
        placement_of(strategy, cands, k, ids),
    ensures
        ids.len() == k,
        forall|i: int| 0 <= i < k ==> pair_ids(cands).contains(#[trigger] ids[i]),
        strategy == PlacementStrategy::Balanced ==> exists|chosen: Seq<(u128, u64)>| #![trigger pair_ids(chosen)] {
            &&& ids == pair_ids(chosen)
            &&& forall|i: int, j: int| 0 <= i < j < k ==> #[trigger] chosen[i].1 >= #[trigger] chosen[j].1
            &&& forall|p: (u128, u64), i: int| #![trigger cands.contains(p), chosen[i]]
                cands.contains(p) && !chosen.contains(p) && 0 <= i < k ==> chosen[i].1 >= p.1
        },
{
    match strategy {
        PlacementStrategy::Balanced => {
            let chosen = choose|chosen: Seq<(u128, u64)>| largest_first(cands, k, chosen) && ids == pair_ids(chosen);
            assert forall|i: int| 0 <= i < k implies pair_ids(cands).contains(#[trigger] ids[i]) by {
                assert(cands.contains(chosen[i]));
                let j = choose|j: int| 0 <= j < cands.len() && cands[j] == chosen[i];
                assert(ids[i] == chosen[i].0);
                assert(pair_ids(cands)[j] == ids[i]);
            }
            assert forall|i: int, j: int| 0 <= i < j < k implies #[trigger] chosen[i].1 >= #[trigger] chosen[j].1 by {
                assert(ranks_before(chosen[i].1, chosen[j].1, true));
            }
            assert forall|p: (u128, u64), i: int| #![trigger cands.contains(p), chosen[i]]
                cands.contains(p) && !chosen.contains(p) && 0 <= i < k implies chosen[i].1 >= p.1 by {
                assert(ranks_before(chosen[i].1, p.1, true));
            }
            assert(ids == pair_ids(chosen));
            assert(ids.len() == k);
        },
        _ => {
            assert forall|i: int| 0 <= i < k implies pair_ids(cands).contains(#[trigger] ids[i]) by {
                assert(cands.take(k as int)[i] == cands[i]);
                assert(ids[i] == cands.take(k as int)[i].0);
                assert(pair_ids(cands)[i] == ids[i]);
            }
        },
    }
}

/// The first manager other than `local`, in order.
pub open spec fn first_other_manager(nodes: Seq<ClusterNode>, local: u128) -> Option<u128>
    decreases nodes.len(),
{
    if nodes.len() == 0 {
        None
    } else if nodes[0].role == NodeRole::Manager && nodes[0].id != local {
        Some(nodes[0].id)
    } else {
        first_other_manager(nodes.drop_first(), local)
    }
}

/// Two capability records hold the same values.
pub open spec fn same_capabilities(a: NodeCapabilities, b: NodeCapabilities) -> bool {
    &&& a.available_storage == b.available_storage
    &&& a.total_storage == b.total_storage
    &&& a.available_memory == b.available_memory
    &&& a.cpu_cores == b.cpu_cores
    &&& a.supported_storage_classes@ == b.supported_storage_classes@
    &&& a.network_bandwidth == b.network_bandwidth
}

/// Two nodes hold the same values.
pub open spec fn same_node(a: ClusterNode, b: ClusterNode) -> bool {
    &&& a.id == b.id
    &&& a.address == b.address
    &&& a.status == b.status
    &&& a.role == b.role
    &&& a.joined_at == b.joined_at
    &&& a.last_heartbeat == b.last_heartbeat
    &&& same_capabilities(a.capabilities, b.capabilities)
}

/// A copy of a capability record.
pub fn copy_capabilities(c: &NodeCapabilities) -> (r: NodeCapabilities)
    ensures
        same_capabilities(r, *c),
{
    NodeCapabilities {
        available_storage: c.available_storage,
        total_storage: c.total_storage,
        available_memory: c.available_memory,
        cpu_cores: c.cpu_cores,
        supported_storage_classes: clone_strings(&c.supported_storage_classes),
        network_bandwidth: c.network_bandwidth,
    }
}

/// A copy of a node.
pub fn copy_node(n: &ClusterNode) -> (r: ClusterNode)
    ensures
        same_node(r, *n),
{
    ClusterNode {
        id: n.id,
        address: n.address.clone(),
        status: n.status,
        role: n.role,
        joined_at: n.joined_at,
        last_heartbeat: n.last_heartbeat,
        capabilities: copy_capabilities(&n.capabilities),
    }
}

/// The capabilities a node reports by default; `cpu_cores` is the machine's
/// parallelism where it is known.
pub fn get_default_node_capabilities(cpu_cores: Option<u32>) -> (c: NodeCapabilities)
    ensures
        c.available_storage == 10_737_418_240,
        c.total_storage == 107_374_182_400,
        c.available_memory == 4_294_967_296,
        c.cpu_cores == match cpu_cores { Some(n) => n, None => 4 },
        strings_view(c.supported_storage_classes@) == seq!["fast-local-ssd"@, "encrypted-storage"@],
        c.network_bandwidth == 1_000_000_000,
{
    default_capabilities(
        10_737_418_240,
        107_374_182_400,
        4_294_967_296,
        match cpu_cores { Some(n) => n, None => 4 },
        1_000_000_000,
    )
}

fn default_capabilities(available: u64, total: u64, memory: u64, cores: u32, bandwidth: u64) -> (c: NodeCapabilities)
    ensures
        c.available_storage == available,
        c.total_storage == total,
        c.available_memory == memory,
        c.cpu_cores == cores,
        strings_view(c.supported_storage_classes@) == seq!["fast-local-ssd"@, "encrypted-storage"@],
        c.network_bandwidth == bandwidth,
{
    let mut classes: Vec<String> = Vec::new();
    classes.push("fast-local-ssd".to_owned());
    classes.push("encrypted-storage".to_owned());
    assert(strings_view(classes@) =~= seq!["fast-local-ssd"@, "encrypted-storage"@]);
    NodeCapabilities {
        available_storage: available,
        total_storage: total,
        available_memory: memory,
        cpu_cores: cores,
        supported_storage_classes: classes,
        network_bandwidth: bandwidth,
    }
}

/// Membership manager of this node.
pub struct ClusterManager {
    state: Option<ClusterState>,
    local_node: ClusterNode,
    config: ClusterConfig,
}

/// A node after a health check at `now`: an active node other than `local`
/// whose last heartbeat is more than `timeout_ms` old becomes unavailable.
pub open spec fn node_after_check(n: ClusterNode, local: u128, now: i64, timeout_ms: int) -> ClusterNode {
    if n.id != local && now - n.last_heartbeat > timeout_ms && n.status == NodeStatus::Active {
        ClusterNode { status: NodeStatus::Unavailable, ..n }
    } else {
        n
    }
}

/// A health check at `now` turns `before` into `after`.
pub open spec fn health_step(before: Option<ClusterState>, local: u128, timeout_ms: int, now: i64, after: Option<ClusterState>) -> bool {
    match before {
        None => after is None,
        Some(st) => after matches Some(st2) && {
            &&& st2.nodes@.len() == st.nodes@.len()
            &&& forall|i: int| 0 <= i < st.nodes@.len() ==>
                #[trigger] st2.nodes@[i] == node_after_check(st.nodes@[i], local, now, timeout_ms)
            &&& st2.updated_at == if exists|i: int| 0 <= i < st.nodes@.len()
                && #[trigger] node_after_check(st.nodes@[i], local, now, timeout_ms) != st.nodes@[i] {
                now
            } else {
                st.updated_at
            }
            &&& st2.cluster_id == st.cluster_id
            &&& st2.name == st.name
            &&& st2.leader == st.leader
            &&& st2.config == st.config
            &&& st2.created_at == st.created_at
        },
    }
}

/// The leader after this node leaves.
pub open spec fn leader_after_leave(st: ClusterState, local: u128, force: bool) -> Option<u128> {
    if !force && st.leader == Some(local) {
        match first_other_manager(st.nodes@, local) {
            Some(m) => Some(m),
            None => st.leader,
        }
    } else {
        st.leader
    }
}

/// Leaving turns `before` into `after`.
pub open spec fn leave_step(st: ClusterState, local: u128, force: bool, after: Option<ClusterState>) -> bool {
    let rest = without_node(st.nodes@, local);
    if rest.len() == 0 {
        after is None
    } else {
        after matches Some(st2) && {
            &&& st2.nodes@ == rest
            &&& st2.leader == leader_after_leave(st, local, force)
            &&& st2.cluster_id == st.cluster_id
            &&& st2.name == st.name
            &&& st2.config == st.config
            &&& st2.created_at == st.created_at
            &&& st2.updated_at == st.updated_at
        }
    }
}

fn find_node(nodes: &Vec<ClusterNode>, id: u128) -> (r: Option<usize>)
    ensures
        match r {
            Some(i) => i < nodes@.len() && nodes@[i as int].id == id,
            None => forall|i: int| 0 <= i < nodes@.len() ==> nodes@[i].id != id,
        },
{
    let mut i: usize = 0;
    while i < nodes.len()
        invariant
            i <= nodes@.len(),
            forall|t: int| 0 <= t < i ==> nodes@[t].id != id,
        decreases nodes.len() - i,
    {
        if nodes[i].id == id {
            return Some(i);
        }
        i += 1;
    }
    None
}

proof fn lemma_node_index(nodes: Seq<ClusterNode>, id: u128, i: int)
    requires
        distinct_node_ids(nodes),
        0 <= i < nodes.len(),
        nodes[i].id == id,
    ensures
        node_index(nodes, id) == i,
{
}

proof fn lemma_candidates_ids(nodes: Seq<ClusterNode>, class: Seq<char>, size: u64)
    requires
        distinct_node_ids(nodes),
    ensures
        pair_ids(candidates(nodes, class, size)).no_duplicates(),
        forall|i: int| 0 <= i < candidates(nodes, class, size).len() ==>
            node_ids(nodes).contains(#[trigger] candidates(nodes, class, size)[i].0),
        forall|p: (u128, u64), q: (u128, u64)| candidates(nodes, class, size).contains(p)
            && candidates(nodes, class, size).contains(q) && p.0 == q.0 ==> p == q,
    decreases nodes.len(),
{
    let c = candidates(nodes, class, size);
    if nodes.len() > 0 {
        let d = nodes.drop_last();
        let init = candidates(d, class, size);
        assert(distinct_node_ids(d));
        lemma_candidates_ids(d, class, size);
        assert forall|i: int| 0 <= i < c.len() implies node_ids(nodes).contains(#[trigger] c[i].0) by {
            if i < init.len() {
                let j = choose|j: int| 0 <= j < node_ids(d).len() && node_ids(d)[j] == init[i].0;
                assert(node_ids(nodes)[j] == init[i].0);
            } else {
                assert(node_ids(nodes)[nodes.len() - 1] == c[i].0);
            }
        }
        if is_suitable(nodes.last(), class, size) {
            let last = (nodes.last().id, nodes.last().capabilities.available_storage);
            assert(c == init.push(last));
            assert forall|i: int| 0 <= i < init.len() implies #[trigger] init[i].0 != last.0 by {
                let j = choose|j: int| 0 <= j < node_ids(d).len() && node_ids(d)[j] == init[i].0;
                assert(nodes[j].id == init[i].0);
            }
            assert(pair_ids(c) =~= pair_ids(init).push(last.0));
            assert forall|a: int, b: int| 0 <= a < pair_ids(c).len() && 0 <= b < pair_ids(c).len() && a != b
                implies pair_ids(c)[a] != pair_ids(c)[b] by {
                if a < init.len() && b < init.len() {
                    assert(pair_ids(init)[a] != pair_ids(init)[b]);
                }
            }
            assert forall|p: (u128, u64), q: (u128, u64)| c.contains(p) && c.contains(q) && p.0 == q.0 implies p == q by {
                let a = choose|a: int| 0 <= a < c.len() && c[a] == p;
                let b = choose|b: int| 0 <= b < c.len() && c[b] == q;
                if a < init.len() && b < init.len() {
                    assert(init.contains(p) && init.contains(q));
                } else if a < init.len() {
                    assert(init[a].0 != last.0);
                } else if b < init.len() {
                    assert(init[b].0 != last.0);
                }
            }
        }
    }
}

fn collect_candidates(nodes: &Vec<ClusterNode>, class: &str, size: u64) -> (r: Vec<(u128, u64)>)
    ensures
        r@ == candidates(nodes@, class@, size),
{
    let mut r: Vec<(u128, u64)> = Vec::new();
    let mut i: usize = 0;
    let cls = class.to_owned();
    assert(nodes@.take(0) =~= Seq::<ClusterNode>::empty());
    while i < nodes.len()
        invariant
            i <= nodes@.len(),
            cls@ == class@,
            r@ == candidates(nodes@.take(i as int), class@, size),
        decreases nodes.len() - i,
    {
        let n = &nodes[i];
        assert(nodes@.take(i + 1).drop_last() =~= nodes@.take(i as int));
        assert(nodes@.take(i + 1).last() == nodes@[i as int]);
        let has_class = crate::labels::contains_string(&n.capabilities.supported_storage_classes, &cls);
        if n.status == NodeStatus::Active && has_class && n.capabilities.available_storage >= size {
            r.push((n.id, n.capabilities.available_storage));
        }
        i += 1;
    }
    assert(nodes@.take(nodes@.len() as int) =~= nodes@);
    r
}

pub(crate) fn take_ids(c: &Vec<(u128, u64)>, k: usize) -> (r: Vec<u128>)
    requires
        k <= c@.len(),
    ensures
        r@ == pair_ids(c@.take(k as int)),
{
    let mut r: Vec<u128> = Vec::new();
    let mut i: usize = 0;
    while i < k
        invariant
            i <= k,
            k <= c@.len(),
            r@ == pair_ids(c@.take(i as int)),
        decreases k - i,
    {
        r.push(c[i].0);
        i += 1;
        assert(r@ =~= pair_ids(c@.take(i as int)));
    }
    r
}

fn index_of_extreme(rest: &Vec<(u128, u64)>, largest: bool) -> (m: usize)
    requires
        rest@.len() > 0,
    ensures
        m < rest@.len(),
        forall|t: int| 0 <= t < rest@.len() ==> ranks_before(rest@[m as int].1, rest@[t].1, largest),
{
    let mut m: usize = 0;
    let mut j: usize = 1;
    while j < rest.len()
        invariant
            m < j <= rest@.len(),
            forall|t: int| 0 <= t < j ==> ranks_before(rest@[m as int].1, rest@[t].1, largest),
        decreases rest.len() - j,
    {
        if (largest && rest[j].1 > rest[m].1) || (!largest && rest[j].1 < rest[m].1) {
            m = j;
        }
        j += 1;
    }
    m
}

proof fn lemma_remove_contains(s: Seq<(u128, u64)>, m: int, p: (u128, u64))
    requires
        s.no_duplicates(),
        0 <= m < s.len(),
    ensures
        s.remove(m).contains(p) <==> (s.contains(p) && p != s[m]),
        s.remove(m).no_duplicates(),
{
    let r = s.remove(m);
    if r.contains(p) {
        let i = choose|i: int| 0 <= i < r.len() && r[i] == p;
        if i < m {
            assert(s[i] == p);
        } else {
            assert(s[i + 1] == p);
        }
    }
    if s.contains(p) && p != s[m] {
        let i = choose|i: int| 0 <= i < s.len() && s[i] == p;
        if i < m {
            assert(r[i] == p);
        } else {
            assert(r[i - 1] == p);
        }
    }
    assert forall|a: int, b: int| 0 <= a < r.len() && 0 <= b < r.len() && a != b implies r[a] != r[b] by {
        let sa = if a < m { a } else { a + 1 };
        let sb = if b < m { b } else { b + 1 };
        assert(r[a] == s[sa] && r[b] == s[sb]);
    }
}

/// The `k` candidates that rank first, largest or smallest second
/// component first; of equal ones, the earlier.
pub fn pick_ranked(cands: Vec<(u128, u64)>, k: usize, largest: bool) -> (r: Vec<(u128, u64)>)
    requires
        k <= cands@.len(),
        cands@.no_duplicates(),
    ensures
        ranked_first(cands@, k as nat, r@, largest),
{
    let ghost c = cands@;
    let mut rest = cands;
    let mut r: Vec<(u128, u64)> = Vec::new();
    while r.len() < k
        invariant
            r@.len() <= k,
            k <= c.len(),
            rest@.len() + r@.len() == c.len(),
            r@.no_duplicates(),
            rest@.no_duplicates(),
            forall|p: (u128, u64)| c.contains(p) <==> (r@.contains(p) || rest@.contains(p)),
            forall|p: (u128, u64)| !(r@.contains(p) && rest@.contains(p)),
            forall|i: int| 0 <= i < r@.len() ==> c.contains(#[trigger] r@[i]),
            forall|i: int, j: int| 0 <= i < j < r@.len() ==> ranks_before(r@[i].1, r@[j].1, largest),
            forall|q: (u128, u64), i: int| #![trigger rest@.contains(q), r@[i]]
                rest@.contains(q) && 0 <= i < r@.len() ==> ranks_before(r@[i].1, q.1, largest),
        decreases k - r@.len(),
    {
        let ghost r0 = r@;
        let ghost rest0 = rest@;
        let m = index_of_extreme(&rest, largest);
        let p = rest.remove(m);
        proof {
            assert(rest@ == rest0.remove(m as int));
            assert forall|q: (u128, u64)| true implies (rest@.contains(q) <==> (rest0.contains(q) && q != p)) by {
                lemma_remove_contains(rest0, m as int, q);
            }
            lemma_remove_contains(rest0, m as int, p);
            assert(rest0.contains(p));
            assert(!r0.contains(p));
        }
        r.push(p);
        proof {
            assert(r@ == r0.push(p));
            assert forall|q: (u128, u64)| true implies (r@.contains(q) <==> (r0.contains(q) || q == p)) by {
                vstd::seq_lib::lemma_seq_contains_after_push(r0, p, q);
            }
            assert forall|a: int, b: int| 0 <= a < r@.len() && 0 <= b < r@.len() && a != b implies r@[a] != r@[b] by {
                if a < r0.len() && b < r0.len() {
                    assert(r0[a] != r0[b]);
                } else if a < r0.len() {
                    assert(r0.contains(r0[a]));
                } else if b < r0.len() {
                    assert(r0.contains(r0[b]));
                }
            }
            assert forall|q: (u128, u64), i: int| #![trigger rest@.contains(q), r@[i]]
                rest@.contains(q) && 0 <= i < r@.len() implies ranks_before(r@[i].1, q.1, largest) by {
                assert(rest0.contains(q));
                if i == r0.len() {
                    let t = choose|t: int| 0 <= t < rest0.len() && rest0[t] == q;
                    assert(ranks_before(rest0[m as int].1, rest0[t].1, largest));
                } else {
                    assert(r@[i] == r0[i]);
                }
            }
            assert forall|i: int, j: int| 0 <= i < j < r@.len() implies ranks_before(r@[i].1, r@[j].1, largest) by {
                if j == r0.len() {
                    assert(rest0.contains(p));
                    assert(r@[i] == r0[i]);
                } else {
                    assert(r@[i] == r0[i] && r@[j] == r0[j]);
                }
            }
            assert forall|i: int| 0 <= i < r@.len() implies c.contains(#[trigger] r@[i]) by {
                if i < r0.len() {
                    assert(r@[i] == r0[i]);
                }
            }
        }
    }
    proof {
        assert forall|q: (u128, u64), i: int| #![trigger c.contains(q), r@[i]]
            c.contains(q) && !r@.contains(q) && 0 <= i < k implies ranks_before(r@[i].1, q.1, largest) by {
            assert(rest@.contains(q));
        }
    }
    r
}

pub(crate) proof fn lemma_pair_ids_no_dup(c: Seq<(u128, u64)>, chosen: Seq<(u128, u64)>)
    requires
        pair_ids(c).no_duplicates(),
        chosen.no_duplicates(),
        forall|i: int| 0 <= i < chosen.len() ==> c.contains(#[trigger] chosen[i]),
    ensures
        pair_ids(chosen).no_duplicates(),
{
    assert forall|a: int, b: int| 0 <= a < chosen.len() && 0 <= b < chosen.len() && a != b
        implies pair_ids(chosen)[a] != pair_ids(chosen)[b] by {
        assert(c.contains(chosen[a]) && c.contains(chosen[b]));
        let x = choose|x: int| 0 <= x < c.len() && c[x] == chosen[a];
        let y = choose|y: int| 0 <= y < c.len() && c[y] == chosen[b];
        if x != y {
            assert(pair_ids(c)[x] != pair_ids(c)[y]);
        }
    }
}

pub(crate) proof fn lemma_no_dup_of_ids(c: Seq<(u128, u64)>)
    requires
        pair_ids(c).no_duplicates(),
    ensures
        c.no_duplicates(),
{
    assert forall|a: int, b: int| 0 <= a < c.len() && 0 <= b < c.len() && a != b implies c[a] != c[b] by {
        assert(pair_ids(c)[a] != pair_ids(c)[b]);
    }
}

fn placeholder_peer(id: u128, address: String, now: i64) -> (n: ClusterNode)
    ensures
        n.id == id,
        n.address == address,
        n.status == NodeStatus::Active,
        n.role == NodeRole::Manager,
        n.joined_at == now,
        n.last_heartbeat == now,
        n.capabilities.available_storage == 1_073_741_824,
        n.capabilities.total_storage == 10_737_418_240,
        n.capabilities.available_memory == 1_073_741_824,
        n.capabilities.cpu_cores == 4,
        strings_view(n.capabilities.supported_storage_classes@) == seq!["fast-local-ssd"@, "encrypted-storage"@],
        n.capabilities.network_bandwidth == 1_000_000_000,
{
    ClusterNode {
        id,
        address,
        status: NodeStatus::Active,
        role: NodeRole::Manager,
        joined_at: now,
        last_heartbeat: now,
        capabilities: default_capabilities(1_073_741_824, 10_737_418_240, 1_073_741_824, 4, 1_000_000_000),
    }
}

impl ClusterManager {
    /// The manager's invariant: it keeps the default settings, and the
    /// cluster's node ids are distinct.
    pub closed spec fn wf(&self) -> bool {
        &&& default_config(self.config)
        &&& match self.state {
            Some(st) => distinct_node_ids(st.nodes@),
            None => true,
        }
    }

    /// The cluster this node belongs to, if any.
    pub closed spec fn cluster(&self) -> Option<ClusterState> {
        self.state
    }

    /// This node.
    pub closed spec fn local(&self) -> ClusterNode {
        self.local_node
    }

    /// The settings new clusters start with.
    pub closed spec fn settings(&self) -> ClusterConfig {
        self.config
    }

    /// A manager for a node at `node_address` that belongs to no cluster
    /// yet.  The node gets a fresh id and starts as an active manager.
    pub fn new(node_address: String, capabilities: NodeCapabilities) -> (m: Self)
        ensures
            m.wf(),
            m.cluster() is None,
            m.local().address == node_address,
            m.local().status == NodeStatus::Active,
            m.local().role == NodeRole::Manager,
            m.local().capabilities == capabilities,
            default_config(m.settings()),
    {
        let id = new_uuid();
        let joined = now_millis();
        let heartbeat = now_millis();
        ClusterManager {
            state: None,
            local_node: ClusterNode {
                id,
                address: node_address,
                status: NodeStatus::Active,
                role: NodeRole::Manager,
                joined_at: joined,
                last_heartbeat: heartbeat,
                capabilities,
            },
            config: ClusterConfig::default(),
        }
    }

    /// Starts a new cluster named `cluster_name` with this node as its only
    /// member and leader.
    pub fn initialize_cluster(&mut self, cluster_name: String) -> (r: Result<(), ClusterError>)
        requires
            old(self).wf(),
        ensures
            final(self).wf(),
            r is Ok,
            final(self).local() == old(self).local(),
            final(self).settings() == old(self).settings(),
            final(self).cluster() matches Some(st) && {
                &&& st.name == cluster_name
                &&& st.nodes@.len() == 1
                &&& same_node(st.nodes@[0], old(self).local())
                &&& st.leader == Some(old(self).local().id)
                &&& default_config(st.config)
                &&& st.created_at == st.updated_at
            },
    {
        let cluster_id = new_uuid();
        let now = now_millis();
        let mut nodes: Vec<ClusterNode> = Vec::new();
        nodes.push(copy_node(&self.local_node));
        self.state = Some(ClusterState {
            cluster_id,
            name: cluster_name,
            nodes,
            leader: Some(self.local_node.id),
            config: ClusterConfig::default(),
            created_at: now,
            updated_at: now,
        });
        Ok(())
    }

    /// Joins a cluster through the peer at `peer_address`.  The peer is
    /// recorded with placeholder capabilities and this node leads the new
    /// cluster, whose name is `cluster-` and the first eight characters of
    /// its id.
    pub fn join_cluster(&mut self, peer_address: String) -> (r: Result<(), ClusterError>)
        requires
            old(self).wf(),
        ensures
            final(self).wf(),
            r is Ok,
            final(self).local() == old(self).local(),
            final(self).settings() == old(self).settings(),
            final(self).cluster() matches Some(st) && {
                &&& st.name@ == "cluster-"@ + uuid_text(st.cluster_id).take(8)
                &&& st.leader == Some(old(self).local().id)
                &&& default_config(st.config)
                &&& st.created_at == st.updated_at
                &&& st.nodes@.len() >= 1
                &&& st.nodes@.last().address == peer_address
                &&& st.nodes@.last().status == NodeStatus::Active
                &&& st.nodes@.last().role == NodeRole::Manager
                &&& st.nodes@.last().capabilities.available_storage == 1_073_741_824
                &&& st.nodes@.last().capabilities.total_storage == 10_737_418_240
                &&& strings_view(st.nodes@.last().capabilities.supported_storage_classes@)
                    == seq!["fast-local-ssd"@, "encrypted-storage"@]
                &&& (st.nodes@.len() == 2 && same_node(st.nodes@[0], old(self).local())
                    && st.nodes@[1].id != old(self).local().id
                    || st.nodes@.len() == 1 && st.nodes@[0].id == old(self).local().id)
            },
    {
        let cluster_id = new_uuid();
        let now = now_millis();
        let peer_id = new_uuid();
        let peer = placeholder_peer(peer_id, peer_address, now);
        let mut nodes: Vec<ClusterNode> = Vec::new();
        if peer_id != self.local_node.id {
            nodes.push(copy_node(&self.local_node));
        }
        nodes.push(peer);
        let idc = uuid_chars(cluster_id);
        proof {
            crate::text::lemma_uuid_text_len(cluster_id);
        }
        let mut name = "cluster-".to_owned();
        append_chars(&mut name, crate::units::slice_prefix(idc.as_slice(), 8));
        self.state = Some(ClusterState {
            cluster_id,
            name,
            nodes,
            leader: Some(self.local_node.id),
            config: ClusterConfig::default(),
            created_at: now,
            updated_at: now,
        });
        Ok(())
    }

    /// Leaves the cluster.  Unless forced, a leaving leader hands leadership
    /// to the first other manager; the node is then removed, and a cluster
    /// left with no node is dissolved.
    pub fn leave_cluster(&mut self, force: bool) -> (r: Result<(), ClusterError>)
        requires
            old(self).wf(),
        ensures
            final(self).wf(),
            final(self).local() == old(self).local(),
            final(self).settings() == old(self).settings(),
            match old(self).cluster() {
                None => r == Err::<(), ClusterError>(ClusterError::NotInCluster) && final(self).cluster() is None,
                Some(st) => r is Ok && leave_step(st, old(self).local().id, force, final(self).cluster()),
            },
    {
        let local = self.local_node.id;
        let mut st = match self.state.take() {
            Some(st) => st,
            None => return Err(ClusterError::NotInCluster),
        };
        let ghost st0 = st;
        if !force && st.leader == Some(local) {
            let mut i: usize = 0;
            let mut found: Option<u128> = None;
            assert(st.nodes@.subrange(0, st.nodes@.len() as int) =~= st.nodes@);
            while i < st.nodes.len()
                invariant
                    i <= st.nodes@.len(),
                    st == st0,
                    first_other_manager(st.nodes@, local) == match found {
                        Some(m) => Some(m),
                        None => first_other_manager(st.nodes@.subrange(i as int, st.nodes@.len() as int), local),
                    },
                decreases st.nodes.len() - i,
            {
                if found.is_none() {
                    let ghost rest = st.nodes@.subrange(i as int, st.nodes@.len() as int);
                    assert(rest.drop_first() =~= st.nodes@.subrange(i + 1, st.nodes@.len() as int));
                    assert(rest[0] == st.nodes@[i as int]);
                    if st.nodes[i].role == NodeRole::Manager && st.nodes[i].id != local {
                        found = Some(st.nodes[i].id);
                    }
                }
                i += 1;
            }
            proof {
                if found is None {
                    assert(st.nodes@.subrange(i as int, st.nodes@.len() as int).len() == 0);
                }
            }
            if let Some(m) = found {
                st.leader = Some(m);
            }
        }
        let ghost nodes0 = st.nodes@;
        match find_node(&st.nodes, local) {
            Some(i) => {
                proof {
                    lemma_node_index(nodes0, local, i as int);
                }
                st.nodes.remove(i);
                proof {
                    assert(distinct_node_ids(st.nodes@)) by {
                        assert forall|a: int, b: int| 0 <= a < st.nodes@.len() && 0 <= b < st.nodes@.len() && a != b
                            implies st.nodes@[a].id != st.nodes@[b].id by {
                            let sa = if a < i { a } else { a + 1 };
                            let sb = if b < i { b } else { b + 1 };
                            assert(st.nodes@[a] == nodes0[sa] && st.nodes@[b] == nodes0[sb]);
                        }
                    }
                }
            },
            None => {},
        }
        if st.nodes.len() == 0 {
            self.state = None;
        } else {
            self.state = Some(st);
        }
        Ok(())
    }

    /// The cluster this node belongs to, if any.
    pub fn get_cluster_status(&self) -> (r: Option<&ClusterState>)
        ensures
            match r {
                Some(st) => self.cluster() == Some(*st),
                None => self.cluster() is None,
            },
    {
        match &self.state {
            Some(st) => Some(st),
            None => None,
        }
    }

    /// This node.
    pub fn get_local_node(&self) -> (n: &ClusterNode)
        ensures
            *n == self.local(),
    {
        &self.local_node
    }

    /// Records new capabilities for this node, in the cluster's record of
    /// it too, where the heartbeat and update times are refreshed.
    pub fn update_capabilities(&mut self, capabilities: NodeCapabilities) -> (r: Result<(), ClusterError>)
        requires
            old(self).wf(),
        ensures
            final(self).wf(),
            r is Ok,
            final(self).settings() == old(self).settings(),
            final(self).local() == (ClusterNode { capabilities: final(self).local().capabilities, ..old(self).local() }),
            same_capabilities(final(self).local().capabilities, capabilities),
            match old(self).cluster() {
                None => final(self).cluster() is None,
                Some(st) => final(self).cluster() matches Some(st2) && {
                    let i = node_index(st.nodes@, old(self).local().id);
                    &&& st2.nodes@.len() == st.nodes@.len()
                    &&& forall|j: int| 0 <= j < st.nodes@.len() && j != i ==> #[trigger] st2.nodes@[j] == st.nodes@[j]
                    &&& i >= 0 ==> st2.nodes@[i] == (ClusterNode {
                        capabilities: capabilities,
                        last_heartbeat: st2.nodes@[i].last_heartbeat,
                        ..st.nodes@[i]
                    })
                    &&& i < 0 ==> st2.updated_at == st.updated_at
                    &&& st2.cluster_id == st.cluster_id
                    &&& st2.name == st.name
                    &&& st2.leader == st.leader
                    &&& st2.config == st.config
                    &&& st2.created_at == st.created_at
                },
            },
    {
        self.local_node.capabilities = copy_capabilities(&capabilities);
        let local = self.local_node.id;
        let mut st = match self.state.take() {
            Some(st) => st,
            None => return Ok(()),
        };
        let ghost nodes0 = st.nodes@;
        match find_node(&st.nodes, local) {
            Some(i) => {
                proof {
                    lemma_node_index(nodes0, local, i as int);
                }
                let mut n = st.nodes.remove(i);
                n.capabilities = capabilities;
                n.last_heartbeat = now_millis();
                st.nodes.insert(i, n);
                st.updated_at = now_millis();
                proof {
                    assert(st.nodes@ =~= nodes0.update(i as int, n));
                }
            },
            None => {
                proof {
                    assert(node_index(nodes0, local) == -1);
                }
            },
        }
        self.state = Some(st);
        Ok(())
    }

    /// Refreshes this node's heartbeat time, in the cluster's record of it
    /// too.
    pub fn send_heartbeat(&mut self) -> (r: Result<(), ClusterError>)
        requires
            old(self).wf(),
        ensures
            final(self).wf(),
            r is Ok,
            final(self).settings() == old(self).settings(),
            final(self).local() == (ClusterNode { last_heartbeat: final(self).local().last_heartbeat, ..old(self).local() }),
            match old(self).cluster() {
                None => final(self).cluster() is None,
                Some(st) => final(self).cluster() matches Some(st2) && {
                    let i = node_index(st.nodes@, old(self).local().id);
                    &&& st2.nodes@.len() == st.nodes@.len()
                    &&& forall|j: int| 0 <= j < st.nodes@.len() && j != i ==> #[trigger] st2.nodes@[j] == st.nodes@[j]
                    &&& i >= 0 ==> st2.nodes@[i] == (ClusterNode {
                        last_heartbeat: final(self).local().last_heartbeat,
                        ..st.nodes@[i]
                    })
                    &&& st2.cluster_id == st.cluster_id
                    &&& st2.name == st.name
                    &&& st2.leader == st.leader
                    &&& st2.config == st.config
                    &&& st2.created_at == st.created_at
                },
            },
    {
        self.local_node.last_heartbeat = now_millis();
        let local = self.local_node.id;
        let beat = self.local_node.last_heartbeat;
        let mut st = match self.state.take() {
            Some(st) => st,
            None => return Ok(()),
        };
        let ghost nodes0 = st.nodes@;
        match find_node(&st.nodes, local) {
            Some(i) => {
                proof {
                    lemma_node_index(nodes0, local, i as int);
                }
                let mut n = st.nodes.remove(i);
                n.last_heartbeat = beat;
                st.nodes.insert(i, n);
                proof {
                    assert(st.nodes@ =~= nodes0.update(i as int, n));
                }
            },
            None => {
                proof {
                    assert(node_index(nodes0, local) == -1);
                }
            },
        }
        st.updated_at = now_millis();
        self.state = Some(st);
        Ok(())
    }

    /// Marks as unavailable every active node, other than this one, whose
    /// last heartbeat is older than the node timeout at `now`.
    pub fn check_node_health_at(&mut self, now: i64)
        requires
            old(self).wf(),
        ensures
            final(self).wf(),
            final(self).local() == old(self).local(),
            final(self).settings() == old(self).settings(),
            health_step(old(self).cluster(), old(self).local().id, old(self).settings().node_timeout * 1000, now,
                final(self).cluster()),
    {
        let local = self.local_node.id;
        let timeout_ms: i128 = self.config.node_timeout as i128 * 1000;
        let ghost ts = self.config.node_timeout as int;
        let mut st = match self.state.take() {
            Some(st) => st,
            None => return,
        };
        let ghost st0 = st;
        let mut updated = false;
        let mut i: usize = 0;
        while i < st.nodes.len()
            invariant
                i <= st.nodes@.len(),
                st.nodes@.len() == st0.nodes@.len(),
                timeout_ms == ts * 1000,
                forall|j: int| 0 <= j < i ==> #[trigger] st.nodes@[j] == node_after_check(st0.nodes@[j], local, now, timeout_ms as int),
                forall|j: int| i <= j < st.nodes@.len() ==> #[trigger] st.nodes@[j] == st0.nodes@[j],
                updated == exists|j: int| 0 <= j < i && #[trigger] node_after_check(st0.nodes@[j], local, now, timeout_ms as int) != st0.nodes@[j],
                st == (ClusterState { nodes: st.nodes, ..st0 }),
            decreases st.nodes.len() - i,
        {
            let ghost before = st.nodes@;
            let hb = st.nodes[i].last_heartbeat;
            if st.nodes[i].id != local && (now as i128 - hb as i128) > timeout_ms && st.nodes[i].status == NodeStatus::Active {
                let mut n = st.nodes.remove(i);
                n.status = NodeStatus::Unavailable;
                st.nodes.insert(i, n);
                updated = true;
                proof {
                    assert(st.nodes@ =~= before.update(i as int, n));
                    assert(node_after_check(st0.nodes@[i as int], local, now, timeout_ms as int) != st0.nodes@[i as int]);
                }
            }
            i += 1;
        }
        if updated {
            st.updated_at = now;
        }
        proof {
            assert(distinct_node_ids(st.nodes@)) by {
                assert forall|a: int, b: int| 0 <= a < st.nodes@.len() && 0 <= b < st.nodes@.len() && a != b
                    implies st.nodes@[a].id != st.nodes@[b].id by {
                    assert(st.nodes@[a].id == st0.nodes@[a].id);
                    assert(st.nodes@[b].id == st0.nodes@[b].id);
                }
            }
        }
        self.state = Some(st);
    }

    /// Marks as unavailable every active node, other than this one, whose
    /// last heartbeat is older than the node timeout, at the current time.
    pub fn check_node_health(&mut self) -> (r: Result<(), ClusterError>)
        requires
            old(self).wf(),
        ensures
            final(self).wf(),
            r is Ok,
            final(self).local() == old(self).local(),
            final(self).settings() == old(self).settings(),
            exists|now: i64| #[trigger] health_step(old(self).cluster(), old(self).local().id,
                old(self).settings().node_timeout * 1000, now, final(self).cluster()),
    {
        let now = now_millis();
        self.check_node_health_at(now);
        Ok(())
    }

    /// The nodes that hold the `replication_factor` replicas of a volume of
    /// `volume_size` bytes in `storage_class`: active nodes that offer the
    /// class and have the space, chosen by the cluster's strategy.
    pub fn find_volume_placement(&self, replication_factor: u32, storage_class: &str, volume_size: u64)
        -> (r: Result<Vec<u128>, ClusterError>)
        requires
            self.wf(),
        ensures
            match self.cluster() {
                None => r == Err::<Vec<u128>, ClusterError>(ClusterError::NotInCluster),
                Some(st) => {
                    let c = candidates(st.nodes@, storage_class@, volume_size);
                    if c.len() < replication_factor {
                        r == Err::<Vec<u128>, ClusterError>(ClusterError::InsufficientNodes {
                            replication_factor,
                            available: c.len() as usize,
                        })
                    } else {
                        r matches Ok(ids) && ids@.no_duplicates()
                            && placement_of(st.config.placement_strategy, c, replication_factor as nat, ids@)
                    }
                },
            },
    {
        let st = match &self.state {
            Some(st) => st,
            None => return Err(ClusterError::NotInCluster),
        };
        let c = collect_candidates(&st.nodes, storage_class, volume_size);
        proof {
            lemma_candidates_ids(st.nodes@, storage_class@, volume_size);
        }
        let k = replication_factor as usize;
        if c.len() < k {
            return Err(ClusterError::InsufficientNodes { replication_factor, available: c.len() });
        }
        match &st.config.placement_strategy {
            PlacementStrategy::Balanced => {
                proof {
                    lemma_no_dup_of_ids(c@);
                }
                let ghost c0 = c@;
                let chosen = pick_ranked(c, k, true);
                let ids = take_ids(&chosen, k);
                proof {
                    assert(chosen@.take(k as int) =~= chosen@);
                    lemma_pair_ids_no_dup(c0, chosen@);
                }
                Ok(ids)
            },
            _ => {
                let ids = take_ids(&c, k);
                proof {
                    assert(pair_ids(c@.take(k as int)) =~= pair_ids(c@).take(k as int));
                }
                Ok(ids)
            },
        }
    }

    /// Starts the background work of cluster management; none is scheduled
    /// yet, so nothing changes.
    pub fn start_background_tasks(&mut self) -> (r: Result<(), ClusterError>)
        ensures
            r is Ok,
            *final(self) == *old(self),
    {
        Ok(())
    }
}

/// After this node leaves, it is no member of the cluster, and every other
/// member stays.
pub proof fn leave_removes_only_this_node(st: ClusterState, local: u128, force: bool, after: Option<ClusterState>)
    requires
        distinct_node_ids(st.nodes@),
        leave_step(st, local, force, after),
    ensures
        match after {
            Some(st2) => !node_ids(st2.nodes@).contains(local)
                && forall|n: ClusterNode| st.nodes@.contains(n) && n.id != local ==> #[trigger] st2.nodes@.contains(n),
            None => forall|i: int| 0 <= i < st.nodes@.len() ==> st.nodes@[i].id == local,
        },
{
    let nodes = st.nodes@;
    let i = node_index(nodes, local);
    let rest = without_node(nodes, local);
    assert forall|n: ClusterNode| nodes.contains(n) && n.id != local implies rest.contains(n) by {
        let j = choose|j: int| 0 <= j < nodes.len() && nodes[j] == n;
        if i >= 0 {
            if j < i {
                assert(rest[j] == n);
            } else {
                assert(j != i);
                assert(rest[j - 1] == n);
            }
        }
    }
    if i >= 0 {
        assert forall|t: int| 0 <= t < rest.len() implies rest[t].id != local by {
            let s = if t < i { t } else { t + 1 };
            assert(rest[t] == nodes[s]);
        }
    }
    match after {
        Some(st2) => {
            if node_ids(st2.nodes@).contains(local) {
                let t = choose|t: int| 0 <= t < node_ids(rest).len() && node_ids(rest)[t] == local;
                assert(rest[t].id == local);
            }
        },
        None => {
            assert forall|t: int| 0 <= t < nodes.len() implies nodes[t].id == local by {
                if nodes[t].id != local {
                    assert(nodes.contains(nodes[t]));
                    assert(rest.contains(nodes[t]));
                }
            }
        },
    }
}

/// A graceful leave of the leader hands leadership to another manager that
/// stays in the cluster, where one exists.
pub proof fn graceful_leave_hands_over_leadership(st: ClusterState, local: u128, after: Option<ClusterState>)
    requires
        distinct_node_ids(st.nodes@),
        st.leader == Some(local),
        first_other_manager(st.nodes@, local) is Some,
        leave_step(st, local, false, after),
    ensures
        after matches Some(st2) && st2.leader matches Some(m) && m != local && exists|i: int|
            0 <= i < st2.nodes@.len() && #[trigger] st2.nodes@[i].id == m && st2.nodes@[i].role == NodeRole::Manager,
{
    let nodes = st.nodes@;
    let m = first_other_manager(nodes, local)->0;
    let j = lemma_first_other_manager(nodes, local);
    let i = node_index(nodes, local);
    let rest = without_node(nodes, local);
    assert(nodes[j].id != local);
    if i >= 0 {
        assert(j != i);
        let t = if j < i { j } else { j - 1 };
        assert(rest[t] == nodes[j]);
        assert(rest.len() > 0);
    } else {
        assert(rest[j] == nodes[j]);
    }
    match after {
        Some(st2) => {
            if i >= 0 {
                let t = if j < i { j } else { j - 1 };
                assert(st2.nodes@[t].id == m);
            } else {
                assert(st2.nodes@[j].id == m);
            }
        },
        None => {},
    }
}

proof fn lemma_first_other_manager(nodes: Seq<ClusterNode>, local: u128) -> (j: int)
    requires
        first_other_manager(nodes, local) is Some,
    ensures
        0 <= j < nodes.len(),
        nodes[j].id == first_other_manager(nodes, local)->0,
        nodes[j].role == NodeRole::Manager,
        nodes[j].id != local,
    decreases nodes.len(),
{
    if nodes[0].role == NodeRole::Manager && nodes[0].id != local {
        0
    } else {
        let j = lemma_first_other_manager(nodes.drop_first(), local);
        j + 1
    }
}

} // verus!
