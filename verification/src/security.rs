//! Access control over volumes, the audit log of access decisions, the
//! encryption settings of volumes, and the keys that encrypt them.
use vstd::prelude::*;
use std::collections::HashMap;
use crate::{EncryptionConfig, KeyManagementType, LabelSelector, Labels, VolumeAccessPolicy};
use crate::external::{new_uuid, now_millis, random_bytes};
use crate::labels::{contains_string, label_lookup, labels_view, matches_selector, selector_matches, strings_view};
use crate::text::{append_str, clone_pairs, str_eq};

verus! {

/// Outcome of an audited action.
#[derive(Clone, Copy, Debug, PartialEq, Eq, Structural)]
pub enum AuditResult {
    Success,
    Failure,
    Denied,
}

/// One entry of the audit log.  `timestamp` is in milliseconds since the
/// Unix epoch.
#[derive(Debug)]
pub struct AuditLogEntry {
    pub id: u128,
    pub timestamp: i64,
    pub user: String,
    pub action: String,
    pub resource: String,
    pub result: AuditResult,
    pub details: Labels,
}

/// A key that encrypts a volume.  Times are in milliseconds since the Unix
/// epoch.
#[derive(Debug)]
pub struct EncryptionKey {
    pub id: u128,
    pub volume_id: u128,
    pub algorithm: String,
    pub key_data: Vec<u8>,
    pub created_at: i64,
    pub last_rotated: i64,
}

/// Which audit entries to list; an absent field does not filter.  Times
/// are in milliseconds since the Unix epoch and bound inclusively.
#[derive(Debug)]
pub struct AuditLogFilter {
    pub user: Option<String>,
    pub action: Option<String>,
    pub result: Option<AuditResult>,
    pub start_time: Option<i64>,
    pub end_time: Option<i64>,
}

/// Whether a policy lets `user`, a member of `groups`, do `op` on a volume
/// labelled `labels`: its selector picks the volume, it lists the
/// operation, and it lists the user or one of the groups.
pub open spec fn policy_grants(
    p: VolumeAccessPolicy,
    user: Seq<char>,
    groups: Seq<Seq<char>>,
    labels: Seq<(Seq<char>, Seq<char>)>,
    op: Seq<char>,
) -> bool {
    &&& selector_matches(labels_view(p.volume_selector.match_labels@), labels)
    &&& strings_view(p.operations@).contains(op)
    &&& (strings_view(p.allowed_users@).contains(user) || exists|g: int| 0 <= g < groups.len()
        && strings_view(p.allowed_groups@).contains(#[trigger] groups[g]))
}

/// Whether some policy grants the access.
pub open spec fn access_granted(
    ps: Seq<VolumeAccessPolicy>,
    user: Seq<char>,
    groups: Seq<Seq<char>>,
    labels: Seq<(Seq<char>, Seq<char>)>,
    op: Seq<char>,
) -> bool {
    exists|i: int| 0 <= i < ps.len() && policy_grants(#[trigger] ps[i], user, groups, labels, op)
}

/// Whether an audit entry passes a filter.
pub open spec fn audit_filter_matches(e: AuditLogEntry, f: AuditLogFilter) -> bool {
    &&& (f.user matches Some(u) ==> e.user@ == u@)
    &&& (f.action matches Some(a) ==> e.action@ == a@)
    &&& (f.result matches Some(r) ==> e.result == r)
    &&& (f.start_time matches Some(t) ==> e.timestamp >= t)
    &&& (f.end_time matches Some(t) ==> e.timestamp <= t)
}

/// Two audit entries that hold the same values.
pub open spec fn same_entry(a: AuditLogEntry, b: AuditLogEntry) -> bool {
    &&& a.id == b.id
    &&& a.timestamp == b.timestamp
    &&& a.user@ == b.user@
    &&& a.action@ == b.action@
    &&& a.resource@ == b.resource@
    &&& a.result == b.result
    &&& labels_view(a.details@) == labels_view(b.details@)
}

/// The entries that pass a filter, in order.
pub open spec fn filtered(log: Seq<AuditLogEntry>, f: AuditLogFilter) -> Seq<AuditLogEntry>
    decreases log.len(),
{
    if log.len() == 0 {
        Seq::empty()
    } else if audit_filter_matches(log.last(), f) {
        filtered(log.drop_last(), f).push(log.last())
    } else {
        filtered(log.drop_last(), f)
    }
}

/// Two lists of audit entries that hold the same values.
pub open spec fn same_entries(a: Seq<AuditLogEntry>, b: Seq<AuditLogEntry>) -> bool {
    a.len() == b.len() && forall|i: int| 0 <= i < a.len() ==> same_entry(#[trigger] a[i], b[i])
}

fn copy_entry(e: &AuditLogEntry) -> (r: AuditLogEntry)
    ensures
        same_entry(r, *e),
{
    AuditLogEntry {
        id: e.id,
        timestamp: e.timestamp,
        user: e.user.clone(),
        action: e.action.clone(),
        resource: e.resource.clone(),
        result: e.result,
        details: clone_pairs(&e.details),
    }
}

/// Two encryption settings that hold the same values.
pub open spec fn same_encryption(a: EncryptionConfig, b: EncryptionConfig) -> bool {
    &&& a.enabled == b.enabled
    &&& a.algorithm@ == b.algorithm@
    &&& a.key_management == b.key_management
    &&& a.key_rotation_days == b.key_rotation_days
}

fn copy_encryption(c: &EncryptionConfig) -> (r: EncryptionConfig)
    ensures
        same_encryption(r, *c),
{
    EncryptionConfig {
        enabled: c.enabled,
        algorithm: c.algorithm.clone(),
        key_management: c.key_management,
        key_rotation_days: c.key_rotation_days,
    }
}

/// Index of the policy named `name`, or -1.
pub open spec fn policy_index(ps: Seq<VolumeAccessPolicy>, name: Seq<char>) -> int {
    if exists|i: int| 0 <= i < ps.len() && ps[i].name@ == name {
        choose|i: int| 0 <= i < ps.len() && ps[i].name@ == name
    } else {
        -1
    }
}

/// The policy named `name`, if any.
pub open spec fn policy_named(ps: Seq<VolumeAccessPolicy>, name: Seq<char>) -> Option<VolumeAccessPolicy> {
    let i = policy_index(ps, name);
    if i >= 0 { Some(ps[i]) } else { None }
}

/// No two policies share a name.
pub open spec fn distinct_policy_names(ps: Seq<VolumeAccessPolicy>) -> bool {
    forall|i: int, j: int| 0 <= i < ps.len() && 0 <= j < ps.len() && i != j ==> ps[i].name@ != ps[j].name@
}

proof fn lemma_policy_index(ps: Seq<VolumeAccessPolicy>, name: Seq<char>, i: int)
    requires
        distinct_policy_names(ps),
        0 <= i < ps.len(),
        ps[i].name@ == name,
    ensures
        policy_index(ps, name) == i,
{
}

/// Access policies, encryption settings and the audit log.
#[derive(Debug)]
pub struct SecurityManager {
    access_policies: Vec<VolumeAccessPolicy>,
    encryption_configs: HashMap<u128, EncryptionConfig>,
    audit_log: Vec<AuditLogEntry>,
}

impl SecurityManager {
    /// Policy names are distinct.
    pub open spec fn wf(&self) -> bool {
        distinct_policy_names(self.policies_view())
    }

    /// The access policies.
    pub closed spec fn policies_view(&self) -> Seq<VolumeAccessPolicy> {
        self.access_policies@
    }

    /// The encryption settings by volume.
    pub closed spec fn encryption_view(&self) -> Map<u128, EncryptionConfig> {
        self.encryption_configs@
    }

    /// The audit log, oldest first.
    pub closed spec fn audit_view(&self) -> Seq<AuditLogEntry> {
        self.audit_log@
    }

    /// A manager with no policies, settings or log entries.
    pub fn new() -> (m: Self)
        ensures
            m.wf(),
            m.policies_view().len() == 0,
            m.encryption_view().dom().len() == 0,
            m.audit_view().len() == 0,
    {
        let m = SecurityManager { access_policies: Vec::new(), encryption_configs: HashMap::new(), audit_log: Vec::new() };
        assert(m.encryption_configs@.dom() =~= Set::<u128>::empty());
        m
    }

    fn find_policy(&self, name: &str) -> (r: Option<usize>)
        requires
            self.wf(),
        ensures
            match r {
                Some(i) => i < self.policies_view().len() && policy_index(self.policies_view(), name@) == i,
                None => policy_index(self.policies_view(), name@) == -1,
            },
    {
        let mut i: usize = 0;
        while i < self.access_policies.len()
            invariant
                i <= self.access_policies@.len(),
                self.wf(),
                forall|t: int| 0 <= t < i ==> self.access_policies@[t].name@ != name@,
            decreases self.access_policies.len() - i,
        {
            if str_eq(&self.access_policies[i].name, name) {
                proof {
                    lemma_policy_index(self.access_policies@, name@, i as int);
                }
                return Some(i);
            }
            i += 1;
        }
        None
    }

    /// Adds a policy; one with the same name is replaced.
    pub fn add_access_policy(&mut self, policy: VolumeAccessPolicy)
        requires
            old(self).wf(),
        ensures
            final(self).wf(),
            policy_named(final(self).policies_view(), policy.name@) == Some(policy),
            forall|n: Seq<char>| n != policy.name@ ==> policy_named(final(self).policies_view(), n)
                == policy_named(old(self).policies_view(), n),
            final(self).encryption_view() == old(self).encryption_view(),
            final(self).audit_view() == old(self).audit_view(),
    {
        let ghost p0 = self.access_policies@;
        let ghost name = policy.name@;
        let found = self.find_policy(policy.name.as_str());
        match found {
            Some(i) => {
                self.access_policies.set(i, policy);
            },
            None => {
                self.access_policies.push(policy);
            },
        }
        proof {
            let p1 = self.access_policies@;
            let k: int = match found { Some(i) => i as int, None => p0.len() as int };
            assert(forall|t: int| 0 <= t < p1.len() && t != k ==> p1[t] == p0[t]);
            assert(distinct_policy_names(p1)) by {
                assert forall|a: int, b: int| 0 <= a < p1.len() && 0 <= b < p1.len() && a != b implies p1[a].name@ != p1[b].name@ by {
                    if a != k && b != k {
                        assert(p1[a] == p0[a] && p1[b] == p0[b]);
                    } else if a == k {
                        assert(p1[b] == p0[b]);
                    } else {
                        assert(p1[a] == p0[a]);
                    }
                }
            }
            lemma_policy_index(p1, name, k);
            assert forall|n: Seq<char>| n != name implies policy_named(p1, n) == policy_named(p0, n) by {
                if exists|t: int| 0 <= t < p0.len() && p0[t].name@ == n {
                    let t = choose|t: int| 0 <= t < p0.len() && p0[t].name@ == n;
                    lemma_policy_index(p0, n, t);
                    assert(t != k);
                    assert(p1[t] == p0[t]);
                    lemma_policy_index(p1, n, t);
                } else {
                    assert forall|t: int| 0 <= t < p1.len() implies p1[t].name@ != n by {
                        if t != k {
                            assert(p1[t] == p0[t]);
                        }
                    }
                }
            }
        }
    }

    /// Removes the policy named `policy_name`, if there is one.
    pub fn remove_access_policy(&mut self, policy_name: &str)
        requires
            old(self).wf(),
        ensures
            final(self).wf(),
            policy_named(final(self).policies_view(), policy_name@) is None,
            forall|n: Seq<char>| n != policy_name@ ==> policy_named(final(self).policies_view(), n)
                == policy_named(old(self).policies_view(), n),
            final(self).encryption_view() == old(self).encryption_view(),
            final(self).audit_view() == old(self).audit_view(),
    {
        let ghost p0 = self.access_policies@;
        if let Some(i) = self.find_policy(policy_name) {
            self.access_policies.remove(i);
            proof {
                let p1 = self.access_policies@;
                assert forall|t: int| 0 <= t < p1.len() implies p1[t] == p0[if t < i { t } else { t + 1 }] by {}
                assert(distinct_policy_names(p1)) by {
                    assert forall|a: int, b: int| 0 <= a < p1.len() && 0 <= b < p1.len() && a != b implies p1[a].name@ != p1[b].name@ by {
                        let a0 = if a < i { a } else { a + 1 };
                        let b0 = if b < i { b } else { b + 1 };
                        assert(p1[a] == p0[a0] && p1[b] == p0[b0]);
                    }
                }
                assert forall|t: int| 0 <= t < p1.len() implies p1[t].name@ != policy_name@ by {
                    let t0 = if t < i { t } else { t + 1 };
                    assert(p1[t] == p0[t0]);
                }
                assert forall|n: Seq<char>| n != policy_name@ implies policy_named(p1, n) == policy_named(p0, n) by {
                    if exists|t: int| 0 <= t < p0.len() && p0[t].name@ == n {
                        let t = choose|t: int| 0 <= t < p0.len() && p0[t].name@ == n;
                        lemma_policy_index(p0, n, t);
                        assert(t != i);
                        let t1 = if t < i { t } else { t - 1 };
                        assert(p1[t1] == p0[t]);
                        lemma_policy_index(p1, n, t1);
                    } else {
                        assert forall|t: int| 0 <= t < p1.len() implies p1[t].name@ != n by {
                            let t0 = if t < i { t } else { t + 1 };
                            assert(p1[t] == p0[t0]);
                        }
                    }
                }
            }
        }
    }

    /// Whether `user`, a member of `groups`, may do `operation` on a volume
    /// labelled `volume_labels`: some policy grants it.  The decision is
    /// appended to the audit log (`Success` or `Denied`, resource
    /// `volume`, no details).
    pub fn check_access(&mut self, user: &str, groups: &Vec<String>, volume_labels: &Labels, operation: &str) -> (allowed: bool)
        requires
            old(self).wf(),
        ensures
            final(self).wf(),
            allowed == access_granted(old(self).policies_view(), user@, strings_view(groups@), labels_view(volume_labels@), operation@),
            final(self).policies_view() == old(self).policies_view(),
            final(self).encryption_view() == old(self).encryption_view(),
            final(self).audit_view().len() == old(self).audit_view().len() + 1,
            final(self).audit_view().drop_last() == old(self).audit_view(),
            ({
                let e = final(self).audit_view().last();
                &&& e.user@ == user@
                &&& e.action@ == operation@
                &&& e.resource@ == "volume"@
                &&& e.result == if allowed { AuditResult::Success } else { AuditResult::Denied }
                &&& e.details@.len() == 0
            }),
    {
        let ghost ps = self.access_policies@;
        let ghost gs = strings_view(groups@);
        let ghost labels = labels_view(volume_labels@);
        let user_s = user.to_owned();
        let op_s = operation.to_owned();
        let mut allowed = false;
        let mut i: usize = 0;
        let n = self.access_policies.len();
        while i < n
            invariant
                i <= n,
                n == ps.len(),
                ps == self.access_policies@,
                gs == strings_view(groups@),
                labels == labels_view(volume_labels@),
                user_s@ == user@,
                op_s@ == operation@,
                allowed ==> access_granted(ps, user@, gs, labels, operation@),
                !allowed ==> forall|t: int| 0 <= t < i ==> !policy_grants(#[trigger] ps[t], user@, gs, labels, operation@),
            decreases n - i,
        {
            let p = &self.access_policies[i];
            let mut grants = false;
            if matches_selector(&p.volume_selector, volume_labels) && contains_string(&p.operations, &op_s) {
                if contains_string(&p.allowed_users, &user_s) {
                    grants = true;
                } else {
                    let mut g: usize = 0;
                    let mut hit = false;
                    let mut which: usize = 0;
                    while g < groups.len()
                        invariant
                            g <= groups@.len(),
                            gs == strings_view(groups@),
                            hit ==> which < groups@.len() && strings_view(p.allowed_groups@).contains(gs[which as int]),
                            !hit ==> forall|t: int| 0 <= t < g ==> !strings_view(p.allowed_groups@).contains(#[trigger] gs[t]),
                        decreases groups.len() - g,
                    {
                        if contains_string(&p.allowed_groups, &groups[g]) {
                            hit = true;
                            which = g;
                            g = groups.len();
                        } else {
                            g += 1;
                        }
                    }
                    grants = hit;
                    proof {
                        if hit {
                            assert(0 <= which < gs.len() && strings_view(p.allowed_groups@).contains(gs[which as int]));
                        }
                    }
                }
            }
            assert(grants == policy_grants(ps[i as int], user@, gs, labels, operation@));
            if grants {
                allowed = true;
                i = n;
            } else {
                i += 1;
            }
        }
        let result = if allowed { AuditResult::Success } else { AuditResult::Denied };
        self.log_audit_event(user, operation, "volume", result, Vec::new());
        proof {
            reveal_strlit("volume");
        }
        allowed
    }

    /// Sets a volume's encryption settings.
    pub fn set_volume_encryption(&mut self, volume_id: u128, config: EncryptionConfig)
        ensures
            final(self).encryption_view() == old(self).encryption_view().insert(volume_id, config),
            final(self).policies_view() == old(self).policies_view(),
            final(self).audit_view() == old(self).audit_view(),
    {
        self.encryption_configs.insert(volume_id, config);
    }

    /// A copy of a volume's encryption settings.
    pub fn get_volume_encryption(&self, volume_id: u128) -> (r: Option<EncryptionConfig>)
        ensures
            match r {
                Some(c) => self.encryption_view().contains_key(volume_id) && same_encryption(c, self.encryption_view()[volume_id]),
                None => !self.encryption_view().contains_key(volume_id),
            },
    {
        match self.encryption_configs.get(&volume_id) {
            Some(c) => Some(copy_encryption(c)),
            None => None,
        }
    }

    /// Whether a volume's settings enable encryption (not when it has none).
    pub fn is_volume_encrypted(&self, volume_id: u128) -> (b: bool)
        ensures
            b == (self.encryption_view().contains_key(volume_id) && self.encryption_view()[volume_id].enabled),
    {
        match self.encryption_configs.get(&volume_id) {
            Some(c) => c.enabled,
            None => false,
        }
    }

    /// Appends an entry with a fresh id and the current time.
    pub fn log_audit_event(&mut self, user: &str, action: &str, resource: &str, result: AuditResult, details: Labels)
        ensures
            final(self).audit_view().len() == old(self).audit_view().len() + 1,
            final(self).audit_view().drop_last() == old(self).audit_view(),
            ({
                let e = final(self).audit_view().last();
                &&& e.user@ == user@
                &&& e.action@ == action@
                &&& e.resource@ == resource@
                &&& e.result == result
                &&& e.details@ == details@
            }),
            final(self).policies_view() == old(self).policies_view(),
            final(self).encryption_view() == old(self).encryption_view(),
    {
        let entry = AuditLogEntry {
            id: new_uuid(),
            timestamp: now_millis(),
            user: user.to_owned(),
            action: action.to_owned(),
            resource: resource.to_owned(),
            result,
            details,
        };
        let ghost l0 = self.audit_log@;
        self.audit_log.push(entry);
        assert(self.audit_log@.drop_last() =~= l0);
    }

    /// Copies of the log entries that pass the filter (all of them without
    /// one), oldest first.
    pub fn get_audit_logs(&self, filter: Option<AuditLogFilter>) -> (r: Vec<AuditLogEntry>)
        ensures
            match filter {
                Some(f) => same_entries(r@, filtered(self.audit_view(), f)),
                None => same_entries(r@, self.audit_view()),
            },
    {
        let ghost fg = filter;
        let mut r: Vec<AuditLogEntry> = Vec::new();
        let mut i: usize = 0;
        while i < self.audit_log.len()
            invariant
                i <= self.audit_log@.len(),
                fg == filter,
                match fg {
                    Some(f) => same_entries(r@, filtered(self.audit_log@.subrange(0, i as int), f)),
                    None => same_entries(r@, self.audit_log@.subrange(0, i as int)),
                },
            decreases self.audit_log.len() - i,
        {
            let e = &self.audit_log[i];
            let keep = match &filter {
                Some(f) => Self::matches_audit_filter(e, f),
                None => true,
            };
            proof {
                assert(self.audit_log@.subrange(0, i + 1).drop_last() =~= self.audit_log@.subrange(0, i as int));
            }
            if keep {
                let ghost r0 = r@;
                r.push(copy_entry(e));
                proof {
                    match fg {
                        Some(f) => {
                            assert forall|t: int| 0 <= t < r@.len() implies same_entry(#[trigger] r@[t],
                                filtered(self.audit_log@.subrange(0, i + 1), f)[t]) by {
                                if t < r0.len() {
                                    assert(r@[t] == r0[t]);
                                }
                            }
                        },
                        None => {
                            assert forall|t: int| 0 <= t < r@.len() implies same_entry(#[trigger] r@[t],
                                self.audit_log@.subrange(0, i + 1)[t]) by {
                                if t < r0.len() {
                                    assert(r@[t] == r0[t]);
                                }
                            }
                        },
                    }
                }
            }
            i += 1;
        }
        assert(self.audit_log@.subrange(0, self.audit_log@.len() as int) =~= self.audit_log@);
        r
    }

    /// Whether a volume's labels hold every key and value of a selector.
    pub fn matches_volume_selector(selector: &LabelSelector, labels: &Labels) -> (b: bool)
        ensures
            b == selector_matches(labels_view(selector.match_labels@), labels_view(labels@)),
    {
        matches_selector(selector, labels)
    }

    /// Whether an audit entry passes a filter: the same user, action and
    /// result where the filter names them, and a time within its bounds.
    pub fn matches_audit_filter(entry: &AuditLogEntry, filter: &AuditLogFilter) -> (b: bool)
        ensures
            b == audit_filter_matches(*entry, *filter),
    {
        if let Some(user) = &filter.user {
            if entry.user != *user {
                return false;
            }
        }
        if let Some(action) = &filter.action {
            if entry.action != *action {
                return false;
            }
        }
        if let Some(result) = &filter.result {
            if entry.result != *result {
                return false;
            }
        }
        if let Some(start_time) = filter.start_time {
            if entry.timestamp < start_time {
                return false;
            }
        }
        if let Some(end_time) = filter.end_time {
            if entry.timestamp > end_time {
                return false;
            }
        }
        true
    }
}

/// The key length, in bytes, of a supported algorithm: 32 for
/// `AES-256-GCM`, 16 for `AES-128-GCM`.
pub open spec fn key_length(algorithm: Seq<char>) -> Option<nat> {
    if algorithm == "AES-256-GCM"@ {
        Some(32)
    } else if algorithm == "AES-128-GCM"@ {
        Some(16)
    } else {
        None
    }
}

/// The error for an algorithm with no key length.
pub open spec fn unsupported_text(algorithm: Seq<char>) -> Seq<char> {
    "Unsupported encryption algorithm: "@ + algorithm
}

/// Keys by id.
#[derive(Debug)]
pub struct KeyManagementService {
    keys: HashMap<u128, EncryptionKey>,
}

fn text_is(a: &str, b: &str) -> (r: bool)
    ensures
        r == (a@ == b@),
{
    let s = a.to_owned();
    str_eq(&s, b)
}

/// Two keys that hold the same values.
pub open spec fn same_key(a: EncryptionKey, b: EncryptionKey) -> bool {
    &&& a.id == b.id
    &&& a.volume_id == b.volume_id
    &&& a.algorithm@ == b.algorithm@
    &&& a.key_data@ == b.key_data@
    &&& a.created_at == b.created_at
    &&& a.last_rotated == b.last_rotated
}

impl KeyManagementService {
    /// The keys by id.
    pub closed spec fn keys_view(&self) -> Map<u128, EncryptionKey> {
        self.keys@
    }

    /// A service with no keys.
    pub fn new() -> (k: Self)
        ensures
            k.keys_view().dom().len() == 0,
    {
        let k = KeyManagementService { keys: HashMap::new() };
        assert(k.keys@.dom() =~= Set::<u128>::empty());
        k
    }

    /// Fresh random key material for an algorithm: 32 bytes for
    /// `AES-256-GCM`, 16 for `AES-128-GCM`; other algorithms are refused.
    pub fn generate_key_data(algorithm: &str) -> (r: Result<Vec<u8>, String>)
        ensures
            match key_length(algorithm@) {
                Some(n) => r matches Ok(d) && d@.len() == n,
                None => r matches Err(e) && e@ == unsupported_text(algorithm@),
            },
    {
        if text_is(algorithm, "AES-256-GCM") {
            Ok(random_bytes(32))
        } else if text_is(algorithm, "AES-128-GCM") {
            Ok(random_bytes(16))
        } else {
            let mut e = "Unsupported encryption algorithm: ".to_owned();
            append_str(&mut e, algorithm);
            Err(e)
        }
    }

    /// Makes a key for a volume with fresh key material and a fresh id, and
    /// gives the id; an unsupported algorithm is refused and nothing kept.
    pub fn generate_key(&mut self, volume_id: u128, algorithm: &str) -> (r: Result<u128, String>)
        ensures
            match key_length(algorithm@) {
                Some(n) => r matches Ok(id) && final(self).keys_view().contains_key(id) && {
                    let k = final(self).keys_view()[id];
                    &&& k.id == id
                    &&& k.volume_id == volume_id
                    &&& k.algorithm@ == algorithm@
                    &&& k.key_data@.len() == n
                    &&& k.created_at == k.last_rotated
                    &&& final(self).keys_view() == old(self).keys_view().insert(id, k)
                },
                None => r matches Err(e) && e@ == unsupported_text(algorithm@) && final(self).keys_view() == old(self).keys_view(),
            },
    {
        let key_data = match Self::generate_key_data(algorithm) {
            Ok(d) => d,
            Err(e) => return Err(e),
        };
        let now = now_millis();
        let key = EncryptionKey {
            id: new_uuid(),
            volume_id,
            algorithm: algorithm.to_owned(),
            key_data,
            created_at: now,
            last_rotated: now,
        };
        let key_id = key.id;
        self.keys.insert(key_id, key);
        Ok(key_id)
    }

    /// Gives a key fresh material of its algorithm's length and the current
    /// time of rotation; its id, volume, algorithm and creation time stay.
    /// An unknown id changes nothing.
    pub fn rotate_key(&mut self, key_id: u128) -> (r: Result<(), String>)
        ensures
            !old(self).keys_view().contains_key(key_id) ==> r is Ok && final(self).keys_view() == old(self).keys_view(),
            old(self).keys_view().contains_key(key_id) ==> {
                let k0 = old(self).keys_view()[key_id];
                match key_length(k0.algorithm@) {
                    Some(n) => r is Ok && final(self).keys_view().contains_key(key_id) && {
                        let k1 = final(self).keys_view()[key_id];
                        &&& k1.id == k0.id
                        &&& k1.volume_id == k0.volume_id
                        &&& k1.algorithm == k0.algorithm
                        &&& k1.created_at == k0.created_at
                        &&& k1.key_data@.len() == n
                        &&& final(self).keys_view() == old(self).keys_view().insert(key_id, k1)
                    },
                    None => r matches Err(e) && e@ == unsupported_text(k0.algorithm@) && final(self).keys_view() == old(self).keys_view(),
                }
            },
    {
        match self.keys.remove(&key_id) {
            Some(mut key) => {
                let data = Self::generate_key_data(key.algorithm.as_str());
                match data {
                    Ok(d) => {
                        key.key_data = d;
                        key.last_rotated = now_millis();
                        self.keys.insert(key_id, key);
                        Ok(())
                    },
                    Err(e) => {
                        self.keys.insert(key_id, key);
                        proof {
                            assert(self.keys@ =~= old(self).keys@);
                        }
                        Err(e)
                    },
                }
            },
            None => {
                assert(self.keys@ =~= old(self).keys@);
                Ok(())
            },
        }
    }

    /// A copy of the key with id `key_id`.
    pub fn get_key(&self, key_id: u128) -> (r: Option<EncryptionKey>)
        ensures
            match r {
                Some(k) => self.keys_view().contains_key(key_id) && same_key(k, self.keys_view()[key_id]),
                None => !self.keys_view().contains_key(key_id),
            },
    {
        match self.keys.get(&key_id) {
            Some(k) => Some(EncryptionKey {
                id: k.id,
                volume_id: k.volume_id,
                algorithm: k.algorithm.clone(),
                key_data: k.key_data.clone(),
                created_at: k.created_at,
                last_rotated: k.last_rotated,
            }),
            None => None,
        }
    }

    /// Forgets a key.
    pub fn delete_key(&mut self, key_id: u128)
        ensures
            final(self).keys_view() == old(self).keys_view().remove(key_id),
    {
        self.keys.remove(&key_id);
    }
}

} // verus!
