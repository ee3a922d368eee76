//! Monitoring: the history of system-wide figures, the alerts raised by
//! the alert rules, and the health they add up to.  Rules compare
//! floating-point figures with thresholds; their caller raises the alerts
//! here.
use vstd::prelude::*;
use crate::external::{new_uuid, now_millis};
use crate::text::{append_str, str_eq};

verus! {

/// System-wide figures at a moment (milliseconds since the Unix epoch).
#[derive(Clone, Copy, Debug, PartialEq, Eq, Structural)]
pub struct SystemMetrics {
    pub timestamp: i64,
    pub total_volumes: u64,
    pub total_capacity_bytes: u64,
    pub used_capacity_bytes: u64,
    pub total_snapshots: u64,
    pub active_migrations: u64,
    pub failed_operations: u64,
}

/// How serious an alert is.
#[derive(Clone, Copy, Debug, PartialEq, Eq, Structural)]
pub enum AlertSeverity {
    Info,
    Warning,
    Critical,
}

/// How an alert rule compares a figure with its threshold.
#[derive(Clone, Copy, Debug, PartialEq, Eq, Structural)]
pub enum AlertCondition {
    GreaterThan,
    LessThan,
    Equal,
}

/// An alert raised by a rule.  Times are in milliseconds since the Unix
/// epoch.
#[derive(Debug)]
pub struct Alert {
    pub id: u128,
    pub rule_name: String,
    pub severity: AlertSeverity,
    pub message: String,
    pub resource_id: Option<u128>,
    pub timestamp: i64,
    pub resolved: bool,
    pub resolved_at: Option<i64>,
}

/// Which alerts to list; an absent field does not filter.  Times bound
/// inclusively.
#[derive(Clone, Copy, Debug, PartialEq, Eq, Structural)]
pub struct AlertFilter {
    pub severity: Option<AlertSeverity>,
    pub resolved: Option<bool>,
    pub start_time: Option<i64>,
    pub end_time: Option<i64>,
}

/// Overall health.
#[derive(Clone, Copy, Debug, PartialEq, Eq, Structural)]
pub enum HealthState {
    Healthy,
    Warning,
    Critical,
}

/// Health from the open alerts.
#[derive(Clone, Copy, Debug, PartialEq, Eq, Structural)]
pub struct HealthStatus {
    pub overall_status: HealthState,
    pub critical_alerts: u64,
    pub warning_alerts: u64,
    pub last_check: i64,
}

/// How many system figures are kept.
pub const HISTORY_LIMIT: usize = 1000;

/// A history with one more entry, the oldest dropped beyond the limit.
pub open spec fn bounded_push(h: Seq<SystemMetrics>, m: SystemMetrics) -> Seq<SystemMetrics> {
    let p = h.push(m);
    if p.len() > HISTORY_LIMIT { p.drop_first() } else { p }
}

/// The figures taken at or after `since`, in order.
pub open spec fn metrics_since(h: Seq<SystemMetrics>, since: i64) -> Seq<SystemMetrics> {
    h.filter(|m: SystemMetrics| m.timestamp >= since)
}

/// Whether an alert passes a filter.
pub open spec fn alert_filter_matches(a: Alert, f: AlertFilter) -> bool {
    &&& (f.severity matches Some(s) ==> a.severity == s)
    &&& (f.resolved matches Some(r) ==> a.resolved == r)
    &&& (f.start_time matches Some(t) ==> a.timestamp >= t)
    &&& (f.end_time matches Some(t) ==> a.timestamp <= t)
}

/// Two alerts that hold the same values.
pub open spec fn same_alert(a: Alert, b: Alert) -> bool {
    &&& a.id == b.id
    &&& a.rule_name@ == b.rule_name@
    &&& a.severity == b.severity
    &&& a.message@ == b.message@
    &&& a.resource_id == b.resource_id
    &&& a.timestamp == b.timestamp
    &&& a.resolved == b.resolved
    &&& a.resolved_at == b.resolved_at
}

/// The alerts that pass a filter, in order.
pub open spec fn alerts_matching(s: Seq<Alert>, f: AlertFilter) -> Seq<Alert>
    decreases s.len(),
{
    if s.len() == 0 {
        Seq::empty()
    } else if alert_filter_matches(s.last(), f) {
        alerts_matching(s.drop_last(), f).push(s.last())
    } else {
        alerts_matching(s.drop_last(), f)
    }
}

/// Two lists of alerts that hold the same values.
pub open spec fn same_alerts(a: Seq<Alert>, b: Seq<Alert>) -> bool {
    a.len() == b.len() && forall|i: int| 0 <= i < a.len() ==> same_alert(#[trigger] a[i], b[i])
}

/// How many open alerts have the severity.
pub open spec fn open_count(s: Seq<Alert>, severity: AlertSeverity) -> nat
    decreases s.len(),
{
    if s.len() == 0 {
        0
    } else {
        open_count(s.drop_last(), severity) + if !s.last().resolved && s.last().severity == severity { 1nat } else { 0nat }
    }
}

/// The health the open alerts add up to: critical with an open critical
/// alert, else warning with an open warning, else healthy.
pub open spec fn health_of(s: Seq<Alert>) -> HealthState {
    if open_count(s, AlertSeverity::Critical) > 0 {
        HealthState::Critical
    } else if open_count(s, AlertSeverity::Warning) > 0 {
        HealthState::Warning
    } else {
        HealthState::Healthy
    }
}

/// Index of the first alert with id `id`, or -1.
pub open spec fn first_alert(s: Seq<Alert>, id: u128, i: int) -> int
    decreases s.len() - i,
{
    if i < 0 || i >= s.len() {
        -1
    } else if s[i].id == id {
        i
    } else {
        first_alert(s, id, i + 1)
    }
}

/// The text of an alert raised by a rule.
pub open spec fn alert_message(rule_name: Seq<char>) -> Seq<char> {
    "Alert triggered for rule: "@ + rule_name
}

fn copy_alert(a: &Alert) -> (r: Alert)
    ensures
        same_alert(r, *a),
{
    Alert {
        id: a.id,
        rule_name: a.rule_name.clone(),
        severity: a.severity,
        message: a.message.clone(),
        resource_id: a.resource_id,
        timestamp: a.timestamp,
        resolved: a.resolved,
        resolved_at: a.resolved_at,
    }
}

/// The system figures and the alerts.
#[derive(Debug)]
pub struct MonitoringManager {
    system_metrics: Vec<SystemMetrics>,
    alerts: Vec<Alert>,
}

impl MonitoringManager {
    /// The history of system figures, oldest first.
    pub closed spec fn history_view(&self) -> Seq<SystemMetrics> {
        self.system_metrics@
    }

    /// The alerts, oldest first.
    pub closed spec fn alerts_view(&self) -> Seq<Alert> {
        self.alerts@
    }

    /// No figures, no alerts.
    pub fn new() -> (m: Self)
        ensures
            m.history_view().len() == 0,
            m.alerts_view().len() == 0,
    {
        MonitoringManager { system_metrics: Vec::new(), alerts: Vec::new() }
    }

    /// Keeps a system figure; beyond the last thousand, the oldest goes.
    pub fn record_system_metrics(&mut self, metrics: SystemMetrics)
        ensures
            final(self).history_view() == bounded_push(old(self).history_view(), metrics),
            final(self).alerts_view() == old(self).alerts_view(),
    {
        self.system_metrics.push(metrics);
        if self.system_metrics.len() > HISTORY_LIMIT {
            self.system_metrics.remove(0);
        }
    }

    /// The figures kept, all of them or those taken at or after `since`.
    pub fn get_system_metrics(&self, since: Option<i64>) -> (r: Vec<SystemMetrics>)
        ensures
            match since {
                Some(t) => r@ == metrics_since(self.history_view(), t),
                None => r@ == self.history_view(),
            },
    {
        let mut r: Vec<SystemMetrics> = Vec::new();
        let mut i: usize = 0;
        let ghost h = self.system_metrics@;
        while i < self.system_metrics.len()
            invariant
                i <= h.len(),
                h == self.system_metrics@,
                match since {
                    Some(t) => r@ == metrics_since(h.subrange(0, i as int), t),
                    None => r@ == h.subrange(0, i as int),
                },
            decreases self.system_metrics.len() - i,
        {
            let m = self.system_metrics[i];
            proof {
                assert(h.subrange(0, i + 1).drop_last() =~= h.subrange(0, i as int));
                reveal(Seq::filter);
            }
            match since {
                Some(t) => {
                    if m.timestamp >= t {
                        r.push(m);
                    }
                },
                None => {
                    r.push(m);
                },
            }
            i += 1;
            proof {
                match since {
                    Some(t) => {},
                    None => {
                        assert(r@ =~= h.subrange(0, i as int));
                    },
                }
            }
        }
        assert(h.subrange(0, h.len() as int) =~= h);
        r
    }

    /// Raises an alert for a rule, on a resource or system-wide: a fresh
    /// id, the current time, open.
    pub fn create_alert(&mut self, rule_name: &str, severity: AlertSeverity, resource_id: Option<u128>)
        ensures
            final(self).history_view() == old(self).history_view(),
            final(self).alerts_view().len() == old(self).alerts_view().len() + 1,
            final(self).alerts_view().drop_last() == old(self).alerts_view(),
            ({
                let a = final(self).alerts_view().last();
                &&& a.rule_name@ == rule_name@
                &&& a.severity == severity
                &&& a.message@ == alert_message(rule_name@)
                &&& a.resource_id == resource_id
                &&& !a.resolved
                &&& a.resolved_at is None
            }),
    {
        let mut message = "Alert triggered for rule: ".to_owned();
        append_str(&mut message, rule_name);
        let alert = Alert {
            id: new_uuid(),
            rule_name: rule_name.to_owned(),
            severity,
            message,
            resource_id,
            timestamp: now_millis(),
            resolved: false,
            resolved_at: None,
        };
        let ghost a0 = self.alerts@;
        self.alerts.push(alert);
        assert(self.alerts@.drop_last() =~= a0);
    }

    /// Copies of the alerts that pass the filter (all without one), oldest
    /// first.
    pub fn get_alerts(&self, filter: Option<AlertFilter>) -> (r: Vec<Alert>)
        ensures
            match filter {
                Some(f) => same_alerts(r@, alerts_matching(self.alerts_view(), f)),
                None => same_alerts(r@, self.alerts_view()),
            },
    {
        let mut r: Vec<Alert> = Vec::new();
        let mut i: usize = 0;
        while i < self.alerts.len()
            invariant
                i <= self.alerts@.len(),
                match filter {
                    Some(f) => same_alerts(r@, alerts_matching(self.alerts@.subrange(0, i as int), f)),
                    None => same_alerts(r@, self.alerts@.subrange(0, i as int)),
                },
            decreases self.alerts.len() - i,
        {
            let a = &self.alerts[i];
            let keep = match filter {
                Some(f) => Self::matches_alert_filter(a, &f),
                None => true,
            };
            proof {
                assert(self.alerts@.subrange(0, i + 1).drop_last() =~= self.alerts@.subrange(0, i as int));
            }
            if keep {
                let ghost r0 = r@;
                r.push(copy_alert(a));
                proof {
                    match filter {
                        Some(f) => {
                            assert forall|t: int| 0 <= t < r@.len() implies same_alert(#[trigger] r@[t],
                                alerts_matching(self.alerts@.subrange(0, i + 1), f)[t]) by {
                                if t < r0.len() {
                                    assert(r@[t] == r0[t]);
                                }
                            }
                        },
                        None => {
                            assert forall|t: int| 0 <= t < r@.len() implies same_alert(#[trigger] r@[t],
                                self.alerts@.subrange(0, i + 1)[t]) by {
                                if t < r0.len() {
                                    assert(r@[t] == r0[t]);
                                }
                            }
                        },
                    }
                }
            }
            i += 1;
        }
        assert(self.alerts@.subrange(0, self.alerts@.len() as int) =~= self.alerts@);
        r
    }

    /// Marks the first alert with the id resolved now; no other alert
    /// changes, and nothing does when no alert has the id.
    pub fn resolve_alert(&mut self, alert_id: u128)
        ensures
            final(self).history_view() == old(self).history_view(),
            ({
                let i = first_alert(old(self).alerts_view(), alert_id, 0);
                if i < 0 {
                    final(self).alerts_view() == old(self).alerts_view()
                } else {
                    let a = old(self).alerts_view()[i];
                    final(self).alerts_view() == old(self).alerts_view().update(i, Alert {
                        resolved: true,
                        resolved_at: final(self).alerts_view()[i].resolved_at,
                        ..a
                    }) && final(self).alerts_view()[i].resolved_at is Some
                }
            }),
    {
        let mut i: usize = 0;
        while i < self.alerts.len()
            invariant
                i <= self.alerts@.len(),
                self.alerts == old(self).alerts,
                self.system_metrics == old(self).system_metrics,
                first_alert(self.alerts@, alert_id, 0) == first_alert(self.alerts@, alert_id, i as int),
            decreases self.alerts.len() - i,
        {
            if self.alerts[i].id == alert_id {
                let ghost a0 = self.alerts@;
                let mut a = self.alerts.remove(i);
                a.resolved = true;
                a.resolved_at = Some(now_millis());
                self.alerts.insert(i, a);
                assert(self.alerts@ =~= a0.update(i as int, Alert {
                    resolved: true,
                    resolved_at: self.alerts@[i as int].resolved_at,
                    ..a0[i as int]
                }));
                return;
            }
            i += 1;
        }
    }

    /// The health now: the counts of open critical and warning alerts.
    pub fn get_health_status(&self) -> (h: HealthStatus)
        requires
            self.alerts_view().len() <= u64::MAX,
        ensures
            h.critical_alerts == open_count(self.alerts_view(), AlertSeverity::Critical),
            h.warning_alerts == open_count(self.alerts_view(), AlertSeverity::Warning),
            h.overall_status == health_of(self.alerts_view()),
    {
        let mut critical: u64 = 0;
        let mut warning: u64 = 0;
        let mut i: usize = 0;
        while i < self.alerts.len()
            invariant
                i <= self.alerts@.len(),
                self.alerts@.len() <= u64::MAX,
                critical == open_count(self.alerts@.subrange(0, i as int), AlertSeverity::Critical),
                warning == open_count(self.alerts@.subrange(0, i as int), AlertSeverity::Warning),
                critical <= i,
                warning <= i,
            decreases self.alerts.len() - i,
        {
            proof {
                assert(self.alerts@.subrange(0, i + 1).drop_last() =~= self.alerts@.subrange(0, i as int));
            }
            let a = &self.alerts[i];
            if !a.resolved && a.severity == AlertSeverity::Critical {
                critical += 1;
            }
            if !a.resolved && a.severity == AlertSeverity::Warning {
                warning += 1;
            }
            i += 1;
        }
        assert(self.alerts@.subrange(0, self.alerts@.len() as int) =~= self.alerts@);
        let overall_status = if critical > 0 {
            HealthState::Critical
        } else if warning > 0 {
            HealthState::Warning
        } else {
            HealthState::Healthy
        };
        HealthStatus { overall_status, critical_alerts: critical, warning_alerts: warning, last_check: now_millis() }
    }

    /// Whether an alert passes a filter: the same severity and resolution
    /// where the filter names them, and a time within its bounds.
    pub fn matches_alert_filter(alert: &Alert, filter: &AlertFilter) -> (b: bool)
        ensures
            b == alert_filter_matches(*alert, *filter),
    {
        if let Some(severity) = filter.severity {
            if alert.severity != severity {
                return false;
            }
        }
        if let Some(resolved) = filter.resolved {
            if alert.resolved != resolved {
                return false;
            }
        }
        if let Some(start_time) = filter.start_time {
            if alert.timestamp < start_time {
                return false;
            }
        }
        if let Some(end_time) = filter.end_time {
            if alert.timestamp > end_time {
                return false;
            }
        }
        true
    }
}

/// Resolving an alert never makes the health worse: no open count grows.
pub proof fn resolving_never_raises_counts(before: Seq<Alert>, i: int, after_alert: Alert, severity: AlertSeverity)
    requires
        0 <= i < before.len(),
        after_alert.resolved,
    ensures
        open_count(before.update(i, after_alert), severity) <= open_count(before, severity),
    decreases before.len(),
{
    let after = before.update(i, after_alert);
    if i == before.len() - 1 {
        assert(after.drop_last() =~= before.drop_last());
    } else {
        assert(after.drop_last() =~= before.drop_last().update(i, after_alert));
        resolving_never_raises_counts(before.drop_last(), i, after_alert, severity);
    }
}


/// A filter lists exactly the alerts that meet each of its bounds: the
/// severity and resolved state it names, a time at or after its start and
/// at or before its end.
pub proof fn filters_list_alerts_within_bounds(s: Seq<Alert>, f: AlertFilter)
    ensures
        forall|j: int| 0 <= j < alerts_matching(s, f).len() ==> {
            let a = #[trigger] alerts_matching(s, f)[j];
            &&& s.contains(a)
            &&& (f.severity matches Some(v) ==> a.severity == v)
            &&& (f.resolved matches Some(r) ==> a.resolved == r)
            &&& (f.start_time matches Some(t) ==> t <= a.timestamp)
            &&& (f.end_time matches Some(t) ==> a.timestamp <= t)
        },
        forall|i: int| 0 <= i < s.len()
            && (f.severity matches Some(v) ==> s[i].severity == v)
            && (f.resolved matches Some(r) ==> s[i].resolved == r)
            && (f.start_time matches Some(t) ==> t <= s[i].timestamp)
            && (f.end_time matches Some(t) ==> s[i].timestamp <= t)
            ==> alerts_matching(s, f).contains(#[trigger] s[i]),
    decreases s.len(),
{
    if s.len() > 0 {
        let p = s.drop_last();
        filters_list_alerts_within_bounds(p, f);
        let q = alerts_matching(p, f);
        let r = alerts_matching(s, f);
        assert forall|j: int| 0 <= j < r.len() implies s.contains(#[trigger] r[j]) by {
            if j < q.len() {
                assert(r[j] == q[j]);
                assert(p.contains(q[j]));
                let k = choose|k: int| 0 <= k < p.len() && p[k] == q[j];
                assert(s[k] == p[k]);
            } else {
                assert(r[j] == s.last());
                assert(s[s.len() - 1] == s.last());
            }
        }
        assert forall|j: int| 0 <= j < r.len() implies alert_filter_matches(#[trigger] r[j], f) by {
            if j < q.len() {
                assert(r[j] == q[j]);
            }
        }
        assert forall|i: int| 0 <= i < s.len()
            && (f.severity matches Some(v) ==> s[i].severity == v)
            && (f.resolved matches Some(r) ==> s[i].resolved == r)
            && (f.start_time matches Some(t) ==> t <= s[i].timestamp)
            && (f.end_time matches Some(t) ==> s[i].timestamp <= t)
            implies r.contains(#[trigger] s[i]) by {
            if i < p.len() {
                assert(p[i] == s[i]);
                assert(q.contains(p[i]));
                let k = choose|k: int| 0 <= k < q.len() && q[k] == p[i];
                assert(r[k] == q[k]);
            } else {
                assert(alert_filter_matches(s.last(), f));
                assert(r[r.len() - 1] == s[i]);
            }
        }
    }
}

} // verus!
