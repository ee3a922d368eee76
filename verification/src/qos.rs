//! Quality of service: the I/O a volume has in flight under its policy,
//! whether a new request fits the policy's limits, and the burst window.
//! A burst multiplies a limit by a floating-point factor; the caller
//! works out the effective limits and hands them in.
use vstd::prelude::*;

verus! {

/// The I/O a volume has in flight under the policy it was given.  The
/// burst start is in milliseconds since the Unix epoch.
#[derive(Debug)]
pub struct ActiveQoSLimits {
    pub volume_id: u128,
    pub current_iops: u64,
    pub current_throughput_mbps: u64,
    pub burst_start_time: Option<i64>,
    pub policy_name: String,
}

/// A volume's QoS figures.
#[derive(Debug)]
pub struct QoSStatus {
    pub volume_id: u128,
    pub policy_name: String,
    pub current_iops: u64,
    pub current_throughput_mbps: u64,
    pub iops_limit: u64,
    pub throughput_limit: u64,
    pub is_bursting: bool,
}

/// Whether a request fits: each limit there is bounds the in-flight
/// amount plus the request.
pub open spec fn fits(current: u64, requested: u64, limit: Option<u64>) -> bool {
    match limit {
        Some(l) => current + requested <= l,
        None => true,
    }
}

/// Whether a burst started at `start` is still on at `now` (milliseconds):
/// fewer than `duration_seconds` whole seconds have passed; a start in
/// the future counts as no time passed.
pub open spec fn in_burst_window(start: Option<i64>, now: i64, duration_seconds: u64) -> bool {
    match start {
        Some(s) => (if now > s { (now - s) / 1000 } else { 0 }) < duration_seconds,
        None => false,
    }
}

impl ActiveQoSLimits {
    /// No I/O in flight and no burst, under the named policy.
    pub fn new(volume_id: u128, policy_name: String) -> (l: Self)
        ensures
            l.volume_id == volume_id,
            l.policy_name@ == policy_name@,
            l.current_iops == 0,
            l.current_throughput_mbps == 0,
            l.burst_start_time is None,
    {
        ActiveQoSLimits { volume_id, current_iops: 0, current_throughput_mbps: 0, burst_start_time: None, policy_name }
    }

    /// Accepts a request when it fits both effective limits (a policy
    /// without a limit passes `None`), adding it to the in-flight amounts;
    /// a request that does not fit changes nothing.
    pub fn accept_request(&mut self, requested_iops: u64, requested_throughput_mbps: u64, iops_limit: Option<u64>, throughput_limit: Option<u64>) -> (ok: bool)
        requires
            old(self).current_iops + requested_iops <= u64::MAX,
            old(self).current_throughput_mbps + requested_throughput_mbps <= u64::MAX,
        ensures
            ok == (fits(old(self).current_iops, requested_iops, iops_limit)
                && fits(old(self).current_throughput_mbps, requested_throughput_mbps, throughput_limit)),
            ok ==> final(self).current_iops == old(self).current_iops + requested_iops
                && final(self).current_throughput_mbps == old(self).current_throughput_mbps + requested_throughput_mbps,
            !ok ==> final(self).current_iops == old(self).current_iops
                && final(self).current_throughput_mbps == old(self).current_throughput_mbps,
            final(self).volume_id == old(self).volume_id,
            final(self).burst_start_time == old(self).burst_start_time,
            final(self).policy_name == old(self).policy_name,
    {
        if let Some(l) = iops_limit {
            if self.current_iops + requested_iops > l {
                return false;
            }
        }
        if let Some(l) = throughput_limit {
            if self.current_throughput_mbps + requested_throughput_mbps > l {
                return false;
            }
        }
        self.current_iops = self.current_iops + requested_iops;
        self.current_throughput_mbps = self.current_throughput_mbps + requested_throughput_mbps;
        true
    }

    /// Takes completed I/O off the in-flight amounts, stopping at zero.
    pub fn record_io_completion(&mut self, completed_iops: u64, completed_throughput_mbps: u64)
        ensures
            final(self).current_iops == if old(self).current_iops >= completed_iops { (old(self).current_iops - completed_iops) as u64 } else { 0 },
            final(self).current_throughput_mbps == if old(self).current_throughput_mbps >= completed_throughput_mbps {
                (old(self).current_throughput_mbps - completed_throughput_mbps) as u64
            } else {
                0
            },
            final(self).volume_id == old(self).volume_id,
            final(self).burst_start_time == old(self).burst_start_time,
            final(self).policy_name == old(self).policy_name,
    {
        self.current_iops = self.current_iops.saturating_sub(completed_iops);
        self.current_throughput_mbps = self.current_throughput_mbps.saturating_sub(completed_throughput_mbps);
    }

    /// Starts a burst at `now`.
    pub fn enable_burst(&mut self, now: i64)
        ensures
            final(self).burst_start_time == Some(now),
            final(self).current_iops == old(self).current_iops,
            final(self).current_throughput_mbps == old(self).current_throughput_mbps,
            final(self).volume_id == old(self).volume_id,
            final(self).policy_name == old(self).policy_name,
    {
        self.burst_start_time = Some(now);
    }

    /// Ends the burst.
    pub fn disable_burst(&mut self)
        ensures
            final(self).burst_start_time is None,
            final(self).current_iops == old(self).current_iops,
            final(self).current_throughput_mbps == old(self).current_throughput_mbps,
            final(self).volume_id == old(self).volume_id,
            final(self).policy_name == old(self).policy_name,
    {
        self.burst_start_time = None;
    }

    /// Whether the burst multiplier applies at `now`: the policy's burst is
    /// enabled and the burst started less than `duration_seconds` ago.
    pub fn burst_applies(&self, enabled: bool, duration_seconds: u64, now: i64) -> (b: bool)
        ensures
            b == (enabled && in_burst_window(self.burst_start_time, now, duration_seconds)),
    {
        if !enabled {
            return false;
        }
        match self.burst_start_time {
            Some(s) => {
                let secs: i128 = if now > s { (now as i128 - s as i128) / 1000 } else { 0 };
                secs < duration_seconds as i128
            },
            None => false,
        }
    }

    /// The volume's QoS figures given its effective limits.
    pub fn status(&self, iops_limit: u64, throughput_limit: u64) -> (s: QoSStatus)
        ensures
            s.volume_id == self.volume_id,
            s.policy_name@ == self.policy_name@,
            s.current_iops == self.current_iops,
            s.current_throughput_mbps == self.current_throughput_mbps,
            s.iops_limit == iops_limit,
            s.throughput_limit == throughput_limit,
            s.is_bursting == self.burst_start_time is Some,
    {
        QoSStatus {
            volume_id: self.volume_id,
            policy_name: self.policy_name.clone(),
            current_iops: self.current_iops,
            current_throughput_mbps: self.current_throughput_mbps,
            iops_limit,
            throughput_limit,
            is_bursting: self.burst_start_time.is_some(),
        }
    }
}

/// Accepting a request and then recording it as completed gives back the
/// in-flight amounts from before.
pub proof fn accepted_then_completed(current: u64, requested: u64)
    requires
        current + requested <= u64::MAX,
    ensures
        ({
            let after = (current + requested) as u64;
            (if after >= requested { (after - requested) as u64 } else { 0u64 }) == current
        }),
{
}

} // verus!
