//! System health from error rate and latency.

use vstd::prelude::*;
use crate::message_dispatch::MessageOp;
use crate::performance::PerformanceMonitor;

verus! {

/// Health levels.
#[derive(Debug, Clone, Copy, PartialEq, Eq, Structural)]
pub enum HealthStatus {
    Healthy,
    Degraded,
    Critical,
    Unknown,
}

/// A health snapshot.
#[derive(Debug, Clone, Copy, PartialEq, Eq, Structural)]
pub struct HealthMetrics {
    pub status: HealthStatus,
    pub uptime: u64,
    pub total_operations: usize,
    pub error_rate: u32,
    pub average_latency: u64,
    pub memory_events: usize,
}

/// Where health turns degraded and critical: error rates in percent,
/// latencies in cycles.
#[derive(Debug, Clone, Copy, PartialEq, Eq, Structural)]
pub struct HealthThresholds {
    pub error_rate_critical: u32,
    pub error_rate_degraded: u32,
    pub latency_critical: u64,
    pub latency_degraded: u64,
}

/// The thresholds a monitor starts with.
pub open spec fn default_thresholds() -> HealthThresholds {
    HealthThresholds {
        error_rate_critical: 50,
        error_rate_degraded: 20,
        latency_critical: 1000,
        latency_degraded: 500,
    }
}

impl HealthThresholds {
    pub fn default_thresholds() -> (r: HealthThresholds)
        ensures
            r == default_thresholds(),
    {
        HealthThresholds {
            error_rate_critical: 50,
            error_rate_degraded: 20,
            latency_critical: 1000,
            latency_degraded: 500,
        }
    }
}

impl Default for HealthThresholds {
    fn default() -> (r: HealthThresholds)
        ensures
            r == default_thresholds(),
    {
        HealthThresholds::default_thresholds()
    }
}

/// The status a monitor reports for an error rate and a latency.
pub open spec fn status_of(t: HealthThresholds, error_rate: u32, latency: u64, operations: usize) -> HealthStatus {
    if error_rate >= t.error_rate_critical || latency >= t.latency_critical {
        HealthStatus::Critical
    } else if error_rate >= t.error_rate_degraded || latency >= t.latency_degraded {
        HealthStatus::Degraded
    } else if operations > 0 {
        HealthStatus::Healthy
    } else {
        HealthStatus::Unknown
    }
}

/// A health report: a snapshot with the number of checks made so far.
#[derive(Debug, Clone, Copy, PartialEq, Eq, Structural)]
pub struct HealthReport {
    pub metrics: HealthMetrics,
    pub checks_performed: u32,
    pub recovery_eligible: bool,
}

/// Health monitor.
pub struct HealthMonitor {
    pub thresholds: HealthThresholds,
    pub start_time: u64,
    pub total_operations: usize,
    pub total_errors: usize,
    pub memory_events: usize,
    pub check_count: u32,
    pub performance_monitor: PerformanceMonitor,
}

impl HealthMonitor {
    /// Errors are operations, and the latency log is well formed.
    pub open spec fn wf(&self) -> bool {
        &&& self.total_errors <= self.total_operations
        &&& self.performance_monitor.wf()
        &&& self.performance_monitor.total_operations <= self.total_operations
    }

    /// Room to record one more operation of latency `latency`.
    pub open spec fn can_record(&self, latency: u64) -> bool {
        &&& self.total_operations < usize::MAX
        &&& self.performance_monitor.can_record(latency)
    }

    /// Room for a check at `current_time`.
    pub open spec fn can_check(&self, current_time: u64) -> bool {
        &&& self.check_count < u32::MAX
        &&& self.total_operations <= u32::MAX
        &&& self.total_errors * 100 <= u32::MAX
        &&& (self.start_time > 0 ==> current_time >= self.start_time)
    }

    /// Error rate in percent, rounded down; 0 before any operation.
    pub open spec fn error_rate(&self) -> u32 {
        if self.total_operations == 0 {
            0
        } else {
            ((self.total_errors * 100) as int / self.total_operations as int) as u32
        }
    }

    /// Mean latency of the successful operations, as the latency log says.
    pub open spec fn average_latency(&self) -> u64 {
        if self.performance_monitor.total_operations == 0 {
            0
        } else {
            (self.performance_monitor.cycles_sum() / self.performance_monitor.total_operations as int) as u64
        }
    }

    /// The snapshot a check at `current_time` reports.
    pub open spec fn metrics_at(&self, current_time: u64) -> HealthMetrics {
        HealthMetrics {
            status: status_of(
                self.thresholds,
                self.error_rate(),
                self.average_latency(),
                self.total_operations,
            ),
            uptime: if self.start_time > 0 {
                (current_time - self.start_time) as u64
            } else {
                0
            },
            total_operations: self.total_operations,
            error_rate: self.error_rate(),
            average_latency: self.average_latency(),
            memory_events: self.memory_events,
        }
    }

    pub fn new() -> (r: HealthMonitor)
        ensures
            r.wf(),
            r.thresholds == default_thresholds(),
            r.start_time == 0,
            r.total_operations == 0,
            r.total_errors == 0,
            r.memory_events == 0,
            r.check_count == 0,
            r.performance_monitor.total_operations == 0,
            r.performance_monitor.cycles_sum() == 0,
    {
        HealthMonitor {
            thresholds: HealthThresholds::default_thresholds(),
            start_time: 0,
            total_operations: 0,
            total_errors: 0,
            memory_events: 0,
            check_count: 0,
            performance_monitor: PerformanceMonitor::new(),
        }
    }

    pub fn with_thresholds(thresholds: HealthThresholds) -> (r: HealthMonitor)
        ensures
            r.wf(),
            r.thresholds == thresholds,
            r.start_time == 0,
            r.total_operations == 0,
            r.total_errors == 0,
            r.memory_events == 0,
            r.check_count == 0,
            r.performance_monitor.total_operations == 0,
            r.performance_monitor.cycles_sum() == 0,
    {
        let mut monitor = HealthMonitor::new();
        monitor.thresholds = thresholds;
        monitor
    }

    /// Uptime is counted from `current_time`.
    pub fn start(&mut self, current_time: u64)
        ensures
            *final(self) == (HealthMonitor { start_time: current_time, ..*old(self) }),
    {
        self.start_time = current_time;
    }

    /// Counts an operation; a failed one counts as an error, a successful
    /// one has its latency logged.
    pub fn record_operation(&mut self, success: bool, latency: u64)
        requires
            old(self).wf(),
            old(self).can_record(latency),
        ensures
            final(self).wf(),
            final(self).total_operations == old(self).total_operations + 1,
            final(self).total_errors == old(self).total_errors + if success {
                0int
            } else {
                1int
            },
            final(self).performance_monitor.total_operations == old(
                self,
            ).performance_monitor.total_operations + if success {
                1int
            } else {
                0int
            },
            final(self).performance_monitor.cycles_sum() == old(self).performance_monitor.cycles_sum()
                + if success {
                latency as int
            } else {
                0int
            },
            final(self).thresholds == old(self).thresholds,
            final(self).start_time == old(self).start_time,
            final(self).memory_events == old(self).memory_events,
            final(self).check_count == old(self).check_count,
    {
        self.total_operations = self.total_operations + 1;
        if !success {
            self.total_errors = self.total_errors + 1;
        }
        if success {
            self.performance_monitor.record_operation(MessageOp::Get, latency);
        }
    }

    pub fn record_memory_event(&mut self)
        requires
            old(self).memory_events < usize::MAX,
        ensures
            *final(self) == (HealthMonitor {
                memory_events: (old(self).memory_events + 1) as usize,
                ..*old(self)
            }),
    {
        self.memory_events = self.memory_events + 1;
    }

    /// Takes a health snapshot at `current_time` and counts the check.
    pub fn check_health(&mut self, current_time: u64) -> (r: HealthMetrics)
        requires
            old(self).wf(),
            old(self).can_check(current_time),
        ensures
            r == old(self).metrics_at(current_time),
            *final(self) == (HealthMonitor {
                check_count: (old(self).check_count + 1) as u32,
                ..*old(self)
            }),
    {
        self.check_count = self.check_count + 1;
        let uptime = if self.start_time > 0 {
            current_time - self.start_time
        } else {
            0
        };
        let error_rate: u32 = if self.total_operations == 0 {
            0
        } else {
            (self.total_errors as u32 * 100) / (self.total_operations as u32)
        };
        let average_latency = self.performance_monitor.average_cycles();
        let status = self.determine_status(error_rate, average_latency);
        HealthMetrics {
            status,
            uptime,
            total_operations: self.total_operations,
            error_rate,
            average_latency,
            memory_events: self.memory_events,
        }
    }

    fn determine_status(&self, error_rate: u32, latency: u64) -> (r: HealthStatus)
        ensures
            r == status_of(self.thresholds, error_rate, latency, self.total_operations),
    {
        if error_rate >= self.thresholds.error_rate_critical || latency
            >= self.thresholds.latency_critical {
            HealthStatus::Critical
        } else if error_rate >= self.thresholds.error_rate_degraded || latency
            >= self.thresholds.latency_degraded {
            HealthStatus::Degraded
        } else if self.total_operations > 0 {
            HealthStatus::Healthy
        } else {
            HealthStatus::Unknown
        }
    }

    /// A snapshot with the number of checks made, this one included; a
    /// degraded system is eligible for recovery.
    pub fn get_report(&mut self, current_time: u64) -> (r: HealthReport)
        requires
            old(self).wf(),
            old(self).can_check(current_time),
        ensures
            r == (HealthReport {
                metrics: old(self).metrics_at(current_time),
                checks_performed: final(self).check_count,
                recovery_eligible: old(self).metrics_at(current_time).status
                    == HealthStatus::Degraded,
            }),
            *final(self) == (HealthMonitor {
                check_count: (old(self).check_count + 1) as u32,
                ..*old(self)
            }),
    {
        let metrics = self.check_health(current_time);
        let recovery_eligible = metrics.status == HealthStatus::Degraded;
        HealthReport { metrics, checks_performed: self.check_count, recovery_eligible }
    }

    /// Forgets operations, errors, memory events, checks and latencies; the
    /// thresholds and the start time stay.
    pub fn reset(&mut self)
        ensures
            final(self).wf(),
            final(self).total_operations == 0,
            final(self).total_errors == 0,
            final(self).memory_events == 0,
            final(self).check_count == 0,
            final(self).performance_monitor.total_operations == 0,
            final(self).performance_monitor.cycles_sum() == 0,
            final(self).thresholds == old(self).thresholds,
            final(self).start_time == old(self).start_time,
    {
        self.total_operations = 0;
        self.total_errors = 0;
        self.memory_events = 0;
        self.check_count = 0;
        self.performance_monitor.reset();
    }
}

} // verus!
