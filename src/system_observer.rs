//! Observes every operation through the failure detector, the conflict
//! detector and the health monitor, and keeps an overall state.

use vstd::prelude::*;
use crate::conflict_detection::{ConflictDetector, expected_of};
use crate::failure_detection::FailureDetector;
use crate::health_monitor::{HealthMonitor, HealthStatus};
use crate::message_dispatch::MessageOp;

verus! {

/// Record of one observed operation.
#[derive(Debug, Clone, Copy, PartialEq, Eq, Structural)]
pub struct Observation {
    pub timestamp: u64,
    pub sequence: u32,
    pub operation: MessageOp,
    pub state_before: i32,
    pub state_after: i32,
    pub execution_time: u64,
    pub failures_detected: usize,
    pub conflicts_detected: usize,
}

/// Overall state.
#[derive(Debug, Clone, Copy, PartialEq, Eq, Structural)]
pub enum ObserverState {
    Normal,
    Degraded,
    Recovering,
    Failed,
}

/// The overall state for a health status, given whether any failure was
/// logged.
pub open spec fn state_for(status: HealthStatus, any_failure: bool) -> ObserverState {
    match status {
        HealthStatus::Healthy => ObserverState::Normal,
        HealthStatus::Degraded => ObserverState::Degraded,
        HealthStatus::Critical => if any_failure {
            ObserverState::Failed
        } else {
            ObserverState::Recovering
        },
        HealthStatus::Unknown => ObserverState::Normal,
    }
}

/// Whether an observation found a failure or a conflict.
pub open spec fn has_issue(o: Observation) -> bool {
    o.failures_detected > 0 || o.conflicts_detected > 0
}

/// The unified observer.
pub struct SystemObserver {
    pub observations: Vec<Observation>,
    pub failure_detector: FailureDetector,
    pub conflict_detector: ConflictDetector,
    pub health_monitor: HealthMonitor,
    pub sequence: u32,
    pub state: ObserverState,
    pub total_failures: usize,
    pub total_conflicts: usize,
    pub observation_enabled: bool,
}

impl SystemObserver {
    pub open spec fn wf(&self) -> bool {
        self.health_monitor.wf()
    }

    /// Room to observe one more operation of `execution_time` at `timestamp`.
    pub open spec fn can_observe(&self, execution_time: u64, timestamp: u64) -> bool {
        &&& self.sequence < u32::MAX
        &&& self.total_failures < usize::MAX
        &&& self.total_conflicts < usize::MAX
        &&& self.conflict_detector.sequence < u32::MAX
        &&& self.health_monitor.can_record(execution_time)
        &&& self.health_monitor.check_count < u32::MAX
        &&& self.health_monitor.total_operations < u32::MAX
        &&& (self.health_monitor.total_errors + 1) * 100 <= u32::MAX
        &&& (self.health_monitor.start_time > 0 ==> timestamp >= self.health_monitor.start_time)
    }

    pub fn new(initial_value: i32) -> (r: SystemObserver)
        ensures
            r.wf(),
            r.observations@.len() == 0,
            r.sequence == 0,
            r.state == ObserverState::Normal,
            r.total_failures == 0,
            r.total_conflicts == 0,
            r.observation_enabled,
            r.failure_detector.expected_value == initial_value,
            r.failure_detector.failures@.len() == 0,
            r.failure_detector.detection_enabled,
            r.conflict_detector.conflicts@.len() == 0,
            r.conflict_detector.sequence == 0,
            r.conflict_detector.invariant_checks_enabled,
            r.health_monitor.total_operations == 0,
            r.health_monitor.total_errors == 0,
            r.health_monitor.check_count == 0,
            r.health_monitor.start_time == 0,
    {
        SystemObserver {
            observations: Vec::new(),
            failure_detector: FailureDetector::new(initial_value),
            conflict_detector: ConflictDetector::new(),
            health_monitor: HealthMonitor::new(),
            sequence: 0,
            state: ObserverState::Normal,
            total_failures: 0,
            total_conflicts: 0,
            observation_enabled: true,
        }
    }

    /// Observes an operation: checks the value against the expected one and
    /// against the protocol's arithmetic, records the operation's health
    /// (a success when neither check fired), updates the overall state and
    /// logs the observation. With observation off, nothing is recorded and
    /// an unnumbered observation with no findings is returned.
    pub fn observe_operation(
        &mut self,
        operation: MessageOp,
        state_before: i32,
        state_after: i32,
        execution_time: u64,
        timestamp: u64,
    ) -> (r: Observation)
        requires
            old(self).wf(),
            old(self).can_observe(execution_time, timestamp),
        ensures
            final(self).wf(),
            !old(self).observation_enabled ==> r == (Observation {
                timestamp,
                sequence: 0,
                operation,
                state_before,
                state_after,
                execution_time,
                failures_detected: 0,
                conflicts_detected: 0,
            }) && final(self).observations == old(self).observations && final(self).sequence == old(
                self,
            ).sequence,
            old(self).observation_enabled ==> {
                let failed = old(self).failure_detector.detection_enabled && state_after != old(
                    self,
                ).failure_detector.expected_value;
                let conflicted = old(self).conflict_detector.invariant_checks_enabled && match expected_of(
                    operation,
                    state_before,
                ) {
                    Some(e) => e != state_after,
                    None => false,
                };
                &&& r == (Observation {
                    timestamp,
                    sequence: final(self).sequence,
                    operation,
                    state_before,
                    state_after,
                    execution_time,
                    failures_detected: if failed {
                        1
                    } else {
                        0
                    },
                    conflicts_detected: if conflicted {
                        1
                    } else {
                        0
                    },
                })
                &&& final(self).sequence == old(self).sequence + 1
                &&& final(self).observations@ == old(self).observations@.push(r)
                &&& final(self).total_failures == old(self).total_failures + r.failures_detected
                &&& final(self).total_conflicts == old(self).total_conflicts + r.conflicts_detected
                &&& final(self).health_monitor.total_operations == old(
                    self,
                ).health_monitor.total_operations + 1
                &&& final(self).health_monitor.total_errors == old(self).health_monitor.total_errors
                    + if failed || conflicted {
                    1int
                } else {
                    0int
                }
                &&& final(self).state == state_for(
                    final(self).health_monitor.metrics_at(timestamp).status,
                    final(self).failure_detector.failures@.len() > 0,
                )
            },
            final(self).observation_enabled == old(self).observation_enabled,
    {
        if !self.observation_enabled {
            return Observation {
                timestamp,
                sequence: 0,
                operation,
                state_before,
                state_after,
                execution_time,
                failures_detected: 0,
                conflicts_detected: 0,
            };
        }
        self.sequence = self.sequence + 1;
        let failure = self.failure_detector.check_divergence(state_after, timestamp);
        let failure_count: usize = if failure.is_some() {
            1
        } else {
            0
        };
        self.total_failures = self.total_failures + failure_count;
        let conflict = self.conflict_detector.check_arithmetic_invariant(
            operation,
            state_before,
            state_after,
        );
        let conflict_count: usize = if conflict.is_some() {
            1
        } else {
            0
        };
        self.total_conflicts = self.total_conflicts + conflict_count;
        let success = conflict.is_none() && failure.is_none();
        self.health_monitor.record_operation(success, execution_time);
        self.update_state(timestamp);
        let obs = Observation {
            timestamp,
            sequence: self.sequence,
            operation,
            state_before,
            state_after,
            execution_time,
            failures_detected: failure_count,
            conflicts_detected: conflict_count,
        };
        self.observations.push(obs);
        obs
    }

    /// Sets the overall state from a health check at `current_time`.
    fn update_state(&mut self, current_time: u64)
        requires
            old(self).wf(),
            old(self).health_monitor.can_check(current_time),
        ensures
            final(self).wf(),
            final(self).state == state_for(
                old(self).health_monitor.metrics_at(current_time).status,
                old(self).failure_detector.failures@.len() > 0,
            ),
            final(self).health_monitor == (HealthMonitor {
                check_count: (old(self).health_monitor.check_count + 1) as u32,
                ..old(self).health_monitor
            }),
            final(self).observations == old(self).observations,
            final(self).failure_detector == old(self).failure_detector,
            final(self).conflict_detector == old(self).conflict_detector,
            final(self).sequence == old(self).sequence,
            final(self).total_failures == old(self).total_failures,
            final(self).total_conflicts == old(self).total_conflicts,
            final(self).observation_enabled == old(self).observation_enabled,
    {
        let metrics = self.health_monitor.check_health(current_time);
        self.state = match metrics.status {
            HealthStatus::Healthy => ObserverState::Normal,
            HealthStatus::Degraded => ObserverState::Degraded,
            HealthStatus::Critical => {
                if self.failure_detector.failure_count() > 0 {
                    ObserverState::Failed
                } else {
                    ObserverState::Recovering
                }
            },
            HealthStatus::Unknown => ObserverState::Normal,
        };
    }

    /// Name of the overall state.
    pub fn current_state(&self) -> (r: &'static str)
        ensures
            r == (match self.state {
                ObserverState::Normal => "normal",
                ObserverState::Degraded => "degraded",
                ObserverState::Recovering => "recovering",
                ObserverState::Failed => "failed",
            }),
    {
        match self.state {
            ObserverState::Normal => "normal",
            ObserverState::Degraded => "degraded",
            ObserverState::Recovering => "recovering",
            ObserverState::Failed => "failed",
        }
    }

    pub fn observation_count(&self) -> (r: usize)
        ensures
            r == self.observations@.len(),
    {
        self.observations.len()
    }

    /// (health status, error rate, failures found by observation) at
    /// `current_time`; the health check is counted.
    pub fn health_summary(&mut self, current_time: u64) -> (r: (HealthStatus, u32, u32))
        requires
            old(self).wf(),
            old(self).health_monitor.can_check(current_time),
        ensures
            r == (
                old(self).health_monitor.metrics_at(current_time).status,
                old(self).health_monitor.metrics_at(current_time).error_rate,
                old(self).total_failures as u32,
            ),
            final(self).wf(),
            final(self).observations == old(self).observations,
            final(self).state == old(self).state,
    {
        let metrics = self.health_monitor.check_health(current_time);
        (metrics.status, metrics.error_rate, self.total_failures as u32)
    }

    /// (failures logged, conflicts logged, observations)
    pub fn diagnostic_summary(&self) -> (r: (usize, usize, usize))
        ensures
            r.0 == self.failure_detector.failures@.len(),
            r.1 == self.conflict_detector.conflicts@.len(),
            r.2 == self.observations@.len(),
    {
        (
            self.failure_detector.failure_count(),
            self.conflict_detector.conflict_count(),
            self.observations.len(),
        )
    }

    /// The observations that found a failure or a conflict, in order.
    pub fn operations_with_issues(&self) -> (r: Vec<Observation>)
        ensures
            r@ == self.observations@.filter(|o: Observation| has_issue(o)),
    {
        let mut out: Vec<Observation> = Vec::new();
        let mut i: usize = 0;
        while i < self.observations.len()
            invariant
                i <= self.observations@.len(),
                out@ == self.observations@.take(i as int).filter(|o: Observation| has_issue(o)),
            decreases self.observations@.len() - i,
        {
            let o = self.observations[i];
            proof {
                assert(self.observations@.take(i + 1) =~= self.observations@.take(i as int).push(o));
                self.observations@.take(i as int).lemma_filter_push(o, |o: Observation| has_issue(o));
            }
            if o.failures_detected > 0 || o.conflicts_detected > 0 {
                out.push(o);
            }
            i = i + 1;
        }
        proof {
            assert(self.observations@.take(i as int) =~= self.observations@);
        }
        out
    }

    /// The last `count` observations (all if fewer), in order.
    pub fn recent_observations(&self, count: usize) -> (r: Vec<Observation>)
        ensures
            r@ == self.observations@.skip(
                self.observations@.len() - (if count < self.observations@.len() {
                    count as int
                } else {
                    self.observations@.len() as int
                }),
            ),
    {
        let n = self.observations.len();
        let start = if count < n {
            n - count
        } else {
            0
        };
        let mut out: Vec<Observation> = Vec::new();
        let mut i: usize = start;
        while i < n
            invariant
                start <= i <= n,
                n == self.observations@.len(),
                out@ == self.observations@.subrange(start as int, i as int),
            decreases n - i,
        {
            out.push(self.observations[i]);
            proof {
                assert(out@ =~= self.observations@.subrange(start as int, i + 1));
            }
            i = i + 1;
        }
        proof {
            assert(out@ =~= self.observations@.skip(start as int));
        }
        out
    }

    /// How many observations of `op` found a failure.
    pub fn failure_pattern_in_operation(&self, op: MessageOp) -> (r: usize)
        ensures
            r == self.observations@.filter(
                |o: Observation| o.operation == op && o.failures_detected > 0,
            ).len(),
    {
        let mut count: usize = 0;
        let mut i: usize = 0;
        while i < self.observations.len()
            invariant
                i <= self.observations@.len(),
                count == self.observations@.take(i as int).filter(
                    |o: Observation| o.operation == op && o.failures_detected > 0,
                ).len(),
                count <= i,
            decreases self.observations@.len() - i,
        {
            let o = self.observations[i];
            proof {
                assert(self.observations@.take(i + 1) =~= self.observations@.take(i as int).push(o));
                self.observations@.take(i as int).lemma_filter_push(
                    o,
                    |o: Observation| o.operation == op && o.failures_detected > 0,
                );
            }
            if o.operation == op && o.failures_detected > 0 {
                count = count + 1;
            }
            i = i + 1;
        }
        proof {
            assert(self.observations@.take(i as int) =~= self.observations@);
        }
        count
    }

    pub fn set_observation_enabled(&mut self, enabled: bool)
        ensures
            final(self).observation_enabled == enabled,
            final(self).observations == old(self).observations,
            final(self).sequence == old(self).sequence,
            final(self).state == old(self).state,
            final(self).wf() == old(self).wf(),
    {
        self.observation_enabled = enabled;
    }

    /// Forgets the observations; the detectors keep what they found.
    pub fn clear_observations(&mut self)
        ensures
            final(self).observations@.len() == 0,
            final(self).sequence == old(self).sequence,
            final(self).state == old(self).state,
            final(self).total_failures == old(self).total_failures,
            final(self).total_conflicts == old(self).total_conflicts,
            final(self).wf() == old(self).wf(),
    {
        self.observations.clear();
    }

    /// Starts over from `initial_value` with fresh detectors and monitor;
    /// the overall state and the enable switch are kept.
    pub fn reset(&mut self, initial_value: i32)
        ensures
            final(self).wf(),
            final(self).observations@.len() == 0,
            final(self).sequence == 0,
            final(self).total_failures == 0,
            final(self).total_conflicts == 0,
            final(self).failure_detector.expected_value == initial_value,
            final(self).failure_detector.failures@.len() == 0,
            final(self).conflict_detector.conflicts@.len() == 0,
            final(self).health_monitor.total_operations == 0,
            final(self).state == old(self).state,
            final(self).observation_enabled == old(self).observation_enabled,
    {
        self.observations.clear();
        self.failure_detector = FailureDetector::new(initial_value);
        self.conflict_detector = ConflictDetector::new();
        self.health_monitor = HealthMonitor::new();
        self.sequence = 0;
        self.total_failures = 0;
        self.total_conflicts = 0;
    }
}

} // verus!
