//! Detects failures of the counter system and picks recovery actions.

use vstd::prelude::*;
use crate::health_monitor::HealthStatus;

verus! {

/// Failure categories.
#[derive(Debug, Clone, Copy, PartialEq, Eq, Structural)]
pub enum FailureKind {
    StateCorruption,
    QueueOverflow,
    DeadlockCondition,
    ResourceExhaustion,
    HealthCritical,
    RecoveryFailed,
}

/// Evidence of a failure.
#[derive(Debug, Clone, Copy, PartialEq, Eq, Structural)]
pub struct Failure {
    pub kind: FailureKind,
    pub timestamp: u64,
    pub sequence: u32,
    pub expected_value: i32,
    pub actual_value: i32,
    pub recoverable: bool,
}

/// Whether failures of a kind can be recovered from.
pub open spec fn recoverable_kind(kind: FailureKind) -> bool {
    kind == FailureKind::HealthCritical || kind == FailureKind::QueueOverflow
}

/// A failure as `Failure::new` builds it.
pub open spec fn failure_of(kind: FailureKind, timestamp: u64, expected: i32, actual: i32) -> Failure {
    Failure {
        kind,
        timestamp,
        sequence: 0,
        expected_value: expected,
        actual_value: actual,
        recoverable: recoverable_kind(kind),
    }
}

impl Failure {
    pub fn new(kind: FailureKind, timestamp: u64, expected: i32, actual: i32) -> (r: Failure)
        ensures
            r == failure_of(kind, timestamp, expected, actual),
    {
        let recoverable = match kind {
            FailureKind::HealthCritical | FailureKind::QueueOverflow => true,
            _ => false,
        };
        Failure {
            kind,
            timestamp,
            sequence: 0,
            expected_value: expected,
            actual_value: actual,
            recoverable,
        }
    }
}

/// Recovery actions.
#[derive(Debug, Clone, Copy, PartialEq, Eq, Structural)]
pub enum RecoveryAction {
    ClearQueue,
    ResetState,
    ClearHistory,
    ReleaseResources,
    Abort,
}

/// Outcome of a recovery.
#[derive(Debug, Clone, Copy, PartialEq, Eq, Structural)]
pub struct RecoveryResult {
    pub action: RecoveryAction,
    pub success: bool,
    pub state_before: i32,
    pub state_after: i32,
}

/// The action taken for a kind of failure.
pub open spec fn action_for(kind: FailureKind) -> RecoveryAction {
    match kind {
        FailureKind::QueueOverflow => RecoveryAction::ClearQueue,
        FailureKind::HealthCritical => RecoveryAction::ReleaseResources,
        FailureKind::StateCorruption => RecoveryAction::ResetState,
        _ => RecoveryAction::Abort,
    }
}

/// What recovering from `f` at value `current` gives.
pub open spec fn recovery_of(f: Failure, current: i32) -> RecoveryResult {
    let action = action_for(f.kind);
    let success = action != RecoveryAction::Abort;
    RecoveryResult {
        action,
        success,
        state_before: current,
        state_after: if success {
            f.expected_value
        } else {
            current
        },
    }
}

/// Capacity of the failure log.
pub const MAX_FAILURES: usize = 100;

/// Failure detector.
pub struct FailureDetector {
    pub failures: Vec<Failure>,
    pub recoveries: Vec<RecoveryResult>,
    pub sequence: u32,
    pub last_known_value: i32,
    pub expected_value: i32,
    pub detection_enabled: bool,
    pub max_failures: usize,
}

/// The failure log after reporting `f`: kept if there is room.
pub open spec fn logged(failures: Seq<Failure>, f: Failure, max: usize) -> Seq<Failure> {
    if failures.len() < max {
        failures.push(f)
    } else {
        failures
    }
}

impl FailureDetector {
    pub fn new(initial_value: i32) -> (r: FailureDetector)
        ensures
            r.failures@.len() == 0,
            r.recoveries@.len() == 0,
            r.sequence == 0,
            r.last_known_value == initial_value,
            r.expected_value == initial_value,
            r.detection_enabled,
            r.max_failures == MAX_FAILURES,
    {
        FailureDetector {
            failures: Vec::new(),
            recoveries: Vec::new(),
            sequence: 0,
            last_known_value: initial_value,
            expected_value: initial_value,
            detection_enabled: true,
            max_failures: MAX_FAILURES,
        }
    }

    /// Logs a failure if there is room, and returns it.
    fn report(&mut self, f: Failure) -> (r: Failure)
        ensures
            r == f,
            final(self).failures@ == logged(old(self).failures@, f, old(self).max_failures),
            final(self).recoveries == old(self).recoveries,
            final(self).sequence == old(self).sequence,
            final(self).last_known_value == old(self).last_known_value,
            final(self).expected_value == old(self).expected_value,
            final(self).detection_enabled == old(self).detection_enabled,
            final(self).max_failures == old(self).max_failures,
    {
        if self.failures.len() < self.max_failures {
            self.failures.push(f);
        }
        f
    }

    /// When detection is on, a value other than the expected one is a state
    /// corruption; a matching value becomes the last known one.
    pub fn check_divergence(&mut self, current: i32, timestamp: u64) -> (r: Option<Failure>)
        ensures
            !old(self).detection_enabled ==> r.is_none() && final(self).failures == old(
                self,
            ).failures && final(self).last_known_value == old(self).last_known_value,
            old(self).detection_enabled && current != old(self).expected_value ==> {
                let f = failure_of(
                    FailureKind::StateCorruption,
                    timestamp,
                    old(self).expected_value,
                    current,
                );
                &&& r == Some(f)
                &&& final(self).failures@ == logged(old(self).failures@, f, old(self).max_failures)
                &&& final(self).last_known_value == old(self).last_known_value
            },
            old(self).detection_enabled && current == old(self).expected_value ==> r.is_none()
                && final(self).failures == old(self).failures && final(self).last_known_value
                == current,
            final(self).recoveries == old(self).recoveries,
            final(self).sequence == old(self).sequence,
            final(self).expected_value == old(self).expected_value,
            final(self).detection_enabled == old(self).detection_enabled,
            final(self).max_failures == old(self).max_failures,
    {
        if !self.detection_enabled {
            return None;
        }
        if current != self.expected_value {
            let failure = Failure::new(
                FailureKind::StateCorruption,
                timestamp,
                self.expected_value,
                current,
            );
            let f = self.report(failure);
            return Some(f);
        }
        self.last_known_value = current;
        None
    }

    /// An operation left the counter at `operation_value`: that is now the
    /// expected and last known value.
    pub fn observe_operation(&mut self, operation_value: i32, timestamp: u64)
        requires
            old(self).sequence < u32::MAX,
        ensures
            final(self).sequence == old(self).sequence + 1,
            final(self).last_known_value == operation_value,
            final(self).expected_value == operation_value,
            final(self).failures == old(self).failures,
            final(self).recoveries == old(self).recoveries,
            final(self).detection_enabled == old(self).detection_enabled,
            final(self).max_failures == old(self).max_failures,
    {
        self.sequence = self.sequence + 1;
        self.last_known_value = operation_value;
        self.expected_value = operation_value;
    }

    /// A queue more than 90% full overflows.
    pub fn detect_queue_overflow(&mut self, queue_size: usize, max_size: usize, timestamp: u64) -> (r:
        Option<Failure>)
        requires
            max_size * 90 <= usize::MAX,
        ensures
            queue_size > max_size * 90 / 100 ==> {
                let f = failure_of(
                    FailureKind::QueueOverflow,
                    timestamp,
                    max_size as i32,
                    queue_size as i32,
                );
                &&& r == Some(f)
                &&& final(self).failures@ == logged(old(self).failures@, f, old(self).max_failures)
            },
            queue_size <= max_size * 90 / 100 ==> r.is_none() && final(self).failures == old(
                self,
            ).failures,
            final(self).recoveries == old(self).recoveries,
            final(self).sequence == old(self).sequence,
            final(self).last_known_value == old(self).last_known_value,
            final(self).expected_value == old(self).expected_value,
            final(self).detection_enabled == old(self).detection_enabled,
            final(self).max_failures == old(self).max_failures,
    {
        if queue_size > max_size * 90 / 100 {
            let failure = Failure::new(
                FailureKind::QueueOverflow,
                timestamp,
                max_size as i32,
                queue_size as i32,
            );
            let f = self.report(failure);
            return Some(f);
        }
        None
    }

    /// A critical health status is a failure.
    pub fn detect_health_critical(&mut self, status: HealthStatus, timestamp: u64) -> (r: Option<
        Failure,
    >)
        ensures
            status == HealthStatus::Critical ==> {
                let f = failure_of(FailureKind::HealthCritical, timestamp, 0, 0);
                &&& r == Some(f)
                &&& final(self).failures@ == logged(old(self).failures@, f, old(self).max_failures)
            },
            status != HealthStatus::Critical ==> r.is_none() && final(self).failures == old(
                self,
            ).failures,
            final(self).recoveries == old(self).recoveries,
            final(self).sequence == old(self).sequence,
            final(self).last_known_value == old(self).last_known_value,
            final(self).expected_value == old(self).expected_value,
            final(self).detection_enabled == old(self).detection_enabled,
            final(self).max_failures == old(self).max_failures,
    {
        if status == HealthStatus::Critical {
            let failure = Failure::new(FailureKind::HealthCritical, timestamp, 0, 0);
            let f = self.report(failure);
            return Some(f);
        }
        None
    }

    /// Picks and records the recovery for `failure`: every action but Abort
    /// succeeds and restores the failure's expected value.
    pub fn recover(&mut self, failure: &Failure, current_value: i32) -> (r: RecoveryResult)
        ensures
            r == recovery_of(*failure, current_value),
            final(self).recoveries@ == old(self).recoveries@.push(r),
            final(self).failures == old(self).failures,
            final(self).sequence == old(self).sequence,
            final(self).last_known_value == old(self).last_known_value,
            final(self).expected_value == old(self).expected_value,
            final(self).detection_enabled == old(self).detection_enabled,
            final(self).max_failures == old(self).max_failures,
    {
        let action = match failure.kind {
            FailureKind::QueueOverflow => RecoveryAction::ClearQueue,
            FailureKind::HealthCritical => RecoveryAction::ReleaseResources,
            FailureKind::StateCorruption => RecoveryAction::ResetState,
            _ => RecoveryAction::Abort,
        };
        let success = match action {
            RecoveryAction::ClearQueue => true,
            RecoveryAction::ResetState => true,
            RecoveryAction::ClearHistory => true,
            RecoveryAction::ReleaseResources => true,
            RecoveryAction::Abort => false,
        };
        let state_after = if success {
            failure.expected_value
        } else {
            current_value
        };
        let result = RecoveryResult { action, success, state_before: current_value, state_after };
        self.recoveries.push(result);
        result
    }

    pub fn failure_count(&self) -> (r: usize)
        ensures
            r == self.failures@.len(),
    {
        self.failures.len()
    }

    pub fn recovery_count(&self) -> (r: usize)
        ensures
            r == self.recoveries@.len(),
    {
        self.recoveries.len()
    }

    /// The logged failures of kind `kind`, in order.
    pub fn failures_by_kind(&self, kind: FailureKind) -> (r: Vec<Failure>)
        ensures
            r@ == self.failures@.filter(|f: Failure| f.kind == kind),
    {
        let mut out: Vec<Failure> = Vec::new();
        let mut i: usize = 0;
        while i < self.failures.len()
            invariant
                i <= self.failures@.len(),
                out@ == self.failures@.take(i as int).filter(|f: Failure| f.kind == kind),
            decreases self.failures@.len() - i,
        {
            let f = self.failures[i];
            proof {
                assert(self.failures@.take(i + 1) =~= self.failures@.take(i as int).push(f));
                self.failures@.take(i as int).lemma_filter_push(f, |f: Failure| f.kind == kind);
            }
            if f.kind == kind {
                out.push(f);
            }
            i = i + 1;
        }
        proof {
            assert(self.failures@.take(i as int) =~= self.failures@);
        }
        out
    }

    /// The recoveries that succeeded, in order.
    pub fn successful_recoveries(&self) -> (r: Vec<RecoveryResult>)
        ensures
            r@ == self.recoveries@.filter(|x: RecoveryResult| x.success),
    {
        let mut out: Vec<RecoveryResult> = Vec::new();
        let mut i: usize = 0;
        while i < self.recoveries.len()
            invariant
                i <= self.recoveries@.len(),
                out@ == self.recoveries@.take(i as int).filter(|x: RecoveryResult| x.success),
            decreases self.recoveries@.len() - i,
        {
            let x = self.recoveries[i];
            proof {
                assert(self.recoveries@.take(i + 1) =~= self.recoveries@.take(i as int).push(x));
                self.recoveries@.take(i as int).lemma_filter_push(x, |x: RecoveryResult| x.success);
            }
            if x.success {
                out.push(x);
            }
            i = i + 1;
        }
        proof {
            assert(self.recoveries@.take(i as int) =~= self.recoveries@);
        }
        out
    }

    pub fn set_detection_enabled(&mut self, enabled: bool)
        ensures
            final(self).detection_enabled == enabled,
            final(self).failures == old(self).failures,
            final(self).recoveries == old(self).recoveries,
            final(self).sequence == old(self).sequence,
            final(self).last_known_value == old(self).last_known_value,
            final(self).expected_value == old(self).expected_value,
            final(self).max_failures == old(self).max_failures,
    {
        self.detection_enabled = enabled;
    }

    /// Forgets failures, recoveries and the operation count.
    pub fn reset(&mut self)
        ensures
            final(self).failures@.len() == 0,
            final(self).recoveries@.len() == 0,
            final(self).sequence == 0,
            final(self).last_known_value == old(self).last_known_value,
            final(self).expected_value == old(self).expected_value,
            final(self).detection_enabled == old(self).detection_enabled,
            final(self).max_failures == old(self).max_failures,
    {
        self.failures.clear();
        self.recoveries.clear();
        self.sequence = 0;
    }
}

} // verus!
