//! The worker state machine and retry policy.
//!
//! A worker runtime observes events — invocations arriving and finishing,
//! interrupts surfacing at host-call boundaries, retry timers, promise
//! completions — and moves the worker's status accordingly.  The
//! transition function here is the single place those moves are defined;
//! the node-level executor and the tests both go through it.

use vstd::prelude::*;

use crate::model::{InterruptKind, WorkerStatus};

verus! {

/// An event observed by a worker's runtime.
#[derive(Clone, Copy, PartialEq, Eq, Structural, Debug)]
pub enum ExecutionEvent {
    /// An invocation was placed on the worker's queue.
    InvocationEnqueued,
    /// The current invocation finished; `queue_empty` says whether more
    /// are waiting.
    InvocationCompleted { queue_empty: bool },
    /// A host call returned an interrupt value instead of a result.
    HostInterrupt { kind: InterruptKind },
    /// The module terminated cooperatively.
    Exited,
    /// A host call failed with a recoverable error; a retry is scheduled.
    ExecutionError,
    /// The scheduled retry timer fired.
    RetryTimerFired,
    /// The retry budget is exhausted.
    RetryBudgetExhausted,
    /// A promise the worker awaits was completed.
    PromiseCompleted,
    /// An explicit resume request arrived.
    Resumed,
}

/// Whether a status admits no further transitions (short of deleting the
/// worker).
pub open spec fn spec_is_terminal(s: WorkerStatus) -> bool {
    s == WorkerStatus::Failed || s == WorkerStatus::Exited
}

/// Exec twin of [`spec_is_terminal`].
pub fn is_terminal(s: WorkerStatus) -> (r: bool)
    ensures
        r == spec_is_terminal(s),
{
    s == WorkerStatus::Failed || s == WorkerStatus::Exited
}

/// The worker state machine: the status after observing `e` in status `s`.
///
/// Unlisted combinations leave the status unchanged; in particular the
/// terminal statuses `Failed` and `Exited` absorb every event.
pub open spec fn spec_status_after(s: WorkerStatus, e: ExecutionEvent) -> WorkerStatus {
    if spec_is_terminal(s) {
        s
    } else {
        match (s, e) {
            (WorkerStatus::Idle, ExecutionEvent::InvocationEnqueued) => WorkerStatus::Running,
            (WorkerStatus::Running, ExecutionEvent::InvocationCompleted { queue_empty }) => {
                if queue_empty {
                    WorkerStatus::Idle
                } else {
                    WorkerStatus::Running
                }
            },
            (WorkerStatus::Running, ExecutionEvent::HostInterrupt { kind }) => {
                match kind {
                    InterruptKind::Suspend => WorkerStatus::Suspended,
                    InterruptKind::Interrupt => WorkerStatus::Interrupted,
                    InterruptKind::Restart => WorkerStatus::Idle,
                }
            },
            (WorkerStatus::Running, ExecutionEvent::Exited) => WorkerStatus::Exited,
            (WorkerStatus::Running, ExecutionEvent::ExecutionError) => WorkerStatus::Retrying,
            (WorkerStatus::Retrying, ExecutionEvent::RetryTimerFired) => WorkerStatus::Running,
            (WorkerStatus::Retrying, ExecutionEvent::RetryBudgetExhausted) => WorkerStatus::Failed,
            (WorkerStatus::Suspended, ExecutionEvent::PromiseCompleted) => WorkerStatus::Running,
            (WorkerStatus::Suspended, ExecutionEvent::Resumed) => WorkerStatus::Running,
            (WorkerStatus::Interrupted, ExecutionEvent::Resumed) => WorkerStatus::Running,
            _ => s,
        }
    }
}

/// Exec twin of [`spec_status_after`].
pub fn status_after(s: WorkerStatus, e: ExecutionEvent) -> (r: WorkerStatus)
    ensures
        r == spec_status_after(s, e),
{
    if is_terminal(s) {
        s
    } else {
        match (s, e) {
            (WorkerStatus::Idle, ExecutionEvent::InvocationEnqueued) => WorkerStatus::Running,
            (WorkerStatus::Running, ExecutionEvent::InvocationCompleted { queue_empty }) => {
                if queue_empty {
                    WorkerStatus::Idle
                } else {
                    WorkerStatus::Running
                }
            },
            (WorkerStatus::Running, ExecutionEvent::HostInterrupt { kind }) => {
                match kind {
                    InterruptKind::Suspend => WorkerStatus::Suspended,
                    InterruptKind::Interrupt => WorkerStatus::Interrupted,
                    InterruptKind::Restart => WorkerStatus::Idle,
                }
            },
            (WorkerStatus::Running, ExecutionEvent::Exited) => WorkerStatus::Exited,
            (WorkerStatus::Running, ExecutionEvent::ExecutionError) => WorkerStatus::Retrying,
            (WorkerStatus::Retrying, ExecutionEvent::RetryTimerFired) => WorkerStatus::Running,
            (WorkerStatus::Retrying, ExecutionEvent::RetryBudgetExhausted) => WorkerStatus::Failed,
            (WorkerStatus::Suspended, ExecutionEvent::PromiseCompleted) => WorkerStatus::Running,
            (WorkerStatus::Suspended, ExecutionEvent::Resumed) => WorkerStatus::Running,
            (WorkerStatus::Interrupted, ExecutionEvent::Resumed) => WorkerStatus::Running,
            _ => s,
        }
    }
}

/// Once a worker is `Exited` or `Failed`, no event moves its status; only
/// an explicit delete (which removes the worker altogether) ends it.
pub proof fn lemma_terminal_statuses_absorb(s: WorkerStatus, e: ExecutionEvent)
    requires
        spec_is_terminal(s),
    ensures
        spec_status_after(s, e) == s,
{
}

/// `Running` is reachable in one step from every non-terminal status.
pub proof fn lemma_running_reachable(s: WorkerStatus)
    requires
        !spec_is_terminal(s),
    ensures
        exists|e: ExecutionEvent| spec_status_after(s, e) == WorkerStatus::Running,
{
    match s {
        WorkerStatus::Running => {
            assert(spec_status_after(s, ExecutionEvent::InvocationEnqueued)
                == WorkerStatus::Running);
        },
        WorkerStatus::Idle => {
            assert(spec_status_after(s, ExecutionEvent::InvocationEnqueued)
                == WorkerStatus::Running);
        },
        WorkerStatus::Suspended => {
            assert(spec_status_after(s, ExecutionEvent::PromiseCompleted)
                == WorkerStatus::Running);
        },
        WorkerStatus::Interrupted => {
            assert(spec_status_after(s, ExecutionEvent::Resumed) == WorkerStatus::Running);
        },
        WorkerStatus::Retrying => {
            assert(spec_status_after(s, ExecutionEvent::RetryTimerFired)
                == WorkerStatus::Running);
        },
        _ => {},
    }
}

/// A worker moves out of `Suspended` only through a promise completion or
/// an explicit resume.
pub proof fn lemma_suspended_needs_completion_or_resume(e: ExecutionEvent)
    requires
        spec_status_after(WorkerStatus::Suspended, e) != WorkerStatus::Suspended,
    ensures
        e == ExecutionEvent::PromiseCompleted || e == ExecutionEvent::Resumed,
{
}

/// Exponential retry backoff: initial delay, cap, integer multiplier, and
/// the retry budget.
#[derive(Clone, Copy, Debug)]
pub struct RetryConfig {
    pub initial_delay_ms: u64,
    pub max_delay_ms: u64,
    pub multiplier: u64,
    pub max_attempts: u64,
}

impl RetryConfig {
    /// A configuration is usable when delays grow and the budget admits at
    /// least one attempt.
    pub open spec fn wf(self) -> bool {
        &&& self.initial_delay_ms >= 1
        &&& self.max_delay_ms >= self.initial_delay_ms
        &&& self.multiplier >= 1
        &&& self.max_attempts >= 1
    }
}

/// The delay before retry attempt `attempt` (zero-based):
/// `initial * multiplier^attempt`, saturated at the configured cap.
pub open spec fn spec_backoff_delay_ms(cfg: RetryConfig, attempt: u64) -> u64
    decreases attempt,
{
    if attempt == 0 {
        if cfg.initial_delay_ms <= cfg.max_delay_ms {
            cfg.initial_delay_ms
        } else {
            cfg.max_delay_ms
        }
    } else {
        let prev = spec_backoff_delay_ms(cfg, (attempt - 1) as u64);
        if prev * cfg.multiplier <= cfg.max_delay_ms {
            (prev * cfg.multiplier) as u64
        } else {
            cfg.max_delay_ms
        }
    }
}

/// Exec twin of [`spec_backoff_delay_ms`].
pub fn backoff_delay_ms(cfg: &RetryConfig, attempt: u64) -> (r: u64)
    ensures
        r == spec_backoff_delay_ms(*cfg, attempt),
{
    let mut delay: u64 = if cfg.initial_delay_ms <= cfg.max_delay_ms {
        cfg.initial_delay_ms
    } else {
        cfg.max_delay_ms
    };
    let mut i: u64 = 0;
    while i < attempt
        invariant
            i <= attempt,
            delay == spec_backoff_delay_ms(*cfg, i),
        decreases attempt - i,
    {
        if cfg.multiplier != 0 && delay <= cfg.max_delay_ms / cfg.multiplier {
            proof {
                assert(delay * cfg.multiplier <= (cfg.max_delay_ms / cfg.multiplier)
                    * cfg.multiplier) by (nonlinear_arith)
                    requires
                        delay <= cfg.max_delay_ms / cfg.multiplier,
                        cfg.multiplier >= 1,
                ;
                assert((cfg.max_delay_ms / cfg.multiplier) * cfg.multiplier
                    <= cfg.max_delay_ms) by (nonlinear_arith)
                    requires
                        cfg.multiplier >= 1,
                ;
            }
            let next = delay * cfg.multiplier;
            delay = if next <= cfg.max_delay_ms {
                next
            } else {
                cfg.max_delay_ms
            };
        } else if cfg.multiplier == 0 {
            delay = 0;
        } else {
            proof {
                assert(delay * cfg.multiplier > cfg.max_delay_ms) by (nonlinear_arith)
                    requires
                        delay > cfg.max_delay_ms / cfg.multiplier,
                        cfg.multiplier >= 1,
                ;
            }
            delay = cfg.max_delay_ms;
        }
        i = i + 1;
    }
    delay
}

/// What the runtime does after a recoverable execution error: schedule a
/// retry while the budget allows, otherwise give the worker up.
#[derive(Clone, Copy, PartialEq, Eq, Structural, Debug)]
pub enum RetryDecision {
    /// Move to `Retrying` and wake up after the given delay.
    RetryAfter { delay_ms: u64 },
    /// The budget is exhausted; move to `Failed`.
    GiveUp,
}

/// Decides the reaction to a recoverable error given the number of errors
/// seen since the last success (`retry_count`, counting this one).
pub fn decide_retry(cfg: &RetryConfig, retry_count: u64) -> (r: RetryDecision)
    requires
        retry_count >= 1,
    ensures
        retry_count <= cfg.max_attempts ==> r == (RetryDecision::RetryAfter {
            delay_ms: spec_backoff_delay_ms(*cfg, (retry_count - 1) as u64),
        }),
        retry_count > cfg.max_attempts ==> r == RetryDecision::GiveUp,
{
    if retry_count <= cfg.max_attempts {
        RetryDecision::RetryAfter { delay_ms: backoff_delay_ms(cfg, retry_count - 1) }
    } else {
        RetryDecision::GiveUp
    }
}

} // verus!
