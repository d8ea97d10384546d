//! One worker's in-memory runtime state.
//!
//! The runtime owns the worker's status, its FIFO invocation queue, the
//! one-shot interrupt signal that is observed at host-call boundaries,
//! the durability state (journal plus replay cursor) and the retry count
//! since the last success.  All status moves go through the state machine
//! in [`crate::runtime`].

use vstd::prelude::*;

use crate::host::DurableWorkerCtx;
use crate::model::{
    AccountId, CallingConvention, InterruptKind, InvocationKey, Val, WorkerId, WorkerStatus,
};
use crate::oplog::Oplog;
use crate::runtime::{
    decide_retry, spec_status_after, status_after, ExecutionEvent, RetryConfig, RetryDecision,
};

verus! {

/// One queued invocation.
pub struct Invocation {
    /// Present for invoke-and-await; binds the caller to the result.
    pub invocation_key: Option<InvocationKey>,
    pub function_name: String,
    pub args: Vec<Val>,
    pub calling_convention: CallingConvention,
}

/// The single-writer runtime state of one worker.
pub struct WorkerState {
    pub status: WorkerStatus,
    /// The worker's private host context: identity, journal and replay
    /// cursor, last observed instant.
    pub ctx: DurableWorkerCtx,
    /// One-shot interrupt signal, observed at the next host-call
    /// boundary.
    pub interrupting: Option<InterruptKind>,
    /// FIFO invocation queue; processed serially.
    pub queue: Vec<Invocation>,
    /// Recoverable errors since the last successful invocation.
    pub retry_count: u64,
}

impl WorkerState {
    pub open spec fn wf(self) -> bool {
        self.ctx.wf()
    }

    /// A (re-)instantiated worker: replay starts at the head of the
    /// journal, the queue is empty and no interrupt is pending.
    pub fn new(worker_id: WorkerId, account_id: AccountId, oplog: Oplog) -> (r: WorkerState)
        requires
            oplog.wf(),
        ensures
            r.wf(),
            r.status == WorkerStatus::Idle,
            r.ctx.worker_id == worker_id,
            r.ctx.account_id == account_id,
            r.ctx.durability.oplog == oplog,
            r.ctx.durability.replay_cursor == 0,
            r.interrupting is None,
            r.queue@.len() == 0,
            r.retry_count == 0,
    {
        WorkerState {
            status: WorkerStatus::Idle,
            ctx: DurableWorkerCtx::new(
                worker_id,
                account_id,
                crate::durability::DurabilityState::begin_replay(oplog),
            ),
            interrupting: None,
            queue: Vec::new(),
            retry_count: 0,
        }
    }

    /// Places an invocation at the tail of the queue; an idle worker
    /// starts running.
    pub fn enqueue(&mut self, invocation: Invocation)
        requires
            old(self).wf(),
        ensures
            final (self).wf(),
            final (self).queue@ == old(self).queue@.push(invocation),
            final (self).status == spec_status_after(
                old(self).status,
                ExecutionEvent::InvocationEnqueued,
            ),
            final (self).ctx == old(self).ctx,
            final (self).interrupting == old(self).interrupting,
            final (self).retry_count == old(self).retry_count,
    {
        self.queue.push(invocation);
        self.status = status_after(self.status, ExecutionEvent::InvocationEnqueued);
    }

    /// Takes the oldest queued invocation, if any: the queue is FIFO.
    pub fn take_next_invocation(&mut self) -> (r: Option<Invocation>)
        requires
            old(self).wf(),
        ensures
            final (self).wf(),
            old(self).queue@.len() == 0 ==> r is None && *final (self) == *old(self),
            old(self).queue@.len() > 0 ==> {
                &&& r matches Some(inv) && inv == old(self).queue@[0]
                &&& final (self).queue@ == old(self).queue@.subrange(
                    1,
                    old(self).queue@.len() as int,
                )
            },
            final (self).status == old(self).status,
            final (self).ctx == old(self).ctx,
            final (self).interrupting == old(self).interrupting,
            final (self).retry_count == old(self).retry_count,
    {
        if self.queue.len() == 0 {
            None
        } else {
            let inv = self.queue.remove(0);
            proof {
                assert(self.queue@ =~= old(self).queue@.subrange(
                    1,
                    old(self).queue@.len() as int,
                ));
            }
            Some(inv)
        }
    }

    /// The current invocation finished; with an empty queue the worker
    /// goes idle, otherwise it keeps running.  A success resets the
    /// retry count.
    pub fn finish_invocation(&mut self)
        requires
            old(self).wf(),
        ensures
            final (self).wf(),
            final (self).status == spec_status_after(
                old(self).status,
                ExecutionEvent::InvocationCompleted { queue_empty: old(self).queue@.len() == 0 },
            ),
            final (self).retry_count == 0,
            final (self).queue == old(self).queue,
            final (self).ctx == old(self).ctx,
            final (self).interrupting == old(self).interrupting,
    {
        let queue_empty = self.queue.len() == 0;
        self.status = status_after(
            self.status,
            ExecutionEvent::InvocationCompleted { queue_empty },
        );
        self.retry_count = 0;
    }

    /// Installs the one-shot interrupt signal.  A signal is installed
    /// exactly when the worker is running — only an in-flight execution
    /// has a host-call boundary to observe it; the report says whether
    /// the caller has a pause to await.
    pub fn set_interrupting(&mut self, kind: InterruptKind) -> (installed: bool)
        requires
            old(self).wf(),
        ensures
            final (self).wf(),
            installed == (old(self).status == WorkerStatus::Running),
            installed ==> final (self).interrupting == Some(kind),
            !installed ==> *final (self) == *old(self),
            final (self).status == old(self).status,
            final (self).queue == old(self).queue,
            final (self).ctx == old(self).ctx,
            final (self).retry_count == old(self).retry_count,
    {
        if self.status == WorkerStatus::Running {
            self.interrupting = Some(kind);
            true
        } else {
            false
        }
    }

    /// Observes and clears the interrupt signal at a host-call boundary;
    /// the status moves as the state machine dictates for the observed
    /// kind.  The module is never preempted anywhere else.
    pub fn check_interrupt(&mut self) -> (r: Option<InterruptKind>)
        requires
            old(self).wf(),
        ensures
            final (self).wf(),
            r == old(self).interrupting,
            final (self).interrupting is None,
            r matches Some(kind) ==> final (self).status == spec_status_after(
                old(self).status,
                ExecutionEvent::HostInterrupt { kind },
            ),
            r is None ==> *final (self) == *old(self),
            final (self).queue == old(self).queue,
            final (self).ctx == old(self).ctx,
            final (self).retry_count == old(self).retry_count,
    {
        match self.interrupting {
            Some(kind) => {
                self.interrupting = None;
                self.status = status_after(self.status, ExecutionEvent::HostInterrupt { kind });
                Some(kind)
            },
            None => None,
        }
    }

    /// Replay divergence is fatal and non-retriable: the worker fails
    /// outright, and later invocations are rejected with
    /// `PreviousInvocationFailed` by the status guard.
    pub fn fail_divergence(&mut self)
        requires
            old(self).wf(),
        ensures
            final (self).wf(),
            final (self).status == WorkerStatus::Failed,
            final (self).queue == old(self).queue,
            final (self).ctx == old(self).ctx,
            final (self).retry_count == old(self).retry_count,
    {
        self.status = WorkerStatus::Failed;
    }

    /// A recoverable execution error: the retry count grows and the
    /// worker either waits for a retry (within budget) or fails for good.
    pub fn on_execution_error(&mut self, cfg: &RetryConfig) -> (r: RetryDecision)
        requires
            old(self).wf(),
        ensures
            final (self).wf(),
            final (self).retry_count == if old(self).retry_count < u64::MAX {
                old(self).retry_count + 1
            } else {
                old(self).retry_count as int
            },
            final (self).retry_count <= cfg.max_attempts ==> {
                &&& r is RetryAfter
                &&& final (self).status == spec_status_after(
                    old(self).status,
                    ExecutionEvent::ExecutionError,
                )
            },
            final (self).retry_count > cfg.max_attempts ==> {
                &&& r == RetryDecision::GiveUp
                &&& final (self).status == spec_status_after(
                    spec_status_after(old(self).status, ExecutionEvent::ExecutionError),
                    ExecutionEvent::RetryBudgetExhausted,
                )
            },
            final (self).queue == old(self).queue,
            final (self).ctx == old(self).ctx,
            final (self).interrupting == old(self).interrupting,
    {
        if self.retry_count < u64::MAX {
            self.retry_count = self.retry_count + 1;
        }
        self.status = status_after(self.status, ExecutionEvent::ExecutionError);
        let decision = decide_retry(cfg, self.retry_count);
        if let RetryDecision::GiveUp = decision {
            self.status = status_after(self.status, ExecutionEvent::RetryBudgetExhausted);
        }
        decision
    }

    /// The scheduled retry fires: the worker re-executes from replay.
    pub fn on_retry_timer(&mut self)
        requires
            old(self).wf(),
        ensures
            final (self).wf(),
            final (self).status == spec_status_after(
                old(self).status,
                ExecutionEvent::RetryTimerFired,
            ),
            final (self).queue == old(self).queue,
            final (self).ctx == old(self).ctx,
            final (self).interrupting == old(self).interrupting,
            final (self).retry_count == old(self).retry_count,
    {
        self.status = status_after(self.status, ExecutionEvent::RetryTimerFired);
    }

    /// Cooperative termination through the command-line interface's exit:
    /// the status moves to `Exited` and stays there; the call is not
    /// wrapped in the durability envelope.
    pub fn exit(&mut self)
        requires
            old(self).wf(),
        ensures
            final (self).wf(),
            final (self).status == spec_status_after(old(self).status, ExecutionEvent::Exited),
            final (self).queue == old(self).queue,
            final (self).ctx == old(self).ctx,
            final (self).retry_count == old(self).retry_count,
    {
        self.status = status_after(self.status, ExecutionEvent::Exited);
    }

    /// A promise the worker awaits was completed: a suspended worker
    /// resumes running.
    pub fn on_promise_completed(&mut self)
        requires
            old(self).wf(),
        ensures
            final (self).wf(),
            final (self).status == spec_status_after(
                old(self).status,
                ExecutionEvent::PromiseCompleted,
            ),
            final (self).queue == old(self).queue,
            final (self).ctx == old(self).ctx,
            final (self).retry_count == old(self).retry_count,
    {
        self.status = status_after(self.status, ExecutionEvent::PromiseCompleted);
    }

    /// An explicit resume request.
    pub fn resume(&mut self)
        requires
            old(self).wf(),
        ensures
            final (self).wf(),
            final (self).status == spec_status_after(old(self).status, ExecutionEvent::Resumed),
            final (self).queue == old(self).queue,
            final (self).ctx == old(self).ctx,
            final (self).retry_count == old(self).retry_count,
    {
        self.status = status_after(self.status, ExecutionEvent::Resumed);
    }
}

} // verus!
