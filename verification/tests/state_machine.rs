//! The worker state machine, retry backoff and interrupt plumbing.

use worker_executor::model::{AccountId, InterruptKind, TemplateId, WorkerId, WorkerStatus};
use worker_executor::oplog::Oplog;
use worker_executor::runtime::{
    backoff_delay_ms, decide_retry, is_terminal, status_after, ExecutionEvent, RetryConfig,
    RetryDecision,
};
use worker_executor::worker::WorkerState;

fn worker(name: &str) -> WorkerId {
    WorkerId {
        template_id: TemplateId { high_bits: 0, low_bits: 1 },
        worker_name: name.to_string(),
    }
}

#[test]
fn transition_table() {
    assert_eq!(status_after(WorkerStatus::Idle, ExecutionEvent::InvocationEnqueued), WorkerStatus::Running);
    assert_eq!(
        status_after(WorkerStatus::Running, ExecutionEvent::InvocationCompleted { queue_empty: true }),
        WorkerStatus::Idle
    );
    assert_eq!(
        status_after(WorkerStatus::Running, ExecutionEvent::InvocationCompleted { queue_empty: false }),
        WorkerStatus::Running
    );
    assert_eq!(
        status_after(WorkerStatus::Running, ExecutionEvent::HostInterrupt { kind: InterruptKind::Suspend }),
        WorkerStatus::Suspended
    );
    assert_eq!(
        status_after(WorkerStatus::Running, ExecutionEvent::HostInterrupt { kind: InterruptKind::Interrupt }),
        WorkerStatus::Interrupted
    );
    assert_eq!(
        status_after(WorkerStatus::Running, ExecutionEvent::HostInterrupt { kind: InterruptKind::Restart }),
        WorkerStatus::Idle
    );
    assert_eq!(status_after(WorkerStatus::Running, ExecutionEvent::ExecutionError), WorkerStatus::Retrying);
    assert_eq!(status_after(WorkerStatus::Retrying, ExecutionEvent::RetryTimerFired), WorkerStatus::Running);
    assert_eq!(status_after(WorkerStatus::Retrying, ExecutionEvent::RetryBudgetExhausted), WorkerStatus::Failed);
    assert_eq!(status_after(WorkerStatus::Suspended, ExecutionEvent::PromiseCompleted), WorkerStatus::Running);
    assert_eq!(status_after(WorkerStatus::Suspended, ExecutionEvent::Resumed), WorkerStatus::Running);
    assert_eq!(status_after(WorkerStatus::Interrupted, ExecutionEvent::Resumed), WorkerStatus::Running);
    assert_eq!(status_after(WorkerStatus::Running, ExecutionEvent::Exited), WorkerStatus::Exited);
}

#[test]
fn terminal_statuses_absorb_every_event() {
    let events = [
        ExecutionEvent::InvocationEnqueued,
        ExecutionEvent::InvocationCompleted { queue_empty: true },
        ExecutionEvent::HostInterrupt { kind: InterruptKind::Restart },
        ExecutionEvent::Exited,
        ExecutionEvent::ExecutionError,
        ExecutionEvent::RetryTimerFired,
        ExecutionEvent::RetryBudgetExhausted,
        ExecutionEvent::PromiseCompleted,
        ExecutionEvent::Resumed,
    ];
    for e in events {
        assert_eq!(status_after(WorkerStatus::Failed, e), WorkerStatus::Failed);
        assert_eq!(status_after(WorkerStatus::Exited, e), WorkerStatus::Exited);
    }
    assert!(is_terminal(WorkerStatus::Failed));
    assert!(is_terminal(WorkerStatus::Exited));
    assert!(!is_terminal(WorkerStatus::Suspended));
}

#[test]
fn backoff_is_exponential_and_capped() {
    let cfg = RetryConfig { initial_delay_ms: 10, max_delay_ms: 70, multiplier: 2, max_attempts: 5 };
    assert_eq!(backoff_delay_ms(&cfg, 0), 10);
    assert_eq!(backoff_delay_ms(&cfg, 1), 20);
    assert_eq!(backoff_delay_ms(&cfg, 2), 40);
    assert_eq!(backoff_delay_ms(&cfg, 3), 70);
    assert_eq!(backoff_delay_ms(&cfg, 4), 70);
}

#[test]
fn retry_decision_respects_budget() {
    let cfg = RetryConfig { initial_delay_ms: 5, max_delay_ms: 500, multiplier: 3, max_attempts: 2 };
    assert_eq!(decide_retry(&cfg, 1), RetryDecision::RetryAfter { delay_ms: 5 });
    assert_eq!(decide_retry(&cfg, 2), RetryDecision::RetryAfter { delay_ms: 15 });
    assert_eq!(decide_retry(&cfg, 3), RetryDecision::GiveUp);
}

#[test]
fn errors_exhaust_the_retry_budget_into_failed() {
    let cfg = RetryConfig { initial_delay_ms: 5, max_delay_ms: 500, multiplier: 3, max_attempts: 2 };
    let mut state = WorkerState::new(
        worker("unlucky"),
        AccountId { value: "acc".to_string() },
        Oplog::new(),
    );
    state.enqueue(worker_executor::worker::Invocation {
        invocation_key: None,
        function_name: "boom".to_string(),
        args: vec![],
        calling_convention: worker_executor::model::CallingConvention::Component,
    });
    assert_eq!(state.status, WorkerStatus::Running);

    assert!(matches!(state.on_execution_error(&cfg), RetryDecision::RetryAfter { .. }));
    assert_eq!(state.status, WorkerStatus::Retrying);
    state.on_retry_timer();
    assert_eq!(state.status, WorkerStatus::Running);

    assert!(matches!(state.on_execution_error(&cfg), RetryDecision::RetryAfter { .. }));
    state.on_retry_timer();

    assert_eq!(state.on_execution_error(&cfg), RetryDecision::GiveUp);
    assert_eq!(state.status, WorkerStatus::Failed);
}

#[test]
fn one_shot_interrupt_is_observed_at_the_boundary() {
    let mut state = WorkerState::new(
        worker("pausable"),
        AccountId { value: "acc".to_string() },
        Oplog::new(),
    );
    // nothing runs, so there is nothing to interrupt
    assert!(!state.set_interrupting(InterruptKind::Interrupt));

    state.enqueue(worker_executor::worker::Invocation {
        invocation_key: None,
        function_name: "loop_forever".to_string(),
        args: vec![],
        calling_convention: worker_executor::model::CallingConvention::Component,
    });
    assert!(state.set_interrupting(InterruptKind::Interrupt));

    // the signal is one-shot and moves the status at the boundary
    assert_eq!(state.check_interrupt(), Some(InterruptKind::Interrupt));
    assert_eq!(state.status, WorkerStatus::Interrupted);
    assert_eq!(state.check_interrupt(), None);

    state.resume();
    assert_eq!(state.status, WorkerStatus::Running);
}

#[test]
fn exit_is_cooperative_and_final() {
    let mut state = WorkerState::new(
        worker("leaver"),
        AccountId { value: "acc".to_string() },
        Oplog::new(),
    );
    state.enqueue(worker_executor::worker::Invocation {
        invocation_key: None,
        function_name: "quit".to_string(),
        args: vec![],
        calling_convention: worker_executor::model::CallingConvention::Component,
    });
    state.exit();
    assert_eq!(state.status, WorkerStatus::Exited);
    state.resume();
    assert_eq!(state.status, WorkerStatus::Exited);
}
