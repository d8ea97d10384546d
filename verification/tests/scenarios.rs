//! End-to-end scenarios of the engine core: invocation, replay, promise
//! suspension, shard revocation and divergence.

use worker_executor::cache::PendingOrFinal;
use worker_executor::durability::{DurabilityState, WrapStep};
use worker_executor::executor::{
    CompletePromiseRequest, CreateWorkerRequest, GetInvocationKeyRequest,
    InvokeAndAwaitWorkerRequest, InvokeWorkerRequest, WorkerExecutorImpl,
};
use worker_executor::host::{AwaitPromiseOutcome, DurableWorkerCtx};
use worker_executor::kv::KeyValueService;
use worker_executor::model::{
    AccountId, CallingConvention, GolemError, PromiseId, TemplateId, Val, WorkerId, WorkerStatus,
    WrappedFunctionType,
};
use worker_executor::oplog::Oplog;
use worker_executor::promise::PromiseService;
use worker_executor::runtime::{status_after, ExecutionEvent, RetryConfig};
use worker_executor::shard::shard_of;
use worker_executor::worker::WorkerState;

fn test_worker_id(name: &str) -> WorkerId {
    WorkerId {
        template_id: TemplateId { high_bits: 7, low_bits: 9 },
        worker_name: name.to_string(),
    }
}

fn account() -> AccountId {
    AccountId { value: "acc".to_string() }
}

fn retry_config() -> RetryConfig {
    RetryConfig { initial_delay_ms: 10, max_delay_ms: 1000, multiplier: 2, max_attempts: 3 }
}

fn executor_owning_all_shards(n: u64) -> WorkerExecutorImpl {
    let shards: Vec<u64> = (0..n).collect();
    WorkerExecutorImpl::new(n, &shards, retry_config())
}

/// Basic invoke-and-await: a pure function makes no host calls, so the
/// oplog stays empty and the caller receives exactly the computed value.
#[test]
fn basic_invoke_and_await() {
    let mut exec = executor_owning_all_shards(1);
    let w = test_worker_id("adder");

    exec.create_worker_internal(CreateWorkerRequest {
        worker_id: Some(w.clone()),
        template_version: 1,
        args: vec![],
        env: vec![],
        account_id: Some(account()),
        account_limits: None,
    })
    .expect("create_worker");

    let key = exec
        .get_invocation_key_internal(GetInvocationKeyRequest { worker_id: Some(w.clone()) })
        .expect("invocation key");

    exec.invoke_and_await_worker_internal(
        InvokeAndAwaitWorkerRequest {
            worker_id: Some(w.clone()),
            name: "add".to_string(),
            input: vec![Val::I32(2), Val::I32(3)],
            invocation_key: Some(key.clone()),
            calling_convention: CallingConvention::Component,
            account_id: Some(account()),
            account_limits: None,
        },
        Oplog::new(),
    )
    .expect("invoke_and_await");

    // drive the worker: `add` is pure, so no host call touches the oplog
    let idx = exec.active_workers.index_of(&w).expect("worker resident");
    let (oplog_len_before, oplog_len_after, result) = {
        let entry = &mut exec.active_workers.workers[idx];
        match &mut entry.entry {
            PendingOrFinal::Final(state) => {
                let before = state.ctx.durability.oplog.length();
                let inv = state.take_next_invocation().expect("queued invocation");
                assert_eq!(inv.function_name, "add");
                let sum = match (&inv.args[0], &inv.args[1]) {
                    (Val::I32(a), Val::I32(b)) => a + b,
                    _ => panic!("unexpected argument types"),
                };
                state.finish_invocation();
                let after = state.ctx.durability.oplog.length();
                (before, after, vec![Val::I32(sum)])
            }
            PendingOrFinal::Pending => panic!("worker not instantiated"),
        }
    };
    assert_eq!(oplog_len_before, 0);
    assert_eq!(oplog_len_after, 0);

    exec.record_invocation_result(key.clone(), result);
    let out = exec.lookup_invocation_result(&key).expect("result recorded");
    assert!(matches!(out[0], Val::I32(5)));
    assert_eq!(out.len(), 1);
}

/// Replay determinism: a wall-clock read is journalled; after a restart
/// between the read and the store write, the replayed read observes the
/// recorded timestamp and the store receives it, not a fresh one.
#[test]
fn replay_determinism_wall_clock_then_set() {
    let w = test_worker_id("clocky");
    let mut kv = KeyValueService::new();
    let bucket = "b".to_string();
    let key = "k".to_string();

    // original execution: wall_clock::now returns 1111 and is journalled;
    // the worker is restarted before keyvalue::set commits
    let mut ctx = DurableWorkerCtx::new(
        w.clone(),
        account(),
        DurabilityState::begin_replay(Oplog::new()),
    );
    let t1 = ctx.wall_clock_now(1111).expect("live wall clock");
    assert_eq!(t1, 1111);
    assert_eq!(ctx.durability.oplog.length(), 1);
    let journal = ctx.durability.oplog;

    // restart: replay over the same journal with a later live clock
    let mut ctx2 = DurableWorkerCtx::new(
        w.clone(),
        account(),
        DurabilityState::begin_replay(journal),
    );
    let t2 = ctx2.wall_clock_now(9999).expect("replayed wall clock");
    assert_eq!(t2, 1111, "replay must observe the recorded timestamp");

    // past the journal the worker is live again; the write commits the
    // recorded timestamp
    ctx2.set(&mut kv, &bucket, &key, t2.to_le_bytes().to_vec())
        .expect("live set");
    let stored = kv.get(&account(), &bucket, &key).expect("value stored");
    assert_eq!(stored, 1111u64.to_le_bytes().to_vec());
}

/// Promise suspend/resume: awaiting a pending promise suspends the
/// worker; completing the promise reactivates it and the awaiter
/// receives the completion bytes.
#[test]
fn promise_suspend_resume() {
    let mut exec = executor_owning_all_shards(1);
    let w = test_worker_id("waiter");

    exec.create_worker_internal(CreateWorkerRequest {
        worker_id: Some(w.clone()),
        template_version: 1,
        args: vec![],
        env: vec![],
        account_id: Some(account()),
        account_limits: None,
    })
    .expect("create_worker");

    // the worker runs and creates a promise, then awaits it
    let idx = exec.active_workers.index_of(&w).expect("worker resident");
    let promise_id = {
        let entry = &mut exec.active_workers.workers[idx];
        match &mut entry.entry {
            PendingOrFinal::Final(state) => {
                state.enqueue(worker_executor::worker::Invocation {
                    invocation_key: None,
                    function_name: "wait".to_string(),
                    args: vec![],
                    calling_convention: CallingConvention::Component,
                });
                assert_eq!(state.status, WorkerStatus::Running);
                let p = state
                    .ctx
                    .golem_create_promise(&mut exec.promise_service)
                    .expect("create promise");
                match state.ctx.golem_await_promise(&exec.promise_service, &p) {
                    Ok(AwaitPromiseOutcome::Suspend) => {}
                    _ => panic!("pending promise must suspend the worker"),
                }
                state.status = status_after(
                    state.status,
                    ExecutionEvent::HostInterrupt {
                        kind: worker_executor::model::InterruptKind::Suspend,
                    },
                );
                assert_eq!(state.status, WorkerStatus::Suspended);
                p
            }
            PendingOrFinal::Pending => panic!("worker not instantiated"),
        }
    };
    exec.worker_service.set_status(&w, WorkerStatus::Suspended, 0);

    // an external caller completes the promise
    let completed = exec
        .complete_promise_internal(
            CompletePromiseRequest {
                promise_id: Some(promise_id.clone()),
                data: vec![1, 2, 3],
            },
            Oplog::new(),
        )
        .expect("complete_promise");
    assert!(completed);

    // the suspended worker is reactivated...
    let idx = exec.active_workers.index_of(&w).expect("worker resident");
    let entry = &mut exec.active_workers.workers[idx];
    match &mut entry.entry {
        PendingOrFinal::Final(state) => {
            assert_eq!(state.status, WorkerStatus::Running);
            // ...and the awaiting call returns the completion bytes
            match state.ctx.golem_await_promise(&exec.promise_service, &promise_id) {
                Ok(AwaitPromiseOutcome::Ready(bytes)) => assert_eq!(bytes, vec![1, 2, 3]),
                _ => panic!("completed promise must not suspend"),
            }
        }
        PendingOrFinal::Pending => panic!("worker not instantiated"),
    }
}

/// Shard revocation: when a worker's shard leaves the node, the running
/// worker is told to restart and later invocations are refused with the
/// retriable shard error.
#[test]
fn shard_revocation_interrupts_and_refuses() {
    let mut exec = executor_owning_all_shards(3);
    let w = test_worker_id("sharded");
    let shard = shard_of(&w, 3);

    exec.create_worker_internal(CreateWorkerRequest {
        worker_id: Some(w.clone()),
        template_version: 1,
        args: vec![],
        env: vec![],
        account_id: Some(account()),
        account_limits: None,
    })
    .expect("create_worker");

    // put the worker to work so it is running
    exec.invoke_worker_internal(
        InvokeWorkerRequest {
            worker_id: Some(w.clone()),
            name: "spin".to_string(),
            input: vec![],
            account_id: Some(account()),
            account_limits: None,
        },
        Oplog::new(),
    )
    .expect("invoke");
    let idx = exec.active_workers.index_of(&w).expect("worker resident");
    match &exec.active_workers.workers[idx].entry {
        PendingOrFinal::Final(state) => assert_eq!(state.status, WorkerStatus::Running),
        PendingOrFinal::Pending => panic!("worker not instantiated"),
    }

    exec.revoke_shards_internal(&vec![shard]);

    // the running worker carries the one-shot restart signal
    let idx = exec.active_workers.index_of(&w).expect("worker still resident");
    match &exec.active_workers.workers[idx].entry {
        PendingOrFinal::Final(state) => {
            assert_eq!(
                state.interrupting,
                Some(worker_executor::model::InterruptKind::Restart)
            );
        }
        PendingOrFinal::Pending => panic!("worker not instantiated"),
    }

    // a later invocation on this node reports the foreign shard
    let err = exec
        .invoke_worker_internal(
            InvokeWorkerRequest {
                worker_id: Some(w.clone()),
                name: "spin".to_string(),
                input: vec![],
                account_id: Some(account()),
                account_limits: None,
            },
            Oplog::new(),
        )
        .expect_err("foreign shard must be refused");
    match err {
        GolemError::InvalidShardId { shard_id, shard_ids } => {
            assert_eq!(shard_id, shard);
            assert!(!shard_ids.contains(&shard));
        }
        other => panic!("expected InvalidShardId, got {:?}", other),
    }
}

/// Divergence detection: a journal entry recorded for another call makes
/// replay fail the worker, and later invocations see the failure.
#[test]
fn divergence_detection() {
    let mut exec = executor_owning_all_shards(1);
    let w = test_worker_id("diverged");

    exec.create_worker_internal(CreateWorkerRequest {
        worker_id: Some(w.clone()),
        template_version: 1,
        args: vec![],
        env: vec![],
        account_id: Some(account()),
        account_limits: None,
    })
    .expect("create_worker");

    // a journal whose fifth entry was recorded for "foo"
    let mut oplog = Oplog::new();
    for _ in 0..4 {
        oplog.append("noop".to_string(), WrappedFunctionType::WriteLocal, vec![]);
    }
    oplog.append("foo".to_string(), WrappedFunctionType::WriteLocal, vec![]);

    let mut state = WorkerState::new(w.clone(), account(), oplog);
    // replay the four matching entries
    for _ in 0..4 {
        match state
            .ctx
            .durability
            .wrap_next(&"noop".to_string(), WrappedFunctionType::WriteLocal)
        {
            WrapStep::Replayed { .. } => {}
            _ => panic!("matching entries must replay"),
        }
    }
    // the worker's next host call at index 5 is "bar"
    match state
        .ctx
        .durability
        .wrap_next(&"bar".to_string(), WrappedFunctionType::WriteLocal)
    {
        WrapStep::Diverged => {}
        _ => panic!("mismatching entry must be a divergence"),
    }
    state.fail_divergence();
    assert_eq!(state.status, WorkerStatus::Failed);
    exec.worker_service.set_status(&w, WorkerStatus::Failed, 0);

    // later invocations surface the failure
    let err = exec
        .invoke_worker_internal(
            InvokeWorkerRequest {
                worker_id: Some(w.clone()),
                name: "anything".to_string(),
                input: vec![],
                account_id: Some(account()),
                account_limits: None,
            },
            Oplog::new(),
        )
        .expect_err("failed worker must reject invocations");
    assert!(matches!(err, GolemError::PreviousInvocationFailed));
}

/// Double-complete: the first completion reports true and stores the
/// bytes; the second reports false and the awaiter still receives the
/// first value.
#[test]
fn double_complete_promise() {
    let mut promises = PromiseService::new();
    let w = test_worker_id("oneshot");
    let p: PromiseId = promises.create(&w, 4);

    assert_eq!(promises.complete(&p, vec![10, 20]).expect("first complete"), true);
    assert_eq!(promises.complete(&p, vec![99]).expect("second complete"), false);

    // the awaiter receives the first value, unaltered by the second call
    let polled = promises.poll(&p).expect("poll");
    assert_eq!(polled, Some(vec![10, 20]));
}
