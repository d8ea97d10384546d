//! The node-level operations: guards, lifecycle requests and the host
//! key-value surface.

use worker_executor::cache::PendingOrFinal;
use worker_executor::executor::{
    ConnectWorkerRequest, CreateWorkerRequest, GetInvocationKeyRequest, InterruptWorkerRequest,
    ResumeWorkerRequest, WorkerExecutorImpl,
};
use worker_executor::model::{
    AccountId, GolemError, InterruptKind, TemplateId, WorkerId, WorkerStatus,
};
use worker_executor::oplog::Oplog;
use worker_executor::runtime::RetryConfig;
use worker_executor::worker::WorkerState;

fn worker(name: &str) -> WorkerId {
    WorkerId {
        template_id: TemplateId { high_bits: 11, low_bits: 13 },
        worker_name: name.to_string(),
    }
}

fn account() -> AccountId {
    AccountId { value: "acc".to_string() }
}

fn node() -> WorkerExecutorImpl {
    WorkerExecutorImpl::new(
        1,
        &vec![0],
        RetryConfig { initial_delay_ms: 1, max_delay_ms: 10, multiplier: 2, max_attempts: 3 },
    )
}

fn created(exec: &mut WorkerExecutorImpl, name: &str) -> WorkerId {
    let w = worker(name);
    exec.create_worker_internal(CreateWorkerRequest {
        worker_id: Some(w.clone()),
        template_version: 7,
        args: vec!["a".to_string()],
        env: vec![("E".to_string(), "1".to_string())],
        account_id: Some(account()),
        account_limits: None,
    })
    .expect("create_worker");
    w
}

#[test]
fn create_requires_ids() {
    let mut exec = node();
    let err = exec
        .create_worker_internal(CreateWorkerRequest {
            worker_id: None,
            template_version: 0,
            args: vec![],
            env: vec![],
            account_id: Some(account()),
            account_limits: None,
        })
        .expect_err("missing worker id");
    assert!(matches!(err, GolemError::InvalidRequest { .. }));
    let err = exec
        .create_worker_internal(CreateWorkerRequest {
            worker_id: Some(worker("w")),
            template_version: 0,
            args: vec![],
            env: vec![],
            account_id: None,
            account_limits: None,
        })
        .expect_err("missing account id");
    assert!(matches!(err, GolemError::InvalidRequest { .. }));
}

#[test]
fn validate_worker_status_guards() {
    let mut exec = node();
    let w = created(&mut exec, "guarded");

    exec.worker_service.set_status(&w, WorkerStatus::Failed, 0);
    let m = exec.worker_service.get(&w);
    assert!(matches!(
        exec.validate_worker_status(&w, m),
        Err(GolemError::PreviousInvocationFailed)
    ));

    exec.worker_service.set_status(&w, WorkerStatus::Exited, 0);
    let m = exec.worker_service.get(&w);
    assert!(matches!(
        exec.validate_worker_status(&w, m),
        Err(GolemError::PreviousInvocationExited)
    ));

    // trailing errors since the last success also reject new work
    exec.worker_service.set_status(&w, WorkerStatus::Idle, 2);
    let m = exec.worker_service.get(&w);
    assert!(matches!(
        exec.validate_worker_status(&w, m),
        Err(GolemError::PreviousInvocationFailed)
    ));

    exec.worker_service.set_status(&w, WorkerStatus::Idle, 0);
    let m = exec.worker_service.get(&w);
    assert_eq!(exec.validate_worker_status(&w, m).expect("healthy"), WorkerStatus::Idle);

    // a worker never seen is assumed idle
    assert_eq!(
        exec.validate_worker_status(&worker("fresh"), None).expect("assumed idle"),
        WorkerStatus::Idle
    );
}

#[test]
fn invocation_keys_are_fresh() {
    let mut exec = node();
    let w = created(&mut exec, "keyed");
    let k1 = exec
        .get_invocation_key_internal(GetInvocationKeyRequest { worker_id: Some(w.clone()) })
        .expect("first key");
    let k2 = exec
        .get_invocation_key_internal(GetInvocationKeyRequest { worker_id: Some(w.clone()) })
        .expect("second key");
    assert_ne!(k1.value, k2.value);
    assert_eq!(k1.value, "0000000000000000");
    assert_eq!(k2.value, "0000000000000001");
}

#[test]
fn resume_requires_suspended_or_interrupted() {
    let mut exec = node();
    let w = created(&mut exec, "resumable");

    let err = exec
        .resume_worker_internal(ResumeWorkerRequest { worker_id: Some(w.clone()) })
        .expect_err("an idle worker cannot be resumed");
    assert!(matches!(err, GolemError::InvalidRequest { .. }));

    exec.worker_service.set_status(&w, WorkerStatus::Interrupted, 0);
    exec.resume_worker_internal(ResumeWorkerRequest { worker_id: Some(w.clone()) })
        .expect("an interrupted worker resumes");
    assert_eq!(
        exec.worker_service.get(&w).unwrap().last_known_status,
        WorkerStatus::Running
    );

    exec.worker_service.set_status(&w, WorkerStatus::Suspended, 0);
    exec.resume_worker_internal(ResumeWorkerRequest { worker_id: Some(w.clone()) })
        .expect("a suspended worker resumes");
    assert_eq!(
        exec.worker_service.get(&w).unwrap().last_known_status,
        WorkerStatus::Running
    );
}

#[test]
fn interrupt_marks_or_signals() {
    let mut exec = node();
    let w = created(&mut exec, "interruptible");

    // suspended workers are marked interrupted in their record
    exec.worker_service.set_status(&w, WorkerStatus::Suspended, 0);
    exec.interrupt_worker_internal(InterruptWorkerRequest {
        worker_id: Some(w.clone()),
        recover_immediately: false,
    })
    .expect("interrupt");
    assert_eq!(
        exec.worker_service.get(&w).unwrap().last_known_status,
        WorkerStatus::Interrupted
    );

    // running workers get the one-shot signal; the flag picks restart
    exec.worker_service.set_status(&w, WorkerStatus::Running, 0);
    let idx = exec.active_workers.index_of(&w).expect("resident");
    if let PendingOrFinal::Final(state) = &mut exec.active_workers.workers[idx].entry {
        state.enqueue(worker_executor::worker::Invocation {
            invocation_key: None,
            function_name: "spin".to_string(),
            args: vec![],
            calling_convention: worker_executor::model::CallingConvention::Component,
        });
    } else {
        panic!("worker not instantiated");
    }
    exec.interrupt_worker_internal(InterruptWorkerRequest {
        worker_id: Some(w.clone()),
        recover_immediately: true,
    })
    .expect("interrupt running");
    let idx = exec.active_workers.index_of(&w).expect("resident");
    match &exec.active_workers.workers[idx].entry {
        PendingOrFinal::Final(state) => {
            assert_eq!(state.interrupting, Some(InterruptKind::Restart));
        }
        PendingOrFinal::Pending => panic!("worker not instantiated"),
    }

    // an unknown worker is reported missing
    let err = exec
        .interrupt_worker_internal(InterruptWorkerRequest {
            worker_id: Some(worker("ghost")),
            recover_immediately: false,
        })
        .expect_err("unknown worker");
    assert!(matches!(err, GolemError::WorkerNotFound { .. }));
}

#[test]
fn delete_removes_record_and_runtime() {
    let mut exec = node();
    let w = created(&mut exec, "deletable");
    assert!(exec.worker_service.get(&w).is_some());
    assert!(exec.active_workers.index_of(&w).is_some());

    exec.delete_worker_internal(&w).expect("delete");
    assert!(exec.worker_service.get(&w).is_none());
    assert!(exec.active_workers.index_of(&w).is_none());

    let err = exec.delete_worker_internal(&w).expect_err("already deleted");
    assert!(matches!(err, GolemError::InvalidRequest { .. }));
}

#[test]
fn connect_refuses_interrupted_workers() {
    let mut exec = node();
    let w = created(&mut exec, "watched");

    exec.connect_worker(ConnectWorkerRequest {
        worker_id: Some(w.clone()),
        account_id: Some(account()),
    })
    .expect("an idle worker accepts a log stream");

    exec.worker_service.set_status(&w, WorkerStatus::Interrupted, 0);
    let err = exec
        .connect_worker(ConnectWorkerRequest {
            worker_id: Some(w.clone()),
            account_id: Some(account()),
        })
        .expect_err("connect must not resume an interrupted worker");
    assert!(matches!(err, GolemError::Interrupted { kind: InterruptKind::Interrupt }));
}

#[test]
fn metadata_report() {
    let mut exec = node();
    let w = created(&mut exec, "described");
    let m = exec.get_worker_metadata_internal(&w).expect("metadata");
    assert_eq!(m.worker_id.worker_id, w);
    assert_eq!(m.worker_id.template_version, 7);
    assert_eq!(m.args, vec!["a".to_string()]);
    assert_eq!(m.env, vec![("E".to_string(), "1".to_string())]);
    assert_eq!(m.last_known_status, WorkerStatus::Idle);
    assert_eq!(m.retry_count, 0);

    let err = exec
        .get_worker_metadata_internal(&worker("ghost"))
        .expect_err("unknown worker");
    assert!(matches!(err, GolemError::WorkerNotFound { .. }));
}

#[test]
fn host_key_value_surface_records_outcomes() {
    let mut exec = node();
    let w = created(&mut exec, "kv_user");
    let idx = exec.active_workers.index_of(&w).expect("resident");
    let bucket = "b".to_string();
    let key = "k".to_string();
    if let PendingOrFinal::Final(state) = &mut exec.active_workers.workers[idx].entry {
        // a read of a missing key, a write, a read back and a membership
        // check; the remote outcomes are journalled in order
        let miss = state.ctx.get(&exec.key_value_service, &bucket, &key).expect("get");
        assert_eq!(miss, None);
        state
            .ctx
            .set(&mut exec.key_value_service, &bucket, &key, vec![42])
            .expect("set");
        let hit = state.ctx.get(&exec.key_value_service, &bucket, &key).expect("get");
        assert_eq!(hit, Some(vec![42]));
        let there = state
            .ctx
            .exists_key(&exec.key_value_service, &bucket, &key)
            .expect("exists");
        assert!(there);
        state
            .ctx
            .delete(&mut exec.key_value_service, &bucket, &key)
            .expect("delete");
        let gone = state
            .ctx
            .exists_key(&exec.key_value_service, &bucket, &key)
            .expect("exists");
        assert!(!gone);
        assert_eq!(state.ctx.durability.oplog.length(), 6);

        // replaying the same journal yields the same observations without
        // touching the store
        let journal = state.ctx.durability.oplog.read(1, 100);
        let mut replay_log = Oplog::new();
        for e in &journal {
            replay_log.append(e.function_name.clone(), e.kind, e.payload.clone());
        }
        let mut replayed = WorkerState::new(w.clone(), account(), replay_log);
        let miss = replayed.ctx.get(&exec.key_value_service, &bucket, &key).expect("get");
        assert_eq!(miss, None);
        replayed
            .ctx
            .set(&mut exec.key_value_service, &bucket, &key, vec![42])
            .expect("set");
        let hit = replayed.ctx.get(&exec.key_value_service, &bucket, &key).expect("get");
        assert_eq!(hit, Some(vec![42]), "replay observes the recorded read");
        assert!(replayed
            .ctx
            .exists_key(&exec.key_value_service, &bucket, &key)
            .expect("exists"));
        replayed
            .ctx
            .delete(&mut exec.key_value_service, &bucket, &key)
            .expect("delete");
        // the store was never touched during replay
        assert!(exec.key_value_service.entries.is_empty());
    } else {
        panic!("worker not instantiated");
    }
}

#[test]
fn invoke_reaches_a_worker_first_seen_by_connect() {
    let mut exec = node();
    let w = created(&mut exec, "watched_then_invoked");
    exec.active_workers.remove(&w);

    // a log-stream attachment materializes only a pending slot
    exec.connect_worker(worker_executor::executor::ConnectWorkerRequest {
        worker_id: Some(w.clone()),
        account_id: Some(account()),
    })
    .expect("connect");
    let idx = exec.active_workers.index_of(&w).expect("slot exists");
    assert!(matches!(exec.active_workers.workers[idx].entry, PendingOrFinal::Pending));

    // a later invocation resolves the slot and must not be lost
    exec.invoke_worker_internal(
        worker_executor::executor::InvokeWorkerRequest {
            worker_id: Some(w.clone()),
            name: "work".to_string(),
            input: vec![],
            account_id: Some(account()),
            account_limits: None,
        },
        Oplog::new(),
    )
    .expect("invoke");
    let idx = exec.active_workers.index_of(&w).expect("slot exists");
    match &exec.active_workers.workers[idx].entry {
        PendingOrFinal::Final(state) => {
            assert_eq!(state.queue.len(), 1);
            assert_eq!(state.queue[0].function_name, "work");
            assert_eq!(state.status, WorkerStatus::Running);
        }
        PendingOrFinal::Pending => panic!("the invocation was swallowed by a pending slot"),
    }
}

#[test]
fn checkpoint_updates_the_oplog_tail_pointer() {
    let mut exec = node();
    let w = created(&mut exec, "checkpointed");
    let idx = exec.active_workers.index_of(&w).expect("resident");
    if let PendingOrFinal::Final(state) = &mut exec.active_workers.workers[idx].entry {
        state.ctx.wall_clock_now(5).expect("journal one entry");
    } else {
        panic!("worker not instantiated");
    }
    assert_eq!(exec.worker_service.get(&w).unwrap().oplog_tail, 0);
    exec.checkpoint_worker(&w);
    assert_eq!(exec.worker_service.get(&w).unwrap().oplog_tail, 1);
}
