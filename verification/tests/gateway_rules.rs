//! The routing client: retry classification, response interpretation and
//! the key and event renderings.

use worker_executor::events::{log_event_of, LogEvent, LogLevel, WorkerEvent};
use worker_executor::gateway::{
    envelope_of, interpret_response, is_grpc_retriable, retry_on_invalid_shard_id_decision, str_contains,
    try_get_template_for_worker_decision, AttemptOutcome, GrpcError, ResponseEnvelope,
    RetryAction, StatusCode, TemplateFetchPlan, WorkerError, WorkerServiceNoOp,
};
use worker_executor::keys::{oplog_key, u64_to_hex, worker_key};
use worker_executor::model::{GolemError, TemplateId, WorkerId};

fn worker(name: &str) -> WorkerId {
    WorkerId {
        template_id: TemplateId { high_bits: 0xab, low_bits: 0xcd },
        worker_name: name.to_string(),
    }
}

#[test]
fn grpc_retriability() {
    assert!(is_grpc_retriable(&GrpcError::Transport { details: "broken pipe".to_string() }));
    assert!(is_grpc_retriable(&GrpcError::Status {
        code: StatusCode::Unavailable,
        message: String::new(),
    }));
    assert!(!is_grpc_retriable(&GrpcError::Status {
        code: StatusCode::NotFound,
        message: String::new(),
    }));
    assert!(!is_grpc_retriable(&GrpcError::Domain {
        error: GolemError::PreviousInvocationFailed,
    }));
    assert!(!is_grpc_retriable(&GrpcError::Unexpected { details: "?".to_string() }));
}

#[test]
fn substring_search_is_exact() {
    assert!(str_contains("status: UNAVAILABLE today", "UNAVAILABLE"));
    assert!(str_contains("abc", ""));
    assert!(str_contains("abc", "abc"));
    assert!(!str_contains("abc", "abcd"));
    assert!(!str_contains("CHANNEL CLOSE", "CHANNEL CLOSED"));
    assert!(str_contains("xx transport error yy", "transport error"));
}

#[test]
fn retry_rule_on_attempt_outcomes() {
    assert!(matches!(
        retry_on_invalid_shard_id_decision(AttemptOutcome::CallSucceeded),
        RetryAction::Return
    ));
    assert!(matches!(
        retry_on_invalid_shard_id_decision(AttemptOutcome::NoActiveShards),
        RetryAction::InvalidateAndRetry
    ));
    assert!(matches!(
        retry_on_invalid_shard_id_decision(AttemptOutcome::CallFailed {
            error: GolemError::InvalidShardId { shard_id: 3, shard_ids: vec![0] },
        }),
        RetryAction::InvalidateAndRetry
    ));
    assert!(matches!(
        retry_on_invalid_shard_id_decision(AttemptOutcome::CallFailed {
            error: GolemError::RuntimeError { details: "h2: CHANNEL CLOSED".to_string() },
        }),
        RetryAction::InvalidateAndRetry
    ));
    // a plain runtime error is surfaced, not retried
    match retry_on_invalid_shard_id_decision(AttemptOutcome::CallFailed {
        error: GolemError::RuntimeError { details: "boom".to_string() },
    }) {
        RetryAction::ReturnError { error: WorkerError::Golem { error } } => {
            assert!(matches!(error, GolemError::RuntimeError { .. }));
        }
        _ => panic!("non-transient failures must be surfaced"),
    }
    assert!(matches!(
        retry_on_invalid_shard_id_decision(AttemptOutcome::LookupError {
            details: "shard manager: transport error".to_string(),
        }),
        RetryAction::InvalidateAndRetry
    ));
    match retry_on_invalid_shard_id_decision(AttemptOutcome::LookupError {
        details: "no such pod".to_string(),
    }) {
        RetryAction::ReturnError { error: WorkerError::Internal { details } } => {
            assert_eq!(details, "no such pod");
        }
        _ => panic!("other lookup failures must be surfaced"),
    }
}

#[test]
fn response_envelope_interpretation() {
    assert!(matches!(interpret_response(ResponseEnvelope::Success(41)), Ok(41)));
    match interpret_response::<u32>(ResponseEnvelope::Failure(
        GolemError::PreviousInvocationExited,
    )) {
        Err(GolemError::PreviousInvocationExited) => {}
        _ => panic!("failures must pass through"),
    }
    match interpret_response::<u32>(ResponseEnvelope::Empty) {
        Err(GolemError::Unknown { details }) => assert_eq!(details, "Empty response"),
        _ => panic!("an empty response is an unknown error"),
    }
}

#[test]
fn template_fetch_plan() {
    let w = worker("templated");
    match try_get_template_for_worker_decision(&w, Ok(5)) {
        TemplateFetchPlan::ByVersion { template_id, version } => {
            assert_eq!(template_id, w.template_id);
            assert_eq!(version, 5);
        }
        _ => panic!("a known worker pins its template version"),
    }
    match try_get_template_for_worker_decision(
        &w,
        Err(WorkerError::WorkerNotFound { worker_id: worker("templated") }),
    ) {
        TemplateFetchPlan::Latest { template_id } => assert_eq!(template_id, w.template_id),
        _ => panic!("an unknown worker falls back to the latest template"),
    }
    match try_get_template_for_worker_decision(
        &w,
        Err(WorkerError::Golem {
            error: GolemError::WorkerNotFound { worker_id: worker("templated") },
        }),
    ) {
        TemplateFetchPlan::Latest { .. } => {}
        _ => panic!("an unknown worker falls back to the latest template"),
    }
    match try_get_template_for_worker_decision(
        &w,
        Err(WorkerError::Internal { details: "db down".to_string() }),
    ) {
        TemplateFetchPlan::Fail { .. } => {}
        _ => panic!("other failures are surfaced"),
    }
}

#[test]
fn error_messages() {
    let e = WorkerError::Internal { details: "db down".to_string() };
    assert_eq!(e.message(), "Internal error: db down");
    let e = WorkerError::TypeCheckerError { details: "bad arg".to_string() };
    assert_eq!(e.message(), "Type checker error: bad arg");
}

#[test]
fn noop_service_answers() {
    let svc = WorkerServiceNoOp {};
    let w = worker("noop");
    assert_eq!(svc.get_by_id(&w).template_version_used, 0);
    assert_eq!(svc.create(&w).worker_id, w);
    assert!(svc.connect(&w).is_err());
    assert!(svc.delete(&w).is_ok());
    assert_eq!(svc.get_invocation_key(&w).unwrap().value, "");
    assert!(svc.invoke_and_await_function(&w).unwrap().is_empty());
    assert!(svc.invoke_function(&w).is_ok());
    assert_eq!(svc.complete_promise(&w).unwrap(), true);
    assert!(svc.interrupt(&w).is_ok());
    assert!(svc.resume(&w).is_ok());
}

#[test]
fn hex_and_storage_keys() {
    assert_eq!(u64_to_hex(0), "0000000000000000");
    assert_eq!(u64_to_hex(0x1234), "0000000000001234");
    assert_eq!(u64_to_hex(u64::MAX), "ffffffffffffffff");
    let w = worker("disk");
    let prefix = "tenant1:".to_string();
    assert_eq!(
        worker_key(&prefix, &w),
        "tenant1:worker:00000000000000ab00000000000000cd/disk"
    );
    assert_eq!(
        oplog_key(&prefix, &w),
        "tenant1:oplog:00000000000000ab00000000000000cd/disk"
    );
}

#[test]
fn log_event_conversion() {
    match log_event_of(WorkerEvent::StdOut(b"hello".to_vec())) {
        Some(LogEvent::Stdout(s)) => assert_eq!(s, "hello"),
        _ => panic!("stdout lines convert"),
    }
    match log_event_of(WorkerEvent::StdErr(b"oops".to_vec())) {
        Some(LogEvent::Stderr(s)) => assert_eq!(s, "oops"),
        _ => panic!("stderr lines convert"),
    }
    match log_event_of(WorkerEvent::Log {
        level: LogLevel::Warn,
        context: "ctx".to_string(),
        message: "msg".to_string(),
    }) {
        Some(LogEvent::Log { level, context, message }) => {
            assert_eq!(level, LogLevel::Warn);
            assert_eq!(context, "ctx");
            assert_eq!(message, "msg");
        }
        _ => panic!("log records convert"),
    }
    assert!(log_event_of(WorkerEvent::Close).is_none());
    assert_eq!(worker_executor::events::LOG_EVENT_CHANNEL_CAPACITY, 128);
}

#[test]
fn envelope_building() {
    match envelope_of::<u32>(Ok(5)) {
        ResponseEnvelope::Success(5) => {}
        _ => panic!("an internal success becomes a success envelope"),
    }
    match envelope_of::<u32>(Err(GolemError::PreviousInvocationFailed)) {
        ResponseEnvelope::Failure(GolemError::PreviousInvocationFailed) => {}
        _ => panic!("an internal failure becomes a failure envelope"),
    }
}
