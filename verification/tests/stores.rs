//! The promise, key-value, metadata and active-worker stores.

use worker_executor::cache::{ActiveWorkers, PendingOrFinal};
use worker_executor::kv::KeyValueService;
use worker_executor::metadata::WorkerMetadataStore;
use worker_executor::model::{
    AccountId, GolemError, TemplateId, VersionedWorkerId, WorkerId, WorkerMetadata, WorkerStatus,
};
use worker_executor::oplog::{Oplog, OplogEntry};
use worker_executor::host::HostCallError;
use worker_executor::promise::PromiseService;
use worker_executor::worker::WorkerState;

fn worker(name: &str) -> WorkerId {
    WorkerId {
        template_id: TemplateId { high_bits: 3, low_bits: 4 },
        worker_name: name.to_string(),
    }
}

fn account() -> AccountId {
    AccountId { value: "acc".to_string() }
}

fn metadata(name: &str) -> WorkerMetadata {
    WorkerMetadata {
        worker_id: VersionedWorkerId { worker_id: worker(name), template_version: 2 },
        args: vec!["--fast".to_string()],
        env: vec![("K".to_string(), "V".to_string())],
        account_id: account(),
        last_known_status: WorkerStatus::Idle,
        retry_count: 0,
        oplog_tail: 0,
    }
}

#[test]
fn oplog_indices_are_one_based_and_gap_free() {
    let mut log = Oplog::new();
    assert_eq!(log.length(), 0);
    let i1 = log.append("a".to_string(), worker_executor::model::WrappedFunctionType::WriteLocal, vec![1]);
    let i2 = log.append("b".to_string(), worker_executor::model::WrappedFunctionType::ReadRemote, vec![2]);
    let i3 = log.append("c".to_string(), worker_executor::model::WrappedFunctionType::WriteRemote, vec![3]);
    assert_eq!((i1, i2, i3), (1, 2, 3));
    let all: Vec<OplogEntry> = log.read(1, 10);
    assert_eq!(all.len(), 3);
    for (pos, e) in all.iter().enumerate() {
        assert_eq!(e.index as usize, pos + 1);
    }
    let tail = log.read(3, 10);
    assert_eq!(tail.len(), 1);
    assert_eq!(tail[0].function_name, "c");
    assert_eq!(log.read(4, 10).len(), 0);
    let limited = log.read(1, 2);
    assert_eq!(limited.len(), 2);
}

#[test]
fn promise_lifecycle() {
    let mut promises = PromiseService::new();
    let w = worker("promising");
    let p = promises.create(&w, 1);
    assert_eq!(p.oplog_idx, 1);
    assert_eq!(p.worker_id, w);

    // creating the same id again changes nothing
    let p_again = promises.create(&w, 1);
    assert_eq!(p_again, p);
    assert_eq!(promises.promises.len(), 1);

    assert_eq!(promises.poll(&p).expect("known promise"), None);
    assert!(promises.complete(&p, vec![9]).expect("complete"));
    assert_eq!(promises.poll(&p).expect("known promise"), Some(vec![9]));

    // unknown promises are rejected
    let unknown = worker_executor::model::PromiseId { worker_id: w.clone(), oplog_idx: 77 };
    assert!(matches!(promises.poll(&unknown), Err(GolemError::InvalidRequest { .. })));
    assert!(matches!(
        promises.complete(&unknown, vec![]),
        Err(GolemError::InvalidRequest { .. })
    ));

    promises.delete(&p);
    assert!(promises.poll(&p).is_err());
    promises.delete(&p);
    assert_eq!(promises.promises.len(), 0);
}

#[test]
fn key_value_store_upserts_and_deletes() {
    let mut kv = KeyValueService::new();
    let b = "bucket".to_string();
    let k = "key".to_string();
    assert_eq!(kv.get(&account(), &b, &k), None);
    assert!(!kv.exists_key(&account(), &b, &k));

    kv.set(&account(), &b, &k, vec![1]);
    kv.set(&account(), &b, &k, vec![2]);
    assert_eq!(kv.get(&account(), &b, &k), Some(vec![2]));
    assert!(kv.exists_key(&account(), &b, &k));
    assert_eq!(kv.entries.len(), 1);

    // the same key of another account is a different value
    let other = AccountId { value: "other".to_string() };
    kv.set(&other, &b, &k, vec![3]);
    assert_eq!(kv.get(&account(), &b, &k), Some(vec![2]));
    assert_eq!(kv.get(&other, &b, &k), Some(vec![3]));

    kv.delete(&account(), &b, &k);
    assert_eq!(kv.get(&account(), &b, &k), None);
    assert_eq!(kv.get(&other, &b, &k), Some(vec![3]));
    kv.delete(&account(), &b, &k);
}

#[test]
fn metadata_store_keeps_one_record_per_worker() {
    let mut store = WorkerMetadataStore::new();
    assert!(store.insert(metadata("a")));
    assert!(!store.insert(metadata("a")));
    assert!(store.insert(metadata("b")));

    let rec = store.get(&worker("a")).expect("record exists");
    assert_eq!(rec.args, vec!["--fast".to_string()]);
    assert_eq!(rec.last_known_status, WorkerStatus::Idle);

    store.set_status(&worker("a"), WorkerStatus::Suspended, 3);
    let rec = store.get(&worker("a")).expect("record exists");
    assert_eq!(rec.last_known_status, WorkerStatus::Suspended);
    assert_eq!(rec.retry_count, 3);
    // the sibling record is untouched
    let other = store.get(&worker("b")).expect("record exists");
    assert_eq!(other.last_known_status, WorkerStatus::Idle);

    store.remove(&worker("a"));
    assert!(store.get(&worker("a")).is_none());
    store.remove(&worker("a"));
    assert!(store.get(&worker("b")).is_some());
}

#[test]
fn cache_holds_at_most_one_entry_per_worker() {
    let mut cache = ActiveWorkers::new();
    let w = worker("solo");

    // racing callers share one pending slot
    assert!(cache.get_or_create_pending(&w));
    assert!(!cache.get_or_create_pending(&w));
    assert_eq!(cache.len(), 1);

    let state = WorkerState::new(w.clone(), account(), Oplog::new());
    cache.make_final(&w, state);
    assert!(!cache.get_or_create_pending(&w));
    assert_eq!(cache.len(), 1);
    let idx = cache.index_of(&w).expect("cached");
    assert!(matches!(cache.workers[idx].entry, PendingOrFinal::Final(_)));

    cache.remove(&w);
    assert_eq!(cache.len(), 0);
    cache.remove(&w);
    assert_eq!(cache.len(), 0);
}

#[test]
fn monotonic_clock_never_goes_backwards() {
    let mut state = WorkerState::new(worker("ticker"), account(), Oplog::new());
    assert_eq!(state.ctx.now(100), 100);
    // a raw clock regression is smoothed over
    assert_eq!(state.ctx.now(50), 100);
    assert_eq!(state.ctx.now(170), 170);
    // local reads are never journalled
    assert_eq!(state.ctx.durability.oplog.length(), 0);
    assert_eq!(state.ctx.resolution(1), 1);
    assert_eq!(state.ctx.subscribe_duration(170, 30), 200);
    assert_eq!(state.ctx.subscribe_duration(u64::MAX - 1, 30), u64::MAX);
}

#[test]
fn self_uri_is_derived_from_identity() {
    let mut state = WorkerState::new(
        WorkerId {
            template_id: TemplateId { high_bits: 0x0123456789abcdef, low_bits: 0xfedcba9876543210 },
            worker_name: "me".to_string(),
        },
        account(),
        Oplog::new(),
    );
    let uri = state.ctx.get_self_uri(&"run".to_string());
    assert_eq!(uri, "worker://0123456789abcdeffedcba9876543210/me/run");
    assert_eq!(state.ctx.durability.oplog.length(), 0);
}

#[test]
fn eviction_is_refused_while_running() {
    let mut cache = ActiveWorkers::new();
    let w = worker("evictee");
    cache.get_or_create_pending(&w);
    let mut state = WorkerState::new(w.clone(), account(), Oplog::new());
    state.enqueue(worker_executor::worker::Invocation {
        invocation_key: None,
        function_name: "busy".to_string(),
        args: vec![],
        calling_convention: worker_executor::model::CallingConvention::Component,
    });
    cache.make_final(&w, state);

    // a running worker stays resident
    assert!(!cache.evict(&w));
    assert!(cache.index_of(&w).is_some());

    // once quiescent it can be dropped
    let idx = cache.index_of(&w).unwrap();
    if let PendingOrFinal::Final(state) = &mut cache.workers[idx].entry {
        state.take_next_invocation();
        state.finish_invocation();
        assert_eq!(state.status, WorkerStatus::Idle);
    }
    assert!(cache.evict(&w));
    assert!(cache.index_of(&w).is_none());
    // evicting an absent worker succeeds trivially
    assert!(cache.evict(&w));
}

#[test]
fn local_reads_never_consume_journal_entries() {
    // a journal holding one persisted entry; a local clock read during
    // replay is recomputed and must not consume it
    let mut log = Oplog::new();
    log.append(
        "wall_clock::now".to_string(),
        worker_executor::model::WrappedFunctionType::WriteLocal,
        5u64.to_le_bytes().to_vec(),
    );
    let mut state = WorkerState::new(worker("replaying"), account(), log);
    assert_eq!(state.ctx.now(9), 9);
    assert_eq!(state.ctx.durability.replay_cursor, 0);
    // the persisted entry then replays with its recorded value
    assert_eq!(state.ctx.wall_clock_now(777).expect("replay"), 5);
    assert_eq!(state.ctx.durability.replay_cursor, 1);
}

#[test]
fn corrupt_recorded_payload_is_an_error() {
    let mut log = Oplog::new();
    // a wall-clock entry whose payload is not eight bytes
    log.append(
        "wall_clock::now".to_string(),
        worker_executor::model::WrappedFunctionType::WriteLocal,
        vec![1, 2, 3],
    );
    let mut state = WorkerState::new(worker("corrupt"), account(), log);
    assert_eq!(
        state.ctx.wall_clock_now(1).expect_err("corrupt journal"),
        HostCallError::BadRecordedPayload
    );
}
