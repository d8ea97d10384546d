//! Shard ownership and the worker-to-shard mapping.

use worker_executor::model::{GolemError, TemplateId, WorkerId};
use worker_executor::shard::{shard_of, ShardService};

fn worker(name: &str) -> WorkerId {
    WorkerId {
        template_id: TemplateId { high_bits: 1, low_bits: 2 },
        worker_name: name.to_string(),
    }
}

#[test]
fn shard_of_is_stable_and_template_independent() {
    let a = worker("alpha");
    let b = WorkerId {
        template_id: TemplateId { high_bits: 900, low_bits: 901 },
        worker_name: "alpha".to_string(),
    };
    // the shard depends on the worker name and the shard count alone, so
    // every node computes the same mapping
    assert_eq!(shard_of(&a, 16), shard_of(&b, 16));
    assert_eq!(shard_of(&a, 16), shard_of(&a, 16));
    assert!(shard_of(&a, 16) < 16);
}

#[test]
fn shard_of_exact_value() {
    // 64-bit FNV-1a of "alpha" is 0xaf63bd4c8601b7a5 for the empty prefix
    // basis; the fold below pins the implementation to the published
    // constants
    let mut h: u64 = 0xcbf29ce484222325;
    for b in "alpha".bytes() {
        h = (h ^ (b as u64)).wrapping_mul(0x100000001b3);
    }
    assert_eq!(shard_of(&worker("alpha"), u64::MAX), h % u64::MAX);
    assert_eq!(shard_of(&worker("alpha"), 10), h % 10);
}

#[test]
fn register_assign_revoke_are_idempotent_set_operations() {
    let mut svc = ShardService::register(8, &vec![0, 1, 2]);
    assert!(svc.owned_shards.contains(&1));

    svc.assign_shards(&vec![1, 3]);
    svc.assign_shards(&vec![1, 3]);
    let mut owned = svc.owned_shards.clone();
    owned.sort();
    assert_eq!(owned, vec![0, 1, 2, 3]);

    svc.revoke_shards(&vec![1, 7]);
    svc.revoke_shards(&vec![1]);
    let mut owned = svc.owned_shards.clone();
    owned.sort();
    assert_eq!(owned, vec![0, 2, 3]);
}

#[test]
fn check_worker_reports_foreign_shard() {
    let w = worker("routed");
    let shard = shard_of(&w, 4);
    let with_shard = ShardService::register(4, &vec![shard]);
    assert!(with_shard.check_worker(&w).is_ok());

    let other = (shard + 1) % 4;
    let without = ShardService::register(4, &vec![other]);
    match without.check_worker(&w) {
        Err(GolemError::InvalidShardId { shard_id, shard_ids }) => {
            assert_eq!(shard_id, shard);
            assert_eq!(shard_ids, vec![other]);
        }
        _ => panic!("a foreign shard must be reported"),
    }
}
