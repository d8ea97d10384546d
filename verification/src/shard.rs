//! Shard ownership: which slice of the worker-id space this node serves.
//!
//! Every routable operation first checks that the worker's shard is owned
//! by this node; a request for a foreign shard is answered with
//! `InvalidShardId`, which the caller treats as retriable after refreshing
//! its routing table.  A worker's shard is a pure function of its name and
//! the cluster-wide shard count, so every node maps a worker to the same
//! shard.

use vstd::prelude::*;

use crate::model::{GolemError, ShardId, WorkerId};
use vstd::string::StringSliceAdditionalSpecFns;
use vstd::utf8::encode_utf8;

verus! {

/// Offset basis of the 64-bit FNV-1a hash.
pub const FNV_OFFSET_BASIS: u64 = 0xcbf29ce484222325;

/// Prime of the 64-bit FNV-1a hash.
pub const FNV_PRIME: u64 = 0x100000001b3;

/// 64-bit FNV-1a over a byte sequence: starting from the offset basis,
/// each byte is folded in by xor followed by a wrapping multiply with the
/// FNV prime.
pub open spec fn spec_fnv1a(bytes: Seq<u8>) -> u64
    decreases bytes.len(),
{
    if bytes.len() == 0 {
        FNV_OFFSET_BASIS
    } else {
        vstd::wrapping::u64_specs::wrapping_mul(
            spec_fnv1a(bytes.drop_last()) ^ (bytes.last() as u64),
            FNV_PRIME,
        )
    }
}

/// The shard a worker with the given name belongs to, with
/// `number_of_shards` shards in the cluster: the name's UTF-8 bytes are
/// hashed and reduced modulo the shard count.
#[verifier::opaque]
pub open spec fn spec_shard_of(worker_name: Seq<char>, number_of_shards: u64) -> ShardId
    recommends
        number_of_shards >= 1,
{
    spec_fnv1a(encode_utf8(worker_name)) % number_of_shards
}

/// Exec twin of [`spec_fnv1a`].
fn fnv1a(bytes: &Vec<u8>) -> (r: u64)
    ensures
        r == spec_fnv1a(bytes@),
{
    let mut h: u64 = FNV_OFFSET_BASIS;
    let mut i: usize = 0;
    while i < bytes.len()
        invariant
            i <= bytes.len(),
            h == spec_fnv1a(bytes@.subrange(0, i as int)),
        decreases bytes.len() - i,
    {
        h = (h ^ (bytes[i] as u64)).wrapping_mul(FNV_PRIME);
        proof {
            assert(bytes@.subrange(0, i + 1 as int).drop_last() =~= bytes@.subrange(
                0,
                i as int,
            ));
            assert(bytes@.subrange(0, i + 1 as int).last() == bytes@[i as int]);
        }
        i = i + 1;
    }
    proof {
        assert(bytes@.subrange(0, bytes@.len() as int) =~= bytes@);
    }
    h
}

/// The shard of `worker_id`; identical on every node of the cluster.
pub fn shard_of(worker_id: &WorkerId, number_of_shards: u64) -> (r: ShardId)
    requires
        number_of_shards >= 1,
    ensures
        r == spec_shard_of(worker_id@.worker_name, number_of_shards),
{
    proof {
        reveal(spec_shard_of);
    }
    let bytes = worker_id.worker_name.as_str().as_bytes_vec();
    let h = fnv1a(&bytes);
    h % number_of_shards
}

/// Whether `v` holds `s`.
fn shards_contain(v: &Vec<ShardId>, s: ShardId) -> (r: bool)
    ensures
        r == v@.contains(s),
{
    let mut i: usize = 0;
    while i < v.len()
        invariant
            i <= v.len(),
            forall|j: int| 0 <= j < i ==> v@[j] != s,
        decreases v.len() - i,
    {
        if v[i] == s {
            return true;
        }
        i = i + 1;
    }
    false
}

/// Tracks which shards this node currently owns, and the cluster-wide
/// shard count that the shard-of mapping is computed against.
pub struct ShardService {
    pub owned_shards: Vec<ShardId>,
    pub number_of_shards: u64,
}

impl ShardService {
    /// The owned set holds no duplicates, every owned shard is a valid
    /// shard number, and the cluster has at least one shard.
    pub open spec fn wf(self) -> bool {
        &&& self.number_of_shards >= 1
        &&& forall|i: int, j: int|
            0 <= i < j < self.owned_shards@.len() ==> self.owned_shards@[i]
                != self.owned_shards@[j]
        &&& forall|i: int|
            0 <= i < self.owned_shards@.len() ==> self.owned_shards@[i] < self.number_of_shards
    }

    /// Whether this node owns shard `s`.
    pub open spec fn spec_owns(self, s: ShardId) -> bool {
        self.owned_shards@.contains(s)
    }

    /// Whether this node owns the shard of the given worker name.
    pub open spec fn spec_owns_worker(self, worker_name: Seq<char>) -> bool {
        self.spec_owns(spec_shard_of(worker_name, self.number_of_shards))
    }

    /// A freshly started node: shard count known, nothing owned yet.
    pub fn register(number_of_shards: u64, shard_ids: &Vec<ShardId>) -> (r: ShardService)
        requires
            number_of_shards >= 1,
            forall|i: int| 0 <= i < shard_ids@.len() ==> shard_ids@[i] < number_of_shards,
        ensures
            r.wf(),
            r.number_of_shards == number_of_shards,
            forall|s: ShardId| #![trigger r.spec_owns(s)] r.spec_owns(s) <==> shard_ids@.contains(s),
    {
        let mut svc = ShardService { owned_shards: Vec::new(), number_of_shards };
        svc.assign_shards(shard_ids);
        svc
    }

    /// Adds the given shards to the owned set; idempotent.
    pub fn assign_shards(&mut self, shard_ids: &Vec<ShardId>)
        requires
            old(self).wf(),
            forall|i: int|
                0 <= i < shard_ids@.len() ==> shard_ids@[i] < old(self).number_of_shards,
        ensures
            final (self).wf(),
            final (self).number_of_shards == old(self).number_of_shards,
            forall|s: ShardId|
                #![trigger final (self).spec_owns(s)]
                final (self).spec_owns(s) <==> (old(self).spec_owns(s) || shard_ids@.contains(
                    s,
                )),
    {
        let mut i: usize = 0;
        while i < shard_ids.len()
            invariant
                i <= shard_ids.len(),
                self.wf(),
                self.number_of_shards == old(self).number_of_shards,
                forall|j: int|
                    0 <= j < shard_ids@.len() ==> shard_ids@[j] < self.number_of_shards,
                forall|s: ShardId|
                    self.spec_owns(s) <==> (old(self).spec_owns(s) || shard_ids@.subrange(
                        0,
                        i as int,
                    ).contains(s)),
            decreases shard_ids.len() - i,
        {
            let s = shard_ids[i];
            let ghost prev = self.owned_shards@;
            if !shards_contain(&self.owned_shards, s) {
                self.owned_shards.push(s);
            }
            proof {
                broadcast use vstd::seq_lib::lemma_seq_contains_after_push;

                let sub = shard_ids@.subrange(0, i + 1);
                assert(sub =~= shard_ids@.subrange(0, i as int).push(s));
                assert forall|x: ShardId|
                    self.spec_owns(x) <==> (old(self).spec_owns(x) || sub.contains(x)) by {
                    assert(prev.contains(x) <==> (old(self).spec_owns(x) || shard_ids@.subrange(
                        0,
                        i as int,
                    ).contains(x)));
                    if self.owned_shards@ != prev {
                        assert(self.owned_shards@ == prev.push(s));
                        assert(self.owned_shards@.contains(x) <==> (prev.contains(x) || x
                            == s));
                    }
                    assert(sub.contains(x) <==> (shard_ids@.subrange(0, i as int).contains(x)
                        || x == s));
                }
            }
            i = i + 1;
        }
        proof {
            assert(shard_ids@.subrange(0, shard_ids@.len() as int) =~= shard_ids@);
        }
    }

    /// Removes the given shards from the owned set; idempotent.  Workers
    /// whose shard leaves the node are interrupted for restart by the
    /// executor, so they can resurrect on the shard's new owner.
    pub fn revoke_shards(&mut self, shard_ids: &Vec<ShardId>)
        requires
            old(self).wf(),
        ensures
            final (self).wf(),
            final (self).number_of_shards == old(self).number_of_shards,
            forall|s: ShardId|
                #![trigger final (self).spec_owns(s)]
                final (self).spec_owns(s) <==> (old(self).spec_owns(s) && !shard_ids@.contains(
                    s,
                )),
    {
        let mut kept: Vec<ShardId> = Vec::new();
        let mut i: usize = 0;
        while i < self.owned_shards.len()
            invariant
                i <= self.owned_shards.len(),
                self == old(self),
                old(self).wf(),
                forall|s: ShardId|
                    kept@.contains(s) <==> (self.owned_shards@.subrange(0, i as int).contains(s)
                        && !shard_ids@.contains(s)),
                forall|j: int, k: int| 0 <= j < k < kept@.len() ==> kept@[j] != kept@[k],
                forall|j: int| 0 <= j < kept@.len() ==> kept@[j] < self.number_of_shards,
            decreases self.owned_shards.len() - i,
        {
            let s = self.owned_shards[i];
            proof {
                broadcast use vstd::seq_lib::lemma_seq_contains_after_push;

                let sub = self.owned_shards@.subrange(0, i + 1 as int);
                assert(sub =~= self.owned_shards@.subrange(0, i as int).push(s));
                // the owned set has no duplicates, so s is not among the
                // first i entries and thus not yet in kept
                assert(!self.owned_shards@.subrange(0, i as int).contains(s)) by {
                    if self.owned_shards@.subrange(0, i as int).contains(s) {
                        let j = choose|j: int|
                            0 <= j < i && self.owned_shards@.subrange(0, i as int)[j] == s;
                        assert(self.owned_shards@[j] == self.owned_shards@[i as int]);
                    }
                }
            }
            if !shards_contain(shard_ids, s) {
                kept.push(s);
            }
            i = i + 1;
        }
        proof {
            assert(self.owned_shards@.subrange(0, self.owned_shards@.len() as int)
                =~= self.owned_shards@);
        }
        self.owned_shards = kept;
    }

    /// The predicate every routable operation consults before touching
    /// worker state: succeeds exactly when this node owns the worker's
    /// shard, and otherwise reports the foreign shard together with the
    /// currently owned set.
    pub fn check_worker(&self, worker_id: &WorkerId) -> (r: Result<(), GolemError>)
        requires
            self.wf(),
        ensures
            r is Ok <==> self.spec_owns_worker(worker_id@.worker_name),
            r matches Err(e) ==> e matches GolemError::InvalidShardId { shard_id, shard_ids }
                && shard_id == spec_shard_of(worker_id@.worker_name, self.number_of_shards)
                && shard_ids@ == self.owned_shards@,
    {
        let shard = shard_of(worker_id, self.number_of_shards);
        if shards_contain(&self.owned_shards, shard) {
            Ok(())
        } else {
            let mut owned: Vec<ShardId> = Vec::new();
            let mut i: usize = 0;
            while i < self.owned_shards.len()
                invariant
                    i <= self.owned_shards.len(),
                    owned@ =~= self.owned_shards@.subrange(0, i as int),
                decreases self.owned_shards.len() - i,
            {
                owned.push(self.owned_shards[i]);
                i = i + 1;
            }
            proof {
                assert(self.owned_shards@.subrange(0, self.owned_shards@.len() as int)
                    =~= self.owned_shards@);
            }
            Err(GolemError::InvalidShardId { shard_id: shard, shard_ids: owned })
        }
    }
}

} // verus!
