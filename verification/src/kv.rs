//! The durable key-value primitive workers reach through the host
//! surface.
//!
//! Values are addressed by owning account, bucket and key.  Reads are
//! wrapped as remote reads and writes as remote writes by the host
//! surface, so every outcome a module observes is recorded in its oplog.

use vstd::prelude::*;

use crate::model::AccountId;
use crate::oplog::clone_bytes;

verus! {

/// The address of one stored value.
pub type KvKey = (Seq<char>, Seq<char>, Seq<char>);

/// One stored value with its address.
pub struct KvEntry {
    pub account_id: AccountId,
    pub bucket: String,
    pub key: String,
    pub value: Vec<u8>,
}

impl KvEntry {
    /// The mathematical address of this entry.
    pub open spec fn addr(self) -> KvKey {
        (self.account_id.value@, self.bucket@, self.key@)
    }
}

/// Whether one of the first `n` entries of `s` sits at address `a`.
pub open spec fn kv_contains_up_to(s: Seq<KvEntry>, n: int, a: KvKey) -> bool {
    exists|j: int| 0 <= j < n && s[j].addr() == a
}

/// The in-memory model of the key-value store.
pub struct KeyValueService {
    pub entries: Vec<KvEntry>,
}

impl KeyValueService {
    /// No two entries share an address.
    pub open spec fn wf(self) -> bool {
        forall|i: int, j: int|
            0 <= i < j < self.entries@.len() ==> self.entries@[i].addr()
                != self.entries@[j].addr()
    }

    /// Whether a value is stored at this address.
    pub open spec fn spec_contains(self, a: KvKey) -> bool {
        exists|i: int| 0 <= i < self.entries@.len() && self.entries@[i].addr() == a
    }

    /// The position of the entry at this address.
    pub open spec fn spec_index_of(self, a: KvKey) -> int {
        choose|i: int| 0 <= i < self.entries@.len() && self.entries@[i].addr() == a
    }

    /// The stored bytes at this address.
    pub open spec fn spec_value_of(self, a: KvKey) -> Seq<u8> {
        self.entries@[self.spec_index_of(a)].value@
    }

    /// An empty store.
    pub fn new() -> (r: KeyValueService)
        ensures
            r.wf(),
            r.entries@.len() == 0,
    {
        KeyValueService { entries: Vec::new() }
    }

    /// The position of the entry at the given address, if any.
    fn index_of(&self, account_id: &AccountId, bucket: &String, key: &String) -> (r: Option<
        usize,
    >)
        requires
            self.wf(),
        ensures
            match r {
                Some(i) => i < self.entries@.len() && self.entries@[i as int].addr() == (
                    account_id.value@,
                    bucket@,
                    key@,
                ) && i == self.spec_index_of((account_id.value@, bucket@, key@)),
                None => !self.spec_contains((account_id.value@, bucket@, key@)),
            },
    {
        let ghost a: KvKey = (account_id.value@, bucket@, key@);
        let mut i: usize = 0;
        while i < self.entries.len()
            invariant
                self.wf(),
                i <= self.entries@.len(),
                a == (account_id.value@, bucket@, key@),
                forall|j: int| 0 <= j < i ==> self.entries@[j].addr() != a,
            decreases self.entries@.len() - i,
        {
            let e = &self.entries[i];
            if e.account_id.value == account_id.value && e.bucket == *bucket && e.key == *key {
                proof {
                    assert(self.entries@[i as int].addr() == a);
                    assert(self.spec_contains(a));
                    let w = self.spec_index_of(a);
                    assert(0 <= w < self.entries@.len() && self.entries@[w].addr() == a);
                    if w != i as int {
                        assert(self.entries@[w].addr() == self.entries@[i as int].addr());
                    }
                }
                return Some(i);
            }
            i = i + 1;
        }
        None
    }

    /// The stored bytes at the address, if any.
    pub fn get(&self, account_id: &AccountId, bucket: &String, key: &String) -> (r: Option<
        Vec<u8>,
    >)
        requires
            self.wf(),
        ensures
            r is Some <==> self.spec_contains((account_id.value@, bucket@, key@)),
            r matches Some(v) ==> v@ == self.spec_value_of((account_id.value@, bucket@, key@)),
    {
        match self.index_of(account_id, bucket, key) {
            Some(i) => Some(clone_bytes(&self.entries[i].value)),
            None => None,
        }
    }

    /// Whether a value is stored at the address.
    pub fn exists_key(&self, account_id: &AccountId, bucket: &String, key: &String) -> (r: bool)
        requires
            self.wf(),
        ensures
            r == self.spec_contains((account_id.value@, bucket@, key@)),
    {
        match self.index_of(account_id, bucket, key) {
            Some(_) => true,
            None => false,
        }
    }

    /// Stores `value` at the address, replacing any earlier value.
    pub fn set(&mut self, account_id: &AccountId, bucket: &String, key: &String, value: Vec<u8>)
        requires
            old(self).wf(),
        ensures
            final (self).wf(),
            final (self).spec_contains((account_id.value@, bucket@, key@)),
            final (self).spec_value_of((account_id.value@, bucket@, key@)) == value@,
            forall|other: KvKey|
                other != (account_id.value@, bucket@, key@) ==> (final (self).spec_contains(
                    other,
                ) <==> old(self).spec_contains(other)),
            forall|i: int|
                0 <= i < old(self).entries@.len() && old(self).entries@[i].addr() != (
                    account_id.value@,
                    bucket@,
                    key@,
                ) ==> final (self).entries@[i] == old(self).entries@[i],
    {
        let ghost a: KvKey = (account_id.value@, bucket@, key@);
        match self.index_of(account_id, bucket, key) {
            Some(i) => {
                let entry = KvEntry {
                    account_id: AccountId { value: account_id.value.clone() },
                    bucket: bucket.clone(),
                    key: key.clone(),
                    value,
                };
                self.entries.set(i, entry);
                proof {
                    assert(self.entries@[i as int].addr() == a);
                    assert forall|jj: int, kk: int|
                        0 <= jj < kk < self.entries@.len() implies self.entries@[jj].addr()
                        != self.entries@[kk].addr() by {
                        assert(old(self).entries@[jj].addr() != old(self).entries@[kk].addr());
                    }
                    assert(self.spec_index_of(a) == i as int) by {
                        assert(self.spec_contains(a));
                        let w = self.spec_index_of(a);
                        if w != i as int {
                            assert(self.entries@[w].addr() == self.entries@[i as int].addr());
                        }
                    }
                    assert forall|other: KvKey|
                        other != a implies (self.spec_contains(other) <==> old(
                        self,
                    ).spec_contains(other)) by {
                        if self.spec_contains(other) {
                            let j = choose|j: int|
                                0 <= j < self.entries@.len() && self.entries@[j].addr()
                                    == other;
                            assert(j != i as int);
                            assert(old(self).entries@[j].addr() == other);
                            assert(old(self).spec_contains(other));
                        }
                        if old(self).spec_contains(other) {
                            let j = choose|j: int|
                                0 <= j < old(self).entries@.len() && old(
                                    self,
                                ).entries@[j].addr() == other;
                            assert(j != i as int);
                            assert(self.entries@[j].addr() == other);
                            assert(self.spec_contains(other));
                        }
                    }
                }
            },
            None => {
                let entry = KvEntry {
                    account_id: AccountId { value: account_id.value.clone() },
                    bucket: bucket.clone(),
                    key: key.clone(),
                    value,
                };
                self.entries.push(entry);
                proof {
                    assert(self.entries@.last().addr() == a);
                    assert(self.spec_contains(a));
                    assert(self.spec_index_of(a) == self.entries@.len() - 1) by {
                        let w = self.spec_index_of(a);
                        if w != self.entries@.len() - 1 {
                            assert(w < old(self).entries@.len());
                            assert(old(self).entries@[w].addr() == a);
                            assert(old(self).spec_contains(a));
                        }
                    }
                    assert forall|other: KvKey|
                        other != a implies (self.spec_contains(other) <==> old(
                        self,
                    ).spec_contains(other)) by {
                        if self.spec_contains(other) {
                            let j = choose|j: int|
                                0 <= j < self.entries@.len() && self.entries@[j].addr()
                                    == other;
                            assert(j < old(self).entries@.len());
                            assert(old(self).spec_contains(other));
                        }
                        if old(self).spec_contains(other) {
                            let j = choose|j: int|
                                0 <= j < old(self).entries@.len() && old(
                                    self,
                                ).entries@[j].addr() == other;
                            assert(self.entries@[j].addr() == other);
                        }
                    }
                }
            },
        }
    }

    /// Removes the value at the address; removing an absent address
    /// changes nothing.
    pub fn delete(&mut self, account_id: &AccountId, bucket: &String, key: &String)
        requires
            old(self).wf(),
        ensures
            final (self).wf(),
            !final (self).spec_contains((account_id.value@, bucket@, key@)),
            forall|other: KvKey|
                other != (account_id.value@, bucket@, key@) ==> (final (self).spec_contains(
                    other,
                ) <==> old(self).spec_contains(other)),
    {
        let ghost a: KvKey = (account_id.value@, bucket@, key@);
        let mut kept: Vec<KvEntry> = Vec::new();
        let mut i: usize = 0;
        while i < self.entries.len()
            invariant
                i <= self.entries@.len(),
                self == old(self),
                old(self).wf(),
                a == (account_id.value@, bucket@, key@),
                forall|j: int, k: int|
                    0 <= j < k < kept@.len() ==> kept@[j].addr() != kept@[k].addr(),
                forall|j: int| 0 <= j < kept@.len() ==> kept@[j].addr() != a,
                forall|other: KvKey|
                    kv_contains_up_to(kept@, kept@.len() as int, other) <==> (other != a
                        && kv_contains_up_to(self.entries@, i as int, other)),
            decreases self.entries@.len() - i,
        {
            let ghost prev_kept = kept@;
            let e = &self.entries[i];
            let keep = !(e.account_id.value == account_id.value && e.bucket == *bucket && e.key
                == *key);
            if keep {
                kept.push(
                    KvEntry {
                        account_id: AccountId { value: e.account_id.value.clone() },
                        bucket: e.bucket.clone(),
                        key: e.key.clone(),
                        value: clone_bytes(&e.value),
                    },
                );
                proof {
                    assert(kept@.last().addr() == self.entries@[i as int].addr());
                    assert forall|j: int, k: int|
                        0 <= j < k < kept@.len() implies kept@[j].addr() != kept@[k].addr() by {
                        if k < kept@.len() - 1 {
                            assert(prev_kept[j].addr() != prev_kept[k].addr());
                        } else {
                            let other = kept@[j].addr();
                            assert(kv_contains_up_to(prev_kept, prev_kept.len() as int, other));
                            let w = choose|w: int|
                                0 <= w < i && self.entries@[w].addr() == other;
                            assert(self.entries@[w].addr() != self.entries@[i as int].addr());
                        }
                    }
                    assert forall|other: KvKey|
                        kv_contains_up_to(kept@, kept@.len() as int, other) implies (other != a
                        && kv_contains_up_to(self.entries@, i + 1, other)) by {
                        let j = choose|j: int|
                            0 <= j < kept@.len() && kept@[j].addr() == other;
                        if j < kept@.len() - 1 {
                            assert(kv_contains_up_to(prev_kept, prev_kept.len() as int, other));
                            let w = choose|w: int|
                                0 <= w < i && self.entries@[w].addr() == other;
                            assert(kv_contains_up_to(self.entries@, i + 1, other));
                        } else {
                            assert(self.entries@[i as int].addr() == other);
                            assert(kv_contains_up_to(self.entries@, i + 1, other));
                        }
                    }
                }
            } else {
                proof {
                    assert(self.entries@[i as int].addr() == a);
                }
            }
            proof {
                assert forall|other: KvKey|
                    (other != a && kv_contains_up_to(self.entries@, i + 1, other)) implies
                    kv_contains_up_to(kept@, kept@.len() as int, other) by {
                    let w = choose|w: int|
                        0 <= w < i + 1 && self.entries@[w].addr() == other;
                    if w < i {
                        assert(kv_contains_up_to(self.entries@, i as int, other));
                        assert(kv_contains_up_to(prev_kept, prev_kept.len() as int, other));
                        let k = choose|k: int|
                            0 <= k < prev_kept.len() && prev_kept[k].addr() == other;
                        assert(kept@[k].addr() == other);
                    } else {
                        assert(kept@[kept@.len() - 1].addr() == other);
                    }
                }
            }
            i = i + 1;
        }
        self.entries = kept;
        proof {
            assert forall|other: KvKey|
                self.spec_contains(other) implies (other != a && old(self).spec_contains(
                other,
            )) by {
                let j = choose|j: int|
                    0 <= j < self.entries@.len() && self.entries@[j].addr() == other;
                assert(kv_contains_up_to(self.entries@, self.entries@.len() as int, other));
                let w = choose|w: int|
                    0 <= w < old(self).entries@.len() && old(self).entries@[w].addr() == other;
                assert(old(self).spec_contains(other));
            }
            assert forall|other: KvKey|
                (other != a && old(self).spec_contains(other)) implies self.spec_contains(
                other,
            ) by {
                let j = choose|j: int|
                    0 <= j < old(self).entries@.len() && old(self).entries@[j].addr() == other;
                assert(kv_contains_up_to(
                    old(self).entries@,
                    old(self).entries@.len() as int,
                    other,
                ));
                let k = choose|k: int|
                    0 <= k < self.entries@.len() && self.entries@[k].addr() == other;
                assert(self.spec_contains(other));
            }
        }
    }
}

} // verus!
