//! The worker metadata store: everything persisted per worker besides
//! its oplog.
//!
//! A record is created when a worker is first requested and mutated only
//! by that worker's single-writer runtime (or by the node operations that
//! act for it); it disappears only with an explicit delete.

use vstd::prelude::*;

use crate::model::{WorkerId, WorkerIdView, WorkerMetadata, WorkerStatus};

verus! {

/// A deep copy of a string vector.
pub fn clone_strings(v: &Vec<String>) -> (r: Vec<String>)
    ensures
        r@.len() == v@.len(),
        forall|i: int| 0 <= i < v@.len() ==> r@[i] == v@[i],
{
    let mut r: Vec<String> = Vec::new();
    let mut i: usize = 0;
    while i < v.len()
        invariant
            i <= v.len(),
            r@.len() == i,
            forall|j: int| 0 <= j < i ==> r@[j] == v@[j],
        decreases v.len() - i,
    {
        r.push(v[i].clone());
        i = i + 1;
    }
    r
}

/// A deep copy of an environment list.
pub fn clone_env(v: &Vec<(String, String)>) -> (r: Vec<(String, String)>)
    ensures
        r@.len() == v@.len(),
        forall|i: int| 0 <= i < v@.len() ==> r@[i] == v@[i],
{
    let mut r: Vec<(String, String)> = Vec::new();
    let mut i: usize = 0;
    while i < v.len()
        invariant
            i <= v.len(),
            r@.len() == i,
            forall|j: int| 0 <= j < i ==> r@[j] == v@[j],
        decreases v.len() - i,
    {
        let (k, val) = &v[i];
        r.push((k.clone(), val.clone()));
        proof {
            assert(r@[i as int] == v@[i as int]);
        }
        i = i + 1;
    }
    r
}

impl WorkerMetadata {
    /// An exact copy; unlike the derived `Clone`, its contract says so.
    pub fn duplicate(&self) -> (r: WorkerMetadata)
        ensures
            r.worker_id.worker_id == self.worker_id.worker_id,
            r.worker_id.template_version == self.worker_id.template_version,
            r.args@ == self.args@,
            r.env@ == self.env@,
            r.account_id.value == self.account_id.value,
            r.last_known_status == self.last_known_status,
            r.retry_count == self.retry_count,
            r.oplog_tail == self.oplog_tail,
    {
        let args = clone_strings(&self.args);
        let env = clone_env(&self.env);
        proof {
            assert(args@ =~= self.args@);
            assert(env@ =~= self.env@);
        }
        WorkerMetadata {
            worker_id: crate::model::VersionedWorkerId {
                worker_id: self.worker_id.worker_id.duplicate(),
                template_version: self.worker_id.template_version,
            },
            args,
            env,
            account_id: crate::model::AccountId { value: self.account_id.value.clone() },
            last_known_status: self.last_known_status,
            retry_count: self.retry_count,
            oplog_tail: self.oplog_tail,
        }
    }
}

/// Whether one of the first `n` records of `s` belongs to `id`.
pub open spec fn meta_contains_up_to(s: Seq<WorkerMetadata>, n: int, id: WorkerIdView) -> bool {
    exists|j: int| 0 <= j < n && s[j].worker_id.worker_id@ == id
}

/// The metadata records of this node's workers.
pub struct WorkerMetadataStore {
    pub records: Vec<WorkerMetadata>,
}

impl WorkerMetadataStore {
    /// No two records belong to the same worker.
    pub open spec fn wf(self) -> bool {
        forall|i: int, j: int|
            0 <= i < j < self.records@.len() ==> self.records@[i].worker_id.worker_id@
                != self.records@[j].worker_id.worker_id@
    }

    /// Whether a record for this worker exists.
    pub open spec fn spec_contains(self, id: WorkerIdView) -> bool {
        exists|i: int|
            0 <= i < self.records@.len() && self.records@[i].worker_id.worker_id@ == id
    }

    /// The position of the record for this worker.
    pub open spec fn spec_index_of(self, id: WorkerIdView) -> int {
        choose|i: int|
            0 <= i < self.records@.len() && self.records@[i].worker_id.worker_id@ == id
    }

    /// The record for this worker.
    pub open spec fn spec_record_of(self, id: WorkerIdView) -> WorkerMetadata {
        self.records@[self.spec_index_of(id)]
    }

    /// An empty store.
    pub fn new() -> (r: WorkerMetadataStore)
        ensures
            r.wf(),
            r.records@.len() == 0,
    {
        WorkerMetadataStore { records: Vec::new() }
    }

    /// The position of the record for the given worker, if any.
    fn index_of(&self, id: &WorkerId) -> (r: Option<usize>)
        requires
            self.wf(),
        ensures
            match r {
                Some(i) => i < self.records@.len() && self.records@[
                i as int].worker_id.worker_id@ == id@ && i == self.spec_index_of(id@),
                None => !self.spec_contains(id@),
            },
    {
        let mut i: usize = 0;
        while i < self.records.len()
            invariant
                self.wf(),
                i <= self.records@.len(),
                forall|j: int| 0 <= j < i ==> self.records@[j].worker_id.worker_id@ != id@,
            decreases self.records@.len() - i,
        {
            if self.records[i].worker_id.worker_id == *id {
                proof {
                    assert(self.records@[i as int].worker_id.worker_id@ == id@);
                    assert(self.spec_contains(id@));
                    let w = self.spec_index_of(id@);
                    assert(0 <= w < self.records@.len() && self.records@[
                    w].worker_id.worker_id@ == id@);
                    if w != i as int {
                        assert(self.records@[w].worker_id.worker_id@ == self.records@[
                        i as int].worker_id.worker_id@);
                    }
                }
                return Some(i);
            }
            i = i + 1;
        }
        None
    }

    /// The record of this worker, if any; created when the worker was
    /// first requested.
    pub fn get(&self, id: &WorkerId) -> (r: Option<&WorkerMetadata>)
        requires
            self.wf(),
        ensures
            r is Some <==> self.spec_contains(id@),
            r matches Some(m) ==> *m == self.spec_record_of(id@)
                && m.worker_id.worker_id@ == id@,
    {
        match self.index_of(id) {
            Some(i) => Some(&self.records[i]),
            None => None,
        }
    }

    /// Inserts the record for a worker not seen before; inserting over an
    /// existing record changes nothing and reports `false`.
    pub fn insert(&mut self, metadata: WorkerMetadata) -> (inserted: bool)
        requires
            old(self).wf(),
        ensures
            final (self).wf(),
            inserted == !old(self).spec_contains(metadata.worker_id.worker_id@),
            final (self).spec_contains(metadata.worker_id.worker_id@),
            !inserted ==> *final (self) == *old(self),
            inserted ==> {
                &&& final (self).records@.len() == old(self).records@.len() + 1
                &&& final (self).spec_record_of(metadata.worker_id.worker_id@) == metadata
                &&& forall|i: int|
                    0 <= i < old(self).records@.len() ==> final (self).records@[i] == old(
                        self,
                    ).records@[i]
            },
            forall|other: WorkerIdView|
                other != metadata.worker_id.worker_id@ ==> (final (self).spec_contains(other)
                    <==> old(self).spec_contains(other)),
    {
        let ghost id = metadata.worker_id.worker_id@;
        match self.index_of(&metadata.worker_id.worker_id) {
            Some(_) => false,
            None => {
                self.records.push(metadata);
                proof {
                    assert(self.records@.last().worker_id.worker_id@ == id);
                    assert(self.spec_contains(id));
                    assert(self.spec_index_of(id) == self.records@.len() - 1) by {
                        let w = self.spec_index_of(id);
                        if w != self.records@.len() - 1 {
                            assert(w < old(self).records@.len());
                            assert(old(self).records@[w].worker_id.worker_id@ == id);
                            assert(old(self).spec_contains(id));
                        }
                    }
                    assert forall|other: WorkerIdView|
                        other != id implies (self.spec_contains(other) <==> old(
                        self,
                    ).spec_contains(other)) by {
                        if self.spec_contains(other) {
                            let i = choose|i: int|
                                0 <= i < self.records@.len() && self.records@[
                                i].worker_id.worker_id@ == other;
                            assert(i < old(self).records@.len());
                            assert(old(self).spec_contains(other));
                        }
                        if old(self).spec_contains(other) {
                            let i = choose|i: int|
                                0 <= i < old(self).records@.len() && old(self).records@[
                                i].worker_id.worker_id@ == other;
                            assert(self.records@[i].worker_id.worker_id@ == other);
                        }
                    }
                }
                true
            },
        }
    }

    /// Updates the last-known status and retry count of a worker's
    /// record; unknown workers are left untouched.
    pub fn set_status(&mut self, id: &WorkerId, status: WorkerStatus, retry_count: u64)
        requires
            old(self).wf(),
        ensures
            final (self).wf(),
            !old(self).spec_contains(id@) ==> *final (self) == *old(self),
            old(self).spec_contains(id@) ==> {
                &&& final (self).spec_contains(id@)
                &&& final (self).records@.len() == old(self).records@.len()
                &&& final (self).spec_record_of(id@).last_known_status == status
                &&& final (self).spec_record_of(id@).retry_count == retry_count
                &&& final (self).spec_record_of(id@).worker_id.worker_id@ == id@
                &&& final (self).spec_record_of(id@).args@ == old(self).spec_record_of(
                    id@,
                ).args@
                &&& final (self).spec_record_of(id@).env@ == old(self).spec_record_of(id@).env@
                &&& final (self).spec_record_of(id@).account_id.value@ == old(
                    self,
                ).spec_record_of(id@).account_id.value@
                &&& final (self).spec_record_of(id@).worker_id.template_version == old(
                    self,
                ).spec_record_of(id@).worker_id.template_version
                &&& forall|i: int|
                    0 <= i < old(self).records@.len() && old(self).records@[
                    i].worker_id.worker_id@ != id@ ==> final (self).records@[i] == old(
                        self,
                    ).records@[i]
            },
            forall|other: WorkerIdView|
                final (self).spec_contains(other) <==> old(self).spec_contains(other),
    {
        match self.index_of(id) {
            Some(i) => {
                let mut updated = self.records[i].duplicate();
                updated.last_known_status = status;
                updated.retry_count = retry_count;
                self.records.set(i, updated);
                proof {
                    assert(self.records@[i as int].worker_id.worker_id@ == id@);
                    assert forall|jj: int, kk: int|
                        0 <= jj < kk < self.records@.len() implies self.records@[
                    jj].worker_id.worker_id@ != self.records@[kk].worker_id.worker_id@ by {
                        assert(old(self).records@[jj].worker_id.worker_id@ != old(
                            self,
                        ).records@[kk].worker_id.worker_id@);
                    }
                    assert(self.spec_contains(id@));
                    assert(self.spec_index_of(id@) == i as int) by {
                        let w = self.spec_index_of(id@);
                        if w != i as int {
                            assert(self.records@[w].worker_id.worker_id@ == self.records@[
                            i as int].worker_id.worker_id@);
                        }
                    }
                    assert(old(self).spec_index_of(id@) == i as int) by {
                        let w = old(self).spec_index_of(id@);
                        if w != i as int {
                            assert(old(self).records@[w].worker_id.worker_id@ == old(
                                self,
                            ).records@[i as int].worker_id.worker_id@);
                        }
                    }
                    assert forall|other: WorkerIdView|
                        self.spec_contains(other) <==> old(self).spec_contains(other) by {
                        if self.spec_contains(other) {
                            let j = choose|j: int|
                                0 <= j < self.records@.len() && self.records@[
                                j].worker_id.worker_id@ == other;
                            assert(old(self).records@[j].worker_id.worker_id@ == other);
                            assert(old(self).spec_contains(other));
                        }
                        if old(self).spec_contains(other) {
                            let j = choose|j: int|
                                0 <= j < old(self).records@.len() && old(self).records@[
                                j].worker_id.worker_id@ == other;
                            assert(self.records@[j].worker_id.worker_id@ == other);
                            assert(self.spec_contains(other));
                        }
                    }
                }
            },
            None => {},
        }
    }

    /// Updates the oplog-tail pointer of a worker's record: the index of
    /// the last journal entry the store has seen for it.  Unknown workers
    /// are left untouched.
    pub fn set_oplog_tail(&mut self, id: &WorkerId, oplog_tail: u64)
        requires
            old(self).wf(),
        ensures
            final (self).wf(),
            !old(self).spec_contains(id@) ==> *final (self) == *old(self),
            old(self).spec_contains(id@) ==> {
                &&& final (self).spec_contains(id@)
                &&& final (self).records@.len() == old(self).records@.len()
                &&& final (self).spec_record_of(id@).oplog_tail == oplog_tail
                &&& final (self).spec_record_of(id@).worker_id.worker_id@ == id@
                &&& final (self).spec_record_of(id@).last_known_status == old(
                    self,
                ).spec_record_of(id@).last_known_status
                &&& final (self).spec_record_of(id@).retry_count == old(self).spec_record_of(
                    id@,
                ).retry_count
                &&& final (self).spec_record_of(id@).args@ == old(self).spec_record_of(
                    id@,
                ).args@
                &&& final (self).spec_record_of(id@).env@ == old(self).spec_record_of(id@).env@
                &&& forall|i: int|
                    0 <= i < old(self).records@.len() && old(self).records@[
                    i].worker_id.worker_id@ != id@ ==> final (self).records@[i] == old(
                        self,
                    ).records@[i]
            },
            forall|other: WorkerIdView|
                final (self).spec_contains(other) <==> old(self).spec_contains(other),
    {
        match self.index_of(id) {
            Some(i) => {
                let mut updated = self.records[i].duplicate();
                updated.oplog_tail = oplog_tail;
                self.records.set(i, updated);
                proof {
                    assert(self.records@[i as int].worker_id.worker_id@ == id@);
                    assert forall|jj: int, kk: int|
                        0 <= jj < kk < self.records@.len() implies self.records@[
                    jj].worker_id.worker_id@ != self.records@[kk].worker_id.worker_id@ by {
                        assert(old(self).records@[jj].worker_id.worker_id@ != old(
                            self,
                        ).records@[kk].worker_id.worker_id@);
                    }
                    assert(self.spec_contains(id@));
                    assert(self.spec_index_of(id@) == i as int) by {
                        let w = self.spec_index_of(id@);
                        if w != i as int {
                            assert(self.records@[w].worker_id.worker_id@ == self.records@[
                            i as int].worker_id.worker_id@);
                        }
                    }
                    assert(old(self).spec_index_of(id@) == i as int) by {
                        let w = old(self).spec_index_of(id@);
                        if w != i as int {
                            assert(old(self).records@[w].worker_id.worker_id@ == old(
                                self,
                            ).records@[i as int].worker_id.worker_id@);
                        }
                    }
                    assert forall|other: WorkerIdView|
                        self.spec_contains(other) <==> old(self).spec_contains(other) by {
                        if self.spec_contains(other) {
                            let j = choose|j: int|
                                0 <= j < self.records@.len() && self.records@[
                                j].worker_id.worker_id@ == other;
                            assert(old(self).records@[j].worker_id.worker_id@ == other);
                            assert(old(self).spec_contains(other));
                        }
                        if old(self).spec_contains(other) {
                            let j = choose|j: int|
                                0 <= j < old(self).records@.len() && old(self).records@[
                                j].worker_id.worker_id@ == other;
                            assert(self.records@[j].worker_id.worker_id@ == other);
                            assert(self.spec_contains(other));
                        }
                    }
                }
            },
            None => {},
        }
    }

    /// Removes a worker's record; idempotent.
    pub fn remove(&mut self, id: &WorkerId)
        requires
            old(self).wf(),
        ensures
            final (self).wf(),
            !final (self).spec_contains(id@),
            forall|other: WorkerIdView|
                other != id@ ==> (final (self).spec_contains(other) <==> old(
                    self,
                ).spec_contains(other)),
    {
        match self.index_of(id) {
            Some(i) => {
                let ghost prev = self.records@;
                self.records.remove(i);
                proof {
                    assert(self.records@ =~= prev.remove(i as int));
                    assert forall|jj: int, kk: int|
                        0 <= jj < kk < self.records@.len() implies self.records@[
                    jj].worker_id.worker_id@ != self.records@[kk].worker_id.worker_id@ by {
                        let pj = if jj < i as int {
                            jj
                        } else {
                            jj + 1
                        };
                        let pk = if kk < i as int {
                            kk
                        } else {
                            kk + 1
                        };
                        assert(prev[pj].worker_id.worker_id@ != prev[
                        pk].worker_id.worker_id@);
                    }
                    assert forall|other: WorkerIdView|
                        self.spec_contains(other) implies (exists|j: int|
                        0 <= j < prev.len() && j != i as int && prev[j].worker_id.worker_id@
                            == other) by {
                        let j = choose|j: int|
                            0 <= j < self.records@.len() && self.records@[
                            j].worker_id.worker_id@ == other;
                        let pj = if j < i as int {
                            j
                        } else {
                            j + 1
                        };
                        assert(prev[pj].worker_id.worker_id@ == other && pj != i as int);
                    }
                    assert(!self.spec_contains(id@)) by {
                        if self.spec_contains(id@) {
                            let j = choose|j: int|
                                0 <= j < prev.len() && j != i as int && prev[
                                j].worker_id.worker_id@ == id@;
                            assert(prev[j].worker_id.worker_id@ != prev[
                            i as int].worker_id.worker_id@);
                        }
                    }
                    assert forall|other: WorkerIdView|
                        other != id@ implies (self.spec_contains(other) <==> old(
                        self,
                    ).spec_contains(other)) by {
                        if self.spec_contains(other) {
                            let j = choose|j: int|
                                0 <= j < prev.len() && j != i as int && prev[
                                j].worker_id.worker_id@ == other;
                            assert(old(self).spec_contains(other));
                        }
                        if old(self).spec_contains(other) {
                            let j = choose|j: int|
                                0 <= j < prev.len() && prev[j].worker_id.worker_id@ == other;
                            assert(j != i as int);
                            if j < i as int {
                                assert(self.records@[j].worker_id.worker_id@ == other);
                            } else {
                                assert(self.records@[j - 1].worker_id.worker_id@ == other);
                            }
                            assert(self.spec_contains(other));
                        }
                    }
                }
            },
            None => {},
        }
    }
}

} // verus!
