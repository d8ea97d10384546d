//! The active-worker cache: the node's only shared mutable structure.
//!
//! It maps a worker id to either a pending instantiation or the final
//! runtime.  Get-or-insert is keyed on the id, so at most one runtime
//! (or one in-flight instantiation) ever exists per worker id on a node;
//! racing callers observe the same pending entry instead of creating a
//! second one.

use vstd::prelude::*;

use crate::model::{WorkerId, WorkerIdView, WorkerStatus};
use crate::worker::WorkerState;

verus! {

/// A cache slot: instantiation still in flight, or the live runtime.
pub enum PendingOrFinal {
    /// Between the decision to instantiate and the end of module
    /// loading; racing callers all observe this one entry.
    Pending,
    /// The instantiated single-writer runtime.
    Final(WorkerState),
}

/// One cache slot with its key.
pub struct ActiveWorkerEntry {
    pub worker_id: WorkerId,
    pub entry: PendingOrFinal,
}

/// Whether one of the first `n` slots of `s` is keyed by `id`.
pub open spec fn active_contains_up_to(s: Seq<ActiveWorkerEntry>, n: int, id: WorkerIdView)
    -> bool {
    exists|j: int| 0 <= j < n && s[j].worker_id@ == id
}

/// The bounded in-memory set of instantiated workers.
pub struct ActiveWorkers {
    pub workers: Vec<ActiveWorkerEntry>,
}

impl ActiveWorkers {
    /// No two slots share a worker id — at most one runtime per worker
    /// id ever exists on this node — and every final runtime is
    /// well-formed and keyed by its own identity.
    pub open spec fn wf(self) -> bool {
        &&& forall|i: int, j: int|
            0 <= i < j < self.workers@.len() ==> self.workers@[i].worker_id@
                != self.workers@[j].worker_id@
        &&& forall|i: int|
            0 <= i < self.workers@.len() ==> match #[trigger] self.workers@[i].entry {
                PendingOrFinal::Final(state) => state.wf() && state.ctx.worker_id@
                    == self.workers@[i].worker_id@,
                PendingOrFinal::Pending => true,
            }
    }

    /// Whether a slot for this id exists.
    pub open spec fn spec_contains(self, id: WorkerIdView) -> bool {
        exists|i: int| 0 <= i < self.workers@.len() && self.workers@[i].worker_id@ == id
    }

    /// The position of the slot for this id.
    pub open spec fn spec_index_of(self, id: WorkerIdView) -> int {
        choose|i: int| 0 <= i < self.workers@.len() && self.workers@[i].worker_id@ == id
    }

    /// The slot of this id.
    pub open spec fn spec_entry_of(self, id: WorkerIdView) -> PendingOrFinal {
        self.workers@[self.spec_index_of(id)].entry
    }

    /// An empty cache.
    pub fn new() -> (r: ActiveWorkers)
        ensures
            r.wf(),
            r.workers@.len() == 0,
    {
        ActiveWorkers { workers: Vec::new() }
    }

    /// Number of active entries.
    pub fn len(&self) -> (r: usize)
        ensures
            r == self.workers@.len(),
    {
        self.workers.len()
    }

    /// The position of the slot for the given id, if any.
    pub fn index_of(&self, id: &WorkerId) -> (r: Option<usize>)
        requires
            self.wf(),
        ensures
            match r {
                Some(i) => i < self.workers@.len() && self.workers@[i as int].worker_id@ == id@
                    && i == self.spec_index_of(id@),
                None => !self.spec_contains(id@),
            },
    {
        let mut i: usize = 0;
        while i < self.workers.len()
            invariant
                self.wf(),
                i <= self.workers@.len(),
                forall|j: int| 0 <= j < i ==> self.workers@[j].worker_id@ != id@,
            decreases self.workers@.len() - i,
        {
            if self.workers[i].worker_id == *id {
                proof {
                    assert(self.workers@[i as int].worker_id@ == id@);
                    assert(self.spec_contains(id@));
                    let w = self.spec_index_of(id@);
                    assert(0 <= w < self.workers@.len() && self.workers@[w].worker_id@ == id@);
                    if w != i as int {
                        assert(self.workers@[w].worker_id@ == self.workers@[
                        i as int].worker_id@);
                    }
                }
                return Some(i);
            }
            i = i + 1;
        }
        None
    }

    /// Get-or-insert of the pending slot: when no slot exists one pending
    /// slot is created, otherwise nothing changes and the caller shares
    /// the existing slot.  The report says whether this call created it.
    pub fn get_or_create_pending(&mut self, id: &WorkerId) -> (created: bool)
        requires
            old(self).wf(),
        ensures
            final (self).wf(),
            final (self).spec_contains(id@),
            created == !old(self).spec_contains(id@),
            !created ==> *final (self) == *old(self),
            created ==> {
                &&& final (self).workers@.len() == old(self).workers@.len() + 1
                &&& final (self).workers@.last().worker_id@ == id@
                &&& final (self).workers@.last().entry is Pending
                &&& forall|i: int|
                    0 <= i < old(self).workers@.len() ==> final (self).workers@[i] == old(
                        self,
                    ).workers@[i]
            },
            forall|other: WorkerIdView|
                other != id@ ==> (final (self).spec_contains(other) <==> old(
                    self,
                ).spec_contains(other)),
    {
        match self.index_of(id) {
            Some(_) => false,
            None => {
                self.workers.push(
                    ActiveWorkerEntry {
                        worker_id: id.duplicate(),
                        entry: PendingOrFinal::Pending,
                    },
                );
                proof {
                    assert(self.workers@.last().worker_id@ == id@);
                    assert(self.spec_contains(id@));
                    assert forall|other: WorkerIdView|
                        other != id@ implies (self.spec_contains(other) <==> old(
                        self,
                    ).spec_contains(other)) by {
                        if self.spec_contains(other) {
                            let i = choose|i: int|
                                0 <= i < self.workers@.len() && self.workers@[i].worker_id@
                                    == other;
                            assert(i < old(self).workers@.len());
                            assert(old(self).spec_contains(other));
                        }
                        if old(self).spec_contains(other) {
                            let i = choose|i: int|
                                0 <= i < old(self).workers@.len() && old(
                                    self,
                                ).workers@[i].worker_id@ == other;
                            assert(self.workers@[i].worker_id@ == other);
                        }
                    }
                }
                true
            },
        }
    }

    /// Resolves a slot to its final runtime once instantiation finished.
    pub fn make_final(&mut self, id: &WorkerId, state: WorkerState)
        requires
            old(self).wf(),
            old(self).spec_contains(id@),
            state.wf(),
            state.ctx.worker_id@ == id@,
        ensures
            final (self).wf(),
            final (self).spec_contains(id@),
            final (self).workers@.len() == old(self).workers@.len(),
            final (self).workers@[final (self).spec_index_of(id@)].entry == PendingOrFinal::Final(
                state,
            ),
            final (self).spec_index_of(id@) == old(self).spec_index_of(id@),
            forall|i: int|
                0 <= i < old(self).workers@.len() && old(self).workers@[i].worker_id@ != id@
                    ==> final (self).workers@[i] == old(self).workers@[i],
            forall|other: WorkerIdView|
                final (self).spec_contains(other) <==> old(self).spec_contains(other),
    {
        match self.index_of(id) {
            Some(i) => {
                let entry = ActiveWorkerEntry {
                    worker_id: id.duplicate(),
                    entry: PendingOrFinal::Final(state),
                };
                self.workers.set(i, entry);
                proof {
                    assert(self.workers@[i as int].worker_id@ == id@);
                    assert forall|jj: int, kk: int|
                        0 <= jj < kk < self.workers@.len() implies self.workers@[jj].worker_id@
                        != self.workers@[kk].worker_id@ by {
                        assert(old(self).workers@[jj].worker_id@ != old(
                            self,
                        ).workers@[kk].worker_id@);
                    }
                    assert(self.spec_contains(id@));
                    assert(self.spec_index_of(id@) == i as int) by {
                        let w = self.spec_index_of(id@);
                        if w != i as int {
                            assert(self.workers@[w].worker_id@ == self.workers@[
                            i as int].worker_id@);
                        }
                    }
                    assert(old(self).spec_index_of(id@) == i as int) by {
                        let w = old(self).spec_index_of(id@);
                        if w != i as int {
                            assert(old(self).workers@[w].worker_id@ == old(
                                self,
                            ).workers@[i as int].worker_id@);
                        }
                    }
                    assert forall|other: WorkerIdView|
                        self.spec_contains(other) <==> old(self).spec_contains(other) by {
                        if self.spec_contains(other) {
                            let j = choose|j: int|
                                0 <= j < self.workers@.len() && self.workers@[j].worker_id@
                                    == other;
                            assert(old(self).workers@[j].worker_id@ == other);
                            assert(old(self).spec_contains(other));
                        }
                        if old(self).spec_contains(other) {
                            let j = choose|j: int|
                                0 <= j < old(self).workers@.len() && old(
                                    self,
                                ).workers@[j].worker_id@ == other;
                            if j == i as int {
                                assert(self.workers@[j].worker_id@ == other);
                            } else {
                                assert(self.workers@[j].worker_id@ == other);
                            }
                            assert(self.spec_contains(other));
                        }
                    }
                }
            },
            None => {},
        }
    }

    /// Removes a slot; idempotent, and safe to race with eviction.
    pub fn remove(&mut self, id: &WorkerId)
        requires
            old(self).wf(),
        ensures
            final (self).wf(),
            !final (self).spec_contains(id@),
            forall|other: WorkerIdView|
                other != id@ ==> (final (self).spec_contains(other) <==> old(
                    self,
                ).spec_contains(other)),
    {
        match self.index_of(id) {
            Some(i) => {
                let ghost prev = self.workers@;
                self.workers.remove(i);
                proof {
                    assert(self.workers@ =~= prev.remove(i as int));
                    assert forall|jj: int, kk: int|
                        0 <= jj < kk < self.workers@.len() implies self.workers@[jj].worker_id@
                        != self.workers@[kk].worker_id@ by {
                        let pj = if jj < i as int {
                            jj
                        } else {
                            jj + 1
                        };
                        let pk = if kk < i as int {
                            kk
                        } else {
                            kk + 1
                        };
                        assert(prev[pj].worker_id@ != prev[pk].worker_id@);
                    }
                    assert forall|other: WorkerIdView|
                        self.spec_contains(other) implies (exists|j: int|
                        0 <= j < prev.len() && j != i as int && prev[j].worker_id@
                            == other) by {
                        let j = choose|j: int|
                            0 <= j < self.workers@.len() && self.workers@[j].worker_id@
                                == other;
                        let pj = if j < i as int {
                            j
                        } else {
                            j + 1
                        };
                        assert(prev[pj].worker_id@ == other && pj != i as int);
                    }
                    assert(!self.spec_contains(id@)) by {
                        if self.spec_contains(id@) {
                            let j = choose|j: int|
                                0 <= j < prev.len() && j != i as int && prev[j].worker_id@
                                    == id@;
                            assert(prev[j].worker_id@ != prev[i as int].worker_id@);
                        }
                    }
                    assert forall|other: WorkerIdView|
                        other != id@ implies (self.spec_contains(other) <==> old(
                        self,
                    ).spec_contains(other)) by {
                        if self.spec_contains(other) {
                            let j = choose|j: int|
                                0 <= j < prev.len() && j != i as int && prev[j].worker_id@
                                    == other;
                            assert(old(self).spec_contains(other));
                        }
                        if old(self).spec_contains(other) {
                            let j = choose|j: int|
                                0 <= j < prev.len() && prev[j].worker_id@ == other;
                            assert(j != i as int);
                            if j < i as int {
                                assert(self.workers@[j].worker_id@ == other);
                            } else {
                                assert(self.workers@[j - 1].worker_id@ == other);
                            }
                            assert(self.spec_contains(other));
                        }
                    }
                }
            },
            None => {},
        }
    }
}

impl ActiveWorkers {
    /// Takes the slot at position `i` out of the cache.
    fn take_entry(&mut self, i: usize) -> (r: ActiveWorkerEntry)
        requires
            old(self).wf(),
            i < old(self).workers@.len(),
        ensures
            final (self).wf(),
            r == old(self).workers@[i as int],
            final (self).workers@ == old(self).workers@.remove(i as int),
            !final (self).spec_contains(r.worker_id@),
    {
        let ghost prev = self.workers@;
        let e = self.workers.remove(i);
        proof {
            assert forall|jj: int, kk: int|
                0 <= jj < kk < self.workers@.len() implies self.workers@[jj].worker_id@
                != self.workers@[kk].worker_id@ by {
                let pj = if jj < i as int {
                    jj
                } else {
                    jj + 1
                };
                let pk = if kk < i as int {
                    kk
                } else {
                    kk + 1
                };
                assert(prev[pj].worker_id@ != prev[pk].worker_id@);
            }
            assert forall|jj: int|
                0 <= jj < self.workers@.len() implies match #[trigger] self.workers@[jj].entry {
                PendingOrFinal::Final(state) => state.wf() && state.ctx.worker_id@
                    == self.workers@[jj].worker_id@,
                PendingOrFinal::Pending => true,
            } by {
                let pj = if jj < i as int {
                    jj
                } else {
                    jj + 1
                };
                assert(self.workers@[jj] == prev[pj]);
            }
            assert(!self.spec_contains(e.worker_id@)) by {
                if self.spec_contains(e.worker_id@) {
                    let j = choose|j: int|
                        0 <= j < self.workers@.len() && self.workers@[j].worker_id@
                            == e.worker_id@;
                    let pj = if j < i as int {
                        j
                    } else {
                        j + 1
                    };
                    assert(prev[pj].worker_id@ == prev[i as int].worker_id@);
                }
            }
        }
        e
    }

    /// Puts a slot back at position `i`; its id must not already be
    /// cached.
    fn put_entry(&mut self, i: usize, e: ActiveWorkerEntry)
        requires
            old(self).wf(),
            i <= old(self).workers@.len(),
            !old(self).spec_contains(e.worker_id@),
            match e.entry {
                PendingOrFinal::Final(state) => state.wf() && state.ctx.worker_id@
                    == e.worker_id@,
                PendingOrFinal::Pending => true,
            },
        ensures
            final (self).wf(),
            final (self).workers@ == old(self).workers@.insert(i as int, e),
    {
        let ghost prev = self.workers@;
        self.workers.insert(i, e);
        proof {
            assert forall|jj: int, kk: int|
                0 <= jj < kk < self.workers@.len() implies self.workers@[jj].worker_id@
                != self.workers@[kk].worker_id@ by {
                let pj = if jj < i as int {
                    jj
                } else {
                    jj - 1
                };
                let pk = if kk < i as int {
                    kk
                } else {
                    kk - 1
                };
                if jj == i as int {
                    assert(self.workers@[kk] == prev[pk]);
                    assert(prev[pk].worker_id@ == self.workers@[kk].worker_id@);
                    if self.workers@[jj].worker_id@ == self.workers@[kk].worker_id@ {
                        assert(prev[pk].worker_id@ == e.worker_id@);
                        assert(old(self).spec_contains(e.worker_id@));
                    }
                } else if kk == i as int {
                    assert(self.workers@[jj] == prev[pj]);
                    if self.workers@[jj].worker_id@ == self.workers@[kk].worker_id@ {
                        assert(prev[pj].worker_id@ == e.worker_id@);
                        assert(old(self).spec_contains(e.worker_id@));
                    }
                } else {
                    assert(self.workers@[jj] == prev[pj]);
                    assert(self.workers@[kk] == prev[pk]);
                    assert(prev[pj].worker_id@ != prev[pk].worker_id@);
                }
            }
            assert forall|jj: int|
                0 <= jj < self.workers@.len() implies match #[trigger] self.workers@[jj].entry {
                PendingOrFinal::Final(state) => state.wf() && state.ctx.worker_id@
                    == self.workers@[jj].worker_id@,
                PendingOrFinal::Pending => true,
            } by {
                if jj != i as int {
                    let pj = if jj < i as int {
                        jj
                    } else {
                        jj - 1
                    };
                    assert(self.workers@[jj] == prev[pj]);
                }
            }
        }
    }

    /// Installs the one-shot interrupt signal on the cached runtime of
    /// `id`; reports whether a signal was installed, which holds exactly
    /// when the worker is cached, instantiated and running.
    pub fn set_interrupting(&mut self, id: &WorkerId, kind: crate::model::InterruptKind) -> (
        installed: bool)
        requires
            old(self).wf(),
        ensures
            final (self).wf(),
            final (self).workers@.len() == old(self).workers@.len(),
            forall|other: WorkerIdView|
                final (self).spec_contains(other) <==> old(self).spec_contains(other),
            installed <==> (old(self).spec_contains(id@) && (old(self).workers@[old(
                self,
            ).spec_index_of(id@)].entry matches PendingOrFinal::Final(state) && state.status
                == WorkerStatus::Running)),
            !installed ==> final (self).workers@ == old(self).workers@,
            installed ==> {
                &&& final (self).workers@[old(self).spec_index_of(id@)].worker_id@ == id@
                &&& final (self).spec_index_of(id@) == old(self).spec_index_of(id@)
                &&& (final (self).workers@[old(self).spec_index_of(id@)].entry matches
                    PendingOrFinal::Final(state) && state.interrupting == Some(kind)
                    && state.status == WorkerStatus::Running)
                &&& forall|j: int|
                    0 <= j < old(self).workers@.len() && j != old(self).spec_index_of(id@)
                        ==> final (self).workers@[j] == old(self).workers@[j]
            },
    {
        match self.index_of(id) {
            Some(i) => {
                let mut entry = self.take_entry(i);
                let mut installed = false;
                match &mut entry.entry {
                    PendingOrFinal::Final(state) => {
                        installed = state.set_interrupting(kind);
                    },
                    PendingOrFinal::Pending => {},
                }
                self.put_entry(i, entry);
                proof {
                    assert(self.workers@ =~= old(self).workers@.update(i as int, entry));
                    assert forall|other: WorkerIdView|
                        self.spec_contains(other) <==> old(self).spec_contains(other) by {
                        if self.spec_contains(other) {
                            let j = choose|j: int|
                                0 <= j < self.workers@.len() && self.workers@[j].worker_id@
                                    == other;
                            assert(old(self).workers@[j].worker_id@ == other);
                            assert(old(self).spec_contains(other));
                        }
                        if old(self).spec_contains(other) {
                            let j = choose|j: int|
                                0 <= j < old(self).workers@.len() && old(
                                    self,
                                ).workers@[j].worker_id@ == other;
                            assert(self.workers@[j].worker_id@ == other);
                            assert(self.spec_contains(other));
                        }
                    }
                    if !installed {
                        assert(self.workers@ =~= old(self).workers@);
                        assert(self.workers@ == old(self).workers@);
                    }
                }
                installed
            },
            None => false,
        }
    }
}

impl ActiveWorkers {
    /// The status of the cached, instantiated runtime of `id`, if any.
    pub fn status_of(&self, id: &WorkerId) -> (r: Option<WorkerStatus>)
        requires
            self.wf(),
        ensures
            match r {
                Some(status) => self.spec_contains(id@) && (self.workers@[self.spec_index_of(
                    id@,
                )].entry matches PendingOrFinal::Final(state) && state.status == status),
                None => !self.spec_contains(id@) || self.workers@[self.spec_index_of(id@)].entry
                    is Pending,
            },
    {
        match self.index_of(id) {
            Some(i) => match &self.workers[i].entry {
                PendingOrFinal::Final(state) => Some(state.status),
                PendingOrFinal::Pending => None,
            },
            None => None,
        }
    }

    /// Tells the cached runtime of `id` that a promise it awaits was
    /// completed: a suspended worker resumes running.
    pub fn notify_promise_completed(&mut self, id: &WorkerId)
        requires
            old(self).wf(),
        ensures
            final (self).wf(),
            final (self).workers@.len() == old(self).workers@.len(),
            forall|other: WorkerIdView|
                final (self).spec_contains(other) <==> old(self).spec_contains(other),
            old(self).spec_contains(id@) ==> final (self).spec_index_of(id@) == old(
                self,
            ).spec_index_of(id@) && final (self).workers@[old(self).spec_index_of(
                id@,
            )].worker_id@ == id@,
            old(self).spec_contains(id@) ==> (old(self).workers@[old(self).spec_index_of(
                id@,
            )].entry matches PendingOrFinal::Final(state) ==> {
                &&& (final (self).workers@[old(self).spec_index_of(id@)].entry matches
                    PendingOrFinal::Final(after) && after.status
                    == crate::runtime::spec_status_after(
                    state.status,
                    crate::runtime::ExecutionEvent::PromiseCompleted,
                ) && after.ctx == state.ctx && after.queue == state.queue)
                &&& forall|j: int|
                    0 <= j < old(self).workers@.len() && j != old(self).spec_index_of(id@)
                        ==> final (self).workers@[j] == old(self).workers@[j]
            }),
    {
        match self.index_of(id) {
            Some(i) => {
                let mut entry = self.take_entry(i);
                match &mut entry.entry {
                    PendingOrFinal::Final(state) => {
                        state.on_promise_completed();
                    },
                    PendingOrFinal::Pending => {},
                }
                self.put_entry(i, entry);
                proof {
                    assert(self.workers@ =~= old(self).workers@.update(i as int, entry));
                    assert forall|other: WorkerIdView|
                        self.spec_contains(other) <==> old(self).spec_contains(other) by {
                        if self.spec_contains(other) {
                            let j = choose|j: int|
                                0 <= j < self.workers@.len() && self.workers@[j].worker_id@
                                    == other;
                            assert(old(self).workers@[j].worker_id@ == other);
                            assert(old(self).spec_contains(other));
                        }
                        if old(self).spec_contains(other) {
                            let j = choose|j: int|
                                0 <= j < old(self).workers@.len() && old(
                                    self,
                                ).workers@[j].worker_id@ == other;
                            assert(self.workers@[j].worker_id@ == other);
                            assert(self.spec_contains(other));
                        }
                    }
                }
            },
            None => {},
        }
    }

    /// Resumes the cached runtime of `id` after an explicit resume
    /// request.
    pub fn resume_cached(&mut self, id: &WorkerId)
        requires
            old(self).wf(),
        ensures
            final (self).wf(),
            final (self).workers@.len() == old(self).workers@.len(),
            forall|other: WorkerIdView|
                final (self).spec_contains(other) <==> old(self).spec_contains(other),
            old(self).spec_contains(id@) ==> final (self).spec_index_of(id@) == old(
                self,
            ).spec_index_of(id@) && final (self).workers@[old(self).spec_index_of(
                id@,
            )].worker_id@ == id@,
            old(self).spec_contains(id@) ==> (old(self).workers@[old(self).spec_index_of(
                id@,
            )].entry matches PendingOrFinal::Final(state) ==> {
                &&& (final (self).workers@[old(self).spec_index_of(id@)].entry matches
                    PendingOrFinal::Final(after) && after.status
                    == crate::runtime::spec_status_after(
                    state.status,
                    crate::runtime::ExecutionEvent::Resumed,
                ) && after.ctx == state.ctx && after.queue == state.queue)
                &&& forall|j: int|
                    0 <= j < old(self).workers@.len() && j != old(self).spec_index_of(id@)
                        ==> final (self).workers@[j] == old(self).workers@[j]
            }),
    {
        match self.index_of(id) {
            Some(i) => {
                let mut entry = self.take_entry(i);
                match &mut entry.entry {
                    PendingOrFinal::Final(state) => {
                        state.resume();
                    },
                    PendingOrFinal::Pending => {},
                }
                self.put_entry(i, entry);
                proof {
                    assert(self.workers@ =~= old(self).workers@.update(i as int, entry));
                    assert forall|other: WorkerIdView|
                        self.spec_contains(other) <==> old(self).spec_contains(other) by {
                        if self.spec_contains(other) {
                            let j = choose|j: int|
                                0 <= j < self.workers@.len() && self.workers@[j].worker_id@
                                    == other;
                            assert(old(self).workers@[j].worker_id@ == other);
                            assert(old(self).spec_contains(other));
                        }
                        if old(self).spec_contains(other) {
                            let j = choose|j: int|
                                0 <= j < old(self).workers@.len() && old(
                                    self,
                                ).workers@[j].worker_id@ == other;
                            assert(self.workers@[j].worker_id@ == other);
                            assert(self.spec_contains(other));
                        }
                    }
                }
            },
            None => {},
        }
    }

    /// Appends an invocation to the queue of the cached runtime of `id`;
    /// reports whether a runtime was there to receive it.
    pub fn enqueue_invocation(&mut self, id: &WorkerId, invocation: crate::worker::Invocation)
        -> (delivered: bool)
        requires
            old(self).wf(),
        ensures
            final (self).wf(),
            final (self).workers@.len() == old(self).workers@.len(),
            forall|other: WorkerIdView|
                final (self).spec_contains(other) <==> old(self).spec_contains(other),
            delivered <==> (old(self).spec_contains(id@) && old(self).workers@[old(
                self,
            ).spec_index_of(id@)].entry is Final),
            !delivered ==> final (self).workers@ == old(self).workers@,
            delivered ==> final (self).spec_index_of(id@) == old(self).spec_index_of(id@)
                && final (self).workers@[old(self).spec_index_of(id@)].worker_id@ == id@,
            delivered ==> (old(self).workers@[old(self).spec_index_of(id@)].entry matches
                PendingOrFinal::Final(state) && {
                &&& (final (self).workers@[old(self).spec_index_of(id@)].entry matches
                    PendingOrFinal::Final(after) && after.queue@ == state.queue@.push(
                    invocation,
                ) && after.status == crate::runtime::spec_status_after(
                    state.status,
                    crate::runtime::ExecutionEvent::InvocationEnqueued,
                ) && after.ctx == state.ctx)
                &&& forall|j: int|
                    0 <= j < old(self).workers@.len() && j != old(self).spec_index_of(id@)
                        ==> final (self).workers@[j] == old(self).workers@[j]
            }),
    {
        match self.index_of(id) {
            Some(i) => {
                let mut entry = self.take_entry(i);
                let mut delivered = false;
                match &mut entry.entry {
                    PendingOrFinal::Final(state) => {
                        state.enqueue(invocation);
                        delivered = true;
                    },
                    PendingOrFinal::Pending => {},
                }
                self.put_entry(i, entry);
                proof {
                    assert(self.workers@ =~= old(self).workers@.update(i as int, entry));
                    assert forall|other: WorkerIdView|
                        self.spec_contains(other) <==> old(self).spec_contains(other) by {
                        if self.spec_contains(other) {
                            let j = choose|j: int|
                                0 <= j < self.workers@.len() && self.workers@[j].worker_id@
                                    == other;
                            assert(old(self).workers@[j].worker_id@ == other);
                            assert(old(self).spec_contains(other));
                        }
                        if old(self).spec_contains(other) {
                            let j = choose|j: int|
                                0 <= j < old(self).workers@.len() && old(
                                    self,
                                ).workers@[j].worker_id@ == other;
                            assert(self.workers@[j].worker_id@ == other);
                            assert(self.spec_contains(other));
                        }
                    }
                    if !delivered {
                        assert(self.workers@ =~= old(self).workers@);
                        assert(self.workers@ == old(self).workers@);
                    }
                }
                delivered
            },
            None => false,
        }
    }
}

impl ActiveWorkers {
    /// Evicts a worker from the cache to free room.  Eviction requires a
    /// quiescent runtime: a running worker is refused and stays cached;
    /// everything else (idle, suspended, interrupted, retrying, terminal,
    /// or still pending) is dropped from the set.  The report says
    /// whether the slot was evicted; an absent id reports `true`.
    pub fn evict(&mut self, id: &WorkerId) -> (evicted: bool)
        requires
            old(self).wf(),
        ensures
            final (self).wf(),
            evicted == !(old(self).spec_contains(id@) && (old(self).workers@[old(
                self,
            ).spec_index_of(id@)].entry matches PendingOrFinal::Final(state) && state.status
                == WorkerStatus::Running)),
            evicted ==> !final (self).spec_contains(id@),
            !evicted ==> final (self).workers@ == old(self).workers@,
            forall|other: WorkerIdView|
                other != id@ ==> (final (self).spec_contains(other) <==> old(
                    self,
                ).spec_contains(other)),
    {
        match self.index_of(id) {
            Some(i) => {
                let running = match &self.workers[i].entry {
                    PendingOrFinal::Final(state) => state.status == WorkerStatus::Running,
                    PendingOrFinal::Pending => false,
                };
                if running {
                    false
                } else {
                    self.remove(id);
                    true
                }
            },
            None => true,
        }
    }
}

/// At most one runtime per worker id on a node: a well-formed cache has
/// no two slots keyed by the same id, so two distinct slots never hold
/// runtimes for one worker.
pub proof fn lemma_one_runtime_per_worker(cache: ActiveWorkers, i: int, j: int)
    requires
        cache.wf(),
        0 <= i < cache.workers@.len(),
        0 <= j < cache.workers@.len(),
        i != j,
    ensures
        cache.workers@[i].worker_id@ != cache.workers@[j].worker_id@,
{
    if i < j {
        assert(cache.workers@[i].worker_id@ != cache.workers@[j].worker_id@);
    } else {
        assert(cache.workers@[j].worker_id@ != cache.workers@[i].worker_id@);
    }
}

} // verus!
