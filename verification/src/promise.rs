//! Promise coordination: durably completable one-shot values.
//!
//! A worker creates a promise, hands its id to the outside world, and
//! awaits it; an external actor completes it through the public API.  A
//! promise is completed at most once: the first completion stores the
//! bytes and reports `true`, every later attempt reports `false` and
//! leaves the stored value untouched.

use vstd::prelude::*;

use crate::model::{GolemError, PromiseId, PromiseIdView, WorkerId};

verus! {

/// The one-shot state of a promise.
#[derive(Clone, Debug)]
pub enum PromiseState {
    Pending,
    Completed { data: Vec<u8> },
}

/// A promise together with its identity.
#[derive(Clone, Debug)]
pub struct Promise {
    pub promise_id: PromiseId,
    pub state: PromiseState,
}

/// Whether one of the first `n` promises of `s` carries `id`.
pub open spec fn contains_up_to(s: Seq<Promise>, n: int, id: PromiseIdView) -> bool {
    exists|j: int| 0 <= j < n && s[j].promise_id@ == id
}

/// The durable promise store of one node.
pub struct PromiseService {
    pub promises: Vec<Promise>,
}

impl PromiseService {
    /// No two entries share an id.
    pub open spec fn wf(self) -> bool {
        forall|i: int, j: int|
            0 <= i < j < self.promises@.len() ==> self.promises@[i].promise_id@
                != self.promises@[j].promise_id@
    }

    /// Whether a promise with this id exists.
    pub open spec fn spec_contains(self, id: PromiseIdView) -> bool {
        exists|i: int| 0 <= i < self.promises@.len() && self.promises@[i].promise_id@ == id
    }

    /// The position of the promise with this id.
    pub open spec fn spec_index_of(self, id: PromiseIdView) -> int {
        choose|i: int| 0 <= i < self.promises@.len() && self.promises@[i].promise_id@ == id
    }

    /// The state of the promise with this id.
    pub open spec fn spec_state_of(self, id: PromiseIdView) -> PromiseState {
        self.promises@[self.spec_index_of(id)].state
    }

    /// An empty store.
    pub fn new() -> (r: PromiseService)
        ensures
            r.wf(),
            r.promises@.len() == 0,
    {
        PromiseService { promises: Vec::new() }
    }

    /// The position of the promise with the given id, if any.
    fn index_of(&self, id: &PromiseId) -> (r: Option<usize>)
        requires
            self.wf(),
        ensures
            match r {
                Some(i) => i < self.promises@.len() && self.promises@[i as int].promise_id@
                    == id@ && i == self.spec_index_of(id@),
                None => !self.spec_contains(id@),
            },
    {
        let mut i: usize = 0;
        while i < self.promises.len()
            invariant
                self.wf(),
                i <= self.promises@.len(),
                forall|j: int| 0 <= j < i ==> self.promises@[j].promise_id@ != id@,
            decreases self.promises@.len() - i,
        {
            if self.promises[i].promise_id == *id {
                proof {
                    assert(self.promises@[i as int].promise_id@ == id@);
                    assert(self.spec_contains(id@));
                    let w = self.spec_index_of(id@);
                    assert(0 <= w < self.promises@.len() && self.promises@[w].promise_id@
                        == id@);
                    if w != i as int {
                        assert(self.promises@[w].promise_id@ == self.promises@[
                        i as int].promise_id@);
                    }
                }
                return Some(i);
            }
            i = i + 1;
        }
        None
    }

    /// Creates the promise for `(worker_id, oplog_idx)` in `Pending`
    /// state and returns its id; creating an id that already exists
    /// changes nothing.
    pub fn create(&mut self, worker_id: &WorkerId, oplog_idx: i64) -> (r: PromiseId)
        requires
            old(self).wf(),
        ensures
            final (self).wf(),
            r@ == (PromiseIdView { worker_id: worker_id@, oplog_idx }),
            final (self).spec_contains(r@),
            old(self).spec_contains(r@) ==> *final (self) == *old(self),
            !old(self).spec_contains(r@) ==> {
                &&& final (self).promises@.len() == old(self).promises@.len() + 1
                &&& final (self).promises@.last().promise_id@ == r@
                &&& final (self).promises@.last().state is Pending
                &&& forall|i: int|
                    0 <= i < old(self).promises@.len() ==> final (self).promises@[i] == old(
                        self,
                    ).promises@[i]
            },
            forall|other: PromiseIdView|
                other != r@ ==> (final (self).spec_contains(other) <==> old(self).spec_contains(
                    other,
                )),
    {
        let id = PromiseId { worker_id: worker_id.duplicate(), oplog_idx };
        match self.index_of(&id) {
            Some(_) => id,
            None => {
                let entry = Promise { promise_id: id.duplicate(), state: PromiseState::Pending };
                self.promises.push(entry);
                proof {
                    assert(self.promises@.last().promise_id@ == id@);
                    assert forall|other: PromiseIdView|
                        other != id@ implies (self.spec_contains(other) <==> old(
                        self,
                    ).spec_contains(other)) by {
                        if self.spec_contains(other) {
                            let i = choose|i: int|
                                0 <= i < self.promises@.len() && self.promises@[i].promise_id@
                                    == other;
                            assert(i < old(self).promises@.len());
                            assert(old(self).spec_contains(other));
                        }
                        if old(self).spec_contains(other) {
                            let i = choose|i: int|
                                0 <= i < old(self).promises@.len() && old(
                                    self,
                                ).promises@[i].promise_id@ == other;
                            assert(self.promises@[i].promise_id@ == other);
                        }
                    }
                    assert(self.spec_contains(id@));
                }
                id
            },
        }
    }

    /// The current state of a promise: `Ok(Some(bytes))` when completed,
    /// `Ok(None)` while pending, and an error for an id never created.
    pub fn poll(&self, id: &PromiseId) -> (r: Result<Option<Vec<u8>>, GolemError>)
        requires
            self.wf(),
        ensures
            r is Ok <==> self.spec_contains(id@),
            r matches Ok(o) ==> match self.spec_state_of(id@) {
                PromiseState::Pending => o is None,
                PromiseState::Completed { data } => o matches Some(v) && v@ == data@,
            },
            r is Err ==> (r matches Err(e) && e is InvalidRequest),
    {
        match self.index_of(id) {
            Some(i) => match &self.promises[i].state {
                PromiseState::Pending => Ok(None),
                PromiseState::Completed { data } => Ok(
                    Some(crate::oplog::clone_bytes(data)),
                ),
            },
            None => Err(GolemError::invalid_request("unknown promise")),
        }
    }

    /// Completes a promise with `data`.  Returns `Ok(true)` exactly when
    /// the promise existed and was still pending — the bytes are stored
    /// durably and every awaiter will observe them.  A promise that is
    /// already completed is left untouched and the call reports
    /// `Ok(false)`: at most one completion ever takes effect.
    pub fn complete(&mut self, id: &PromiseId, data: Vec<u8>) -> (r: Result<
        bool,
        GolemError,
    >)
        requires
            old(self).wf(),
        ensures
            final (self).wf(),
            r is Ok <==> old(self).spec_contains(id@),
            r is Err ==> *final (self) == *old(self) && (r matches Err(e) && e
                is InvalidRequest),
            r == Ok::<bool, GolemError>(true) ==> {
                &&& old(self).spec_state_of(id@) is Pending
                &&& final (self).spec_contains(id@)
                &&& final (self).spec_state_of(id@) matches PromiseState::Completed {
                    data: d,
                } && d@ == data@
            },
            r == Ok::<bool, GolemError>(false) ==> {
                &&& old(self).spec_state_of(id@) is Completed
                &&& *final (self) == *old(self)
            },
            old(self).spec_contains(id@) && old(self).spec_state_of(id@) is Pending ==> r
                == Ok::<bool, GolemError>(true),
            old(self).spec_contains(id@) && old(self).spec_state_of(id@) is Completed ==> r
                == Ok::<bool, GolemError>(false),
            forall|other: PromiseIdView|
                other != id@ ==> (final (self).spec_contains(other) <==> old(
                    self,
                ).spec_contains(other)),
            forall|i: int|
                0 <= i < old(self).promises@.len() && old(self).promises@[i].promise_id@ != id@
                    ==> final (self).promises@[i] == old(self).promises@[i],
    {
        match self.index_of(id) {
            Some(i) => {
                match &self.promises[i].state {
                    PromiseState::Pending => {
                        let ghost prev = self.promises@;
                        let entry = Promise {
                            promise_id: self.promises[i].promise_id.duplicate(),
                            state: PromiseState::Completed { data },
                        };
                        self.promises.set(i, entry);
                        proof {
                            assert(self.promises@.len() == prev.len());
                            assert forall|jj: int, kk: int|
                                0 <= jj < kk < self.promises@.len() implies self.promises@[
                                jj].promise_id@ != self.promises@[kk].promise_id@ by {
                                assert(prev[jj].promise_id@ != prev[kk].promise_id@);
                            }
                            assert(self.promises@[i as int].promise_id@ == id@);
                            assert(self.spec_index_of(id@) == i as int) by {
                                let w = self.spec_index_of(id@);
                                assert(self.spec_contains(id@));
                                if w != i as int {
                                    assert(self.promises@[w].promise_id@ == self.promises@[
                                    i as int].promise_id@);
                                }
                            }
                            assert forall|other: PromiseIdView|
                                other != id@ implies (self.spec_contains(other) <==> old(
                            self).spec_contains(other)) by {
                                if self.spec_contains(other) {
                                    let j = choose|j: int|
                                        0 <= j < self.promises@.len()
                                            && self.promises@[j].promise_id@ == other;
                                    assert(j != i as int);
                                    assert(old(self).promises@[j].promise_id@ == other);
                                    assert(old(self).spec_contains(other));
                                }
                                if old(self).spec_contains(other) {
                                    let j = choose|j: int|
                                        0 <= j < old(self).promises@.len() && old(
                                        self).promises@[j].promise_id@ == other;
                                    assert(j != i as int);
                                    assert(self.promises@[j].promise_id@ == other);
                                    assert(self.spec_contains(other));
                                }
                            }
                        }
                        Ok(true)
                    },
                    PromiseState::Completed { .. } => Ok(false),
                }
            },
            None => Err(GolemError::invalid_request("unknown promise")),
        }
    }

    /// Removes a promise; removing an unknown id changes nothing.
    pub fn delete(&mut self, id: &PromiseId)
        requires
            old(self).wf(),
        ensures
            final (self).wf(),
            !final (self).spec_contains(id@),
            forall|other: PromiseIdView|
                other != id@ ==> (final (self).spec_contains(other) <==> old(
                    self,
                ).spec_contains(other)),
    {
        let mut kept: Vec<Promise> = Vec::new();
        let mut i: usize = 0;
        while i < self.promises.len()
            invariant
                i <= self.promises@.len(),
                self == old(self),
                old(self).wf(),
                forall|j: int, k: int|
                    0 <= j < k < kept@.len() ==> kept@[j].promise_id@ != kept@[k].promise_id@,
                forall|j: int|
                    0 <= j < kept@.len() ==> kept@[j].promise_id@ != id@,
                forall|other: PromiseIdView|
                    contains_up_to(kept@, kept@.len() as int, other) <==> (other != id@
                        && contains_up_to(self.promises@, i as int, other)),
            decreases self.promises@.len() - i,
        {
            let ghost prev_kept = kept@;
            let keep = !(self.promises[i].promise_id == *id);
            if keep {
                let p = &self.promises[i];
                kept.push(
                    Promise {
                        promise_id: p.promise_id.duplicate(),
                        state: match &p.state {
                            PromiseState::Pending => PromiseState::Pending,
                            PromiseState::Completed { data } => PromiseState::Completed {
                                data: crate::oplog::clone_bytes(data),
                            },
                        },
                    },
                );
                proof {
                    assert(kept@.last().promise_id@ == self.promises@[i as int].promise_id@);
                    assert forall|j: int, k: int|
                        0 <= j < k < kept@.len() implies kept@[j].promise_id@ != kept@[
                    k].promise_id@ by {
                        if k < kept@.len() - 1 {
                            assert(prev_kept[j].promise_id@ != prev_kept[k].promise_id@);
                        } else {
                            // the last pushed id sits at position i of the
                            // store; earlier kept ids sit before i, and the
                            // store has no duplicates
                            let other = kept@[j].promise_id@;
                            assert(contains_up_to(prev_kept, prev_kept.len() as int, other));
                            let w = choose|w: int|
                                0 <= w < i && self.promises@[w].promise_id@ == other;
                            assert(self.promises@[w].promise_id@ != self.promises@[
                            i as int].promise_id@);
                        }
                    }
                    assert forall|other: PromiseIdView|
                        contains_up_to(kept@, kept@.len() as int, other) implies (other != id@
                        && contains_up_to(self.promises@, i + 1, other)) by {
                        let j = choose|j: int|
                            0 <= j < kept@.len() && kept@[j].promise_id@ == other;
                        if j < kept@.len() - 1 {
                            assert(contains_up_to(prev_kept, prev_kept.len() as int, other));
                            let w = choose|w: int|
                                0 <= w < i && self.promises@[w].promise_id@ == other;
                            assert(contains_up_to(self.promises@, i + 1, other));
                        } else {
                            assert(self.promises@[i as int].promise_id@ == other);
                            assert(contains_up_to(self.promises@, i + 1, other));
                        }
                    }
                }
            } else {
                proof {
                    assert(self.promises@[i as int].promise_id@ == id@);
                }
            }
            proof {
                assert forall|other: PromiseIdView|
                    (other != id@ && contains_up_to(self.promises@, i + 1, other)) implies
                    contains_up_to(kept@, kept@.len() as int, other) by {
                    let w = choose|w: int|
                        0 <= w < i + 1 && self.promises@[w].promise_id@ == other;
                    if w < i {
                        assert(contains_up_to(self.promises@, i as int, other));
                        assert(contains_up_to(prev_kept, prev_kept.len() as int, other));
                        let k = choose|k: int|
                            0 <= k < prev_kept.len() && prev_kept[k].promise_id@ == other;
                        assert(kept@[k].promise_id@ == other);
                    } else {
                        // position i was kept exactly when its id is not the
                        // deleted one
                        assert(kept@[kept@.len() - 1].promise_id@ == other);
                    }
                }
            }
            i = i + 1;
        }
        self.promises = kept;
        proof {
            assert forall|other: PromiseIdView|
                self.spec_contains(other) implies (other != id@ && old(self).spec_contains(
                other,
            )) by {
                let j = choose|j: int|
                    0 <= j < self.promises@.len() && self.promises@[j].promise_id@ == other;
                assert(contains_up_to(kept@, kept@.len() as int, other));
                let w = choose|w: int|
                    0 <= w < old(self).promises@.len() && old(self).promises@[w].promise_id@
                        == other;
                assert(old(self).spec_contains(other));
            }
            assert forall|other: PromiseIdView|
                (other != id@ && old(self).spec_contains(other)) implies self.spec_contains(
                other,
            ) by {
                let j = choose|j: int|
                    0 <= j < old(self).promises@.len() && old(self).promises@[j].promise_id@
                        == other;
                assert(contains_up_to(old(self).promises@, old(self).promises@.len() as int,
                    other));
                assert(contains_up_to(kept@, kept@.len() as int, other));
                let k = choose|k: int| 0 <= k < kept@.len() && kept@[k].promise_id@ == other;
                assert(self.spec_contains(other));
            }
        }
    }
}

} // verus!
