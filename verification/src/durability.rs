//! The record-or-replay envelope around every effectful host call.
//!
//! While a worker replays, each wrapped call consumes the next oplog
//! entry instead of performing the live operation, after checking that
//! the entry was recorded for the same host function and durability kind
//! — any mismatch is a fatal divergence.  Once the journal is exhausted
//! the worker is live: results of persisted kinds are appended to the
//! journal, and a remote write additionally demands a synchronous commit
//! before the side effect counts as done.  Local reads are not persisted;
//! they are recomputed on replay.

use vstd::prelude::*;

use crate::model::WrappedFunctionType;
use crate::oplog::Oplog;

verus! {

/// The journal together with the replay cursor: how many recorded events
/// the current execution has already observed.
pub struct DurabilityState {
    pub oplog: Oplog,
    /// Number of journal entries consumed so far; once it reaches the
    /// journal length the worker is live.
    pub replay_cursor: usize,
}

/// What the durability envelope tells the runtime to do for one host
/// call.
pub enum WrapStep {
    /// Replaying and the journal entry matches: hand the module the
    /// recorded result, without performing the live operation.
    Replayed { payload: Vec<u8> },
    /// Live mode: perform the live operation, then record its result
    /// through [`DurabilityState::record_live_result`].
    Live,
    /// Replaying, but the journal entry was recorded for a different
    /// call: the worker's timeline has diverged, a fatal error.
    Diverged,
}

impl DurabilityState {
    /// The journal is well-formed and the cursor never runs past it.
    pub open spec fn wf(self) -> bool {
        &&& self.oplog.wf()
        &&& self.replay_cursor <= self.oplog.entries@.len()
    }

    /// Replay mode lasts exactly while recorded entries remain.
    pub open spec fn is_replaying(self) -> bool {
        self.replay_cursor < self.oplog.entries@.len()
    }

    /// Whether the next recorded entry was recorded for this call.
    pub open spec fn spec_next_matches(
        self,
        function_name: Seq<char>,
        kind: WrappedFunctionType,
    ) -> bool {
        &&& self.oplog.entries@[self.replay_cursor as int].function_name@ == function_name
        &&& self.oplog.entries@[self.replay_cursor as int].kind == kind
    }

    /// A recovery start: the full journal ahead, nothing consumed yet.
    pub fn begin_replay(oplog: Oplog) -> (r: DurabilityState)
        requires
            oplog.wf(),
        ensures
            r.wf(),
            r.oplog == oplog,
            r.replay_cursor == 0,
    {
        DurabilityState { oplog, replay_cursor: 0 }
    }

    /// The decision at a host-call boundary.  A local read is never in
    /// the journal: it is recomputed live, also during replay.  For a
    /// persisted kind, during replay the next entry is consumed and its
    /// payload returned, provided it matches the call being made; a
    /// mismatch is reported as divergence and consumes nothing.  Past the
    /// end of the journal every call is live.
    pub fn wrap_next(&mut self, function_name: &String, kind: WrappedFunctionType) -> (r:
        WrapStep)
        requires
            old(self).wf(),
        ensures
            final (self).wf(),
            final (self).oplog == old(self).oplog,
            !kind.spec_is_persisted() ==> *final (self) == *old(self) && r is Live,
            kind.spec_is_persisted() && old(self).is_replaying() && old(self).spec_next_matches(
                function_name@,
                kind,
            ) ==> {
                &&& final (self).replay_cursor == old(self).replay_cursor + 1
                &&& r matches WrapStep::Replayed { payload } && payload@ == old(
                    self,
                ).oplog.entries@[old(self).replay_cursor as int].payload@
            },
            kind.spec_is_persisted() && old(self).is_replaying() && !old(
                self,
            ).spec_next_matches(function_name@, kind) ==> *final (self) == *old(self) && r
                is Diverged,
            !old(self).is_replaying() ==> *final (self) == *old(self) && r is Live,
    {
        if !kind.is_persisted() {
            return WrapStep::Live;
        }
        if self.replay_cursor < self.oplog.length() {
            let entry = &self.oplog.entries[self.replay_cursor];
            if entry.function_name == *function_name && entry.kind == kind {
                let payload = crate::oplog::clone_bytes(&entry.payload);
                self.replay_cursor = self.replay_cursor + 1;
                WrapStep::Replayed { payload }
            } else {
                WrapStep::Diverged
            }
        } else {
            WrapStep::Live
        }
    }

    /// Records the result of a live host call.  Persisted kinds are
    /// appended to the journal at the next index and the cursor moves
    /// past them; a local read leaves the journal untouched.  The result
    /// says whether the journal must be committed synchronously before
    /// the side effect counts as done, which is the case exactly for
    /// remote writes.
    pub fn record_live_result(
        &mut self,
        function_name: &String,
        kind: WrappedFunctionType,
        result: &Vec<u8>,
    ) -> (commit_before_done: bool)
        requires
            old(self).wf(),
            kind.spec_is_persisted() ==> !old(self).is_replaying(),
            old(self).oplog.entries@.len() < u64::MAX,
            old(self).oplog.entries@.len() < usize::MAX,
        ensures
            final (self).wf(),
            kind.spec_is_persisted() ==> !final (self).is_replaying(),
            commit_before_done == (kind == WrappedFunctionType::WriteRemote),
            kind.spec_is_persisted() ==> {
                &&& final (self).oplog.entries@.len() == old(self).oplog.entries@.len() + 1
                &&& final (self).oplog.entries@.last().function_name@ == function_name@
                &&& final (self).oplog.entries@.last().kind == kind
                &&& final (self).oplog.entries@.last().payload@ == result@
                &&& final (self).oplog.entries@.last().index == old(self).oplog.entries@.len()
                    + 1
                &&& forall|i: int|
                    0 <= i < old(self).oplog.entries@.len() ==> final (self).oplog.entries@[i]
                        == old(self).oplog.entries@[i]
            },
            !kind.spec_is_persisted() ==> *final (self) == *old(self),
    {
        if kind.is_persisted() {
            self.oplog.append(
                function_name.clone(),
                kind,
                crate::oplog::clone_bytes(result),
            );
            self.replay_cursor = self.oplog.length();
            kind == WrappedFunctionType::WriteRemote
        } else {
            kind == WrappedFunctionType::WriteRemote
        }
    }
}

/// Replay determinism for persisted calls: if the original execution
/// recorded result `result` for a call `(function_name, kind)` at journal
/// position `p`, then a replay of the same journal that has reached
/// position `p` is in replay mode, finds the entry matching, and hands
/// the module exactly `result` — never a fresh live value.
pub proof fn lemma_replay_observes_recorded(
    original: DurabilityState,
    replay: DurabilityState,
    p: int,
    function_name: Seq<char>,
    kind: WrappedFunctionType,
    result: Seq<u8>,
)
    requires
        original.wf(),
        replay.wf(),
        // what the original execution recorded at position p
        0 <= p < original.oplog.entries@.len(),
        original.oplog.entries@[p].function_name@ == function_name,
        original.oplog.entries@[p].kind == kind,
        original.oplog.entries@[p].payload@ == result,
        // the replay runs over the same journal
        replay.oplog.entries@.len() == original.oplog.entries@.len(),
        forall|i: int|
            0 <= i < original.oplog.entries@.len() ==> #[trigger] replay.oplog.entries@[i].same_as(
                original.oplog.entries@[i],
            ),
        // and has reached position p
        replay.replay_cursor == p,
    ensures
        replay.is_replaying(),
        replay.spec_next_matches(function_name, kind),
        replay.oplog.entries@[p].payload@ == result,
{
    assert(replay.oplog.entries@[p].same_as(original.oplog.entries@[p]));
}

} // verus!
