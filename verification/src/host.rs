//! The host function surface: every capability a worker module may
//! invoke, each passed through the durability envelope with its kind.
//!
//! Monotonic-clock reads are local reads, recomputed on replay but kept
//! monotonic by the context.  Promise creation and the wall clock are
//! local writes: their values must be stable across replays.  Key-value
//! reads are remote reads and key-value writes and promise completions
//! are remote writes, so replay observes exactly the recorded outcome.
//!
//! Live values that only the outside world can produce (the clocks) come
//! in as arguments; everything else is computed against the engine's own
//! stores.

use vstd::prelude::*;

use crate::codec::{
    decode_bool, decode_option_bytes, decode_u64, encode_bool, encode_option_bytes, encode_u64,
    spec_encode_bool, spec_encode_option_bytes,
};
use crate::durability::{DurabilityState, WrapStep};
use crate::keys::{spec_worker_uri, worker_uri};
use crate::kv::KeyValueService;
use crate::model::{AccountId, PromiseId, WorkerId, WrappedFunctionType};
use crate::promise::{PromiseService, PromiseState};
use vstd::bytes::spec_u64_to_le_bytes;

verus! {

/// Why a host call could not produce a value.
#[derive(Clone, Copy, PartialEq, Eq, Structural, Debug)]
pub enum HostCallError {
    /// The journal entry at the replay cursor was recorded for a
    /// different call: fatal, the worker must fail.
    Diverged,
    /// The recorded payload does not decode as the call's result type:
    /// the journal is corrupt, treated like divergence.
    BadRecordedPayload,
    /// The promise id was never created.
    UnknownPromise,
}

/// What awaiting a promise yields.
pub enum AwaitPromiseOutcome {
    /// The promise is completed; the module receives these bytes.
    Ready(Vec<u8>),
    /// The promise is pending; the runtime must suspend the worker.
    Suspend,
}

/// The journal after a live persisted call: one entry for `name` and
/// `kind` carrying `payload` was appended at the next index, every
/// earlier entry is untouched, and the cursor stands past the tail.
pub open spec fn spec_journalled(
    before: DurabilityState,
    after: DurabilityState,
    name: Seq<char>,
    kind: WrappedFunctionType,
    payload: Seq<u8>,
) -> bool {
    &&& after.oplog.entries@.len() == before.oplog.entries@.len() + 1
    &&& after.oplog.entries@.last().function_name@ == name
    &&& after.oplog.entries@.last().kind == kind
    &&& after.oplog.entries@.last().payload@ == payload
    &&& after.oplog.entries@.last().index == before.oplog.entries@.len() + 1
    &&& (forall|i: int|
        0 <= i < before.oplog.entries@.len() ==> after.oplog.entries@[i]
            == before.oplog.entries@[i])
    &&& after.replay_cursor == before.oplog.entries@.len() + 1
}

/// The private host-side context of one worker: its identity, its
/// durability state, and the last monotonic instant it observed.
pub struct DurableWorkerCtx {
    pub worker_id: WorkerId,
    pub account_id: AccountId,
    pub durability: DurabilityState,
    /// Largest monotonic instant handed to the module so far.
    pub last_instant: u64,
}

impl DurableWorkerCtx {
    pub open spec fn wf(self) -> bool {
        self.durability.wf()
    }

    /// Room in the journal for one more entry.
    pub open spec fn can_record(self) -> bool {
        self.durability.oplog.entries@.len() < u64::MAX && self.durability.oplog.entries@.len()
            < usize::MAX
    }

    pub fn new(worker_id: WorkerId, account_id: AccountId, durability: DurabilityState) -> (r:
        DurableWorkerCtx)
        requires
            durability.wf(),
        ensures
            r.wf(),
            r.worker_id == worker_id,
            r.account_id == account_id,
            r.durability == durability,
            r.last_instant == 0,
    {
        DurableWorkerCtx { worker_id, account_id, durability, last_instant: 0 }
    }

    /// `monotonic_clock::now`, a local read: recomputed on replay, never
    /// journalled.  The context keeps the results monotonic, so a replay
    /// can only observe differences the module cannot distinguish.
    pub fn now(&mut self, live_now: u64) -> (r: u64)
        requires
            old(self).wf(),
        ensures
            final (self).wf(),
            r == if live_now >= old(self).last_instant {
                live_now
            } else {
                old(self).last_instant
            },
            r >= old(self).last_instant,
            final (self).last_instant == r,
            final (self).durability == old(self).durability,
            final (self).worker_id == old(self).worker_id,
            final (self).account_id == old(self).account_id,
    {
        let name = mono_now_name();
        let _step = self.durability.wrap_next(&name, WrappedFunctionType::ReadLocal);
        let r = if live_now >= self.last_instant {
            live_now
        } else {
            self.last_instant
        };
        self.last_instant = r;
        r
    }

    /// `monotonic_clock::resolution`, a local read: the live value passes
    /// straight through.
    pub fn resolution(&mut self, live_resolution: u64) -> (r: u64)
        requires
            old(self).wf(),
        ensures
            final (self).wf(),
            r == live_resolution,
            *final (self) == *old(self),
    {
        let name = mono_resolution_name();
        let _step = self.durability.wrap_next(&name, WrappedFunctionType::ReadLocal);
        live_resolution
    }

    /// `monotonic_clock::subscribe_duration`: the wake-up instant is the
    /// durable now plus the duration, saturating.
    pub fn subscribe_duration(&mut self, live_now: u64, duration: u64) -> (r: u64)
        requires
            old(self).wf(),
        ensures
            final (self).wf(),
            ({
                let now = if live_now >= old(self).last_instant {
                    live_now
                } else {
                    old(self).last_instant
                };
                r == if now + duration <= u64::MAX {
                    (now + duration) as int
                } else {
                    u64::MAX as int
                }
            }),
            final (self).durability == old(self).durability,
    {
        let now = self.now(live_now);
        now.checked_add(duration).unwrap_or(u64::MAX)
    }

    /// `wall_clock::now`, a local write: the first execution journals the
    /// observed time and every replay observes exactly that value.
    pub fn wall_clock_now(&mut self, live_now: u64) -> (r: Result<u64, HostCallError>)
        requires
            old(self).wf(),
            old(self).can_record(),
        ensures
            final (self).wf(),
            !old(self).durability.is_replaying() ==> {
                &&& r == Ok::<u64, HostCallError>(live_now)
                &&& spec_journalled(
                    old(self).durability,
                    final (self).durability,
                    "wall_clock::now"@,
                    WrappedFunctionType::WriteLocal,
                    spec_u64_to_le_bytes(live_now),
                )
            },
            old(self).durability.is_replaying() ==> {
                &&& final (self).durability.oplog == old(self).durability.oplog
                &&& (r matches Ok(v) ==> spec_u64_to_le_bytes(v) == old(
                    self,
                ).durability.oplog.entries@[old(
                    self,
                ).durability.replay_cursor as int].payload@)
                &&& (old(self).durability.spec_next_matches(
                    "wall_clock::now"@,
                    WrappedFunctionType::WriteLocal,
                ) && old(self).durability.oplog.entries@[old(
                    self,
                ).durability.replay_cursor as int].payload@.len() == 8 ==> r is Ok)
                &&& (!old(self).durability.spec_next_matches(
                    "wall_clock::now"@,
                    WrappedFunctionType::WriteLocal,
                ) ==> r == Err::<u64, HostCallError>(HostCallError::Diverged))
                &&& (r is Ok ==> final (self).durability.replay_cursor == old(
                    self,
                ).durability.replay_cursor + 1)
            },
    {
        proof {
            vstd::bytes::lemma_auto_spec_u64_to_from_le_bytes();
        }
        let name = wall_now_name();
        let step = self.durability.wrap_next(&name, WrappedFunctionType::WriteLocal);
        match step {
            WrapStep::Replayed { payload } => match decode_u64(&payload) {
                Some(v) => Ok(v),
                None => {
                    proof {
                        // an eight-byte payload always decodes
                        if payload@.len() == 8 {
                            assert(vstd::bytes::spec_u64_to_le_bytes(
                                vstd::bytes::spec_u64_from_le_bytes(payload@),
                            ) == payload@);
                        }
                    }
                    Err(HostCallError::BadRecordedPayload)
                },
            },
            WrapStep::Diverged => Err(HostCallError::Diverged),
            WrapStep::Live => {
                let payload = encode_u64(live_now);
                self.durability.record_live_result(
                    &name,
                    WrappedFunctionType::WriteLocal,
                    &payload,
                );
                Ok(live_now)
            },
        }
    }

    /// `keyvalue::eventual::get`, a remote read: live it reads the store
    /// and journals the outcome; replay observes the recorded outcome.
    pub fn get(&mut self, kv: &KeyValueService, bucket: &String, key: &String) -> (r: Result<
        Option<Vec<u8>>,
        HostCallError,
    >)
        requires
            old(self).wf(),
            old(self).can_record(),
            kv.wf(),
        ensures
            final (self).wf(),
            !old(self).durability.is_replaying() ==> {
                &&& (r matches Ok(o) ==> {
                    &&& (o is Some <==> kv.spec_contains(
                        (old(self).account_id.value@, bucket@, key@),
                    ))
                    &&& (o matches Some(v) ==> v@ == kv.spec_value_of(
                        (old(self).account_id.value@, bucket@, key@),
                    ))
                })
                &&& r is Ok
                &&& (r matches Ok(o) ==> spec_journalled(
                    old(self).durability,
                    final (self).durability,
                    "golem keyvalue::eventual::get"@,
                    WrappedFunctionType::ReadRemote,
                    spec_encode_option_bytes(
                        match o {
                            Some(v) => Some(v@),
                            None => None,
                        },
                    ),
                ))
            },
            old(self).durability.is_replaying() ==> {
                &&& final (self).durability.oplog == old(self).durability.oplog
                &&& (r matches Ok(o) ==> spec_encode_option_bytes(
                    match o {
                        Some(v) => Some(v@),
                        None => None,
                    },
                ) == old(self).durability.oplog.entries@[old(
                    self,
                ).durability.replay_cursor as int].payload@)
                &&& (old(self).durability.spec_next_matches(
                    "golem keyvalue::eventual::get"@,
                    WrappedFunctionType::ReadRemote,
                ) && (exists|o: Option<Seq<u8>>|
                    old(self).durability.oplog.entries@[old(
                        self,
                    ).durability.replay_cursor as int].payload@ == spec_encode_option_bytes(
                        o,
                    )) ==> r is Ok)
                &&& (!old(self).durability.spec_next_matches(
                    "golem keyvalue::eventual::get"@,
                    WrappedFunctionType::ReadRemote,
                ) ==> r == Err::<Option<Vec<u8>>, HostCallError>(HostCallError::Diverged))
                &&& (r is Ok ==> final (self).durability.replay_cursor == old(
                    self,
                ).durability.replay_cursor + 1)
            },
    {
        let name = kv_get_name();
        let step = self.durability.wrap_next(&name, WrappedFunctionType::ReadRemote);
        match step {
            WrapStep::Replayed { payload } => match decode_option_bytes(&payload) {
                Some(o) => Ok(o),
                None => {
                    proof {
                        // a payload in the option frame always decodes
                        if exists|o: Option<Seq<u8>>| payload@ == spec_encode_option_bytes(o) {
                            let o = choose|o: Option<Seq<u8>>|
                                payload@ == spec_encode_option_bytes(o);
                            assert(payload@ == spec_encode_option_bytes(o));
                        }
                    }
                    Err(HostCallError::BadRecordedPayload)
                },
            },
            WrapStep::Diverged => Err(HostCallError::Diverged),
            WrapStep::Live => {
                let result = kv.get(&self.account_id, bucket, key);
                let payload = encode_option_bytes(&result);
                self.durability.record_live_result(
                    &name,
                    WrappedFunctionType::ReadRemote,
                    &payload,
                );
                Ok(result)
            },
        }
    }

    /// `keyvalue::eventual::set`, a remote write: live it stores the
    /// value and journals the write — committed before the effect counts
    /// as done; replay does not repeat the effect.
    pub fn set(
        &mut self,
        kv: &mut KeyValueService,
        bucket: &String,
        key: &String,
        value: Vec<u8>,
    ) -> (r: Result<(), HostCallError>)
        requires
            old(self).wf(),
            old(self).can_record(),
            old(kv).wf(),
        ensures
            final (self).wf(),
            final (kv).wf(),
            !old(self).durability.is_replaying() ==> {
                &&& r is Ok
                &&& final (kv).spec_contains((old(self).account_id.value@, bucket@, key@))
                &&& final (kv).spec_value_of((old(self).account_id.value@, bucket@, key@))
                    == value@
                &&& forall|other: crate::kv::KvKey|
                    other != (old(self).account_id.value@, bucket@, key@) ==> (final (kv).spec_contains(other) <==> old(kv).spec_contains(other))
                &&& spec_journalled(
                    old(self).durability,
                    final (self).durability,
                    "golem keyvalue::eventual::set"@,
                    WrappedFunctionType::WriteRemote,
                    Seq::<u8>::empty(),
                )
            },
            old(self).durability.is_replaying() ==> *final (kv) == *old(kv) && final (self).durability.oplog == old(self).durability.oplog,
            old(self).durability.is_replaying() ==> {
                &&& (old(self).durability.spec_next_matches(
                    "golem keyvalue::eventual::set"@,
                    WrappedFunctionType::WriteRemote,
                ) ==> r is Ok)
                &&& (!old(self).durability.spec_next_matches(
                    "golem keyvalue::eventual::set"@,
                    WrappedFunctionType::WriteRemote,
                ) ==> r == Err::<(), HostCallError>(HostCallError::Diverged))
                &&& (r is Ok ==> final (self).durability.replay_cursor == old(
                    self,
                ).durability.replay_cursor + 1)
            },
    {
        let name = kv_set_name();
        let step = self.durability.wrap_next(&name, WrappedFunctionType::WriteRemote);
        match step {
            WrapStep::Replayed { payload } => Ok(()),
            WrapStep::Diverged => Err(HostCallError::Diverged),
            WrapStep::Live => {
                kv.set(&self.account_id, bucket, key, value);
                let payload: Vec<u8> = Vec::new();
                self.durability.record_live_result(
                    &name,
                    WrappedFunctionType::WriteRemote,
                    &payload,
                );
                Ok(())
            },
        }
    }

    /// `keyvalue::eventual::delete`, a remote write.
    pub fn delete(&mut self, kv: &mut KeyValueService, bucket: &String, key: &String) -> (r:
        Result<(), HostCallError>)
        requires
            old(self).wf(),
            old(self).can_record(),
            old(kv).wf(),
        ensures
            final (self).wf(),
            final (kv).wf(),
            !old(self).durability.is_replaying() ==> {
                &&& r is Ok
                &&& !final (kv).spec_contains((old(self).account_id.value@, bucket@, key@))
                &&& forall|other: crate::kv::KvKey|
                    other != (old(self).account_id.value@, bucket@, key@) ==> (final (kv).spec_contains(other) <==> old(kv).spec_contains(other))
                &&& spec_journalled(
                    old(self).durability,
                    final (self).durability,
                    "golem keyvalue::eventual::delete"@,
                    WrappedFunctionType::WriteRemote,
                    Seq::<u8>::empty(),
                )
            },
            old(self).durability.is_replaying() ==> *final (kv) == *old(kv) && final (self).durability.oplog == old(self).durability.oplog,
            old(self).durability.is_replaying() ==> {
                &&& (old(self).durability.spec_next_matches(
                    "golem keyvalue::eventual::delete"@,
                    WrappedFunctionType::WriteRemote,
                ) ==> r is Ok)
                &&& (!old(self).durability.spec_next_matches(
                    "golem keyvalue::eventual::delete"@,
                    WrappedFunctionType::WriteRemote,
                ) ==> r == Err::<(), HostCallError>(HostCallError::Diverged))
                &&& (r is Ok ==> final (self).durability.replay_cursor == old(
                    self,
                ).durability.replay_cursor + 1)
            },
    {
        let name = kv_delete_name();
        let step = self.durability.wrap_next(&name, WrappedFunctionType::WriteRemote);
        match step {
            WrapStep::Replayed { payload } => Ok(()),
            WrapStep::Diverged => Err(HostCallError::Diverged),
            WrapStep::Live => {
                kv.delete(&self.account_id, bucket, key);
                let payload: Vec<u8> = Vec::new();
                self.durability.record_live_result(
                    &name,
                    WrappedFunctionType::WriteRemote,
                    &payload,
                );
                Ok(())
            },
        }
    }

    /// `keyvalue::eventual::exists`, a remote read.
    pub fn exists_key(&mut self, kv: &KeyValueService, bucket: &String, key: &String) -> (r:
        Result<bool, HostCallError>)
        requires
            old(self).wf(),
            old(self).can_record(),
            kv.wf(),
        ensures
            final (self).wf(),
            !old(self).durability.is_replaying() ==> {
                &&& r == Ok::<bool, HostCallError>(
                    kv.spec_contains((old(self).account_id.value@, bucket@, key@)),
                )
                &&& spec_journalled(
                    old(self).durability,
                    final (self).durability,
                    "golem keyvalue::eventual::exists"@,
                    WrappedFunctionType::ReadRemote,
                    spec_encode_bool(
                        kv.spec_contains((old(self).account_id.value@, bucket@, key@)),
                    ),
                )
            },
            old(self).durability.is_replaying() ==> {
                &&& final (self).durability.oplog == old(self).durability.oplog
                &&& (r matches Ok(b) ==> spec_encode_bool(b) == old(
                    self,
                ).durability.oplog.entries@[old(
                    self,
                ).durability.replay_cursor as int].payload@)
                &&& (old(self).durability.spec_next_matches(
                    "golem keyvalue::eventual::exists"@,
                    WrappedFunctionType::ReadRemote,
                ) && (old(self).durability.oplog.entries@[old(
                    self,
                ).durability.replay_cursor as int].payload@ == spec_encode_bool(true) || old(
                    self,
                ).durability.oplog.entries@[old(
                    self,
                ).durability.replay_cursor as int].payload@ == spec_encode_bool(false)) ==> r
                    is Ok)
                &&& (!old(self).durability.spec_next_matches(
                    "golem keyvalue::eventual::exists"@,
                    WrappedFunctionType::ReadRemote,
                ) ==> r == Err::<bool, HostCallError>(HostCallError::Diverged))
                &&& (r is Ok ==> final (self).durability.replay_cursor == old(
                    self,
                ).durability.replay_cursor + 1)
            },
    {
        let name = kv_exists_name();
        let step = self.durability.wrap_next(&name, WrappedFunctionType::ReadRemote);
        match step {
            WrapStep::Replayed { payload } => match decode_bool(&payload) {
                Some(b) => Ok(b),
                None => Err(HostCallError::BadRecordedPayload),
            },
            WrapStep::Diverged => Err(HostCallError::Diverged),
            WrapStep::Live => {
                let result = kv.exists_key(&self.account_id, bucket, key);
                let payload = encode_bool(result);
                self.durability.record_live_result(
                    &name,
                    WrappedFunctionType::ReadRemote,
                    &payload,
                );
                Ok(result)
            },
        }
    }

    /// `golem::create_promise`, a local write: allocates the durable
    /// promise id `(worker_id, next journal index)`; a replay returns the
    /// recorded id without touching the store.
    pub fn golem_create_promise(&mut self, promises: &mut PromiseService) -> (r: Result<
        PromiseId,
        HostCallError,
    >)
        requires
            old(self).wf(),
            old(self).can_record(),
            old(promises).wf(),
            old(self).durability.oplog.entries@.len() < i64::MAX,
        ensures
            final (self).wf(),
            final (promises).wf(),
            !old(self).durability.is_replaying() ==> {
                &&& r matches Ok(id) && id@.worker_id == old(self).worker_id@ && id@.oplog_idx
                    == old(self).durability.oplog.entries@.len() + 1
                &&& final (promises).spec_contains(
                    crate::model::PromiseIdView {
                        worker_id: old(self).worker_id@,
                        oplog_idx: (old(self).durability.oplog.entries@.len() + 1) as i64,
                    },
                )
                // a fresh allocation starts pending; an id the store
                // already holds is left as it is
                &&& (!old(promises).spec_contains(
                    crate::model::PromiseIdView {
                        worker_id: old(self).worker_id@,
                        oplog_idx: (old(self).durability.oplog.entries@.len() + 1) as i64,
                    },
                ) ==> final (promises).spec_state_of(
                    crate::model::PromiseIdView {
                        worker_id: old(self).worker_id@,
                        oplog_idx: (old(self).durability.oplog.entries@.len() + 1) as i64,
                    },
                ) is Pending)
                &&& spec_journalled(
                    old(self).durability,
                    final (self).durability,
                    "golem::create_promise"@,
                    WrappedFunctionType::WriteLocal,
                    spec_u64_to_le_bytes((old(self).durability.oplog.entries@.len() + 1) as u64),
                )
            },
            old(self).durability.is_replaying() ==> *final (promises) == *old(promises)
                && final (self).durability.oplog == old(self).durability.oplog,
            old(self).durability.is_replaying() ==> {
                // a successful replay returns the durably recorded id
                &&& (r matches Ok(id) ==> id@.worker_id == old(self).worker_id@
                    && spec_u64_to_le_bytes(id@.oplog_idx as u64) == old(
                    self,
                ).durability.oplog.entries@[old(
                    self,
                ).durability.replay_cursor as int].payload@ && final (
                self).durability.replay_cursor == old(self).durability.replay_cursor + 1)
                &&& (old(self).durability.spec_next_matches(
                    "golem::create_promise"@,
                    WrappedFunctionType::WriteLocal,
                ) && (exists|x: u64|
                    x <= i64::MAX && old(self).durability.oplog.entries@[old(
                        self,
                    ).durability.replay_cursor as int].payload@ == spec_u64_to_le_bytes(x))
                    ==> r is Ok)
                &&& (!old(self).durability.spec_next_matches(
                    "golem::create_promise"@,
                    WrappedFunctionType::WriteLocal,
                ) ==> r == Err::<PromiseId, HostCallError>(HostCallError::Diverged))
            },
    {
        proof {
            vstd::bytes::lemma_auto_spec_u64_to_from_le_bytes();
        }
        let name = create_promise_name();
        let step = self.durability.wrap_next(&name, WrappedFunctionType::WriteLocal);
        match step {
            WrapStep::Replayed { payload } => match decode_u64(&payload) {
                Some(idx) => {
                    if idx <= i64::MAX as u64 {
                        Ok(PromiseId { worker_id: self.worker_id.duplicate(), oplog_idx: (
                        idx as i64) })
                    } else {
                        proof {
                            // the recorded index is the one that was
                            // allocated, so it fits a signed index
                            if exists|x: u64|
                                x <= i64::MAX && payload@ == spec_u64_to_le_bytes(x) {
                                let x = choose|x: u64|
                                    x <= i64::MAX && payload@ == spec_u64_to_le_bytes(x);
                                assert(vstd::bytes::spec_u64_from_le_bytes(payload@) == x);
                            }
                        }
                        Err(HostCallError::BadRecordedPayload)
                    }
                },
                None => {
                    proof {
                        if exists|x: u64| x <= i64::MAX && payload@ == spec_u64_to_le_bytes(
                            x,
                        ) {
                            let x = choose|x: u64|
                                x <= i64::MAX && payload@ == spec_u64_to_le_bytes(x);
                            assert(payload@ == spec_u64_to_le_bytes(x));
                        }
                    }
                    Err(HostCallError::BadRecordedPayload)
                },
            },
            WrapStep::Diverged => Err(HostCallError::Diverged),
            WrapStep::Live => {
                let idx = self.durability.oplog.length() as u64 + 1;
                let id = promises.create(&self.worker_id, idx as i64);
                let payload = encode_u64(idx);
                self.durability.record_live_result(
                    &name,
                    WrappedFunctionType::WriteLocal,
                    &payload,
                );
                Ok(id)
            },
        }
    }

    /// `golem::await_promise`, a remote read plus suspension: a completed
    /// promise hands its bytes to the module (and live execution journals
    /// them); a pending promise suspends the worker, and nothing is
    /// journalled for the suspension itself.  A promise that is already
    /// completed at poll time never suspends.
    pub fn golem_await_promise(&mut self, promises: &PromiseService, promise_id: &PromiseId)
        -> (r: Result<AwaitPromiseOutcome, HostCallError>)
        requires
            old(self).wf(),
            old(self).can_record(),
            promises.wf(),
        ensures
            final (self).wf(),
            !old(self).durability.is_replaying() ==> {
                &&& (promises.spec_contains(promise_id@) ==> match promises.spec_state_of(
                    promise_id@,
                ) {
                    PromiseState::Completed { data } => r matches Ok(o) && (o matches
                        AwaitPromiseOutcome::Ready(v) && v@ == data@) && spec_journalled(
                        old(self).durability,
                        final (self).durability,
                        "golem::await_promise"@,
                        WrappedFunctionType::ReadRemote,
                        data@,
                    ),
                    PromiseState::Pending => r matches Ok(o) && o is Suspend && final (self).durability == old(self).durability,
                })
                &&& (!promises.spec_contains(promise_id@) ==> r == Err::<
                    AwaitPromiseOutcome,
                    HostCallError,
                >(HostCallError::UnknownPromise) && final (self).durability == old(
                    self,
                ).durability)
            },
            old(self).durability.is_replaying() ==> {
                &&& final (self).durability.oplog == old(self).durability.oplog
                &&& (r matches Ok(o) ==> o matches AwaitPromiseOutcome::Ready(v) && v@ == old(
                    self,
                ).durability.oplog.entries@[old(
                    self,
                ).durability.replay_cursor as int].payload@)
                &&& (old(self).durability.spec_next_matches(
                    "golem::await_promise"@,
                    WrappedFunctionType::ReadRemote,
                ) ==> r is Ok)
                &&& (!old(self).durability.spec_next_matches(
                    "golem::await_promise"@,
                    WrappedFunctionType::ReadRemote,
                ) ==> r == Err::<AwaitPromiseOutcome, HostCallError>(HostCallError::Diverged))
                &&& (r is Ok ==> final (self).durability.replay_cursor == old(
                    self,
                ).durability.replay_cursor + 1)
            },
    {
        let name = await_promise_name();
        let step = self.durability.wrap_next(&name, WrappedFunctionType::ReadRemote);
        match step {
            WrapStep::Replayed { payload } => Ok(AwaitPromiseOutcome::Ready(payload)),
            WrapStep::Diverged => Err(HostCallError::Diverged),
            WrapStep::Live => match promises.poll(promise_id) {
                Ok(Some(data)) => {
                    self.durability.record_live_result(
                        &name,
                        WrappedFunctionType::ReadRemote,
                        &data,
                    );
                    Ok(AwaitPromiseOutcome::Ready(data))
                },
                Ok(None) => Ok(AwaitPromiseOutcome::Suspend),
                Err(_) => Err(HostCallError::UnknownPromise),
            },
        }
    }

    /// `golem::complete_promise`, a remote write: reports whether this
    /// call was the one completion that took effect.
    pub fn golem_complete_promise(
        &mut self,
        promises: &mut PromiseService,
        promise_id: &PromiseId,
        data: Vec<u8>,
    ) -> (r: Result<bool, HostCallError>)
        requires
            old(self).wf(),
            old(self).can_record(),
            old(promises).wf(),
        ensures
            final (self).wf(),
            final (promises).wf(),
            !old(self).durability.is_replaying() ==> {
                &&& (old(promises).spec_contains(promise_id@) && old(promises).spec_state_of(
                    promise_id@,
                ) is Pending ==> r == Ok::<bool, HostCallError>(true) && (final (promises).spec_state_of(promise_id@) matches PromiseState::Completed { data: d } && d@ == data@))
                &&& (old(promises).spec_contains(promise_id@) && old(promises).spec_state_of(
                    promise_id@,
                ) is Completed ==> r == Ok::<bool, HostCallError>(false) && *final (promises)
                    == *old(promises))
                &&& (!old(promises).spec_contains(promise_id@) ==> r == Err::<
                    bool,
                    HostCallError,
                >(HostCallError::UnknownPromise) && *final (promises) == *old(promises)
                    && final (self).durability == old(self).durability)
                &&& (r matches Ok(b) ==> spec_journalled(
                    old(self).durability,
                    final (self).durability,
                    "golem::complete_promise"@,
                    WrappedFunctionType::WriteRemote,
                    spec_encode_bool(b),
                ))
            },
            old(self).durability.is_replaying() ==> *final (promises) == *old(promises)
                && final (self).durability.oplog == old(self).durability.oplog,
            old(self).durability.is_replaying() ==> {
                &&& (old(self).durability.spec_next_matches(
                    "golem::complete_promise"@,
                    WrappedFunctionType::WriteRemote,
                ) && (old(self).durability.oplog.entries@[old(
                    self,
                ).durability.replay_cursor as int].payload@ == spec_encode_bool(true) || old(
                    self,
                ).durability.oplog.entries@[old(
                    self,
                ).durability.replay_cursor as int].payload@ == spec_encode_bool(false)) ==> r
                    is Ok)
                &&& (!old(self).durability.spec_next_matches(
                    "golem::complete_promise"@,
                    WrappedFunctionType::WriteRemote,
                ) ==> r == Err::<bool, HostCallError>(HostCallError::Diverged))
                &&& (r is Ok ==> final (self).durability.replay_cursor == old(
                    self,
                ).durability.replay_cursor + 1)
            },
    {
        let name = complete_promise_name();
        let step = self.durability.wrap_next(&name, WrappedFunctionType::WriteRemote);
        match step {
            WrapStep::Replayed { payload } => match decode_bool(&payload) {
                Some(b) => Ok(b),
                None => Err(HostCallError::BadRecordedPayload),
            },
            WrapStep::Diverged => Err(HostCallError::Diverged),
            WrapStep::Live => match promises.complete(promise_id, data) {
                Ok(completed) => {
                    let payload = encode_bool(completed);
                    self.durability.record_live_result(
                        &name,
                        WrappedFunctionType::WriteRemote,
                        &payload,
                    );
                    Ok(completed)
                },
                Err(_) => Err(HostCallError::UnknownPromise),
            },
        }
    }

    /// `golem::delete_promise`: removes the promise; not wrapped, exactly
    /// like the original surface.
    pub fn golem_delete_promise(&mut self, promises: &mut PromiseService, promise_id: &PromiseId)
        requires
            old(self).wf(),
            old(promises).wf(),
        ensures
            final (self).wf(),
            final (promises).wf(),
            *final (self) == *old(self),
            !final (promises).spec_contains(promise_id@),
            forall|other: crate::model::PromiseIdView|
                other != promise_id@ ==> (final (promises).spec_contains(other) <==> old(
                    promises,
                ).spec_contains(other)),
    {
        promises.delete(promise_id);
    }

    /// `get_self_uri`, a local read derived from the worker's identity.
    pub fn get_self_uri(&mut self, function_name: &String) -> (r: String)
        requires
            old(self).wf(),
        ensures
            final (self).wf(),
            *final (self) == *old(self),
            r@ == spec_worker_uri(old(self).worker_id@, Some(function_name@)),
    {
        let name = self_uri_name();
        let _step = self.durability.wrap_next(&name, WrappedFunctionType::ReadLocal);
        worker_uri(&self.worker_id, Some(function_name))
    }
}

/// Journalled name of the monotonic-clock read.
fn mono_now_name() -> (r: String)
    ensures
        r@ == "monotonic_clock::now"@,
{
    "monotonic_clock::now".to_owned()
}

/// Journalled name of the monotonic-clock resolution read.
fn mono_resolution_name() -> (r: String)
    ensures
        r@ == "monotonic_clock::resolution"@,
{
    "monotonic_clock::resolution".to_owned()
}

/// Journalled name of the wall-clock read.
fn wall_now_name() -> (r: String)
    ensures
        r@ == "wall_clock::now"@,
{
    "wall_clock::now".to_owned()
}

/// Journalled name of the key-value read.
fn kv_get_name() -> (r: String)
    ensures
        r@ == "golem keyvalue::eventual::get"@,
{
    "golem keyvalue::eventual::get".to_owned()
}

/// Journalled name of the key-value write.
fn kv_set_name() -> (r: String)
    ensures
        r@ == "golem keyvalue::eventual::set"@,
{
    "golem keyvalue::eventual::set".to_owned()
}

/// Journalled name of the key-value removal.
fn kv_delete_name() -> (r: String)
    ensures
        r@ == "golem keyvalue::eventual::delete"@,
{
    "golem keyvalue::eventual::delete".to_owned()
}

/// Journalled name of the key-value membership read.
fn kv_exists_name() -> (r: String)
    ensures
        r@ == "golem keyvalue::eventual::exists"@,
{
    "golem keyvalue::eventual::exists".to_owned()
}

/// Journalled name of promise creation.
fn create_promise_name() -> (r: String)
    ensures
        r@ == "golem::create_promise"@,
{
    "golem::create_promise".to_owned()
}

/// Journalled name of the promise await.
fn await_promise_name() -> (r: String)
    ensures
        r@ == "golem::await_promise"@,
{
    "golem::await_promise".to_owned()
}

/// Journalled name of the promise completion.
fn complete_promise_name() -> (r: String)
    ensures
        r@ == "golem::complete_promise"@,
{
    "golem::complete_promise".to_owned()
}

/// Journalled name of the self-URI read.
fn self_uri_name() -> (r: String)
    ensures
        r@ == "golem::get_self_uri"@,
{
    "golem::get_self_uri".to_owned()
}

} // verus!
