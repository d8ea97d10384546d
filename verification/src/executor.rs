//! The node-level executor: the public operations of one node.
//!
//! Every routable operation first checks shard ownership, then the
//! status guard (failed or exited workers reject new work), then touches
//! the stores and the active-worker cache.  The transport envelope
//! around these operations lives outside; the operations here take and
//! return plain values.

use vstd::prelude::*;

use crate::cache::{ActiveWorkerEntry, ActiveWorkers, PendingOrFinal};
use crate::keys::{spec_u64_hex_chars, u64_to_hex};
use crate::kv::KeyValueService;
use crate::metadata::WorkerMetadataStore;
use crate::model::{
    AccountId, CallingConvention, GolemError, InvocationKey, PromiseId, ShardId, Val,
    VersionedWorkerId, WorkerId, WorkerMetadata, WorkerStatus,
};
use crate::oplog::Oplog;
use crate::promise::PromiseService;
use crate::runtime::RetryConfig;
use crate::shard::{spec_shard_of, ShardService};
use crate::worker::{Invocation, WorkerState};

verus! {

/// Per-account resource limits reported by the caller.
#[derive(Clone, Copy, PartialEq, Eq, Structural, Debug)]
pub struct ResourceLimits {
    pub available_fuel: i64,
    pub max_memory_per_worker: i64,
}

/// Request to create a worker.
pub struct CreateWorkerRequest {
    pub worker_id: Option<WorkerId>,
    pub template_version: i32,
    pub args: Vec<String>,
    pub env: Vec<(String, String)>,
    pub account_id: Option<AccountId>,
    pub account_limits: Option<ResourceLimits>,
}

/// Request to complete a promise.
pub struct CompletePromiseRequest {
    pub promise_id: Option<PromiseId>,
    pub data: Vec<u8>,
}

/// Request for a fresh invocation key.
pub struct GetInvocationKeyRequest {
    pub worker_id: Option<WorkerId>,
}

/// Request to interrupt a worker; `recover_immediately` picks a restart
/// over a plain interrupt.
pub struct InterruptWorkerRequest {
    pub worker_id: Option<WorkerId>,
    pub recover_immediately: bool,
}

/// Request to resume a suspended or interrupted worker.
pub struct ResumeWorkerRequest {
    pub worker_id: Option<WorkerId>,
}

/// Fire-and-forget invocation request.
pub struct InvokeWorkerRequest {
    pub worker_id: Option<WorkerId>,
    pub name: String,
    pub input: Vec<Val>,
    pub account_id: Option<AccountId>,
    pub account_limits: Option<ResourceLimits>,
}

/// Invoke-and-await request; the invocation key binds the caller to the
/// eventual result.
pub struct InvokeAndAwaitWorkerRequest {
    pub worker_id: Option<WorkerId>,
    pub name: String,
    pub input: Vec<Val>,
    pub invocation_key: Option<InvocationKey>,
    pub calling_convention: CallingConvention,
    pub account_id: Option<AccountId>,
    pub account_limits: Option<ResourceLimits>,
}

/// Request to attach to a worker's log-event stream.
pub struct ConnectWorkerRequest {
    pub worker_id: Option<WorkerId>,
    pub account_id: Option<AccountId>,
}

/// The executor: all the services of one node.
pub struct WorkerExecutorImpl {
    pub shard_service: ShardService,
    pub worker_service: WorkerMetadataStore,
    pub promise_service: PromiseService,
    pub key_value_service: KeyValueService,
    pub active_workers: ActiveWorkers,
    /// Fresh-key source for invocation keys.
    pub invocation_key_counter: u64,
    /// Results of finished invoke-and-await invocations, retrievable by
    /// key so that a disconnected caller can collect them later.
    pub pending_results: Vec<(InvocationKey, Vec<Val>)>,
    /// Log of the limits callers reported; the latest entry for an
    /// account is current.
    pub last_known_limits: Vec<(AccountId, ResourceLimits)>,
    pub retry_config: RetryConfig,
}

impl WorkerExecutorImpl {
    pub open spec fn wf(self) -> bool {
        &&& self.shard_service.wf()
        &&& self.worker_service.wf()
        &&& self.promise_service.wf()
        &&& self.key_value_service.wf()
        &&& self.active_workers.wf()
    }

    /// A node that has registered with the shard manager and received
    /// its assignment.
    pub fn new(number_of_shards: u64, shard_ids: &Vec<ShardId>, retry_config: RetryConfig)
        -> (r: WorkerExecutorImpl)
        requires
            number_of_shards >= 1,
            forall|i: int| 0 <= i < shard_ids@.len() ==> shard_ids@[i] < number_of_shards,
        ensures
            r.wf(),
            r.shard_service.number_of_shards == number_of_shards,
            forall|s: ShardId| r.shard_service.spec_owns(s) <==> shard_ids@.contains(s),
            r.worker_service.records@.len() == 0,
            r.promise_service.promises@.len() == 0,
            r.active_workers.workers@.len() == 0,
            r.invocation_key_counter == 0,
    {
        WorkerExecutorImpl {
            shard_service: ShardService::register(number_of_shards, shard_ids),
            worker_service: WorkerMetadataStore::new(),
            promise_service: PromiseService::new(),
            key_value_service: KeyValueService::new(),
            active_workers: ActiveWorkers::new(),
            invocation_key_counter: 0,
            pending_results: Vec::new(),
            last_known_limits: Vec::new(),
            retry_config,
        }
    }

    /// The shard guard every routable operation consults: succeeds
    /// exactly when this node owns the worker's shard.
    pub fn validate_worker_id(&self, worker_id: &WorkerId) -> (r: Result<(), GolemError>)
        requires
            self.wf(),
        ensures
            r is Ok <==> self.shard_service.spec_owns_worker(worker_id@.worker_name),
            r matches Err(e) ==> e matches GolemError::InvalidShardId { shard_id, shard_ids }
                && shard_id == spec_shard_of(
                worker_id@.worker_name,
                self.shard_service.number_of_shards,
            ) && shard_ids@ == self.shard_service.owned_shards@,
    {
        self.shard_service.check_worker(worker_id)
    }

    /// The status a worker is assumed to be in: its last recorded status,
    /// or idle for a worker never seen running.
    pub open spec fn spec_assumed_status(metadata: Option<WorkerMetadata>) -> WorkerStatus {
        match metadata {
            Some(m) => m.last_known_status,
            None => WorkerStatus::Idle,
        }
    }

    /// Whether the status guard lets new work through: the worker is not
    /// failed or exited, and no errors trail since its last success.
    pub open spec fn spec_status_guard_passes(metadata: Option<WorkerMetadata>) -> bool {
        &&& Self::spec_assumed_status(metadata) != WorkerStatus::Failed
        &&& Self::spec_assumed_status(metadata) != WorkerStatus::Exited
        &&& (metadata matches Some(m) ==> m.retry_count == 0)
    }

    /// Whether a promise completion reactivates the worker: exactly when
    /// its last-known status is interrupted, running, suspended or
    /// retrying.
    pub open spec fn spec_should_activate(status: WorkerStatus) -> bool {
        ||| status == WorkerStatus::Interrupted
        ||| status == WorkerStatus::Running
        ||| status == WorkerStatus::Suspended
        ||| status == WorkerStatus::Retrying
    }

    /// The record of a worker as the guard sees it.
    pub open spec fn spec_record_option(self, w: crate::model::WorkerIdView) -> Option<
        WorkerMetadata,
    > {
        if self.worker_service.spec_contains(w) {
            Some(self.worker_service.spec_record_of(w))
        } else {
            None
        }
    }

    /// The status guard: a failed or exited worker rejects new work, as
    /// does one with errors trailing since its last success.
    pub fn validate_worker_status(&self, worker_id: &WorkerId, metadata: Option<
        &WorkerMetadata,
    >) -> (r: Result<WorkerStatus, GolemError>)
        requires
            self.wf(),
        ensures
            ({
                let status = Self::spec_assumed_status(match metadata {
                    Some(m) => Some(*m),
                    None => None,
                });
                let trailing = match metadata {
                    Some(m) => m.retry_count > 0,
                    None => false,
                };
                if status == WorkerStatus::Failed {
                    r == Err::<WorkerStatus, GolemError>(GolemError::PreviousInvocationFailed)
                } else if status == WorkerStatus::Exited {
                    r == Err::<WorkerStatus, GolemError>(GolemError::PreviousInvocationExited)
                } else if trailing {
                    r == Err::<WorkerStatus, GolemError>(GolemError::PreviousInvocationFailed)
                } else {
                    r == Ok::<WorkerStatus, GolemError>(status)
                }
            }),
    {
        let status = match metadata {
            Some(m) => m.last_known_status,
            None => WorkerStatus::Idle,
        };
        match status {
            WorkerStatus::Failed => Err(GolemError::PreviousInvocationFailed),
            WorkerStatus::Exited => Err(GolemError::PreviousInvocationExited),
            _ => {
                let error_count: u64 = match metadata {
                    Some(m) => m.retry_count,
                    None => 0,
                };
                if error_count > 0 {
                    Err(GolemError::PreviousInvocationFailed)
                } else {
                    Ok(status)
                }
            },
        }
    }

    /// Notes the limits a caller reported for an account.
    pub fn record_last_known_limits(&mut self, account_id: &AccountId, limits: &ResourceLimits)
        requires
            old(self).wf(),
        ensures
            final (self).wf(),
            final (self).last_known_limits@.len() == old(self).last_known_limits@.len() + 1,
            final (self).last_known_limits@.last().0.value@ == account_id.value@,
            final (self).last_known_limits@.last().1 == *limits,
            final (self).shard_service == old(self).shard_service,
            final (self).worker_service == old(self).worker_service,
            final (self).promise_service == old(self).promise_service,
            final (self).active_workers == old(self).active_workers,
            final (self).invocation_key_counter == old(self).invocation_key_counter,
    {
        self.last_known_limits.push(
            (AccountId { value: account_id.value.clone() }, *limits),
        );
    }

    /// Ensures the worker is materialized as a live runtime: the cache's
    /// get-or-insert keys on the id, so at most one runtime per id ever
    /// exists on this node.  An absent worker gets a fresh runtime, and a
    /// slot still pending (left by a racing caller, for instance one
    /// attaching to the log stream) is resolved to the final runtime; a
    /// runtime that is already live is left exactly as it is.  A worker
    /// activated with a journal starts in replay mode at its head.
    pub fn activate_worker(&mut self, worker_id: &WorkerId, account_id: &AccountId, oplog: Oplog)
        requires
            old(self).wf(),
            oplog.wf(),
        ensures
            final (self).wf(),
            final (self).active_workers.spec_contains(worker_id@),
            final (self).active_workers.spec_entry_of(worker_id@) is Final,
            old(self).active_workers.spec_contains(worker_id@) && old(
                self,
            ).active_workers.spec_entry_of(worker_id@) is Final ==> final (self).active_workers
                == old(self).active_workers,
            !(old(self).active_workers.spec_contains(worker_id@) && old(
                self,
            ).active_workers.spec_entry_of(worker_id@) is Final) ==> (final (self).active_workers.spec_entry_of(worker_id@) matches PendingOrFinal::Final(st) && {
                &&& st.status == WorkerStatus::Idle
                &&& st.queue@.len() == 0
                &&& st.interrupting is None
                &&& st.retry_count == 0
                &&& st.ctx.worker_id@ == worker_id@
                &&& st.ctx.account_id.value@ == account_id.value@
                &&& st.ctx.durability.oplog == oplog
                &&& st.ctx.durability.replay_cursor == 0
            }),
            forall|other: crate::model::WorkerIdView|
                other != worker_id@ ==> (final (self).active_workers.spec_contains(other) <==>
                    old(self).active_workers.spec_contains(other)),
            forall|j: int|
                0 <= j < old(self).active_workers.workers@.len() && old(
                    self,
                ).active_workers.workers@[j].worker_id@ != worker_id@ ==> final (self).active_workers.workers@[j] == old(self).active_workers.workers@[j],
            final (self).shard_service == old(self).shard_service,
            final (self).worker_service == old(self).worker_service,
            final (self).promise_service == old(self).promise_service,
            final (self).invocation_key_counter == old(self).invocation_key_counter,
            final (self).pending_results == old(self).pending_results,
    {
        self.active_workers.get_or_create_pending(worker_id);
        let needs_runtime = match self.active_workers.index_of(worker_id) {
            Some(i) => match &self.active_workers.workers[i].entry {
                PendingOrFinal::Pending => true,
                PendingOrFinal::Final(_) => false,
            },
            None => false,
        };
        if needs_runtime {
            let state = WorkerState::new(
                worker_id.duplicate(),
                AccountId { value: account_id.value.clone() },
                oplog,
            );
            self.active_workers.make_final(worker_id, state);
        }
    }

    /// Creates a worker: records its metadata (if this is the first
    /// request for it) and materializes its runtime.  Requests without a
    /// worker or account id are malformed, and a worker of a foreign
    /// shard is refused with the retriable shard error.
    pub fn create_worker_internal(&mut self, request: CreateWorkerRequest) -> (r: Result<
        (),
        GolemError,
    >)
        requires
            old(self).wf(),
        ensures
            final (self).wf(),
            request.worker_id is None ==> (r matches Err(e) && e is InvalidRequest),
            request.worker_id is Some && request.account_id is None ==> (r matches Err(e) && e
                is InvalidRequest),
            request.worker_id matches Some(w) ==> {
                &&& (request.account_id is Some && !old(self).shard_service.spec_owns_worker(
                    w@.worker_name,
                ) ==> (r matches Err(e) && e is InvalidShardId))
                &&& (request.account_id is Some && old(self).shard_service.spec_owns_worker(
                    w@.worker_name,
                ) ==> {
                    &&& r is Ok
                    &&& final (self).worker_service.spec_contains(w@)
                    &&& final (self).active_workers.spec_contains(w@)
                    &&& (!old(self).worker_service.spec_contains(w@) ==> {
                        let rec = final (self).worker_service.spec_record_of(w@);
                        &&& rec.worker_id.worker_id@ == w@
                        &&& rec.worker_id.template_version == request.template_version
                        &&& rec.args@ == request.args@
                        &&& rec.env@ == request.env@
                        &&& rec.last_known_status == WorkerStatus::Idle
                        &&& rec.retry_count == 0
                    })
                })
            },
            final (self).shard_service == old(self).shard_service,
    {
        let worker_id = match request.worker_id {
            Some(w) => w,
            None => {
                return Err(GolemError::invalid_request("worker_id not found"));
            },
        };
        let account_id = match request.account_id {
            Some(a) => a,
            None => {
                return Err(GolemError::invalid_request("account_id not found"));
            },
        };
        if let Some(limits) = &request.account_limits {
            self.record_last_known_limits(&account_id, limits);
        }
        match self.validate_worker_id(&worker_id) {
            Ok(_) => {},
            Err(e) => {
                return Err(e);
            },
        }
        let metadata = WorkerMetadata {
            worker_id: VersionedWorkerId {
                worker_id: worker_id.duplicate(),
                template_version: request.template_version,
            },
            args: request.args,
            env: request.env,
            account_id: AccountId { value: account_id.value.clone() },
            last_known_status: WorkerStatus::Idle,
            retry_count: 0,
            oplog_tail: 0,
        };
        self.worker_service.insert(metadata);
        self.activate_worker(&worker_id, &account_id, Oplog::new());
        Ok(())
    }

    /// Issues a fresh invocation key for the worker; each key is derived
    /// from a counter that never repeats, so no two issued keys collide.
    pub fn get_invocation_key_internal(&mut self, request: GetInvocationKeyRequest) -> (r:
        Result<InvocationKey, GolemError>)
        requires
            old(self).wf(),
            old(self).invocation_key_counter < u64::MAX,
        ensures
            final (self).wf(),
            request.worker_id is None ==> (r matches Err(e) && e is InvalidRequest) && *final (self) == *old(self),
            request.worker_id matches Some(w) ==> {
                &&& (!old(self).shard_service.spec_owns_worker(w@.worker_name) ==> (r matches
                    Err(e) && e is InvalidShardId) && *final (self) == *old(self))
                &&& (old(self).shard_service.spec_owns_worker(w@.worker_name) ==> {
                    &&& r matches Ok(k) && k.value@ == spec_u64_hex_chars(
                        old(self).invocation_key_counter,
                    )
                    &&& final (self).invocation_key_counter == old(self).invocation_key_counter
                        + 1
                })
            },
            final (self).shard_service == old(self).shard_service,
            final (self).worker_service == old(self).worker_service,
            final (self).promise_service == old(self).promise_service,
            final (self).active_workers == old(self).active_workers,
            final (self).pending_results == old(self).pending_results,
    {
        let worker_id = match &request.worker_id {
            Some(w) => w,
            None => {
                return Err(GolemError::invalid_request("worker_id not found"));
            },
        };
        match self.validate_worker_id(worker_id) {
            Ok(_) => {},
            Err(e) => {
                return Err(e);
            },
        }
        let key = InvocationKey { value: u64_to_hex(self.invocation_key_counter) };
        self.invocation_key_counter = self.invocation_key_counter + 1;
        Ok(key)
    }

    /// Invocation keys never repeat: the key issued at one counter value
    /// differs from the key issued at any other, so each
    /// `get_invocation_key_internal` answer binds its caller to a result
    /// slot of its own.
    pub proof fn lemma_invocation_keys_fresh(counter_then: u64, counter_now: u64)
        requires
            counter_then != counter_now,
        ensures
            spec_u64_hex_chars(counter_then) != spec_u64_hex_chars(counter_now),
    {
        if spec_u64_hex_chars(counter_then) == spec_u64_hex_chars(counter_now) {
            crate::keys::lemma_u64_hex_injective(counter_then, counter_now);
        }
    }

    /// The shared front half of every invocation: shard guard, status
    /// guard, limit recording, and materialization of the runtime.  The
    /// journal passed in is the worker's, read from the oplog store by
    /// the caller; it is consumed only when the worker is not yet
    /// resident.
    pub fn get_or_create(
        &mut self,
        worker_id: &WorkerId,
        account_id: &AccountId,
        account_limits: &Option<ResourceLimits>,
        oplog: Oplog,
    ) -> (r: Result<(), GolemError>)
        requires
            old(self).wf(),
            oplog.wf(),
        ensures
            final (self).wf(),
            !old(self).shard_service.spec_owns_worker(worker_id@.worker_name) ==> (r matches
                Err(e) && e is InvalidShardId),
            old(self).shard_service.spec_owns_worker(worker_id@.worker_name)
                && Self::spec_status_guard_passes(old(self).spec_record_option(worker_id@))
                ==> r is Ok,
            old(self).shard_service.spec_owns_worker(worker_id@.worker_name)
                && !Self::spec_status_guard_passes(old(self).spec_record_option(worker_id@))
                ==> (r matches Err(e) && (e is PreviousInvocationFailed || e
                is PreviousInvocationExited)),
            r is Err ==> final (self).active_workers == old(self).active_workers,
            r is Ok ==> final (self).active_workers.spec_contains(worker_id@),
            r is Ok ==> final (self).active_workers.spec_entry_of(worker_id@) is Final,
            r is Ok && old(self).active_workers.spec_contains(worker_id@) && old(
                self,
            ).active_workers.spec_entry_of(worker_id@) is Final ==> final (self).active_workers
                == old(self).active_workers,
            r is Ok && !(old(self).active_workers.spec_contains(worker_id@) && old(
                self,
            ).active_workers.spec_entry_of(worker_id@) is Final) ==> (final (self).active_workers.spec_entry_of(worker_id@) matches PendingOrFinal::Final(st) && {
                &&& st.status == WorkerStatus::Idle
                &&& st.queue@.len() == 0
                &&& st.ctx.worker_id@ == worker_id@
                &&& st.ctx.durability.oplog == oplog
                &&& st.ctx.durability.replay_cursor == 0
            }),
            forall|other: crate::model::WorkerIdView|
                other != worker_id@ ==> (final (self).active_workers.spec_contains(other) <==>
                    old(self).active_workers.spec_contains(other)),
            r is Ok ==> old(self).shard_service.spec_owns_worker(worker_id@.worker_name),
            final (self).shard_service == old(self).shard_service,
            final (self).worker_service == old(self).worker_service,
            final (self).promise_service == old(self).promise_service,
    {
        match self.validate_worker_id(worker_id) {
            Ok(_) => {},
            Err(e) => {
                return Err(e);
            },
        }
        let status_check = match self.worker_service.get(worker_id) {
            Some(m) => self.validate_worker_status(worker_id, Some(m)),
            None => self.validate_worker_status(worker_id, None),
        };
        match status_check {
            Ok(_) => {},
            Err(e) => {
                return Err(e);
            },
        }
        if let Some(limits) = account_limits {
            self.record_last_known_limits(account_id, limits);
        }
        self.activate_worker(worker_id, account_id, oplog);
        Ok(())
    }

    /// Fire-and-forget invocation: after the shard and status guards the
    /// invocation is placed on the worker's FIFO queue and the call
    /// returns at once.
    pub fn invoke_worker_internal(&mut self, request: InvokeWorkerRequest, oplog: Oplog) -> (r:
        Result<(), GolemError>)
        requires
            old(self).wf(),
            oplog.wf(),
        ensures
            final (self).wf(),
            request.worker_id is None ==> (r matches Err(e) && e is InvalidRequest),
            request.worker_id is Some && request.account_id is None ==> (r matches Err(e) && e
                is InvalidRequest),
            request.worker_id matches Some(w) ==> (request.account_id is Some && !old(
                self,
            ).shard_service.spec_owns_worker(w@.worker_name) ==> (r matches Err(e) && e
                is InvalidShardId)),
            request.worker_id matches Some(w) ==> (request.account_id is Some && old(
                self,
            ).shard_service.spec_owns_worker(w@.worker_name)
                && Self::spec_status_guard_passes(old(self).spec_record_option(w@)) ==> r
                is Ok),
            request.worker_id matches Some(w) ==> (r is Ok ==> final (self).active_workers.spec_contains(w@)),
            request.worker_id matches Some(w) ==> (r is Ok ==> (final (
            self).active_workers.spec_entry_of(w@) matches PendingOrFinal::Final(after) && {
                &&& after.queue@.len() >= 1
                &&& after.queue@.last().function_name == request.name
                &&& after.queue@.last().args == request.input
                &&& after.queue@.last().calling_convention == CallingConvention::Component
                &&& after.queue@.last().invocation_key is None
            })),
            request.worker_id matches Some(w) ==> (r is Ok && old(
                self,
            ).active_workers.spec_contains(w@) ==> (old(self).active_workers.spec_entry_of(w@)
                matches PendingOrFinal::Final(st) ==> (final (
            self).active_workers.spec_entry_of(w@) matches PendingOrFinal::Final(after) && {
                &&& after.queue@.len() == st.queue@.len() + 1
                &&& after.queue@.drop_last() == st.queue@
                &&& after.ctx == st.ctx
            }))),
            request.worker_id matches Some(w) ==> (r is Ok && !(old(
                self,
            ).active_workers.spec_contains(w@) && old(self).active_workers.spec_entry_of(w@)
                is Final) ==> (final (self).active_workers.spec_entry_of(w@) matches
                PendingOrFinal::Final(after) && after.queue@.len() == 1)),
            r is Err ==> final (self).active_workers == old(self).active_workers,
            final (self).shard_service == old(self).shard_service,
            final (self).worker_service == old(self).worker_service,
            final (self).promise_service == old(self).promise_service,
    {
        let worker_id = match request.worker_id {
            Some(w) => w,
            None => {
                return Err(GolemError::invalid_request("worker_id not found"));
            },
        };
        let account_id = match request.account_id {
            Some(a) => a,
            None => {
                return Err(GolemError::invalid_request("account_id not found"));
            },
        };
        match self.get_or_create(&worker_id, &account_id, &request.account_limits, oplog) {
            Ok(_) => {},
            Err(e) => {
                return Err(e);
            },
        }
        let invocation = Invocation {
            invocation_key: None,
            function_name: request.name,
            args: request.input,
            calling_convention: CallingConvention::Component,
        };
        self.active_workers.enqueue_invocation(&worker_id, invocation);
        proof {
            match self.active_workers.spec_entry_of(worker_id@) {
                PendingOrFinal::Final(after) => {
                    assert(after.queue@.drop_last() =~= after.queue@.drop_last());
                    match old(self).active_workers.spec_entry_of(worker_id@) {
                        PendingOrFinal::Final(st) => {
                            if old(self).active_workers.spec_contains(worker_id@) {
                                assert(after.queue@.drop_last() =~= st.queue@);
                            }
                        },
                        PendingOrFinal::Pending => {},
                    }
                },
                PendingOrFinal::Pending => {},
            }
        }
        Ok(())
    }

    /// Invoke-and-await: as the fire-and-forget path, but the invocation
    /// carries its key, under which the result is later recorded and can
    /// be collected — also by a caller that reconnected.
    pub fn invoke_and_await_worker_internal(
        &mut self,
        request: InvokeAndAwaitWorkerRequest,
        oplog: Oplog,
    ) -> (r: Result<(), GolemError>)
        requires
            old(self).wf(),
            oplog.wf(),
        ensures
            final (self).wf(),
            request.worker_id is None ==> (r matches Err(e) && e is InvalidRequest),
            request.invocation_key is None && request.worker_id is Some ==> (r matches Err(e)
                && e is InvalidRequest),
            request.worker_id matches Some(w) ==> (request.invocation_key is Some
                && request.account_id is Some && old(self).shard_service.spec_owns_worker(
                w@.worker_name,
            ) && Self::spec_status_guard_passes(old(self).spec_record_option(w@)) ==> r
                is Ok),
            request.worker_id matches Some(w) ==> (r is Ok ==> final (self).active_workers.spec_contains(w@)),
            request.worker_id matches Some(w) ==> (r is Ok ==> (final (
            self).active_workers.spec_entry_of(w@) matches PendingOrFinal::Final(after) && {
                &&& after.queue@.len() >= 1
                &&& after.queue@.last().function_name == request.name
                &&& after.queue@.last().args == request.input
                &&& after.queue@.last().calling_convention == request.calling_convention
                &&& after.queue@.last().invocation_key == request.invocation_key
            })),
            request.worker_id matches Some(w) ==> (r is Ok && old(
                self,
            ).active_workers.spec_contains(w@) ==> (old(self).active_workers.spec_entry_of(w@)
                matches PendingOrFinal::Final(st) ==> (final (
            self).active_workers.spec_entry_of(w@) matches PendingOrFinal::Final(after) && {
                &&& after.queue@.len() == st.queue@.len() + 1
                &&& after.queue@.drop_last() == st.queue@
                &&& after.ctx == st.ctx
            }))),
            request.worker_id matches Some(w) ==> (r is Ok && !(old(
                self,
            ).active_workers.spec_contains(w@) && old(self).active_workers.spec_entry_of(w@)
                is Final) ==> (final (self).active_workers.spec_entry_of(w@) matches
                PendingOrFinal::Final(after) && after.queue@.len() == 1)),
            r is Err ==> final (self).active_workers == old(self).active_workers,
            final (self).shard_service == old(self).shard_service,
            final (self).worker_service == old(self).worker_service,
            final (self).promise_service == old(self).promise_service,
    {
        let worker_id = match request.worker_id {
            Some(w) => w,
            None => {
                return Err(GolemError::invalid_request("worker_id not found"));
            },
        };
        let invocation_key = match request.invocation_key {
            Some(k) => k,
            None => {
                return Err(GolemError::invalid_request("invocation_key not found"));
            },
        };
        let account_id = match request.account_id {
            Some(a) => a,
            None => {
                return Err(GolemError::invalid_request("account_id not found"));
            },
        };
        match self.get_or_create(&worker_id, &account_id, &request.account_limits, oplog) {
            Ok(_) => {},
            Err(e) => {
                return Err(e);
            },
        }
        let invocation = Invocation {
            invocation_key: Some(invocation_key),
            function_name: request.name,
            args: request.input,
            calling_convention: request.calling_convention,
        };
        self.active_workers.enqueue_invocation(&worker_id, invocation);
        proof {
            match self.active_workers.spec_entry_of(worker_id@) {
                PendingOrFinal::Final(after) => {
                    match old(self).active_workers.spec_entry_of(worker_id@) {
                        PendingOrFinal::Final(st) => {
                            if old(self).active_workers.spec_contains(worker_id@) {
                                assert(after.queue@.drop_last() =~= st.queue@);
                            }
                        },
                        PendingOrFinal::Pending => {},
                    }
                },
                PendingOrFinal::Pending => {},
            }
        }
        Ok(())
    }

    /// Records the result of a finished invoke-and-await invocation under
    /// its key.
    pub fn record_invocation_result(&mut self, key: InvocationKey, values: Vec<Val>)
        requires
            old(self).wf(),
        ensures
            final (self).wf(),
            final (self).pending_results@.len() == old(self).pending_results@.len() + 1,
            final (self).pending_results@.last().0 == key,
            final (self).pending_results@.last().1 == values,
            forall|i: int|
                0 <= i < old(self).pending_results@.len() ==> final (self).pending_results@[i]
                    == old(self).pending_results@[i],
    {
        self.pending_results.push((key, values));
    }

    /// The recorded result bound to an invocation key, if the invocation
    /// has finished; an abandoned caller may collect it later.
    pub fn lookup_invocation_result(&self, key: &InvocationKey) -> (r: Option<&Vec<Val>>)
        ensures
            match r {
                Some(values) => exists|i: int|
                    0 <= i < self.pending_results@.len() && self.pending_results@[i].0.value@
                        == key.value@ && self.pending_results@[i].1 == *values,
                None => forall|i: int|
                    0 <= i < self.pending_results@.len() ==> self.pending_results@[i].0.value@
                        != key.value@,
            },
    {
        let mut i: usize = 0;
        while i < self.pending_results.len()
            invariant
                i <= self.pending_results@.len(),
                forall|j: int|
                    0 <= j < i ==> self.pending_results@[j].0.value@ != key.value@,
            decreases self.pending_results@.len() - i,
        {
            if self.pending_results[i].0.value == key.value {
                return Some(&self.pending_results[i].1);
            }
            i = i + 1;
        }
        None
    }

    /// Completes a promise and wakes the worker awaiting it.  The report
    /// carries `true` exactly when this call was the completion that took
    /// effect; a second completion reports `false` and changes nothing.
    /// A worker whose last-known status is interrupted, running,
    /// suspended or retrying is reactivated so that it observes the
    /// completion; in every other status only the completion is recorded.
    pub fn complete_promise_internal(&mut self, request: CompletePromiseRequest, oplog: Oplog)
        -> (r: Result<bool, GolemError>)
        requires
            old(self).wf(),
            oplog.wf(),
        ensures
            final (self).wf(),
            request.promise_id is None ==> (r matches Err(e) && e is InvalidRequest),
            request.promise_id matches Some(p) ==> {
                &&& (!old(self).shard_service.spec_owns_worker(p.worker_id@.worker_name) ==> (
                r matches Err(e) && e is InvalidShardId))
                &&& (old(self).shard_service.spec_owns_worker(p.worker_id@.worker_name) && !old(
                    self,
                ).promise_service.spec_contains(p@) ==> (r matches Err(e) && e
                    is InvalidRequest))
                &&& (old(self).shard_service.spec_owns_worker(p.worker_id@.worker_name) && old(
                    self,
                ).promise_service.spec_contains(p@) && !old(self).worker_service.spec_contains(
                    p.worker_id@,
                ) ==> (r matches Err(e) && e is WorkerNotFound))
                &&& (old(self).shard_service.spec_owns_worker(p.worker_id@.worker_name) && old(
                    self,
                ).promise_service.spec_contains(p@) && old(self).worker_service.spec_contains(
                    p.worker_id@,
                ) ==> {
                    &&& (old(self).promise_service.spec_state_of(p@) is Pending ==> r == Ok::<
                        bool,
                        GolemError,
                    >(true) && (final (self).promise_service.spec_state_of(p@) matches
                        crate::promise::PromiseState::Completed { data: d } && d@
                        == request.data@))
                    &&& (old(self).promise_service.spec_state_of(p@) is Completed ==> r
                        == Ok::<bool, GolemError>(false) && final (self).promise_service == old(
                        self,
                    ).promise_service)
                    // the completed promise stays in the store for the awaiter
                    &&& final (self).promise_service.spec_contains(p@)
                    &&& final (self).promise_service.spec_state_of(p@) is Completed
                    // a worker that may be awaiting the promise is made
                    // resident and observes the completion
                    &&& (Self::spec_should_activate(
                        old(self).worker_service.spec_record_of(p.worker_id@).last_known_status,
                    ) ==> {
                        &&& final (self).active_workers.spec_contains(p.worker_id@)
                        &&& final (self).active_workers.spec_entry_of(p.worker_id@) is Final
                        &&& (old(self).active_workers.spec_contains(p.worker_id@) ==> (old(
                            self,
                        ).active_workers.spec_entry_of(p.worker_id@) matches
                            PendingOrFinal::Final(st) ==> (final (
                        self).active_workers.spec_entry_of(p.worker_id@) matches
                            PendingOrFinal::Final(after) && after.status
                            == crate::runtime::spec_status_after(
                            st.status,
                            crate::runtime::ExecutionEvent::PromiseCompleted,
                        ) && after.ctx == st.ctx && after.queue == st.queue)))
                    })
                })
            },
            final (self).shard_service == old(self).shard_service,
            final (self).worker_service == old(self).worker_service,
    {
        let promise_id = match request.promise_id {
            Some(p) => p,
            None => {
                return Err(GolemError::invalid_request("promise_id not found"));
            },
        };
        match self.validate_worker_id(&promise_id.worker_id) {
            Ok(_) => {},
            Err(e) => {
                return Err(e);
            },
        }
        let completed = match self.promise_service.complete(&promise_id, request.data) {
            Ok(b) => b,
            Err(e) => {
                return Err(e);
            },
        };
        let (should_activate, account_id) = match self.worker_service.get(
            &promise_id.worker_id,
        ) {
            Some(m) => {
                let should = match m.last_known_status {
                    WorkerStatus::Interrupted
                    | WorkerStatus::Running
                    | WorkerStatus::Suspended
                    | WorkerStatus::Retrying => true,
                    WorkerStatus::Exited | WorkerStatus::Failed | WorkerStatus::Idle => false,
                };
                (should, AccountId { value: m.account_id.value.clone() })
            },
            None => {
                return Err(GolemError::worker_not_found(promise_id.worker_id.duplicate()));
            },
        };
        if should_activate {
            // with the worker resident, an awaiter of the promise is
            // notified of the completion it would otherwise miss
            self.activate_worker(&promise_id.worker_id, &account_id, oplog);
            self.active_workers.notify_promise_completed(&promise_id.worker_id);
        }
        Ok(completed)
    }

    /// Deletes a worker: a live one is interrupted first so it reaches a
    /// quiescent point, then its record and its cache slot are removed.
    pub fn delete_worker_internal(&mut self, worker_id: &WorkerId) -> (r: Result<
        (),
        GolemError,
    >)
        requires
            old(self).wf(),
        ensures
            final (self).wf(),
            !old(self).shard_service.spec_owns_worker(worker_id@.worker_name) ==> (r matches
                Err(e) && e is InvalidShardId),
            old(self).shard_service.spec_owns_worker(worker_id@.worker_name) && !old(
                self,
            ).worker_service.spec_contains(worker_id@) ==> (r matches Err(e) && e
                is InvalidRequest),
            old(self).shard_service.spec_owns_worker(worker_id@.worker_name) && old(
                self,
            ).worker_service.spec_contains(worker_id@) ==> r is Ok,
            r is Ok ==> {
                &&& !final (self).worker_service.spec_contains(worker_id@)
                &&& !final (self).active_workers.spec_contains(worker_id@)
            },
            final (self).shard_service == old(self).shard_service,
            final (self).promise_service == old(self).promise_service,
    {
        match self.validate_worker_id(worker_id) {
            Ok(_) => {},
            Err(e) => {
                return Err(e);
            },
        }
        let should_interrupt = match self.worker_service.get(worker_id) {
            Some(m) => match m.last_known_status {
                WorkerStatus::Running | WorkerStatus::Suspended | WorkerStatus::Retrying => true,
                WorkerStatus::Exited
                | WorkerStatus::Failed
                | WorkerStatus::Idle
                | WorkerStatus::Interrupted => false,
            },
            None => {
                return Err(GolemError::invalid_request("Worker not found"));
            },
        };
        if should_interrupt {
            // force quiescence before dropping the runtime
            self.active_workers.set_interrupting(
                worker_id,
                crate::model::InterruptKind::Interrupt,
            );
        }
        self.worker_service.remove(worker_id);
        self.active_workers.remove(worker_id);
        Ok(())
    }

    /// Interrupts a worker.  A running one gets the one-shot signal —
    /// a restart when immediate recovery is requested, a plain interrupt
    /// otherwise; a suspended or retrying one is marked interrupted in
    /// its record; a worker in any other status is left as it is.
    pub fn interrupt_worker_internal(&mut self, request: InterruptWorkerRequest) -> (r: Result<
        (),
        GolemError,
    >)
        requires
            old(self).wf(),
        ensures
            final (self).wf(),
            request.worker_id is None ==> (r matches Err(e) && e is InvalidRequest) && *final (self) == *old(self),
            request.worker_id matches Some(w) ==> {
                let kind = if request.recover_immediately {
                    crate::model::InterruptKind::Restart
                } else {
                    crate::model::InterruptKind::Interrupt
                };
                &&& (!old(self).worker_service.spec_contains(w@) ==> {
                    // the record is gone: the miss is reported under the
                    // request's own id, the record store is untouched, and
                    // at most a stray resident runtime receives the signal
                    &&& (r matches Err(e) && e matches GolemError::WorkerNotFound {
                        worker_id: missing,
                    } && missing@ == w@)
                    &&& final (self).worker_service == old(self).worker_service
                    &&& (old(self).active_workers.spec_contains(w@) ==> (old(
                        self,
                    ).active_workers.spec_entry_of(w@) matches PendingOrFinal::Final(st) ==> (
                    st.status == WorkerStatus::Running ==> (final (
                    self).active_workers.spec_entry_of(w@) matches PendingOrFinal::Final(
                        after,
                    ) && after.interrupting == Some(kind)))))
                })
                &&& (old(self).worker_service.spec_contains(w@) ==> {
                    let status = old(self).worker_service.spec_record_of(w@).last_known_status;
                    &&& r is Ok
                    &&& ((status == WorkerStatus::Suspended || status == WorkerStatus::Retrying)
                        ==> final (self).worker_service.spec_record_of(w@).last_known_status
                        == WorkerStatus::Interrupted)
                    // a running worker gets the one-shot signal the flag picks
                    &&& (status == WorkerStatus::Running ==> {
                        &&& final (self).worker_service == old(self).worker_service
                        &&& (old(self).active_workers.spec_contains(w@) ==> (old(
                            self,
                        ).active_workers.spec_entry_of(w@) matches PendingOrFinal::Final(st)
                            ==> (st.status == WorkerStatus::Running ==> (final (
                        self).active_workers.spec_entry_of(w@) matches PendingOrFinal::Final(
                            after,
                        ) && after.interrupting == Some(kind)))))
                    })
                    // with nothing executing an interrupt has no target
                    &&& (status == WorkerStatus::Exited || status == WorkerStatus::Idle
                        || status == WorkerStatus::Failed || status
                        == WorkerStatus::Interrupted ==> final (self).worker_service == old(
                        self,
                    ).worker_service && final (self).active_workers == old(
                        self,
                    ).active_workers)
                })
            },
            forall|other: crate::model::WorkerIdView|
                final (self).active_workers.spec_contains(other) <==> old(
                    self,
                ).active_workers.spec_contains(other),
            final (self).shard_service == old(self).shard_service,
            final (self).promise_service == old(self).promise_service,
            final (self).key_value_service == old(self).key_value_service,
            final (self).pending_results == old(self).pending_results,
    {
        let worker_id = match request.worker_id {
            Some(w) => w,
            None => {
                return Err(GolemError::invalid_request("worker_id not found"));
            },
        };
        let kind = if request.recover_immediately {
            crate::model::InterruptKind::Restart
        } else {
            crate::model::InterruptKind::Interrupt
        };
        let (known, status, retry_count) = match self.worker_service.get(&worker_id) {
            Some(m) => (true, m.last_known_status, m.retry_count),
            None => (false, WorkerStatus::Idle, 0u64),
        };
        if !known {
            // the record is gone, but an entry may linger in the active
            // set; interrupt it anyway before reporting the miss
            self.active_workers.set_interrupting(&worker_id, kind);
            return Err(GolemError::worker_not_found(worker_id));
        }
        match status {
            WorkerStatus::Exited | WorkerStatus::Idle | WorkerStatus::Failed
                | WorkerStatus::Interrupted => {
                // nothing is executing; an interrupt has no target
            },
            WorkerStatus::Suspended | WorkerStatus::Retrying => {
                self.worker_service.set_status(
                    &worker_id,
                    WorkerStatus::Interrupted,
                    retry_count,
                );
            },
            WorkerStatus::Running => {
                self.active_workers.set_interrupting(&worker_id, kind);
            },
        }
        Ok(())
    }

    /// Resumes a worker: allowed exactly for a suspended or interrupted
    /// one, which is marked running again (and its resident runtime, if
    /// any, resumes); any other status is a malformed request.
    pub fn resume_worker_internal(&mut self, request: ResumeWorkerRequest) -> (r: Result<
        (),
        GolemError,
    >)
        requires
            old(self).wf(),
        ensures
            final (self).wf(),
            request.worker_id is None ==> (r matches Err(e) && e is InvalidRequest),
            request.worker_id matches Some(w) ==> {
                &&& (!old(self).shard_service.spec_owns_worker(w@.worker_name) ==> (r matches
                    Err(e) && e is InvalidShardId))
                &&& (old(self).shard_service.spec_owns_worker(w@.worker_name) ==> {
                    let known = old(self).worker_service.spec_contains(w@);
                    let status = if known {
                        old(self).worker_service.spec_record_of(w@).last_known_status
                    } else {
                        WorkerStatus::Idle
                    };
                    let trailing = known && old(self).worker_service.spec_record_of(
                        w@,
                    ).retry_count > 0;
                    &&& (status == WorkerStatus::Failed ==> r == Err::<(), GolemError>(
                        GolemError::PreviousInvocationFailed,
                    ))
                    &&& (status == WorkerStatus::Exited ==> r == Err::<(), GolemError>(
                        GolemError::PreviousInvocationExited,
                    ))
                    &&& (status != WorkerStatus::Failed && status != WorkerStatus::Exited
                        && trailing ==> r == Err::<(), GolemError>(
                        GolemError::PreviousInvocationFailed,
                    ))
                    &&& (!trailing && (status == WorkerStatus::Suspended || status
                        == WorkerStatus::Interrupted) ==> r is Ok && final (self).worker_service.spec_record_of(w@).last_known_status
                        == WorkerStatus::Running)
                    &&& (!trailing && status != WorkerStatus::Failed && status
                        != WorkerStatus::Exited && status != WorkerStatus::Suspended && status
                        != WorkerStatus::Interrupted ==> (r matches Err(e) && e
                        is InvalidRequest))
                })
            },
            // a refused resume changes nothing
            r is Err ==> final (self).worker_service == old(self).worker_service && final (self).active_workers == old(self).active_workers,
            final (self).shard_service == old(self).shard_service,
            final (self).promise_service == old(self).promise_service,
            final (self).key_value_service == old(self).key_value_service,
            final (self).pending_results == old(self).pending_results,
    {
        let worker_id = match request.worker_id {
            Some(w) => w,
            None => {
                return Err(GolemError::invalid_request("worker_id not found"));
            },
        };
        match self.validate_worker_id(&worker_id) {
            Ok(_) => {},
            Err(e) => {
                return Err(e);
            },
        }
        let (status, retry_count) = {
            let status_check = match self.worker_service.get(&worker_id) {
                Some(m) => {
                    let rc = m.retry_count;
                    match self.validate_worker_status(&worker_id, Some(m)) {
                        Ok(s) => Ok((s, rc)),
                        Err(e) => Err(e),
                    }
                },
                None => match self.validate_worker_status(&worker_id, None) {
                    Ok(s) => Ok((s, 0u64)),
                    Err(e) => Err(e),
                },
            };
            match status_check {
                Ok(pair) => pair,
                Err(e) => {
                    return Err(e);
                },
            }
        };
        match status {
            WorkerStatus::Suspended | WorkerStatus::Interrupted => {
                self.worker_service.set_status(&worker_id, WorkerStatus::Running, retry_count);
                self.active_workers.resume_cached(&worker_id);
                Ok(())
            },
            _ => Err(GolemError::invalid_request("worker is not suspended or interrupted")),
        }
    }

    /// Persists the oplog-tail pointer of a resident worker: the record
    /// then points at the last journal entry of its runtime, as a store
    /// checkpoint would before the worker leaves memory.  A worker that
    /// is absent, still pending or without a record is left untouched.
    pub fn checkpoint_worker(&mut self, worker_id: &WorkerId)
        requires
            old(self).wf(),
        ensures
            final (self).wf(),
            old(self).active_workers.spec_contains(worker_id@) && old(
                self,
            ).worker_service.spec_contains(worker_id@) ==> (old(
                self,
            ).active_workers.spec_entry_of(worker_id@) matches PendingOrFinal::Final(st)
                ==> final (self).worker_service.spec_record_of(worker_id@).oplog_tail
                == st.ctx.durability.oplog.entries@.len()),
            final (self).active_workers == old(self).active_workers,
            final (self).shard_service == old(self).shard_service,
            final (self).promise_service == old(self).promise_service,
            final (self).key_value_service == old(self).key_value_service,
            final (self).pending_results == old(self).pending_results,
            forall|other: crate::model::WorkerIdView|
                final (self).worker_service.spec_contains(other) <==> old(
                    self,
                ).worker_service.spec_contains(other),
    {
        let tail: Option<u64> = match self.active_workers.index_of(worker_id) {
            Some(i) => match &self.active_workers.workers[i].entry {
                PendingOrFinal::Final(st) => Some(st.ctx.durability.oplog.length() as u64),
                PendingOrFinal::Pending => None,
            },
            None => None,
        };
        if let Some(t) = tail {
            self.worker_service.set_oplog_tail(worker_id, t);
        }
    }

    /// The metadata of a worker, or the miss error when it has none.
    pub fn get_worker_metadata_internal(&self, worker_id: &WorkerId) -> (r: Result<
        WorkerMetadata,
        GolemError,
    >)
        requires
            self.wf(),
        ensures
            r is Ok <==> self.worker_service.spec_contains(worker_id@),
            r matches Ok(m) ==> {
                let rec = self.worker_service.spec_record_of(worker_id@);
                &&& m.worker_id.worker_id@ == worker_id@
                &&& m.worker_id.template_version == rec.worker_id.template_version
                &&& m.args@ == rec.args@
                &&& m.env@ == rec.env@
                &&& m.last_known_status == rec.last_known_status
                &&& m.retry_count == rec.retry_count
            },
            r matches Err(e) ==> e is WorkerNotFound,
    {
        match self.worker_service.get(worker_id) {
            Some(m) => Ok(m.duplicate()),
            None => Err(GolemError::worker_not_found(worker_id.duplicate())),
        }
    }

    /// Takes shards into ownership; following reassignments the node may
    /// serve their workers.
    pub fn assign_shards_internal(&mut self, shard_ids: &Vec<ShardId>)
        requires
            old(self).wf(),
            forall|i: int|
                0 <= i < shard_ids@.len() ==> shard_ids@[i] < old(
                    self,
                ).shard_service.number_of_shards,
        ensures
            final (self).wf(),
            final (self).shard_service.number_of_shards == old(
                self,
            ).shard_service.number_of_shards,
            forall|s: ShardId|
                #![trigger final (self).shard_service.spec_owns(s)]
                final (self).shard_service.spec_owns(s) <==> (old(self).shard_service.spec_owns(
                    s,
                ) || shard_ids@.contains(s)),
            final (self).worker_service == old(self).worker_service,
            final (self).promise_service == old(self).promise_service,
            final (self).active_workers == old(self).active_workers,
    {
        self.shard_service.assign_shards(shard_ids);
    }

    /// Gives shards up.  Every resident worker whose shard left this node
    /// is told to restart, so it can resurrect on the shard's new owner:
    /// afterwards each such worker is either quiescent (not running) or
    /// carries the one-shot restart signal.
    #[verifier::rlimit(60)]
    #[verifier::loop_isolation(false)]
    pub fn revoke_shards_internal(&mut self, shard_ids: &Vec<ShardId>)
        requires
            old(self).wf(),
        ensures
            final (self).wf(),
            final (self).shard_service.number_of_shards == old(
                self,
            ).shard_service.number_of_shards,
            forall|s: ShardId|
                #![trigger final (self).shard_service.spec_owns(s)]
                final (self).shard_service.spec_owns(s) <==> (old(self).shard_service.spec_owns(
                    s,
                ) && !shard_ids@.contains(s)),
            final (self).active_workers.workers@.len() == old(
                self,
            ).active_workers.workers@.len(),
            forall|i: int|
                0 <= i < final (self).active_workers.workers@.len() ==> final (self).active_workers.workers@[i].worker_id@ == old(
                    self,
                ).active_workers.workers@[i].worker_id@,
            forall|i: int|
                #![trigger final (self).active_workers.workers@[i]]
                0 <= i < final (self).active_workers.workers@.len() && !final (self).shard_service.spec_owns_worker(
                    final (self).active_workers.workers@[i].worker_id@.worker_name,
                ) ==> match final (self).active_workers.workers@[i].entry {
                    PendingOrFinal::Final(state) => state.status != WorkerStatus::Running
                        || state.interrupting == Some(crate::model::InterruptKind::Restart),
                    PendingOrFinal::Pending => true,
                },
            final (self).worker_service == old(self).worker_service,
            final (self).promise_service == old(self).promise_service,
    {
        self.shard_service.revoke_shards(shard_ids);
        let mut rebuilt: Vec<ActiveWorkerEntry> = Vec::new();
        let ghost orig = self.active_workers.workers@;
        let ghost svc0 = self.shard_service;
        while self.active_workers.workers.len() > 0
            invariant
                self.shard_service.wf(),
                self.active_workers.wf(),
                self.shard_service == svc0,
                self.worker_service == old(self).worker_service,
                self.promise_service == old(self).promise_service,
                self.key_value_service == old(self).key_value_service,
                self.worker_service.wf(),
                self.promise_service.wf(),
                self.key_value_service.wf(),
                rebuilt@.len() + self.active_workers.workers@.len() == orig.len(),
                self.active_workers.workers@ =~= orig.subrange(
                    rebuilt@.len() as int,
                    orig.len() as int,
                ),
                forall|i: int|
                    0 <= i < rebuilt@.len() ==> #[trigger] rebuilt@[i].worker_id@
                        == orig[i].worker_id@,
                forall|i: int|
                    0 <= i < rebuilt@.len() ==> match #[trigger] rebuilt@[i].entry {
                        PendingOrFinal::Final(state) => state.wf() && state.ctx.worker_id@
                            == rebuilt@[i].worker_id@,
                        PendingOrFinal::Pending => true,
                    },
                forall|i: int|
                    #![trigger rebuilt@[i]]
                    0 <= i < rebuilt@.len() && !self.shard_service.spec_owns_worker(
                        rebuilt@[i].worker_id@.worker_name,
                    ) ==> match rebuilt@[i].entry {
                        PendingOrFinal::Final(state) => state.status != WorkerStatus::Running
                            || state.interrupting == Some(
                            crate::model::InterruptKind::Restart,
                        ),
                        PendingOrFinal::Pending => true,
                    },
            decreases self.active_workers.workers@.len(),
        {
            let e = self.active_workers.workers.remove(0);
            let foreign = match self.shard_service.check_worker(&e.worker_id) {
                Ok(_) => false,
                Err(_) => true,
            };
            let processed = match e.entry {
                PendingOrFinal::Final(mut state) => {
                    if foreign {
                        state.set_interrupting(crate::model::InterruptKind::Restart);
                    }
                    ActiveWorkerEntry {
                        worker_id: e.worker_id,
                        entry: PendingOrFinal::Final(state),
                    }
                },
                PendingOrFinal::Pending => ActiveWorkerEntry {
                    worker_id: e.worker_id,
                    entry: PendingOrFinal::Pending,
                },
            };
            rebuilt.push(processed);
            proof {
                assert(self.active_workers.workers@ =~= orig.subrange(
                    rebuilt@.len() as int,
                    orig.len() as int,
                ));
            }
        }
        self.active_workers.workers = rebuilt;
        proof {
            assert(self.active_workers.workers@.len() == orig.len());
            assert forall|i: int, j: int|
                0 <= i < j < self.active_workers.workers@.len() implies
                self.active_workers.workers@[i].worker_id@
                != self.active_workers.workers@[j].worker_id@ by {
                assert(orig[i].worker_id@ != orig[j].worker_id@);
            }
        }
    }

    /// The decision half of attaching to a worker's log-event stream:
    /// after the shard and status guards, connecting to an interrupted
    /// worker is refused — attaching must not resume it — and otherwise
    /// the worker's slot is materialized (pending entries are shared by
    /// racing callers) so the stream has a source.
    pub fn connect_worker(&mut self, request: ConnectWorkerRequest) -> (r: Result<
        (),
        GolemError,
    >)
        requires
            old(self).wf(),
        ensures
            final (self).wf(),
            request.worker_id is None ==> (r matches Err(e) && e is InvalidRequest),
            request.worker_id is Some && request.account_id is None ==> (r matches Err(e) && e
                is InvalidRequest),
            request.worker_id matches Some(w) ==> {
                &&& (request.account_id is Some && !old(self).shard_service.spec_owns_worker(
                    w@.worker_name,
                ) ==> (r matches Err(e) && e is InvalidShardId))
                &&& (request.account_id is Some && old(self).shard_service.spec_owns_worker(
                    w@.worker_name,
                ) && old(self).worker_service.spec_contains(w@) && old(
                    self,
                ).worker_service.spec_record_of(w@).last_known_status
                    == WorkerStatus::Interrupted && old(self).worker_service.spec_record_of(
                    w@,
                ).retry_count == 0 ==> r == Err::<(), GolemError>(
                    GolemError::Interrupted { kind: crate::model::InterruptKind::Interrupt },
                ))
                &&& (r is Ok ==> final (self).active_workers.spec_contains(w@))
                &&& (request.account_id is Some && old(self).shard_service.spec_owns_worker(
                    w@.worker_name,
                ) && Self::spec_status_guard_passes(old(self).spec_record_option(w@))
                    && Self::spec_assumed_status(old(self).spec_record_option(w@))
                    != WorkerStatus::Interrupted ==> r is Ok)
            },
            final (self).shard_service == old(self).shard_service,
            final (self).worker_service == old(self).worker_service,
            final (self).promise_service == old(self).promise_service,
    {
        let worker_id = match request.worker_id {
            Some(w) => w,
            None => {
                return Err(GolemError::invalid_request("missing worker_id"));
            },
        };
        let account_id = match request.account_id {
            Some(a) => a,
            None => {
                return Err(GolemError::invalid_request("missing account_id"));
            },
        };
        match self.validate_worker_id(&worker_id) {
            Ok(_) => {},
            Err(e) => {
                return Err(e);
            },
        }
        let status_check = match self.worker_service.get(&worker_id) {
            Some(m) => self.validate_worker_status(&worker_id, Some(m)),
            None => self.validate_worker_status(&worker_id, None),
        };
        let status = match status_check {
            Ok(s) => s,
            Err(e) => {
                return Err(e);
            },
        };
        if status == WorkerStatus::Interrupted {
            // attaching to the log stream must not resume an interrupted
            // worker
            return Err(
                GolemError::Interrupted { kind: crate::model::InterruptKind::Interrupt },
            );
        }
        self.active_workers.get_or_create_pending(&worker_id);
        Ok(())
    }
}

} // verus!
