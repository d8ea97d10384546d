//! Identifiers, statuses and error values of the engine.
//!
//! A worker is addressed by a [`WorkerId`]: the template (compiled module)
//! it was instantiated from plus a worker name.  Template identifiers are
//! 128-bit values held as two 64-bit halves.  A promise is addressed by the
//! worker that created it and the oplog index at which it was created.

use vstd::prelude::*;

verus! {

/// A shard identifier; the worker-id space is partitioned into
/// `number_of_shards` shards numbered from zero.
pub type ShardId = u64;

/// Identifies a template: the immutable, versioned compiled module
/// definition workers are instantiated from.  The 128-bit identifier is
/// held as its two 64-bit halves.
#[derive(Clone, Copy, PartialEq, Eq, Structural, Debug)]
pub struct TemplateId {
    pub high_bits: u64,
    pub low_bits: u64,
}

/// Identifies a worker: a stable, durable computation unit.
#[derive(Clone, Debug)]
pub struct WorkerId {
    pub template_id: TemplateId,
    pub worker_name: String,
}

/// Mathematical value of a [`WorkerId`].
pub struct WorkerIdView {
    pub template_id: TemplateId,
    pub worker_name: Seq<char>,
}

impl View for WorkerId {
    type V = WorkerIdView;

    open spec fn view(&self) -> WorkerIdView {
        WorkerIdView { template_id: self.template_id, worker_name: self.worker_name@ }
    }
}

impl WorkerId {
    /// An exact copy; unlike the derived `Clone`, its contract says so.
    pub fn duplicate(&self) -> (r: WorkerId)
        ensures
            r == *self,
    {
        WorkerId { template_id: self.template_id, worker_name: self.worker_name.clone() }
    }
}

impl PartialEq for WorkerId {
    fn eq(&self, other: &WorkerId) -> bool {
        self.template_id == other.template_id && self.worker_name == other.worker_name
    }
}

impl Eq for WorkerId {}

impl vstd::std_specs::cmp::PartialEqSpecImpl for WorkerId {
    open spec fn obeys_eq_spec() -> bool {
        true
    }

    open spec fn eq_spec(&self, other: &WorkerId) -> bool {
        self@ == other@
    }
}

/// A worker identity together with the template version it runs.
#[derive(Clone, Debug)]
pub struct VersionedWorkerId {
    pub worker_id: WorkerId,
    pub template_version: i32,
}

/// Identifies a promise: the worker that created it and the oplog index at
/// which the creation was recorded.
#[derive(Clone, Debug)]
pub struct PromiseId {
    pub worker_id: WorkerId,
    pub oplog_idx: i64,
}

/// Mathematical value of a [`PromiseId`].
pub struct PromiseIdView {
    pub worker_id: WorkerIdView,
    pub oplog_idx: i64,
}

impl View for PromiseId {
    type V = PromiseIdView;

    open spec fn view(&self) -> PromiseIdView {
        PromiseIdView { worker_id: self.worker_id@, oplog_idx: self.oplog_idx }
    }
}

impl PromiseId {
    /// An exact copy; unlike the derived `Clone`, its contract says so.
    pub fn duplicate(&self) -> (r: PromiseId)
        ensures
            r == *self,
    {
        PromiseId { worker_id: self.worker_id.duplicate(), oplog_idx: self.oplog_idx }
    }
}

impl PartialEq for PromiseId {
    fn eq(&self, other: &PromiseId) -> bool {
        self.worker_id == other.worker_id && self.oplog_idx == other.oplog_idx
    }
}

impl Eq for PromiseId {}

impl vstd::std_specs::cmp::PartialEqSpecImpl for PromiseId {
    open spec fn obeys_eq_spec() -> bool {
        true
    }

    open spec fn eq_spec(&self, other: &PromiseId) -> bool {
        self@ == other@
    }
}

/// The account a worker belongs to.
#[derive(Clone, Debug)]
pub struct AccountId {
    pub value: String,
}

/// Opaque token binding an `invoke_and_await` call to its eventual result.
#[derive(Clone, Debug)]
pub struct InvocationKey {
    pub value: String,
}

/// The lifecycle state of a worker.
#[derive(Clone, Copy, PartialEq, Eq, Structural, Debug)]
pub enum WorkerStatus {
    /// Executing an invocation.
    Running,
    /// Instantiated, invocation queue empty.
    Idle,
    /// Awaiting a pending promise.
    Suspended,
    /// Externally paused.
    Interrupted,
    /// Waiting between retry attempts after a recoverable error.
    Retrying,
    /// Retries exhausted or replay diverged; terminal.
    Failed,
    /// Cooperative termination; terminal.
    Exited,
}

/// The ways a running worker can be asked to stop at its next host-call
/// boundary.  The module is never preempted mid-instruction; one of these
/// is returned up the host-call stack instead.
#[derive(Clone, Copy, PartialEq, Eq, Structural, Debug)]
pub enum InterruptKind {
    /// External pause request; the worker becomes `Interrupted`.
    Interrupt,
    /// Stop and immediately reload from the oplog; used on shard
    /// reassignment.
    Restart,
    /// The worker awaits a pending promise; it becomes `Suspended`.
    Suspend,
}

/// The wire-level shape of an invocation's arguments and results.
#[derive(Clone, Copy, PartialEq, Eq, Structural, Debug)]
pub enum CallingConvention {
    /// Typed values validated against the function's declared signature.
    Component,
    /// A single JSON line on stdin; the first JSON line of stdout is the
    /// result.
    Stdio,
    /// As `Stdio`, but the worker persists across calls.
    StdioEventloop,
}

/// Classifies a wrapped host function for durability purposes: local reads
/// are recomputed on replay, everything else is persisted.
#[derive(Clone, Copy, PartialEq, Eq, Structural, Debug)]
pub enum WrappedFunctionType {
    /// Process-local read (a monotonic clock); recomputed on replay.
    ReadLocal,
    /// Local decision that must be stable across replays (wall clock,
    /// random bytes, promise creation).
    WriteLocal,
    /// Read of an external mutable source; persisted.
    ReadRemote,
    /// External side effect; the oplog is committed before the effect is
    /// considered done.
    WriteRemote,
}

impl WrappedFunctionType {
    /// Whether a live result of this kind is appended to the oplog.
    pub open spec fn spec_is_persisted(self) -> bool {
        self != WrappedFunctionType::ReadLocal
    }

    /// Exec twin of [`Self::spec_is_persisted`].
    pub fn is_persisted(self) -> (r: bool)
        ensures
            r == self.spec_is_persisted(),
    {
        self != WrappedFunctionType::ReadLocal
    }
}

/// A typed invocation argument or result value.
#[derive(Clone, Debug)]
pub enum Val {
    Bool(bool),
    I32(i32),
    I64(i64),
    Text(String),
    Blob(Vec<u8>),
}

/// The error envelope every public operation may return.
#[derive(Clone, Debug)]
pub enum GolemError {
    /// Malformed request or missing required field; never retried.
    InvalidRequest { details: String },
    /// No metadata exists for the worker.
    WorkerNotFound { worker_id: WorkerId },
    /// The worker is `Failed` (or has trailing errors) and rejects new
    /// invocations.
    PreviousInvocationFailed,
    /// The worker has `Exited` and rejects new invocations.
    PreviousInvocationExited,
    /// The request reached a node that does not own the worker's shard;
    /// retriable by the caller after a routing refresh.
    InvalidShardId { shard_id: ShardId, shard_ids: Vec<ShardId> },
    /// Transport or backing-store failure.
    RuntimeError { details: String },
    /// Invocation arguments did not match the function's signature.
    ValueMismatch { details: String },
    /// The operation was cut short by an interrupt.
    Interrupted { kind: InterruptKind },
    Unknown { details: String },
}

impl GolemError {
    /// Convenience constructor mirroring how malformed requests are
    /// rejected throughout the engine.
    pub fn invalid_request(details: &str) -> (r: GolemError)
        ensures
            r matches GolemError::InvalidRequest { details: d } && d@ == details@,
    {
        GolemError::InvalidRequest { details: details.to_owned() }
    }

    /// Convenience constructor for the missing-worker error.
    pub fn worker_not_found(worker_id: WorkerId) -> (r: GolemError)
        ensures
            r matches GolemError::WorkerNotFound { worker_id: w } && w@ == worker_id@,
    {
        GolemError::WorkerNotFound { worker_id }
    }
}

/// Everything persisted about a worker besides its oplog: identity,
/// creation arguments and environment, owning account, last-known status,
/// the retry count since the last success, and the index of the last oplog
/// entry.
#[derive(Clone, Debug)]
pub struct WorkerMetadata {
    pub worker_id: VersionedWorkerId,
    pub args: Vec<String>,
    pub env: Vec<(String, String)>,
    pub account_id: AccountId,
    pub last_known_status: WorkerStatus,
    pub retry_count: u64,
    pub oplog_tail: u64,
}

} // verus!
