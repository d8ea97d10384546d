//! The routing client that sits in front of the cluster: error
//! classification, the retry rule on shard reassignment, and the
//! interpretation of the wire-level response envelope.
//!
//! A request that reaches the wrong shard owner, or a node that became
//! unreachable, is not an error for the caller: the routing table is
//! invalidated and the request retried.  Everything else is surfaced.

use vstd::prelude::*;

use crate::model::{AccountId, GolemError, InvocationKey, TemplateId, Val, WorkerId};

verus! {

/// A cut-down model of a transport status code: the one code the retry
/// rule distinguishes, and everything else.
#[derive(Clone, Copy, PartialEq, Eq, Structural, Debug)]
pub enum StatusCode {
    Unavailable,
    NotFound,
    Other,
}

/// A failure of a call into the cluster.
#[derive(Debug)]
pub enum GrpcError {
    /// The connection itself failed.
    Transport { details: String },
    /// The remote answered with a non-success status.
    Status { code: StatusCode, message: String },
    /// The remote answered with a domain error.
    Domain { error: GolemError },
    Unexpected { details: String },
}

/// Whether a failed call may be retried as-is: transport failures and an
/// unavailable remote are transient; domain and unexpected errors are
/// not.
pub fn is_grpc_retriable(error: &GrpcError) -> (r: bool)
    ensures
        r == match error {
            GrpcError::Transport { .. } => true,
            GrpcError::Status { code, .. } => code == StatusCode::Unavailable,
            GrpcError::Domain { .. } => false,
            GrpcError::Unexpected { .. } => false,
        },
{
    match error {
        GrpcError::Transport { .. } => true,
        GrpcError::Status { code, .. } => *code == StatusCode::Unavailable,
        GrpcError::Domain { .. } => false,
        GrpcError::Unexpected { .. } => false,
    }
}

/// Whether `needle` occurs in `haystack` as a contiguous run.
pub open spec fn spec_contains_seq(haystack: Seq<char>, needle: Seq<char>) -> bool {
    exists|i: int|
        0 <= i <= haystack.len() - needle.len() && #[trigger] haystack.subrange(
            i,
            i + needle.len(),
        ) == needle
}

/// Substring search; reports exactly whether `needle` occurs in
/// `haystack`.
pub fn str_contains(haystack: &str, needle: &str) -> (r: bool)
    ensures
        r == spec_contains_seq(haystack@, needle@),
{
    let hlen = haystack.unicode_len();
    let nlen = needle.unicode_len();
    if nlen > hlen {
        proof {
            assert(!spec_contains_seq(haystack@, needle@));
        }
        return false;
    }
    if nlen == 0 {
        proof {
            assert(haystack@.subrange(0, 0 + needle@.len() as int) =~= needle@);
            assert(haystack@.subrange(0, 0 + needle@.len() as int) == needle@);
            assert(spec_contains_seq(haystack@, needle@));
        }
        return true;
    }
    let mut i: usize = 0;
    while i <= hlen - nlen
        invariant
            haystack@.len() == hlen,
            needle@.len() == nlen,
            1 <= nlen <= hlen,
            i <= hlen - nlen + 1,
            forall|k: int|
                0 <= k < i ==> #[trigger] haystack@.subrange(k, k + needle@.len()) != needle@,
        decreases hlen - nlen + 1 - i,
    {
        let mut j: usize = 0;
        let mut matches_here = true;
        while j < nlen
            invariant
                haystack@.len() == hlen,
                needle@.len() == nlen,
                nlen <= hlen,
                i <= hlen - nlen,
                j <= nlen,
                matches_here ==> forall|k: int|
                    0 <= k < j ==> haystack@[i + k] == #[trigger] needle@[k],
                !matches_here ==> haystack@.subrange(i as int, i + needle@.len()) != needle@,
            decreases nlen - j,
        {
            if haystack.get_char(i + j) != needle.get_char(j) {
                proof {
                    assert(haystack@.subrange(i as int, i + needle@.len())[j as int]
                        != needle@[j as int]);
                }
                matches_here = false;
                j = nlen;
            } else {
                j = j + 1;
            }
        }
        if matches_here {
            proof {
                assert(haystack@.subrange(i as int, i + needle@.len()) =~= needle@);
            }
            return true;
        }
        i = i + 1;
    }
    proof {
        assert(!spec_contains_seq(haystack@, needle@)) by {
            if spec_contains_seq(haystack@, needle@) {
                let w = choose|w: int|
                    0 <= w <= haystack@.len() - needle@.len() && #[trigger] haystack@.subrange(
                        w,
                        w + needle@.len(),
                    ) == needle@;
                assert(w < i);
            }
        }
    }
    false
}

/// Whether an error message signals a transport-level failure the
/// routing client reacts to by refreshing its routing table.
pub open spec fn spec_is_transport_failure_message(details: Seq<char>) -> bool {
    ||| spec_contains_seq(details, "UNAVAILABLE"@)
    ||| spec_contains_seq(details, "CHANNEL CLOSED"@)
    ||| spec_contains_seq(details, "transport error"@)
}

/// Exec twin of [`spec_is_transport_failure_message`].
pub fn is_transport_failure_message(details: &String) -> (r: bool)
    ensures
        r == spec_is_transport_failure_message(details@),
{
    str_contains(details.as_str(), "UNAVAILABLE") || str_contains(
        details.as_str(),
        "CHANNEL CLOSED",
    ) || str_contains(details.as_str(), "transport error")
}

/// A template identity with a version, as the gateway reports it in
/// errors.
#[derive(Debug)]
pub struct VersionedTemplateId {
    pub template_id: TemplateId,
    pub version: i32,
}

/// The gateway's error envelope.
#[derive(Debug)]
pub enum WorkerError {
    Internal { details: String },
    TypeCheckerError { details: String },
    DelegatedTemplateServiceError { details: String },
    VersionedTemplateIdNotFound { template_id: VersionedTemplateId },
    TemplateNotFound { template_id: TemplateId },
    AccountIdNotFound { account_id: AccountId },
    WorkerNotFound { worker_id: WorkerId },
    Golem { error: GolemError },
}

impl WorkerError {
    /// A readable description; the counterpart of rendering the error
    /// for display.
    pub fn message(&self) -> (r: String)
        ensures
            self matches WorkerError::Internal { details } ==> r@ == "Internal error: "@
                + details@,
            self matches WorkerError::TypeCheckerError { details } ==> r@
                == "Type checker error: "@ + details@,
            self matches WorkerError::DelegatedTemplateServiceError { details } ==> r@
                == "Delegated template service error: "@ + details@,
    {
        match self {
            WorkerError::Internal { details } => {
                let mut s = String::new();
                s.append("Internal error: ");
                s.append(details.as_str());
                proof {
                    assert(s@ =~= "Internal error: "@ + details@);
                }
                s
            },
            WorkerError::TypeCheckerError { details } => {
                let mut s = String::new();
                s.append("Type checker error: ");
                s.append(details.as_str());
                proof {
                    assert(s@ =~= "Type checker error: "@ + details@);
                }
                s
            },
            WorkerError::DelegatedTemplateServiceError { details } => {
                let mut s = String::new();
                s.append("Delegated template service error: ");
                s.append(details.as_str());
                proof {
                    assert(s@ =~= "Delegated template service error: "@ + details@);
                }
                s
            },
            WorkerError::VersionedTemplateIdNotFound { .. } => {
                "Versioned template id not found".to_owned()
            },
            WorkerError::TemplateNotFound { .. } => "Template not found".to_owned(),
            WorkerError::AccountIdNotFound { .. } => "Account id not found".to_owned(),
            WorkerError::WorkerNotFound { .. } => "Worker not found".to_owned(),
            WorkerError::Golem { .. } => "Golem error".to_owned(),
        }
    }
}

/// What one attempt of a routed call came to.
#[derive(Debug)]
pub enum AttemptOutcome {
    /// The routing table maps the worker to no pod.
    NoActiveShards,
    /// The executor client for the pod could not be obtained.
    LookupError { details: String },
    /// The call reached a node and failed there.
    CallFailed { error: GolemError },
    /// The call reached a node and succeeded.
    CallSucceeded,
}

/// What the retry combinator does next.
#[derive(Debug)]
pub enum RetryAction {
    /// Invalidate the routing table, back off, and try again.
    InvalidateAndRetry,
    /// Give the caller this error; it is not retriable.
    ReturnError { error: WorkerError },
    /// Hand the successful result through.
    Return,
}

/// The retry rule on shard reassignment: a request that reached the
/// wrong shard owner, a node that became unreachable, an unreachable
/// shard manager, or an empty routing table is retried after a routing
/// refresh; every other failure is surfaced unchanged, and a success is
/// handed through.
pub fn retry_on_invalid_shard_id_decision(outcome: AttemptOutcome) -> (r: RetryAction)
    ensures
        outcome is CallSucceeded ==> r is Return,
        outcome is NoActiveShards ==> r is InvalidateAndRetry,
        outcome matches AttemptOutcome::CallFailed { error } ==> match error {
            GolemError::InvalidShardId { .. } => r is InvalidateAndRetry,
            GolemError::RuntimeError { details } => if spec_is_transport_failure_message(
                details@,
            ) {
                r is InvalidateAndRetry
            } else {
                r matches RetryAction::ReturnError { error: e } && (e matches
                    WorkerError::Golem { error: g } && g == error)
            },
            _ => r matches RetryAction::ReturnError { error: e } && (e matches
                WorkerError::Golem { error: g } && g == error),
        },
        outcome matches AttemptOutcome::LookupError { details } ==> if spec_contains_seq(
            details@,
            "transport error"@,
        ) {
            r is InvalidateAndRetry
        } else {
            r matches RetryAction::ReturnError { error: e } && (e matches
                WorkerError::Internal { details: d } && d@ == details@)
        },
{
    match outcome {
        AttemptOutcome::CallSucceeded => RetryAction::Return,
        AttemptOutcome::NoActiveShards => RetryAction::InvalidateAndRetry,
        AttemptOutcome::CallFailed { error } => match &error {
            GolemError::InvalidShardId { .. } => RetryAction::InvalidateAndRetry,
            GolemError::RuntimeError { details } => {
                if is_transport_failure_message(details) {
                    RetryAction::InvalidateAndRetry
                } else {
                    RetryAction::ReturnError { error: WorkerError::Golem { error } }
                }
            },
            _ => RetryAction::ReturnError { error: WorkerError::Golem { error } },
        },
        AttemptOutcome::LookupError { details } => {
            if str_contains(details.as_str(), "transport error") {
                RetryAction::InvalidateAndRetry
            } else {
                RetryAction::ReturnError { error: WorkerError::Internal { details } }
            }
        },
    }
}

/// The wire-level response envelope of every cluster operation.
pub enum ResponseEnvelope<T> {
    Success(T),
    Failure(GolemError),
    /// The remote answered without a result at all.
    Empty,
}

/// Builds the response envelope every public operation answers with: the
/// outcome of the internal operation becomes a success or a failure.
pub fn envelope_of<T>(outcome: Result<T, GolemError>) -> (r: ResponseEnvelope<T>)
    ensures
        outcome matches Ok(v) ==> (r matches ResponseEnvelope::Success(out) && out == v),
        outcome matches Err(e) ==> (r matches ResponseEnvelope::Failure(out) && out == e),
{
    match outcome {
        Ok(v) => ResponseEnvelope::Success(v),
        Err(e) => ResponseEnvelope::Failure(e),
    }
}

/// Interprets a response envelope: a success is handed through, a
/// failure is surfaced, and an empty response is an unknown error.
pub fn interpret_response<T>(response: ResponseEnvelope<T>) -> (r: Result<T, GolemError>)
    ensures
        response matches ResponseEnvelope::Success(v) ==> r matches Ok(out) && out == v,
        response matches ResponseEnvelope::Failure(e) ==> r matches Err(out) && out == e,
        response is Empty ==> (r matches Err(e) && e matches GolemError::Unknown { details }
            && details@ == "Empty response"@),
{
    match response {
        ResponseEnvelope::Success(v) => Ok(v),
        ResponseEnvelope::Failure(e) => Err(e),
        ResponseEnvelope::Empty => Err(
            GolemError::Unknown { details: "Empty response".to_owned() },
        ),
    }
}

/// What the gateway does to find the template of a worker: a worker with
/// known metadata pins the version it runs; a worker the cluster does
/// not know falls back to the template's latest version; any other
/// failure is surfaced.
#[derive(Debug)]
pub enum TemplateFetchPlan {
    ByVersion { template_id: TemplateId, version: i32 },
    Latest { template_id: TemplateId },
    Fail { error: WorkerError },
}

/// Decides how to fetch the template backing `worker_id` from the
/// metadata lookup's outcome.
pub fn try_get_template_for_worker_decision(
    worker_id: &WorkerId,
    metadata_result: Result<i32, WorkerError>,
) -> (r: TemplateFetchPlan)
    ensures
        metadata_result matches Ok(version) ==> r matches TemplateFetchPlan::ByVersion {
            template_id,
            version: v,
        } && template_id == worker_id.template_id && v == version,
        metadata_result matches Err(e) ==> match e {
            WorkerError::WorkerNotFound { .. } => r matches TemplateFetchPlan::Latest {
                template_id,
            } && template_id == worker_id.template_id,
            WorkerError::Golem { error } => if error is WorkerNotFound {
                r matches TemplateFetchPlan::Latest { template_id } && template_id
                    == worker_id.template_id
            } else {
                r matches TemplateFetchPlan::Fail { error: out } && (out matches
                    WorkerError::Golem { error: g } && g == error)
            },
            _ => r is Fail,
        },
{
    match metadata_result {
        Ok(version) => TemplateFetchPlan::ByVersion {
            template_id: worker_id.template_id,
            version,
        },
        Err(e) => match e {
            WorkerError::WorkerNotFound { .. } => TemplateFetchPlan::Latest {
                template_id: worker_id.template_id,
            },
            WorkerError::Golem { error } => match &error {
                GolemError::WorkerNotFound { .. } => TemplateFetchPlan::Latest {
                    template_id: worker_id.template_id,
                },
                _ => TemplateFetchPlan::Fail { error: WorkerError::Golem { error } },
            },
            other => TemplateFetchPlan::Fail { error: other },
        },
    }
}

/// Interprets the transport status of a log-stream attachment: a
/// not-found status means the worker does not exist on the node; any
/// other failure is internal.
pub fn connect_failure_decision(worker_id: &WorkerId, code: StatusCode, message: String) -> (r:
    WorkerError)
    ensures
        code == StatusCode::NotFound ==> (r matches WorkerError::WorkerNotFound { worker_id: w }
            && w@ == worker_id@),
        code != StatusCode::NotFound ==> (r matches WorkerError::Internal { details } && details@
            == message@),
{
    if code == StatusCode::NotFound {
        WorkerError::WorkerNotFound { worker_id: worker_id.duplicate() }
    } else {
        WorkerError::Internal { details: message }
    }
}

/// A worker identity with the template version that served it.
#[derive(Debug)]
pub struct VersionedWorkerId {
    pub worker_id: WorkerId,
    pub template_version_used: i32,
}

/// The gateway's no-op backend: it accepts every operation and serves
/// constant answers; connecting to a log stream is not supported.
pub struct WorkerServiceNoOp {
}

impl WorkerServiceNoOp {
    pub fn get_by_id(&self, worker_id: &WorkerId) -> (r: VersionedWorkerId)
        ensures
            r.worker_id@ == worker_id@,
            r.template_version_used == 0,
    {
        VersionedWorkerId { worker_id: worker_id.duplicate(), template_version_used: 0 }
    }

    pub fn create(&self, worker_id: &WorkerId) -> (r: VersionedWorkerId)
        ensures
            r.worker_id@ == worker_id@,
            r.template_version_used == 0,
    {
        VersionedWorkerId { worker_id: worker_id.duplicate(), template_version_used: 0 }
    }

    pub fn connect(&self, _worker_id: &WorkerId) -> (r: Result<(), WorkerError>)
        ensures
            r matches Err(e) && e matches WorkerError::Internal { details } && details@
                == "Not supported"@,
    {
        Err(WorkerError::Internal { details: "Not supported".to_owned() })
    }

    pub fn delete(&self, _worker_id: &WorkerId) -> (r: Result<(), WorkerError>)
        ensures
            r is Ok,
    {
        Ok(())
    }

    pub fn get_invocation_key(&self, _worker_id: &WorkerId) -> (r: Result<
        InvocationKey,
        WorkerError,
    >)
        ensures
            r matches Ok(k) && k.value@.len() == 0,
    {
        Ok(InvocationKey { value: String::new() })
    }

    pub fn invoke_and_await_function(&self, _worker_id: &WorkerId) -> (r: Result<
        Vec<Val>,
        WorkerError,
    >)
        ensures
            r matches Ok(v) && v@.len() == 0,
    {
        Ok(Vec::new())
    }

    pub fn invoke_function(&self, _worker_id: &WorkerId) -> (r: Result<(), WorkerError>)
        ensures
            r is Ok,
    {
        Ok(())
    }

    pub fn complete_promise(&self, _worker_id: &WorkerId) -> (r: Result<bool, WorkerError>)
        ensures
            r == Ok::<bool, WorkerError>(true),
    {
        Ok(true)
    }

    pub fn interrupt(&self, _worker_id: &WorkerId) -> (r: Result<(), WorkerError>)
        ensures
            r is Ok,
    {
        Ok(())
    }

    pub fn resume(&self, _worker_id: &WorkerId) -> (r: Result<(), WorkerError>)
        ensures
            r is Ok,
    {
        Ok(())
    }
}

} // verus!
