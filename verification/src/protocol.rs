//! Request and response records of the client-to-leader stream, together
//! with their mathematical views.
//!
//! A request carries a per-client monotonic `request_id` and a tagged
//! payload; a response echoes the `request_id` and carries a result whose
//! variant must parallel the request's payload tag.  The inner values of
//! the payloads (SQL text with its parameters, rows, cache entries) are
//! carried as opaque byte strings: this core frames and routes them, it
//! never looks inside.

use vstd::prelude::*;

verus! {

/// Identifier of a Raft node.
pub type NodeId = u64;

/// Per-client, monotonically assigned correlation integer.
pub type RequestId = u64;

/// Error taxonomy of the stream core.
///
/// `NotLeader`, `LeaderChange` and `ForwardFailed` are the leader errors:
/// the retry shim reacts to exactly these.  Every variant carries an
/// opaque diagnostic message.
#[derive(Debug, Clone, PartialEq, Eq)]
pub enum ApiError {
    /// Frame read/write failure, unexpected opcode, decode failure.
    Transport(Vec<u8>),
    /// The addressed node is not the leader.
    NotLeader(Vec<u8>),
    /// Leadership moved while the request was pending.
    LeaderChange(Vec<u8>),
    /// Forwarding to the leader failed.
    ForwardFailed(Vec<u8>),
    /// Raft-level failure: replication timeout, learner rejection,
    /// higher-term preemption.
    Raft(Vec<u8>),
    /// Backend failure: SQL execution error, migration conflict,
    /// cache key fault.
    Backend(Vec<u8>),
}

/// Spec-level mirror of [`ApiError`].
pub enum ApiErrorV {
    Transport(Seq<u8>),
    NotLeader(Seq<u8>),
    LeaderChange(Seq<u8>),
    ForwardFailed(Seq<u8>),
    Raft(Seq<u8>),
    Backend(Seq<u8>),
}

impl View for ApiError {
    type V = ApiErrorV;

    open spec fn view(&self) -> ApiErrorV {
        match self {
            ApiError::Transport(m) => ApiErrorV::Transport(m@),
            ApiError::NotLeader(m) => ApiErrorV::NotLeader(m@),
            ApiError::LeaderChange(m) => ApiErrorV::LeaderChange(m@),
            ApiError::ForwardFailed(m) => ApiErrorV::ForwardFailed(m@),
            ApiError::Raft(m) => ApiErrorV::Raft(m@),
            ApiError::Backend(m) => ApiErrorV::Backend(m@),
        }
    }
}

/// Resolution of a lock await.
#[derive(Debug, Clone, Copy, PartialEq, Eq, Structural)]
pub enum LockState {
    /// The lock was granted.
    Locked,
    /// The await was queued behind another holder.
    Queued,
    /// The lock was released.
    Released,
}

/// Payload of a stream request.  The byte strings are serialized inner
/// values (queries, migrations, cache requests) that this core treats as
/// opaque.
#[derive(Debug, Clone, PartialEq, Eq)]
pub enum RequestPayload {
    Execute(Vec<u8>),
    ExecuteReturning(Vec<u8>),
    Transaction(Vec<u8>),
    QueryConsistent(Vec<u8>),
    Batch(Vec<u8>),
    Migrate(Vec<u8>),
    Backup(NodeId),
    Kv(Vec<u8>),
    Query(Vec<u8>),
    KvGet(Vec<u8>),
    LockAwait(Vec<u8>),
}

/// Spec-level mirror of [`RequestPayload`].
pub enum RequestPayloadV {
    Execute(Seq<u8>),
    ExecuteReturning(Seq<u8>),
    Transaction(Seq<u8>),
    QueryConsistent(Seq<u8>),
    Batch(Seq<u8>),
    Migrate(Seq<u8>),
    Backup(NodeId),
    Kv(Seq<u8>),
    Query(Seq<u8>),
    KvGet(Seq<u8>),
    LockAwait(Seq<u8>),
}

impl View for RequestPayload {
    type V = RequestPayloadV;

    open spec fn view(&self) -> RequestPayloadV {
        match self {
            RequestPayload::Execute(b) => RequestPayloadV::Execute(b@),
            RequestPayload::ExecuteReturning(b) => RequestPayloadV::ExecuteReturning(b@),
            RequestPayload::Transaction(b) => RequestPayloadV::Transaction(b@),
            RequestPayload::QueryConsistent(b) => RequestPayloadV::QueryConsistent(b@),
            RequestPayload::Batch(b) => RequestPayloadV::Batch(b@),
            RequestPayload::Migrate(b) => RequestPayloadV::Migrate(b@),
            RequestPayload::Backup(n) => RequestPayloadV::Backup(*n),
            RequestPayload::Kv(b) => RequestPayloadV::Kv(b@),
            RequestPayload::Query(b) => RequestPayloadV::Query(b@),
            RequestPayload::KvGet(b) => RequestPayloadV::KvGet(b@),
            RequestPayload::LockAwait(b) => RequestPayloadV::LockAwait(b@),
        }
    }
}

/// One request record as framed on the wire.
#[derive(Debug, Clone, PartialEq, Eq)]
pub struct StreamRequest {
    pub request_id: RequestId,
    pub payload: RequestPayload,
}

/// Spec-level mirror of [`StreamRequest`].
pub struct StreamRequestV {
    pub request_id: RequestId,
    pub payload: RequestPayloadV,
}

impl View for StreamRequest {
    type V = StreamRequestV;

    open spec fn view(&self) -> StreamRequestV {
        StreamRequestV { request_id: self.request_id, payload: self.payload@ }
    }
}

/// Result carried by a stream response; the variant parallels the
/// request's payload tag.  `Execute` carries the number of affected rows;
/// the other successful byte strings are serialized rows or cache values.
#[derive(Debug, PartialEq, Eq)]
pub enum ResponsePayload {
    Execute(Result<u64, ApiError>),
    ExecuteReturning(Result<Vec<u8>, ApiError>),
    Transaction(Result<Vec<u8>, ApiError>),
    Query(Result<Vec<u8>, ApiError>),
    QueryConsistent(Result<Vec<u8>, ApiError>),
    Batch(Result<Vec<u8>, ApiError>),
    Migrate(Result<(), ApiError>),
    Backup(Result<(), ApiError>),
    Kv(Result<Vec<u8>, ApiError>),
    Lock(LockState),
}

/// Spec-level mirror of [`ResponsePayload`].
pub enum ResponsePayloadV {
    Execute(Result<u64, ApiErrorV>),
    ExecuteReturning(Result<Seq<u8>, ApiErrorV>),
    Transaction(Result<Seq<u8>, ApiErrorV>),
    Query(Result<Seq<u8>, ApiErrorV>),
    QueryConsistent(Result<Seq<u8>, ApiErrorV>),
    Batch(Result<Seq<u8>, ApiErrorV>),
    Migrate(Result<(), ApiErrorV>),
    Backup(Result<(), ApiErrorV>),
    Kv(Result<Seq<u8>, ApiErrorV>),
    Lock(LockState),
}

/// View of a `Result` whose success side is a byte string.
pub open spec fn view_bytes_result(r: Result<Vec<u8>, ApiError>) -> Result<Seq<u8>, ApiErrorV> {
    match r {
        Ok(b) => Ok(b@),
        Err(e) => Err(e@),
    }
}

/// View of a `Result` whose success side is an integer.
pub open spec fn view_u64_result(r: Result<u64, ApiError>) -> Result<u64, ApiErrorV> {
    match r {
        Ok(n) => Ok(n),
        Err(e) => Err(e@),
    }
}

/// View of a `Result` whose success side is the unit value.
pub open spec fn view_unit_result(r: Result<(), ApiError>) -> Result<(), ApiErrorV> {
    match r {
        Ok(u) => Ok(u),
        Err(e) => Err(e@),
    }
}

impl View for ResponsePayload {
    type V = ResponsePayloadV;

    open spec fn view(&self) -> ResponsePayloadV {
        match self {
            ResponsePayload::Execute(r) => ResponsePayloadV::Execute(view_u64_result(*r)),
            ResponsePayload::ExecuteReturning(r) => ResponsePayloadV::ExecuteReturning(
                view_bytes_result(*r),
            ),
            ResponsePayload::Transaction(r) => ResponsePayloadV::Transaction(
                view_bytes_result(*r),
            ),
            ResponsePayload::Query(r) => ResponsePayloadV::Query(view_bytes_result(*r)),
            ResponsePayload::QueryConsistent(r) => ResponsePayloadV::QueryConsistent(
                view_bytes_result(*r),
            ),
            ResponsePayload::Batch(r) => ResponsePayloadV::Batch(view_bytes_result(*r)),
            ResponsePayload::Migrate(r) => ResponsePayloadV::Migrate(view_unit_result(*r)),
            ResponsePayload::Backup(r) => ResponsePayloadV::Backup(view_unit_result(*r)),
            ResponsePayload::Kv(r) => ResponsePayloadV::Kv(view_bytes_result(*r)),
            ResponsePayload::Lock(s) => ResponsePayloadV::Lock(*s),
        }
    }
}

/// One response record as framed on the wire.
#[derive(Debug, PartialEq, Eq)]
pub struct StreamResponse {
    pub request_id: RequestId,
    pub result: ResponsePayload,
}

/// Spec-level mirror of [`StreamResponse`].
pub struct StreamResponseV {
    pub request_id: RequestId,
    pub result: ResponsePayloadV,
}

impl View for StreamResponse {
    type V = StreamResponseV;

    open spec fn view(&self) -> StreamResponseV {
        StreamResponseV { request_id: self.request_id, result: self.result@ }
    }
}

/// Whether a response result variant parallels a request payload tag.
/// A `KvGet` request is answered with a `Kv` result, a `LockAwait`
/// request with a `Lock` result; every other tag answers under its own
/// name.  A mismatch is a protocol invariant violation.
pub open spec fn result_matches_payload(p: RequestPayloadV, r: ResponsePayloadV) -> bool {
    match p {
        RequestPayloadV::Execute(_) => r is Execute,
        RequestPayloadV::ExecuteReturning(_) => r is ExecuteReturning,
        RequestPayloadV::Transaction(_) => r is Transaction,
        RequestPayloadV::QueryConsistent(_) => r is QueryConsistent,
        RequestPayloadV::Batch(_) => r is Batch,
        RequestPayloadV::Migrate(_) => r is Migrate,
        RequestPayloadV::Backup(_) => r is Backup,
        RequestPayloadV::Kv(_) => r is Kv,
        RequestPayloadV::Query(_) => r is Query,
        RequestPayloadV::KvGet(_) => r is Kv,
        RequestPayloadV::LockAwait(_) => r is Lock,
    }
}

/// Whether an error is one of the leader errors: exactly these make the
/// retry shim re-resolve the leader and retry once.
pub open spec fn spec_is_leader_error(e: ApiErrorV) -> bool {
    match e {
        ApiErrorV::NotLeader(_) => true,
        ApiErrorV::LeaderChange(_) => true,
        ApiErrorV::ForwardFailed(_) => true,
        _ => false,
    }
}

/// Classify an error: `true` exactly on the leader errors.
pub fn is_leader_error(e: &ApiError) -> (r: bool)
    ensures
        r == spec_is_leader_error(e@),
{
    match e {
        ApiError::NotLeader(_) => true,
        ApiError::LeaderChange(_) => true,
        ApiError::ForwardFailed(_) => true,
        _ => false,
    }
}

} // verus!
