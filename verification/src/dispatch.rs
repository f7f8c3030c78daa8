//! Request dispatch: select the backend for a decoded request and build
//! the one response record the request produces.
//!
//! The write tags go to the Raft groups and produce a log entry; plain
//! reads, cache lookups and lock awaits do not.  The response echoes the
//! request's id verbatim and its result variant parallels the request's
//! payload tag; a Raft response whose variant does not parallel the
//! submitted command is a protocol invariant violation, reported as
//! `None` and treated by callers as fatal.

use vstd::prelude::*;
use vstd::slice::slice_to_vec;

use crate::protocol::{
    ApiError, ApiErrorV, LockState, NodeId, RequestPayload, RequestPayloadV, ResponsePayload,
    ResponsePayloadV, StreamRequest, StreamResponse, result_matches_payload, view_bytes_result,
    view_u64_result, view_unit_result,
};

verus! {

/// A command submitted to the SQL Raft group as one client write.
#[derive(Debug, PartialEq, Eq)]
pub enum WriteCommand {
    Execute(Vec<u8>),
    ExecuteReturning(Vec<u8>),
    Transaction(Vec<u8>),
    Batch(Vec<u8>),
    Migrate(Vec<u8>),
    Backup(NodeId),
}

/// Spec-level mirror of [`WriteCommand`].
pub enum WriteCommandV {
    Execute(Seq<u8>),
    ExecuteReturning(Seq<u8>),
    Transaction(Seq<u8>),
    Batch(Seq<u8>),
    Migrate(Seq<u8>),
    Backup(NodeId),
}

impl View for WriteCommand {
    type V = WriteCommandV;

    open spec fn view(&self) -> WriteCommandV {
        match self {
            WriteCommand::Execute(b) => WriteCommandV::Execute(b@),
            WriteCommand::ExecuteReturning(b) => WriteCommandV::ExecuteReturning(b@),
            WriteCommand::Transaction(b) => WriteCommandV::Transaction(b@),
            WriteCommand::Batch(b) => WriteCommandV::Batch(b@),
            WriteCommand::Migrate(b) => WriteCommandV::Migrate(b@),
            WriteCommand::Backup(n) => WriteCommandV::Backup(*n),
        }
    }
}

/// The backend one request is dispatched to.
#[derive(Debug, PartialEq, Eq)]
pub enum BackendCall {
    /// One client write on the SQL Raft group.
    RaftDbWrite(WriteCommand),
    /// One client write on the cache Raft group.
    RaftCacheWrite(Vec<u8>),
    /// Local read without a consensus barrier.
    LocalRead(Vec<u8>),
    /// Linearizable read barrier, then a local read.
    ConsistentRead(Vec<u8>),
    /// In-memory lookup over the per-cache channel; bypasses Raft.
    CacheGet(Vec<u8>),
    /// Await enqueued on the lock state machine; bypasses Raft.
    LockAwait(Vec<u8>),
}

/// Spec-level mirror of [`BackendCall`].
pub enum BackendCallV {
    RaftDbWrite(WriteCommandV),
    RaftCacheWrite(Seq<u8>),
    LocalRead(Seq<u8>),
    ConsistentRead(Seq<u8>),
    CacheGet(Seq<u8>),
    LockAwait(Seq<u8>),
}

impl View for BackendCall {
    type V = BackendCallV;

    open spec fn view(&self) -> BackendCallV {
        match self {
            BackendCall::RaftDbWrite(c) => BackendCallV::RaftDbWrite(c@),
            BackendCall::RaftCacheWrite(b) => BackendCallV::RaftCacheWrite(b@),
            BackendCall::LocalRead(b) => BackendCallV::LocalRead(b@),
            BackendCall::ConsistentRead(b) => BackendCallV::ConsistentRead(b@),
            BackendCall::CacheGet(b) => BackendCallV::CacheGet(b@),
            BackendCall::LockAwait(b) => BackendCallV::LockAwait(b@),
        }
    }
}

/// The payload tags that submit a Raft client write.
pub open spec fn is_write_payload(p: RequestPayloadV) -> bool {
    match p {
        RequestPayloadV::Execute(_) => true,
        RequestPayloadV::ExecuteReturning(_) => true,
        RequestPayloadV::Transaction(_) => true,
        RequestPayloadV::Batch(_) => true,
        RequestPayloadV::Migrate(_) => true,
        RequestPayloadV::Backup(_) => true,
        RequestPayloadV::Kv(_) => true,
        _ => false,
    }
}

/// The backend calls that produce a Raft log entry.
pub open spec fn produces_raft_entry(c: BackendCallV) -> bool {
    c is RaftDbWrite || c is RaftCacheWrite
}

/// Backend selection, one call per request.
pub open spec fn spec_select_backend(p: RequestPayloadV) -> BackendCallV {
    match p {
        RequestPayloadV::Execute(b) => BackendCallV::RaftDbWrite(WriteCommandV::Execute(b)),
        RequestPayloadV::ExecuteReturning(b) => BackendCallV::RaftDbWrite(
            WriteCommandV::ExecuteReturning(b),
        ),
        RequestPayloadV::Transaction(b) => BackendCallV::RaftDbWrite(
            WriteCommandV::Transaction(b),
        ),
        RequestPayloadV::QueryConsistent(b) => BackendCallV::ConsistentRead(b),
        RequestPayloadV::Batch(b) => BackendCallV::RaftDbWrite(WriteCommandV::Batch(b)),
        RequestPayloadV::Migrate(b) => BackendCallV::RaftDbWrite(WriteCommandV::Migrate(b)),
        RequestPayloadV::Backup(n) => BackendCallV::RaftDbWrite(WriteCommandV::Backup(n)),
        RequestPayloadV::Kv(b) => BackendCallV::RaftCacheWrite(b),
        RequestPayloadV::Query(b) => BackendCallV::LocalRead(b),
        RequestPayloadV::KvGet(b) => BackendCallV::CacheGet(b),
        RequestPayloadV::LockAwait(b) => BackendCallV::LockAwait(b),
    }
}

/// Select the backend for a request's payload.
pub fn select_backend(p: &RequestPayload) -> (c: BackendCall)
    ensures
        c@ == spec_select_backend(p@),
{
    match p {
        RequestPayload::Execute(b) => BackendCall::RaftDbWrite(
            WriteCommand::Execute(slice_to_vec(b.as_slice())),
        ),
        RequestPayload::ExecuteReturning(b) => BackendCall::RaftDbWrite(
            WriteCommand::ExecuteReturning(slice_to_vec(b.as_slice())),
        ),
        RequestPayload::Transaction(b) => BackendCall::RaftDbWrite(
            WriteCommand::Transaction(slice_to_vec(b.as_slice())),
        ),
        RequestPayload::QueryConsistent(b) => BackendCall::ConsistentRead(
            slice_to_vec(b.as_slice()),
        ),
        RequestPayload::Batch(b) => BackendCall::RaftDbWrite(
            WriteCommand::Batch(slice_to_vec(b.as_slice())),
        ),
        RequestPayload::Migrate(b) => BackendCall::RaftDbWrite(
            WriteCommand::Migrate(slice_to_vec(b.as_slice())),
        ),
        RequestPayload::Backup(n) => BackendCall::RaftDbWrite(WriteCommand::Backup(*n)),
        RequestPayload::Kv(b) => BackendCall::RaftCacheWrite(slice_to_vec(b.as_slice())),
        RequestPayload::Query(b) => BackendCall::LocalRead(slice_to_vec(b.as_slice())),
        RequestPayload::KvGet(b) => BackendCall::CacheGet(slice_to_vec(b.as_slice())),
        RequestPayload::LockAwait(b) => BackendCall::LockAwait(slice_to_vec(b.as_slice())),
    }
}

/// What the SQL Raft group's state machine returned for one applied
/// client write; the variant parallels the submitted command.
#[derive(Debug, PartialEq, Eq)]
pub enum RaftDbResponse {
    Execute(Result<u64, ApiError>),
    ExecuteReturning(Result<Vec<u8>, ApiError>),
    Transaction(Result<Vec<u8>, ApiError>),
    Batch(Result<Vec<u8>, ApiError>),
    Migrate(Result<(), ApiError>),
    Backup(Result<(), ApiError>),
}

/// Spec-level mirror of [`RaftDbResponse`].
pub enum RaftDbResponseV {
    Execute(Result<u64, ApiErrorV>),
    ExecuteReturning(Result<Seq<u8>, ApiErrorV>),
    Transaction(Result<Seq<u8>, ApiErrorV>),
    Batch(Result<Seq<u8>, ApiErrorV>),
    Migrate(Result<(), ApiErrorV>),
    Backup(Result<(), ApiErrorV>),
}

impl View for RaftDbResponse {
    type V = RaftDbResponseV;

    open spec fn view(&self) -> RaftDbResponseV {
        match self {
            RaftDbResponse::Execute(r) => RaftDbResponseV::Execute(view_u64_result(*r)),
            RaftDbResponse::ExecuteReturning(r) => RaftDbResponseV::ExecuteReturning(
                view_bytes_result(*r),
            ),
            RaftDbResponse::Transaction(r) => RaftDbResponseV::Transaction(
                view_bytes_result(*r),
            ),
            RaftDbResponse::Batch(r) => RaftDbResponseV::Batch(view_bytes_result(*r)),
            RaftDbResponse::Migrate(r) => RaftDbResponseV::Migrate(view_unit_result(*r)),
            RaftDbResponse::Backup(r) => RaftDbResponseV::Backup(view_unit_result(*r)),
        }
    }
}

/// What the selected backend came back with.
#[derive(Debug, PartialEq, Eq)]
pub enum BackendOutcome {
    /// The SQL Raft write returned, or failed before applying.
    RaftDb(Result<RaftDbResponse, ApiError>),
    /// The cache Raft write returned a cache response, or failed.
    RaftCache(Result<Vec<u8>, ApiError>),
    /// A local or consistent read returned rows, or failed.
    Read(Result<Vec<u8>, ApiError>),
    /// The in-memory cache lookup answered; infallible by construction.
    CacheValue(Vec<u8>),
    /// The lock state machine resolved the await; infallible.
    Lock(LockState),
}

/// Spec-level mirror of [`BackendOutcome`].
pub enum BackendOutcomeV {
    RaftDb(Result<RaftDbResponseV, ApiErrorV>),
    RaftCache(Result<Seq<u8>, ApiErrorV>),
    Read(Result<Seq<u8>, ApiErrorV>),
    CacheValue(Seq<u8>),
    Lock(LockState),
}

impl View for BackendOutcome {
    type V = BackendOutcomeV;

    open spec fn view(&self) -> BackendOutcomeV {
        match self {
            BackendOutcome::RaftDb(r) => BackendOutcomeV::RaftDb(
                match r {
                    Ok(d) => Ok(d@),
                    Err(e) => Err(e@),
                },
            ),
            BackendOutcome::RaftCache(r) => BackendOutcomeV::RaftCache(view_bytes_result(*r)),
            BackendOutcome::Read(r) => BackendOutcomeV::Read(view_bytes_result(*r)),
            BackendOutcome::CacheValue(v) => BackendOutcomeV::CacheValue(v@),
            BackendOutcome::Lock(l) => BackendOutcomeV::Lock(*l),
        }
    }
}

/// Result of a write command, given what the Raft write returned.  A
/// Raft-level error becomes the error side of the command's own tag; an
/// applied write must answer under the command's variant, anything else
/// is the mismatch reported as `None`.
pub open spec fn spec_write_response(c: WriteCommandV, raft: Result<RaftDbResponseV, ApiErrorV>)
    -> Option<ResponsePayloadV> {
    match raft {
        Err(e) => Some(
            match c {
                WriteCommandV::Execute(_) => ResponsePayloadV::Execute(Err(e)),
                WriteCommandV::ExecuteReturning(_) => ResponsePayloadV::ExecuteReturning(Err(e)),
                WriteCommandV::Transaction(_) => ResponsePayloadV::Transaction(Err(e)),
                WriteCommandV::Batch(_) => ResponsePayloadV::Batch(Err(e)),
                WriteCommandV::Migrate(_) => ResponsePayloadV::Migrate(Err(e)),
                WriteCommandV::Backup(_) => ResponsePayloadV::Backup(Err(e)),
            },
        ),
        Ok(d) => match (c, d) {
            (WriteCommandV::Execute(_), RaftDbResponseV::Execute(r)) => Some(
                ResponsePayloadV::Execute(r),
            ),
            (WriteCommandV::ExecuteReturning(_), RaftDbResponseV::ExecuteReturning(r)) => Some(
                ResponsePayloadV::ExecuteReturning(r),
            ),
            (WriteCommandV::Transaction(_), RaftDbResponseV::Transaction(r)) => Some(
                ResponsePayloadV::Transaction(r),
            ),
            (WriteCommandV::Batch(_), RaftDbResponseV::Batch(r)) => Some(
                ResponsePayloadV::Batch(r),
            ),
            (WriteCommandV::Migrate(_), RaftDbResponseV::Migrate(r)) => Some(
                ResponsePayloadV::Migrate(r),
            ),
            (WriteCommandV::Backup(_), RaftDbResponseV::Backup(r)) => Some(
                ResponsePayloadV::Backup(r),
            ),
            _ => None,
        },
    }
}

/// The one response a request's backend outcome produces, or `None` when
/// the outcome's shape cannot belong to the request: a Raft response
/// variant that does not parallel the command, or an outcome from the
/// wrong backend altogether.
pub open spec fn spec_build_response(p: RequestPayloadV, o: BackendOutcomeV) -> Option<
    ResponsePayloadV,
> {
    match p {
        RequestPayloadV::Execute(b) => match o {
            BackendOutcomeV::RaftDb(r) => spec_write_response(WriteCommandV::Execute(b), r),
            _ => None,
        },
        RequestPayloadV::ExecuteReturning(b) => match o {
            BackendOutcomeV::RaftDb(r) => spec_write_response(
                WriteCommandV::ExecuteReturning(b),
                r,
            ),
            _ => None,
        },
        RequestPayloadV::Transaction(b) => match o {
            BackendOutcomeV::RaftDb(r) => spec_write_response(WriteCommandV::Transaction(b), r),
            _ => None,
        },
        RequestPayloadV::QueryConsistent(_) => match o {
            BackendOutcomeV::Read(r) => Some(ResponsePayloadV::QueryConsistent(r)),
            _ => None,
        },
        RequestPayloadV::Batch(b) => match o {
            BackendOutcomeV::RaftDb(r) => spec_write_response(WriteCommandV::Batch(b), r),
            _ => None,
        },
        RequestPayloadV::Migrate(b) => match o {
            BackendOutcomeV::RaftDb(r) => spec_write_response(WriteCommandV::Migrate(b), r),
            _ => None,
        },
        RequestPayloadV::Backup(n) => match o {
            BackendOutcomeV::RaftDb(r) => spec_write_response(WriteCommandV::Backup(n), r),
            _ => None,
        },
        RequestPayloadV::Kv(_) => match o {
            BackendOutcomeV::RaftCache(r) => Some(ResponsePayloadV::Kv(r)),
            _ => None,
        },
        RequestPayloadV::Query(_) => match o {
            BackendOutcomeV::Read(r) => Some(ResponsePayloadV::Query(r)),
            _ => None,
        },
        RequestPayloadV::KvGet(_) => match o {
            BackendOutcomeV::CacheValue(v) => Some(ResponsePayloadV::Kv(Ok(v))),
            _ => None,
        },
        RequestPayloadV::LockAwait(_) => match o {
            BackendOutcomeV::Lock(l) => Some(ResponsePayloadV::Lock(l)),
            _ => None,
        },
    }
}

/// Build the response record for one request from its backend outcome.
/// The response echoes the request's id; `None` is the fatal protocol
/// invariant violation.
pub fn build_response(req: &StreamRequest, outcome: BackendOutcome) -> (r: Option<
    StreamResponse,
>)
    ensures
        match r {
            Some(resp) => {
                &&& spec_build_response(req.payload@, outcome@) == Some(resp.result@)
                &&& resp.request_id == req.request_id
            },
            None => spec_build_response(req.payload@, outcome@) is None,
        },
{
    let result: Option<ResponsePayload> = match (&req.payload, outcome) {
        (RequestPayload::Execute(_), BackendOutcome::RaftDb(raft)) => match raft {
            Ok(RaftDbResponse::Execute(r)) => Some(ResponsePayload::Execute(r)),
            Ok(_) => None,
            Err(e) => Some(ResponsePayload::Execute(Err(e))),
        },
        (RequestPayload::ExecuteReturning(_), BackendOutcome::RaftDb(raft)) => match raft {
            Ok(RaftDbResponse::ExecuteReturning(r)) => Some(
                ResponsePayload::ExecuteReturning(r),
            ),
            Ok(_) => None,
            Err(e) => Some(ResponsePayload::ExecuteReturning(Err(e))),
        },
        (RequestPayload::Transaction(_), BackendOutcome::RaftDb(raft)) => match raft {
            Ok(RaftDbResponse::Transaction(r)) => Some(ResponsePayload::Transaction(r)),
            Ok(_) => None,
            Err(e) => Some(ResponsePayload::Transaction(Err(e))),
        },
        (RequestPayload::QueryConsistent(_), BackendOutcome::Read(r)) => Some(
            ResponsePayload::QueryConsistent(r),
        ),
        (RequestPayload::Batch(_), BackendOutcome::RaftDb(raft)) => match raft {
            Ok(RaftDbResponse::Batch(r)) => Some(ResponsePayload::Batch(r)),
            Ok(_) => None,
            Err(e) => Some(ResponsePayload::Batch(Err(e))),
        },
        (RequestPayload::Migrate(_), BackendOutcome::RaftDb(raft)) => match raft {
            Ok(RaftDbResponse::Migrate(r)) => Some(ResponsePayload::Migrate(r)),
            Ok(_) => None,
            Err(e) => Some(ResponsePayload::Migrate(Err(e))),
        },
        (RequestPayload::Backup(_), BackendOutcome::RaftDb(raft)) => match raft {
            Ok(RaftDbResponse::Backup(r)) => Some(ResponsePayload::Backup(r)),
            Ok(_) => None,
            Err(e) => Some(ResponsePayload::Backup(Err(e))),
        },
        (RequestPayload::Kv(_), BackendOutcome::RaftCache(r)) => Some(ResponsePayload::Kv(r)),
        (RequestPayload::Query(_), BackendOutcome::Read(r)) => Some(ResponsePayload::Query(r)),
        (RequestPayload::KvGet(_), BackendOutcome::CacheValue(v)) => Some(
            ResponsePayload::Kv(Ok(v)),
        ),
        (RequestPayload::LockAwait(_), BackendOutcome::Lock(l)) => Some(
            ResponsePayload::Lock(l),
        ),
        _ => None,
    };
    match result {
        Some(res) => Some(StreamResponse { request_id: req.request_id, result: res }),
        None => None,
    }
}

/// Write-routing law: one request selects exactly one backend call, and
/// that call submits a Raft client write exactly when the payload is a
/// write tag; in particular a cache lookup never produces a log entry.
pub proof fn lemma_write_routing(p: RequestPayloadV)
    ensures
        produces_raft_entry(spec_select_backend(p)) <==> is_write_payload(p),
        p is KvGet ==> spec_select_backend(p) is CacheGet,
        p is LockAwait ==> spec_select_backend(p) is LockAwait,
{
}

/// Tag-matching law: every response the dispatcher produces parallels
/// its request's payload tag.
pub proof fn lemma_response_tag_matches(p: RequestPayloadV, o: BackendOutcomeV)
    ensures
        spec_build_response(p, o) matches Some(res) ==> result_matches_payload(p, res),
{
}

} // verus!
