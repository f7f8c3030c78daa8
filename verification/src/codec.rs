//! Binary framing of stream records.
//!
//! Every frame on the wire carries exactly one serialized record: eight
//! little-endian bytes of `request_id`, one tag byte, then the variant's
//! body, which runs to the end of the frame.  The format is canonical:
//! decoding accepts a byte string exactly when it is the encoding of some
//! record, so `decode` and `encode` invert each other in both directions.

use vstd::bytes::*;
use vstd::prelude::*;
use vstd::slice::{slice_index_get, slice_subrange, slice_to_vec};

use crate::protocol::{
    ApiError, ApiErrorV, LockState, RequestPayload, RequestPayloadV, ResponsePayload,
    ResponsePayloadV, StreamRequest, StreamRequestV, StreamResponse, StreamResponseV,
    view_bytes_result, view_u64_result, view_unit_result,
};

verus! {

// ---------------------------------------------------------------------
// Specification-level encoding
// ---------------------------------------------------------------------

/// Encoding of an error: one variant byte, then the diagnostic message.
pub open spec fn spec_enc_err(e: ApiErrorV) -> Seq<u8> {
    match e {
        ApiErrorV::Transport(m) => seq![0u8] + m,
        ApiErrorV::NotLeader(m) => seq![1u8] + m,
        ApiErrorV::LeaderChange(m) => seq![2u8] + m,
        ApiErrorV::ForwardFailed(m) => seq![3u8] + m,
        ApiErrorV::Raft(m) => seq![4u8] + m,
        ApiErrorV::Backend(m) => seq![5u8] + m,
    }
}

pub open spec fn spec_dec_err(s: Seq<u8>) -> Option<ApiErrorV> {
    if s.len() < 1 {
        None
    } else {
        let m = s.subrange(1, s.len() as int);
        if s[0] == 0 {
            Some(ApiErrorV::Transport(m))
        } else if s[0] == 1 {
            Some(ApiErrorV::NotLeader(m))
        } else if s[0] == 2 {
            Some(ApiErrorV::LeaderChange(m))
        } else if s[0] == 3 {
            Some(ApiErrorV::ForwardFailed(m))
        } else if s[0] == 4 {
            Some(ApiErrorV::Raft(m))
        } else if s[0] == 5 {
            Some(ApiErrorV::Backend(m))
        } else {
            None
        }
    }
}

/// Encoding of a result whose success side is a byte string: a status
/// byte (`1` success, `0` error), then the bytes or the error.
pub open spec fn spec_enc_bytes_result(r: Result<Seq<u8>, ApiErrorV>) -> Seq<u8> {
    match r {
        Ok(b) => seq![1u8] + b,
        Err(e) => seq![0u8] + spec_enc_err(e),
    }
}

pub open spec fn spec_dec_bytes_result(s: Seq<u8>) -> Option<Result<Seq<u8>, ApiErrorV>> {
    if s.len() < 1 {
        None
    } else if s[0] == 1 {
        Some(Ok(s.subrange(1, s.len() as int)))
    } else if s[0] == 0 {
        match spec_dec_err(s.subrange(1, s.len() as int)) {
            Some(e) => Some(Err(e)),
            None => None,
        }
    } else {
        None
    }
}

/// Encoding of a result whose success side is an integer: a status byte,
/// then eight little-endian bytes or the error.
pub open spec fn spec_enc_u64_result(r: Result<u64, ApiErrorV>) -> Seq<u8> {
    match r {
        Ok(n) => seq![1u8] + spec_u64_to_le_bytes(n),
        Err(e) => seq![0u8] + spec_enc_err(e),
    }
}

pub open spec fn spec_dec_u64_result(s: Seq<u8>) -> Option<Result<u64, ApiErrorV>> {
    if s.len() < 1 {
        None
    } else if s[0] == 1 {
        if s.len() == 9 {
            Some(Ok(spec_u64_from_le_bytes(s.subrange(1, 9))))
        } else {
            None
        }
    } else if s[0] == 0 {
        match spec_dec_err(s.subrange(1, s.len() as int)) {
            Some(e) => Some(Err(e)),
            None => None,
        }
    } else {
        None
    }
}

/// Encoding of a result whose success side is the unit value: a lone
/// status byte on success, a status byte and the error otherwise.
pub open spec fn spec_enc_unit_result(r: Result<(), ApiErrorV>) -> Seq<u8> {
    match r {
        Ok(_) => seq![1u8],
        Err(e) => seq![0u8] + spec_enc_err(e),
    }
}

pub open spec fn spec_dec_unit_result(s: Seq<u8>) -> Option<Result<(), ApiErrorV>> {
    if s.len() < 1 {
        None
    } else if s[0] == 1 {
        if s.len() == 1 {
            Some(Ok(()))
        } else {
            None
        }
    } else if s[0] == 0 {
        match spec_dec_err(s.subrange(1, s.len() as int)) {
            Some(e) => Some(Err(e)),
            None => None,
        }
    } else {
        None
    }
}

/// Encoding of a lock resolution: a single state byte.
pub open spec fn spec_enc_lock(l: LockState) -> Seq<u8> {
    match l {
        LockState::Locked => seq![0u8],
        LockState::Queued => seq![1u8],
        LockState::Released => seq![2u8],
    }
}

pub open spec fn spec_dec_lock(s: Seq<u8>) -> Option<LockState> {
    if s.len() != 1 {
        None
    } else if s[0] == 0 {
        Some(LockState::Locked)
    } else if s[0] == 1 {
        Some(LockState::Queued)
    } else if s[0] == 2 {
        Some(LockState::Released)
    } else {
        None
    }
}

/// Encoding of a request payload: one tag byte, then the body.
pub open spec fn spec_enc_req_payload(p: RequestPayloadV) -> Seq<u8> {
    match p {
        RequestPayloadV::Execute(b) => seq![0u8] + b,
        RequestPayloadV::ExecuteReturning(b) => seq![1u8] + b,
        RequestPayloadV::Transaction(b) => seq![2u8] + b,
        RequestPayloadV::QueryConsistent(b) => seq![3u8] + b,
        RequestPayloadV::Batch(b) => seq![4u8] + b,
        RequestPayloadV::Migrate(b) => seq![5u8] + b,
        RequestPayloadV::Backup(n) => seq![6u8] + spec_u64_to_le_bytes(n),
        RequestPayloadV::Kv(b) => seq![7u8] + b,
        RequestPayloadV::Query(b) => seq![8u8] + b,
        RequestPayloadV::KvGet(b) => seq![9u8] + b,
        RequestPayloadV::LockAwait(b) => seq![10u8] + b,
    }
}

pub open spec fn spec_dec_req_payload(s: Seq<u8>) -> Option<RequestPayloadV> {
    if s.len() < 1 {
        None
    } else {
        let body = s.subrange(1, s.len() as int);
        if s[0] == 0 {
            Some(RequestPayloadV::Execute(body))
        } else if s[0] == 1 {
            Some(RequestPayloadV::ExecuteReturning(body))
        } else if s[0] == 2 {
            Some(RequestPayloadV::Transaction(body))
        } else if s[0] == 3 {
            Some(RequestPayloadV::QueryConsistent(body))
        } else if s[0] == 4 {
            Some(RequestPayloadV::Batch(body))
        } else if s[0] == 5 {
            Some(RequestPayloadV::Migrate(body))
        } else if s[0] == 6 {
            if body.len() == 8 {
                Some(RequestPayloadV::Backup(spec_u64_from_le_bytes(body)))
            } else {
                None
            }
        } else if s[0] == 7 {
            Some(RequestPayloadV::Kv(body))
        } else if s[0] == 8 {
            Some(RequestPayloadV::Query(body))
        } else if s[0] == 9 {
            Some(RequestPayloadV::KvGet(body))
        } else if s[0] == 10 {
            Some(RequestPayloadV::LockAwait(body))
        } else {
            None
        }
    }
}

/// Encoding of a response result: one tag byte, then the body.
pub open spec fn spec_enc_resp_payload(p: ResponsePayloadV) -> Seq<u8> {
    match p {
        ResponsePayloadV::Execute(r) => seq![0u8] + spec_enc_u64_result(r),
        ResponsePayloadV::ExecuteReturning(r) => seq![1u8] + spec_enc_bytes_result(r),
        ResponsePayloadV::Transaction(r) => seq![2u8] + spec_enc_bytes_result(r),
        ResponsePayloadV::Query(r) => seq![3u8] + spec_enc_bytes_result(r),
        ResponsePayloadV::QueryConsistent(r) => seq![4u8] + spec_enc_bytes_result(r),
        ResponsePayloadV::Batch(r) => seq![5u8] + spec_enc_bytes_result(r),
        ResponsePayloadV::Migrate(r) => seq![6u8] + spec_enc_unit_result(r),
        ResponsePayloadV::Backup(r) => seq![7u8] + spec_enc_unit_result(r),
        ResponsePayloadV::Kv(r) => seq![8u8] + spec_enc_bytes_result(r),
        ResponsePayloadV::Lock(l) => seq![9u8] + spec_enc_lock(l),
    }
}

pub open spec fn spec_dec_resp_payload(s: Seq<u8>) -> Option<ResponsePayloadV> {
    if s.len() < 1 {
        None
    } else {
        let body = s.subrange(1, s.len() as int);
        if s[0] == 0 {
            match spec_dec_u64_result(body) {
                Some(r) => Some(ResponsePayloadV::Execute(r)),
                None => None,
            }
        } else if s[0] == 1 {
            match spec_dec_bytes_result(body) {
                Some(r) => Some(ResponsePayloadV::ExecuteReturning(r)),
                None => None,
            }
        } else if s[0] == 2 {
            match spec_dec_bytes_result(body) {
                Some(r) => Some(ResponsePayloadV::Transaction(r)),
                None => None,
            }
        } else if s[0] == 3 {
            match spec_dec_bytes_result(body) {
                Some(r) => Some(ResponsePayloadV::Query(r)),
                None => None,
            }
        } else if s[0] == 4 {
            match spec_dec_bytes_result(body) {
                Some(r) => Some(ResponsePayloadV::QueryConsistent(r)),
                None => None,
            }
        } else if s[0] == 5 {
            match spec_dec_bytes_result(body) {
                Some(r) => Some(ResponsePayloadV::Batch(r)),
                None => None,
            }
        } else if s[0] == 6 {
            match spec_dec_unit_result(body) {
                Some(r) => Some(ResponsePayloadV::Migrate(r)),
                None => None,
            }
        } else if s[0] == 7 {
            match spec_dec_unit_result(body) {
                Some(r) => Some(ResponsePayloadV::Backup(r)),
                None => None,
            }
        } else if s[0] == 8 {
            match spec_dec_bytes_result(body) {
                Some(r) => Some(ResponsePayloadV::Kv(r)),
                None => None,
            }
        } else if s[0] == 9 {
            match spec_dec_lock(body) {
                Some(l) => Some(ResponsePayloadV::Lock(l)),
                None => None,
            }
        } else {
            None
        }
    }
}

/// Encoding of a whole request frame.
pub open spec fn spec_enc_request(r: StreamRequestV) -> Seq<u8> {
    spec_u64_to_le_bytes(r.request_id) + spec_enc_req_payload(r.payload)
}

pub open spec fn spec_dec_request(s: Seq<u8>) -> Option<StreamRequestV> {
    if s.len() < 8 {
        None
    } else {
        let id = spec_u64_from_le_bytes(s.subrange(0, 8));
        match spec_dec_req_payload(s.subrange(8, s.len() as int)) {
            Some(p) => Some(StreamRequestV { request_id: id, payload: p }),
            None => None,
        }
    }
}

/// Encoding of a whole response frame.
pub open spec fn spec_enc_response(r: StreamResponseV) -> Seq<u8> {
    spec_u64_to_le_bytes(r.request_id) + spec_enc_resp_payload(r.result)
}

pub open spec fn spec_dec_response(s: Seq<u8>) -> Option<StreamResponseV> {
    if s.len() < 8 {
        None
    } else {
        let id = spec_u64_from_le_bytes(s.subrange(0, 8));
        match spec_dec_resp_payload(s.subrange(8, s.len() as int)) {
            Some(p) => Some(StreamResponseV { request_id: id, result: p }),
            None => None,
        }
    }
}

// ---------------------------------------------------------------------
// Round-trip laws
// ---------------------------------------------------------------------

/// Shape of a tagged byte string: first the tag, then the body.
proof fn lemma_tagged(t: u8, rest: Seq<u8>)
    ensures
        (seq![t] + rest).len() == 1 + rest.len(),
        (seq![t] + rest)[0] == t,
        (seq![t] + rest).subrange(1, 1 + rest.len() as int) == rest,
{
    assert((seq![t] + rest).subrange(1, 1 + rest.len() as int) =~= rest);
}

proof fn lemma_err_round_trip(e: ApiErrorV)
    ensures
        spec_dec_err(spec_enc_err(e)) == Some(e),
{
    match e {
        ApiErrorV::Transport(m) => lemma_tagged(0u8, m),
        ApiErrorV::NotLeader(m) => lemma_tagged(1u8, m),
        ApiErrorV::LeaderChange(m) => lemma_tagged(2u8, m),
        ApiErrorV::ForwardFailed(m) => lemma_tagged(3u8, m),
        ApiErrorV::Raft(m) => lemma_tagged(4u8, m),
        ApiErrorV::Backend(m) => lemma_tagged(5u8, m),
    }
}

proof fn lemma_err_canonical(s: Seq<u8>)
    ensures
        spec_dec_err(s) matches Some(e) ==> spec_enc_err(e) == s,
{
    if s.len() >= 1 {
        assert(seq![s[0]] + s.subrange(1, s.len() as int) =~= s);
    }
}

proof fn lemma_bytes_result_round_trip(r: Result<Seq<u8>, ApiErrorV>)
    ensures
        spec_dec_bytes_result(spec_enc_bytes_result(r)) == Some(r),
{
    match r {
        Ok(b) => lemma_tagged(1u8, b),
        Err(e) => {
            lemma_tagged(0u8, spec_enc_err(e));
            lemma_err_round_trip(e);
        },
    }
}

proof fn lemma_bytes_result_canonical(s: Seq<u8>)
    ensures
        spec_dec_bytes_result(s) matches Some(r) ==> spec_enc_bytes_result(r) == s,
{
    if s.len() >= 1 {
        lemma_err_canonical(s.subrange(1, s.len() as int));
        assert(seq![s[0]] + s.subrange(1, s.len() as int) =~= s);
    }
}

proof fn lemma_u64_result_round_trip(r: Result<u64, ApiErrorV>)
    ensures
        spec_dec_u64_result(spec_enc_u64_result(r)) == Some(r),
{
    lemma_auto_spec_u64_to_from_le_bytes();
    match r {
        Ok(n) => lemma_tagged(1u8, spec_u64_to_le_bytes(n)),
        Err(e) => {
            lemma_tagged(0u8, spec_enc_err(e));
            lemma_err_round_trip(e);
        },
    }
}

proof fn lemma_u64_result_canonical(s: Seq<u8>)
    ensures
        spec_dec_u64_result(s) matches Some(r) ==> spec_enc_u64_result(r) == s,
{
    lemma_auto_spec_u64_to_from_le_bytes();
    if s.len() >= 1 {
        lemma_err_canonical(s.subrange(1, s.len() as int));
        assert(seq![s[0]] + s.subrange(1, s.len() as int) =~= s);
    }
}

proof fn lemma_unit_result_round_trip(r: Result<(), ApiErrorV>)
    ensures
        spec_dec_unit_result(spec_enc_unit_result(r)) == Some(r),
{
    match r {
        Ok(u) => {
            assert(seq![1u8].len() == 1);
            assert(seq![1u8][0] == 1u8);
            assert(u == ());
            assert(r == Ok::<(), ApiErrorV>(()));
        },
        Err(e) => {
            lemma_tagged(0u8, spec_enc_err(e));
            lemma_err_round_trip(e);
        },
    }
}

proof fn lemma_unit_result_canonical(s: Seq<u8>)
    ensures
        spec_dec_unit_result(s) matches Some(r) ==> spec_enc_unit_result(r) == s,
{
    if s.len() >= 1 {
        lemma_err_canonical(s.subrange(1, s.len() as int));
        if s.len() == 1 {
            assert(seq![s[0]] =~= s);
        } else {
            assert(seq![s[0]] + s.subrange(1, s.len() as int) =~= s);
        }
    }
}

proof fn lemma_lock_round_trip(l: LockState)
    ensures
        spec_dec_lock(spec_enc_lock(l)) == Some(l),
{
}

proof fn lemma_lock_canonical(s: Seq<u8>)
    ensures
        spec_dec_lock(s) matches Some(l) ==> spec_enc_lock(l) == s,
{
    if s.len() == 1 {
        assert(seq![s[0]] =~= s);
    }
}

proof fn lemma_req_payload_round_trip(p: RequestPayloadV)
    ensures
        spec_dec_req_payload(spec_enc_req_payload(p)) == Some(p),
{
    lemma_auto_spec_u64_to_from_le_bytes();
    match p {
        RequestPayloadV::Execute(b) => lemma_tagged(0u8, b),
        RequestPayloadV::ExecuteReturning(b) => lemma_tagged(1u8, b),
        RequestPayloadV::Transaction(b) => lemma_tagged(2u8, b),
        RequestPayloadV::QueryConsistent(b) => lemma_tagged(3u8, b),
        RequestPayloadV::Batch(b) => lemma_tagged(4u8, b),
        RequestPayloadV::Migrate(b) => lemma_tagged(5u8, b),
        RequestPayloadV::Backup(n) => lemma_tagged(6u8, spec_u64_to_le_bytes(n)),
        RequestPayloadV::Kv(b) => lemma_tagged(7u8, b),
        RequestPayloadV::Query(b) => lemma_tagged(8u8, b),
        RequestPayloadV::KvGet(b) => lemma_tagged(9u8, b),
        RequestPayloadV::LockAwait(b) => lemma_tagged(10u8, b),
    }
}

proof fn lemma_req_payload_canonical(s: Seq<u8>)
    ensures
        spec_dec_req_payload(s) matches Some(p) ==> spec_enc_req_payload(p) == s,
{
    lemma_auto_spec_u64_to_from_le_bytes();
    if s.len() >= 1 {
        assert(seq![s[0]] + s.subrange(1, s.len() as int) =~= s);
    }
}

proof fn lemma_resp_payload_round_trip(p: ResponsePayloadV)
    ensures
        spec_dec_resp_payload(spec_enc_resp_payload(p)) == Some(p),
{
    match p {
        ResponsePayloadV::Execute(r) => {
            lemma_tagged(0u8, spec_enc_u64_result(r));
            lemma_u64_result_round_trip(r);
        },
        ResponsePayloadV::ExecuteReturning(r) => {
            lemma_tagged(1u8, spec_enc_bytes_result(r));
            lemma_bytes_result_round_trip(r);
        },
        ResponsePayloadV::Transaction(r) => {
            lemma_tagged(2u8, spec_enc_bytes_result(r));
            lemma_bytes_result_round_trip(r);
        },
        ResponsePayloadV::Query(r) => {
            lemma_tagged(3u8, spec_enc_bytes_result(r));
            lemma_bytes_result_round_trip(r);
        },
        ResponsePayloadV::QueryConsistent(r) => {
            lemma_tagged(4u8, spec_enc_bytes_result(r));
            lemma_bytes_result_round_trip(r);
        },
        ResponsePayloadV::Batch(r) => {
            lemma_tagged(5u8, spec_enc_bytes_result(r));
            lemma_bytes_result_round_trip(r);
        },
        ResponsePayloadV::Migrate(r) => {
            lemma_tagged(6u8, spec_enc_unit_result(r));
            lemma_unit_result_round_trip(r);
        },
        ResponsePayloadV::Backup(r) => {
            lemma_tagged(7u8, spec_enc_unit_result(r));
            lemma_unit_result_round_trip(r);
        },
        ResponsePayloadV::Kv(r) => {
            lemma_tagged(8u8, spec_enc_bytes_result(r));
            lemma_bytes_result_round_trip(r);
        },
        ResponsePayloadV::Lock(l) => {
            lemma_tagged(9u8, spec_enc_lock(l));
            lemma_lock_round_trip(l);
        },
    }
}

proof fn lemma_resp_payload_canonical(s: Seq<u8>)
    ensures
        spec_dec_resp_payload(s) matches Some(p) ==> spec_enc_resp_payload(p) == s,
{
    if s.len() >= 1 {
        let body = s.subrange(1, s.len() as int);
        lemma_u64_result_canonical(body);
        lemma_bytes_result_canonical(body);
        lemma_unit_result_canonical(body);
        lemma_lock_canonical(body);
        assert(seq![s[0]] + body =~= s);
    }
}

// ---------------------------------------------------------------------
// Executable encoding
// ---------------------------------------------------------------------

/// Concatenating after a push is the same as concatenating the tagged body.
proof fn lemma_push_then_append(prefix: Seq<u8>, t: u8, body: Seq<u8>)
    ensures
        prefix.push(t) + body == prefix + (seq![t] + body),
{
    assert(prefix.push(t) + body =~= prefix + (seq![t] + body));
}

/// Append a byte string to the end of a growing frame.
fn append_bytes(out: &mut Vec<u8>, b: &[u8])
    ensures
        final(out)@ == old(out)@ + b@,
{
    let n = b.len();
    let mut i: usize = 0;
    proof {
        assert(old(out)@ + b@.subrange(0, 0) =~= old(out)@);
    }
    while i < n
        invariant
            n == b@.len(),
            i <= n,
            out@ == old(out)@ + b@.subrange(0, i as int),
        decreases n - i,
    {
        let x = *slice_index_get(b, i);
        out.push(x);
        proof {
            assert(old(out)@ + b@.subrange(0, i + 1 as int) =~= (old(out)@ + b@.subrange(
                0,
                i as int,
            )).push(b@[i as int]));
        }
        i += 1;
    }
    proof {
        assert(b@.subrange(0, n as int) =~= b@);
    }
}

/// Append the encoding of an error.
fn encode_err_into(out: &mut Vec<u8>, e: &ApiError)
    ensures
        final(out)@ == old(out)@ + spec_enc_err(e@),
{
    let ghost prefix = out@;
    match e {
        ApiError::Transport(m) => {
            out.push(0u8);
            append_bytes(out, m.as_slice());
            proof {
                lemma_push_then_append(prefix, 0u8, m@);
            }
        },
        ApiError::NotLeader(m) => {
            out.push(1u8);
            append_bytes(out, m.as_slice());
            proof {
                lemma_push_then_append(prefix, 1u8, m@);
            }
        },
        ApiError::LeaderChange(m) => {
            out.push(2u8);
            append_bytes(out, m.as_slice());
            proof {
                lemma_push_then_append(prefix, 2u8, m@);
            }
        },
        ApiError::ForwardFailed(m) => {
            out.push(3u8);
            append_bytes(out, m.as_slice());
            proof {
                lemma_push_then_append(prefix, 3u8, m@);
            }
        },
        ApiError::Raft(m) => {
            out.push(4u8);
            append_bytes(out, m.as_slice());
            proof {
                lemma_push_then_append(prefix, 4u8, m@);
            }
        },
        ApiError::Backend(m) => {
            out.push(5u8);
            append_bytes(out, m.as_slice());
            proof {
                lemma_push_then_append(prefix, 5u8, m@);
            }
        },
    }
}

/// Append the encoding of a byte-string result.
fn encode_bytes_result_into(out: &mut Vec<u8>, r: &Result<Vec<u8>, ApiError>)
    ensures
        final(out)@ == old(out)@ + spec_enc_bytes_result(view_bytes_result(*r)),
{
    let ghost prefix = out@;
    match r {
        Ok(b) => {
            out.push(1u8);
            append_bytes(out, b.as_slice());
            proof {
                lemma_push_then_append(prefix, 1u8, b@);
            }
        },
        Err(e) => {
            out.push(0u8);
            encode_err_into(out, e);
            proof {
                lemma_push_then_append(prefix, 0u8, spec_enc_err(e@));
            }
        },
    }
}

/// Append the encoding of an integer result.
fn encode_u64_result_into(out: &mut Vec<u8>, r: &Result<u64, ApiError>)
    ensures
        final(out)@ == old(out)@ + spec_enc_u64_result(view_u64_result(*r)),
{
    let ghost prefix = out@;
    match r {
        Ok(n) => {
            out.push(1u8);
            let nb = u64_to_le_bytes(*n);
            append_bytes(out, nb.as_slice());
            proof {
                lemma_push_then_append(prefix, 1u8, spec_u64_to_le_bytes(*n));
            }
        },
        Err(e) => {
            out.push(0u8);
            encode_err_into(out, e);
            proof {
                lemma_push_then_append(prefix, 0u8, spec_enc_err(e@));
            }
        },
    }
}

/// Append the encoding of a unit result.
fn encode_unit_result_into(out: &mut Vec<u8>, r: &Result<(), ApiError>)
    ensures
        final(out)@ == old(out)@ + spec_enc_unit_result(view_unit_result(*r)),
{
    let ghost prefix = out@;
    match r {
        Ok(_) => {
            out.push(1u8);
            proof {
                assert(prefix.push(1u8) =~= prefix + seq![1u8]);
            }
        },
        Err(e) => {
            out.push(0u8);
            encode_err_into(out, e);
            proof {
                lemma_push_then_append(prefix, 0u8, spec_enc_err(e@));
            }
        },
    }
}

/// Encode one request record as a single frame.
pub fn encode_request(r: &StreamRequest) -> (out: Vec<u8>)
    ensures
        out@ == spec_enc_request(r@),
{
    let mut out = u64_to_le_bytes(r.request_id);
    let ghost idb = out@;
    match &r.payload {
        RequestPayload::Execute(b) => {
            out.push(0u8);
            append_bytes(&mut out, b.as_slice());
            proof {
                lemma_push_then_append(idb, 0u8, b@);
            }
        },
        RequestPayload::ExecuteReturning(b) => {
            out.push(1u8);
            append_bytes(&mut out, b.as_slice());
            proof {
                lemma_push_then_append(idb, 1u8, b@);
            }
        },
        RequestPayload::Transaction(b) => {
            out.push(2u8);
            append_bytes(&mut out, b.as_slice());
            proof {
                lemma_push_then_append(idb, 2u8, b@);
            }
        },
        RequestPayload::QueryConsistent(b) => {
            out.push(3u8);
            append_bytes(&mut out, b.as_slice());
            proof {
                lemma_push_then_append(idb, 3u8, b@);
            }
        },
        RequestPayload::Batch(b) => {
            out.push(4u8);
            append_bytes(&mut out, b.as_slice());
            proof {
                lemma_push_then_append(idb, 4u8, b@);
            }
        },
        RequestPayload::Migrate(b) => {
            out.push(5u8);
            append_bytes(&mut out, b.as_slice());
            proof {
                lemma_push_then_append(idb, 5u8, b@);
            }
        },
        RequestPayload::Backup(n) => {
            out.push(6u8);
            let nb = u64_to_le_bytes(*n);
            append_bytes(&mut out, nb.as_slice());
            proof {
                lemma_push_then_append(idb, 6u8, spec_u64_to_le_bytes(*n));
            }
        },
        RequestPayload::Kv(b) => {
            out.push(7u8);
            append_bytes(&mut out, b.as_slice());
            proof {
                lemma_push_then_append(idb, 7u8, b@);
            }
        },
        RequestPayload::Query(b) => {
            out.push(8u8);
            append_bytes(&mut out, b.as_slice());
            proof {
                lemma_push_then_append(idb, 8u8, b@);
            }
        },
        RequestPayload::KvGet(b) => {
            out.push(9u8);
            append_bytes(&mut out, b.as_slice());
            proof {
                lemma_push_then_append(idb, 9u8, b@);
            }
        },
        RequestPayload::LockAwait(b) => {
            out.push(10u8);
            append_bytes(&mut out, b.as_slice());
            proof {
                lemma_push_then_append(idb, 10u8, b@);
            }
        },
    }
    out
}

/// Encode one response record as a single frame.
pub fn encode_response(r: &StreamResponse) -> (out: Vec<u8>)
    ensures
        out@ == spec_enc_response(r@),
{
    let mut out = u64_to_le_bytes(r.request_id);
    let ghost idb = out@;
    match &r.result {
        ResponsePayload::Execute(res) => {
            out.push(0u8);
            encode_u64_result_into(&mut out, res);
            proof {
                lemma_push_then_append(idb, 0u8, spec_enc_u64_result(view_u64_result(*res)));
            }
        },
        ResponsePayload::ExecuteReturning(res) => {
            out.push(1u8);
            encode_bytes_result_into(&mut out, res);
            proof {
                lemma_push_then_append(idb, 1u8, spec_enc_bytes_result(view_bytes_result(*res)));
            }
        },
        ResponsePayload::Transaction(res) => {
            out.push(2u8);
            encode_bytes_result_into(&mut out, res);
            proof {
                lemma_push_then_append(idb, 2u8, spec_enc_bytes_result(view_bytes_result(*res)));
            }
        },
        ResponsePayload::Query(res) => {
            out.push(3u8);
            encode_bytes_result_into(&mut out, res);
            proof {
                lemma_push_then_append(idb, 3u8, spec_enc_bytes_result(view_bytes_result(*res)));
            }
        },
        ResponsePayload::QueryConsistent(res) => {
            out.push(4u8);
            encode_bytes_result_into(&mut out, res);
            proof {
                lemma_push_then_append(idb, 4u8, spec_enc_bytes_result(view_bytes_result(*res)));
            }
        },
        ResponsePayload::Batch(res) => {
            out.push(5u8);
            encode_bytes_result_into(&mut out, res);
            proof {
                lemma_push_then_append(idb, 5u8, spec_enc_bytes_result(view_bytes_result(*res)));
            }
        },
        ResponsePayload::Migrate(res) => {
            out.push(6u8);
            encode_unit_result_into(&mut out, res);
            proof {
                lemma_push_then_append(idb, 6u8, spec_enc_unit_result(view_unit_result(*res)));
            }
        },
        ResponsePayload::Backup(res) => {
            out.push(7u8);
            encode_unit_result_into(&mut out, res);
            proof {
                lemma_push_then_append(idb, 7u8, spec_enc_unit_result(view_unit_result(*res)));
            }
        },
        ResponsePayload::Kv(res) => {
            out.push(8u8);
            encode_bytes_result_into(&mut out, res);
            proof {
                lemma_push_then_append(idb, 8u8, spec_enc_bytes_result(view_bytes_result(*res)));
            }
        },
        ResponsePayload::Lock(l) => {
            out.push(9u8);
            let lb: u8 = match l {
                LockState::Locked => 0u8,
                LockState::Queued => 1u8,
                LockState::Released => 2u8,
            };
            out.push(lb);
            proof {
                assert(idb.push(9u8).push(lb) =~= idb + (seq![9u8] + spec_enc_lock(*l)));
            }
        },
    }
    out
}

// ---------------------------------------------------------------------
// Executable decoding
// ---------------------------------------------------------------------

/// Decode an error body.
fn decode_err(s: &[u8]) -> (r: Option<ApiError>)
    ensures
        match r {
            Some(e) => spec_dec_err(s@) == Some(e@),
            None => spec_dec_err(s@) is None,
        },
{
    if s.len() < 1 {
        return None;
    }
    let tag = *slice_index_get(s, 0);
    let m = slice_to_vec(slice_subrange(s, 1, s.len()));
    if tag == 0 {
        Some(ApiError::Transport(m))
    } else if tag == 1 {
        Some(ApiError::NotLeader(m))
    } else if tag == 2 {
        Some(ApiError::LeaderChange(m))
    } else if tag == 3 {
        Some(ApiError::ForwardFailed(m))
    } else if tag == 4 {
        Some(ApiError::Raft(m))
    } else if tag == 5 {
        Some(ApiError::Backend(m))
    } else {
        None
    }
}

/// Decode a byte-string result body.
fn decode_bytes_result(s: &[u8]) -> (r: Option<Result<Vec<u8>, ApiError>>)
    ensures
        match r {
            Some(x) => spec_dec_bytes_result(s@) == Some(view_bytes_result(x)),
            None => spec_dec_bytes_result(s@) is None,
        },
{
    if s.len() < 1 {
        return None;
    }
    let tag = *slice_index_get(s, 0);
    if tag == 1 {
        Some(Ok(slice_to_vec(slice_subrange(s, 1, s.len()))))
    } else if tag == 0 {
        match decode_err(slice_subrange(s, 1, s.len())) {
            Some(e) => Some(Err(e)),
            None => None,
        }
    } else {
        None
    }
}

/// Decode an integer result body.
fn decode_u64_result(s: &[u8]) -> (r: Option<Result<u64, ApiError>>)
    ensures
        match r {
            Some(x) => spec_dec_u64_result(s@) == Some(view_u64_result(x)),
            None => spec_dec_u64_result(s@) is None,
        },
{
    if s.len() < 1 {
        return None;
    }
    let tag = *slice_index_get(s, 0);
    if tag == 1 {
        if s.len() == 9 {
            Some(Ok(u64_from_le_bytes(slice_subrange(s, 1, 9))))
        } else {
            None
        }
    } else if tag == 0 {
        match decode_err(slice_subrange(s, 1, s.len())) {
            Some(e) => Some(Err(e)),
            None => None,
        }
    } else {
        None
    }
}

/// Decode a unit result body.
fn decode_unit_result(s: &[u8]) -> (r: Option<Result<(), ApiError>>)
    ensures
        match r {
            Some(x) => spec_dec_unit_result(s@) == Some(view_unit_result(x)),
            None => spec_dec_unit_result(s@) is None,
        },
{
    if s.len() < 1 {
        return None;
    }
    let tag = *slice_index_get(s, 0);
    if tag == 1 {
        if s.len() == 1 {
            Some(Ok(()))
        } else {
            None
        }
    } else if tag == 0 {
        match decode_err(slice_subrange(s, 1, s.len())) {
            Some(e) => Some(Err(e)),
            None => None,
        }
    } else {
        None
    }
}

/// Decode a lock resolution body.
fn decode_lock(s: &[u8]) -> (r: Option<LockState>)
    ensures
        match r {
            Some(l) => spec_dec_lock(s@) == Some(l),
            None => spec_dec_lock(s@) is None,
        },
{
    if s.len() != 1 {
        return None;
    }
    let tag = *slice_index_get(s, 0);
    if tag == 0 {
        Some(LockState::Locked)
    } else if tag == 1 {
        Some(LockState::Queued)
    } else if tag == 2 {
        Some(LockState::Released)
    } else {
        None
    }
}

/// Decode one request frame.  Returns `None` exactly on the byte strings
/// that are no encoding of a request record.
pub fn decode_request(b: &[u8]) -> (r: Option<StreamRequest>)
    ensures
        match r {
            Some(req) => spec_dec_request(b@) == Some(req@),
            None => spec_dec_request(b@) is None,
        },
{
    if b.len() < 9 {
        return None;
    }
    let id = u64_from_le_bytes(slice_subrange(b, 0, 8));
    let tag = *slice_index_get(b, 8);
    let rest = slice_subrange(b, 9, b.len());
    proof {
        lemma_tagged(tag, b@.subrange(9, b@.len() as int));
        assert(b@.subrange(8, b@.len() as int) =~= seq![tag] + b@.subrange(9, b@.len() as int));
    }
    let payload: Option<RequestPayload> = if tag == 0 {
        Some(RequestPayload::Execute(slice_to_vec(rest)))
    } else if tag == 1 {
        Some(RequestPayload::ExecuteReturning(slice_to_vec(rest)))
    } else if tag == 2 {
        Some(RequestPayload::Transaction(slice_to_vec(rest)))
    } else if tag == 3 {
        Some(RequestPayload::QueryConsistent(slice_to_vec(rest)))
    } else if tag == 4 {
        Some(RequestPayload::Batch(slice_to_vec(rest)))
    } else if tag == 5 {
        Some(RequestPayload::Migrate(slice_to_vec(rest)))
    } else if tag == 6 {
        if rest.len() == 8 {
            Some(RequestPayload::Backup(u64_from_le_bytes(rest)))
        } else {
            None
        }
    } else if tag == 7 {
        Some(RequestPayload::Kv(slice_to_vec(rest)))
    } else if tag == 8 {
        Some(RequestPayload::Query(slice_to_vec(rest)))
    } else if tag == 9 {
        Some(RequestPayload::KvGet(slice_to_vec(rest)))
    } else if tag == 10 {
        Some(RequestPayload::LockAwait(slice_to_vec(rest)))
    } else {
        None
    };
    match payload {
        Some(p) => Some(StreamRequest { request_id: id, payload: p }),
        None => None,
    }
}

/// Decode one response frame.  Returns `None` exactly on the byte strings
/// that are no encoding of a response record.
pub fn decode_response(b: &[u8]) -> (r: Option<StreamResponse>)
    ensures
        match r {
            Some(resp) => spec_dec_response(b@) == Some(resp@),
            None => spec_dec_response(b@) is None,
        },
{
    if b.len() < 9 {
        return None;
    }
    let id = u64_from_le_bytes(slice_subrange(b, 0, 8));
    let tag = *slice_index_get(b, 8);
    let rest = slice_subrange(b, 9, b.len());
    proof {
        lemma_tagged(tag, b@.subrange(9, b@.len() as int));
        assert(b@.subrange(8, b@.len() as int) =~= seq![tag] + b@.subrange(9, b@.len() as int));
    }
    let result: Option<ResponsePayload> = if tag == 0 {
        match decode_u64_result(rest) {
            Some(x) => Some(ResponsePayload::Execute(x)),
            None => None,
        }
    } else if tag == 1 {
        match decode_bytes_result(rest) {
            Some(x) => Some(ResponsePayload::ExecuteReturning(x)),
            None => None,
        }
    } else if tag == 2 {
        match decode_bytes_result(rest) {
            Some(x) => Some(ResponsePayload::Transaction(x)),
            None => None,
        }
    } else if tag == 3 {
        match decode_bytes_result(rest) {
            Some(x) => Some(ResponsePayload::Query(x)),
            None => None,
        }
    } else if tag == 4 {
        match decode_bytes_result(rest) {
            Some(x) => Some(ResponsePayload::QueryConsistent(x)),
            None => None,
        }
    } else if tag == 5 {
        match decode_bytes_result(rest) {
            Some(x) => Some(ResponsePayload::Batch(x)),
            None => None,
        }
    } else if tag == 6 {
        match decode_unit_result(rest) {
            Some(x) => Some(ResponsePayload::Migrate(x)),
            None => None,
        }
    } else if tag == 7 {
        match decode_unit_result(rest) {
            Some(x) => Some(ResponsePayload::Backup(x)),
            None => None,
        }
    } else if tag == 8 {
        match decode_bytes_result(rest) {
            Some(x) => Some(ResponsePayload::Kv(x)),
            None => None,
        }
    } else if tag == 9 {
        match decode_lock(rest) {
            Some(l) => Some(ResponsePayload::Lock(l)),
            None => None,
        }
    } else {
        None
    };
    match result {
        Some(p) => Some(StreamResponse { request_id: id, result: p }),
        None => None,
    }
}

/// Round trip: decoding an encoded request yields the record back,
/// for every request record.
pub proof fn lemma_request_round_trip(r: StreamRequestV)
    ensures
        spec_dec_request(spec_enc_request(r)) == Some(r),
{
    lemma_auto_spec_u64_to_from_le_bytes();
    let s = spec_enc_request(r);
    let idb = spec_u64_to_le_bytes(r.request_id);
    assert(s.subrange(0, 8) =~= idb);
    assert(s.subrange(8, s.len() as int) =~= spec_enc_req_payload(r.payload));
    lemma_req_payload_round_trip(r.payload);
}

/// Canonicity: a byte string that decodes as a request is exactly the
/// encoding of the decoded record.
pub proof fn lemma_request_canonical(s: Seq<u8>)
    ensures
        spec_dec_request(s) matches Some(r) ==> spec_enc_request(r) == s,
{
    lemma_auto_spec_u64_to_from_le_bytes();
    if s.len() >= 8 {
        let idb = s.subrange(0, 8);
        let rest = s.subrange(8, s.len() as int);
        lemma_req_payload_canonical(rest);
        assert(idb + rest =~= s);
    }
}

/// Round trip: decoding an encoded response yields the record back,
/// for every response record.
pub proof fn lemma_response_round_trip(r: StreamResponseV)
    ensures
        spec_dec_response(spec_enc_response(r)) == Some(r),
{
    lemma_auto_spec_u64_to_from_le_bytes();
    let s = spec_enc_response(r);
    let idb = spec_u64_to_le_bytes(r.request_id);
    assert(s.subrange(0, 8) =~= idb);
    assert(s.subrange(8, s.len() as int) =~= spec_enc_resp_payload(r.result));
    lemma_resp_payload_round_trip(r.result);
}

/// Canonicity: a byte string that decodes as a response is exactly the
/// encoding of the decoded record.
pub proof fn lemma_response_canonical(s: Seq<u8>)
    ensures
        spec_dec_response(s) matches Some(r) ==> spec_enc_response(r) == s,
{
    lemma_auto_spec_u64_to_from_le_bytes();
    if s.len() >= 8 {
        let idb = s.subrange(0, 8);
        let rest = s.subrange(8, s.len() as int);
        lemma_resp_payload_canonical(rest);
        assert(idb + rest =~= s);
    }
}

} // verus!
