//! The whole model pipeline in one place: a client prepares a request,
//! the server decodes it, dispatches it, frames the response, and the
//! client matches it back to its waiter — including the reconnect path
//! through the client buffer.

use hiqlite_stream::buffer::BufferRegistry;
use hiqlite_stream::codec::{decode_response, encode_response};
use hiqlite_stream::dispatch::{
    build_response, select_backend, BackendCall, BackendOutcome, RaftDbResponse, WriteCommand,
};
use hiqlite_stream::inflight::{prepare_request, InFlightTable};
use hiqlite_stream::protocol::{RequestPayload, ResponsePayload};
use hiqlite_stream::session::{flush_pending, reader_step, FrameKind, ReaderStep};
use hiqlite_stream::shim::{route_for, LeaderCache, Route};

#[test]
fn follower_write_steady_state() {
    // Client on node 2; leader is node 1: the write goes remote.
    let cache = LeaderCache::new(1);
    assert_eq!(route_for(&cache, 2), Route::Remote(1));

    // The client assigns a fresh id and frames the request.
    let mut table: InFlightTable<&str> = InFlightTable::new();
    let (req, frame) =
        prepare_request(&mut table, RequestPayload::Execute(b"insert".to_vec()), "waiter");

    // The leader's session reads the frame and dispatches it.
    let server_req = match reader_step(FrameKind::Binary, frame.as_slice()) {
        ReaderStep::Dispatch(r) => r,
        other => panic!("expected a dispatch, got {:?}", other),
    };
    assert_eq!(server_req, req);
    assert_eq!(
        select_backend(&server_req.payload),
        BackendCall::RaftDbWrite(WriteCommand::Execute(b"insert".to_vec()))
    );

    // The Raft write applied one row; the response goes back framed.
    let resp = build_response(
        &server_req,
        BackendOutcome::RaftDb(Ok(RaftDbResponse::Execute(Ok(1)))),
    )
    .unwrap();
    let wire = encode_response(&resp);

    // The client matches it to exactly its waiter.
    let delivered = decode_response(wire.as_slice()).unwrap();
    assert_eq!(delivered.request_id, req.request_id);
    assert_eq!(delivered.result, ResponsePayload::Execute(Ok(1)));
    assert_eq!(table.complete(delivered.request_id), Some("waiter"));
    assert_eq!(table.complete(delivered.request_id), None);
}

#[test]
fn transport_drop_after_apply_recovers_through_the_buffer() {
    // The write applied, but the transport died before the writer could
    // transmit: the response must reach the client on the next session.
    let mut table: InFlightTable<&str> = InFlightTable::new();
    let (req, _frame) =
        prepare_request(&mut table, RequestPayload::Execute(b"update".to_vec()), "waiter");

    let resp = build_response(
        &req,
        BackendOutcome::RaftDb(Ok(RaftDbResponse::Execute(Ok(1)))),
    )
    .unwrap();

    // Closing: the writer flushes the un-sent response into the buffer.
    let mut reg = BufferRegistry::new();
    flush_pending(&mut reg, 42, vec![resp]);

    // Next session of the same client drains the buffer; the client
    // matches the response by its original request id.
    let recovered = reg.try_pop_from(42).expect("the response survived the drop");
    let delivered = decode_response(recovered.as_slice()).unwrap();
    assert_eq!(delivered.request_id, req.request_id);
    assert_eq!(table.complete(delivered.request_id), Some("waiter"));
    assert_eq!(reg.try_pop_from(42), None);
}

#[test]
fn hundred_concurrent_executes_produce_hundred_raft_writes() {
    let mut table: InFlightTable<usize> = InFlightTable::new();
    let mut requests = Vec::new();
    for slot in 0..100usize {
        let (req, _frame) =
            prepare_request(&mut table, RequestPayload::Execute(vec![slot as u8]), slot);
        requests.push(req);
    }
    // Distinct ids, one Raft write per request.
    let mut raft_writes = 0usize;
    for i in 0..100 {
        for j in (i + 1)..100 {
            assert_ne!(requests[i].request_id, requests[j].request_id);
        }
        if matches!(select_backend(&requests[i].payload), BackendCall::RaftDbWrite(_)) {
            raft_writes += 1;
        }
    }
    assert_eq!(raft_writes, 100);
    // Responses complete out of order, each matching one submit.
    for i in (0..100usize).rev() {
        let resp = build_response(
            &requests[i],
            BackendOutcome::RaftDb(Ok(RaftDbResponse::Execute(Ok(1)))),
        )
        .unwrap();
        assert_eq!(resp.request_id, requests[i].request_id);
        assert_eq!(table.complete(resp.request_id), Some(i));
    }
    assert_eq!(table.len(), 0);
}

#[test]
fn kv_get_bypasses_raft_alongside_a_write() {
    // A KvGet interleaved with an execute: only the execute's backend
    // call produces a Raft log entry.
    let mut table: InFlightTable<u8> = InFlightTable::new();
    let (exec_req, _) =
        prepare_request(&mut table, RequestPayload::Execute(b"insert".to_vec()), 0);
    let (get_req, _) = prepare_request(&mut table, RequestPayload::KvGet(b"key".to_vec()), 1);
    assert_ne!(exec_req.request_id, get_req.request_id);

    let exec_call = select_backend(&exec_req.payload);
    let get_call = select_backend(&get_req.payload);
    assert!(matches!(exec_call, BackendCall::RaftDbWrite(_)));
    assert_eq!(get_call, BackendCall::CacheGet(b"key".to_vec()));

    // The lookup completes independently of the execute's latency.
    let get_resp = build_response(&get_req, BackendOutcome::CacheValue(b"v".to_vec())).unwrap();
    assert_eq!(table.complete(get_resp.request_id), Some(1));
    let exec_resp = build_response(
        &exec_req,
        BackendOutcome::RaftDb(Ok(RaftDbResponse::Execute(Ok(1)))),
    )
    .unwrap();
    assert_eq!(table.complete(exec_resp.request_id), Some(0));
}
