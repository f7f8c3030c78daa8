use hiqlite_stream::dispatch::{
    build_response, select_backend, BackendCall, BackendOutcome, RaftDbResponse, WriteCommand,
};
use hiqlite_stream::protocol::{
    ApiError, LockState, RequestPayload, ResponsePayload, StreamRequest,
};

#[test]
fn write_tags_go_to_the_raft_groups() {
    let body = vec![1u8];
    assert_eq!(
        select_backend(&RequestPayload::Execute(body.clone())),
        BackendCall::RaftDbWrite(WriteCommand::Execute(body.clone()))
    );
    assert_eq!(
        select_backend(&RequestPayload::ExecuteReturning(body.clone())),
        BackendCall::RaftDbWrite(WriteCommand::ExecuteReturning(body.clone()))
    );
    assert_eq!(
        select_backend(&RequestPayload::Transaction(body.clone())),
        BackendCall::RaftDbWrite(WriteCommand::Transaction(body.clone()))
    );
    assert_eq!(
        select_backend(&RequestPayload::Batch(body.clone())),
        BackendCall::RaftDbWrite(WriteCommand::Batch(body.clone()))
    );
    assert_eq!(
        select_backend(&RequestPayload::Migrate(body.clone())),
        BackendCall::RaftDbWrite(WriteCommand::Migrate(body.clone()))
    );
    assert_eq!(
        select_backend(&RequestPayload::Backup(3)),
        BackendCall::RaftDbWrite(WriteCommand::Backup(3))
    );
    assert_eq!(
        select_backend(&RequestPayload::Kv(body.clone())),
        BackendCall::RaftCacheWrite(body)
    );
}

#[test]
fn reads_and_lookups_bypass_raft() {
    let body = vec![2u8];
    assert_eq!(
        select_backend(&RequestPayload::Query(body.clone())),
        BackendCall::LocalRead(body.clone())
    );
    assert_eq!(
        select_backend(&RequestPayload::QueryConsistent(body.clone())),
        BackendCall::ConsistentRead(body.clone())
    );
    // The cache lookup produces no Raft log entry.
    assert_eq!(
        select_backend(&RequestPayload::KvGet(body.clone())),
        BackendCall::CacheGet(body.clone())
    );
    assert_eq!(
        select_backend(&RequestPayload::LockAwait(body.clone())),
        BackendCall::LockAwait(body)
    );
}

#[test]
fn responses_echo_the_request_id_and_tag() {
    let req = StreamRequest { request_id: 12, payload: RequestPayload::Execute(vec![1]) };
    let resp = build_response(
        &req,
        BackendOutcome::RaftDb(Ok(RaftDbResponse::Execute(Ok(5)))),
    )
    .expect("a matching raft response builds");
    assert_eq!(resp.request_id, 12);
    assert_eq!(resp.result, ResponsePayload::Execute(Ok(5)));
}

#[test]
fn raft_errors_surface_under_the_request_tag() {
    let req = StreamRequest { request_id: 2, payload: RequestPayload::Migrate(vec![]) };
    let resp = build_response(
        &req,
        BackendOutcome::RaftDb(Err(ApiError::Raft(b"timeout".to_vec()))),
    )
    .unwrap();
    assert_eq!(resp.result, ResponsePayload::Migrate(Err(ApiError::Raft(b"timeout".to_vec()))));
}

#[test]
fn variant_mismatch_is_the_fatal_invariant_violation() {
    let req = StreamRequest { request_id: 1, payload: RequestPayload::Execute(vec![]) };
    // The Raft write answered under the wrong variant.
    assert!(build_response(
        &req,
        BackendOutcome::RaftDb(Ok(RaftDbResponse::Migrate(Ok(()))))
    )
    .is_none());
    // An outcome from the wrong backend altogether.
    assert!(build_response(&req, BackendOutcome::CacheValue(vec![])).is_none());
}

#[test]
fn cache_lookup_answers_under_the_kv_tag() {
    let req = StreamRequest { request_id: 8, payload: RequestPayload::KvGet(vec![9]) };
    let resp = build_response(&req, BackendOutcome::CacheValue(vec![1, 2])).unwrap();
    assert_eq!(resp.request_id, 8);
    assert_eq!(resp.result, ResponsePayload::Kv(Ok(vec![1, 2])));
}

#[test]
fn lock_await_answers_with_the_lock_state() {
    let req = StreamRequest { request_id: 9, payload: RequestPayload::LockAwait(vec![]) };
    let resp = build_response(&req, BackendOutcome::Lock(LockState::Queued)).unwrap();
    assert_eq!(resp.result, ResponsePayload::Lock(LockState::Queued));
}

#[test]
fn reads_answer_under_their_own_tags() {
    let req = StreamRequest { request_id: 3, payload: RequestPayload::Query(vec![]) };
    let resp = build_response(&req, BackendOutcome::Read(Ok(vec![4]))).unwrap();
    assert_eq!(resp.result, ResponsePayload::Query(Ok(vec![4])));

    let req = StreamRequest { request_id: 4, payload: RequestPayload::QueryConsistent(vec![]) };
    let resp = build_response(&req, BackendOutcome::Read(Ok(vec![5]))).unwrap();
    assert_eq!(resp.result, ResponsePayload::QueryConsistent(Ok(vec![5])));
}
