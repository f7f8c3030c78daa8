use hiqlite_stream::codec::{decode_request, decode_response, encode_request, encode_response};
use hiqlite_stream::protocol::{
    ApiError, LockState, RequestPayload, ResponsePayload, StreamRequest, StreamResponse,
};

fn request_round_trip(req: StreamRequest) {
    let bytes = encode_request(&req);
    let back = decode_request(bytes.as_slice()).expect("a frame just encoded must decode");
    assert_eq!(back, req);
    let again = encode_request(&back);
    assert_eq!(again, bytes);
}

fn response_round_trip(resp: StreamResponse) {
    let bytes = encode_response(&resp);
    let back = decode_response(bytes.as_slice()).expect("a frame just encoded must decode");
    assert_eq!(back, resp);
    let again = encode_response(&back);
    assert_eq!(again, bytes);
}

#[test]
fn request_variants_round_trip() {
    let body = vec![1u8, 2, 3, 255, 0];
    request_round_trip(StreamRequest {
        request_id: 0,
        payload: RequestPayload::Execute(body.clone()),
    });
    request_round_trip(StreamRequest {
        request_id: 1,
        payload: RequestPayload::ExecuteReturning(body.clone()),
    });
    request_round_trip(StreamRequest {
        request_id: 2,
        payload: RequestPayload::Transaction(vec![]),
    });
    request_round_trip(StreamRequest {
        request_id: 3,
        payload: RequestPayload::QueryConsistent(body.clone()),
    });
    request_round_trip(StreamRequest {
        request_id: u64::MAX,
        payload: RequestPayload::Batch(body.clone()),
    });
    request_round_trip(StreamRequest {
        request_id: 5,
        payload: RequestPayload::Migrate(body.clone()),
    });
    request_round_trip(StreamRequest { request_id: 6, payload: RequestPayload::Backup(42) });
    request_round_trip(StreamRequest {
        request_id: 7,
        payload: RequestPayload::Kv(body.clone()),
    });
    request_round_trip(StreamRequest {
        request_id: 8,
        payload: RequestPayload::Query(body.clone()),
    });
    request_round_trip(StreamRequest { request_id: 9, payload: RequestPayload::KvGet(vec![0]) });
    request_round_trip(StreamRequest {
        request_id: 10,
        payload: RequestPayload::LockAwait(body),
    });
}

#[test]
fn response_variants_round_trip() {
    let rows = vec![9u8, 8, 7];
    response_round_trip(StreamResponse {
        request_id: 1,
        result: ResponsePayload::Execute(Ok(3)),
    });
    response_round_trip(StreamResponse {
        request_id: 2,
        result: ResponsePayload::Execute(Err(ApiError::Raft(vec![b'x']))),
    });
    response_round_trip(StreamResponse {
        request_id: 3,
        result: ResponsePayload::ExecuteReturning(Ok(rows.clone())),
    });
    response_round_trip(StreamResponse {
        request_id: 4,
        result: ResponsePayload::Transaction(Ok(rows.clone())),
    });
    response_round_trip(StreamResponse {
        request_id: 5,
        result: ResponsePayload::Query(Ok(vec![])),
    });
    response_round_trip(StreamResponse {
        request_id: 6,
        result: ResponsePayload::QueryConsistent(Err(ApiError::Backend(vec![1, 2]))),
    });
    response_round_trip(StreamResponse {
        request_id: 7,
        result: ResponsePayload::Batch(Ok(rows)),
    });
    response_round_trip(StreamResponse {
        request_id: 8,
        result: ResponsePayload::Migrate(Ok(())),
    });
    response_round_trip(StreamResponse {
        request_id: 9,
        result: ResponsePayload::Backup(Err(ApiError::Transport(vec![]))),
    });
    response_round_trip(StreamResponse {
        request_id: 10,
        result: ResponsePayload::Kv(Ok(vec![1])),
    });
    response_round_trip(StreamResponse {
        request_id: 11,
        result: ResponsePayload::Lock(LockState::Locked),
    });
    response_round_trip(StreamResponse {
        request_id: 12,
        result: ResponsePayload::Lock(LockState::Queued),
    });
    response_round_trip(StreamResponse {
        request_id: 13,
        result: ResponsePayload::Lock(LockState::Released),
    });
}

#[test]
fn error_variants_round_trip() {
    let errs = vec![
        ApiError::Transport(b"t".to_vec()),
        ApiError::NotLeader(b"n".to_vec()),
        ApiError::LeaderChange(b"l".to_vec()),
        ApiError::ForwardFailed(b"f".to_vec()),
        ApiError::Raft(b"r".to_vec()),
        ApiError::Backend(b"b".to_vec()),
    ];
    let mut id = 0u64;
    for e in errs {
        response_round_trip(StreamResponse {
            request_id: id,
            result: ResponsePayload::Execute(Err(e)),
        });
        id += 1;
    }
}

#[test]
fn exact_wire_bytes() {
    // request_id 0x0102030405060708, Execute with body [0xAA, 0xBB]:
    // eight little-endian id bytes, tag 0, then the body.
    let req = StreamRequest {
        request_id: 0x0102030405060708,
        payload: RequestPayload::Execute(vec![0xAA, 0xBB]),
    };
    let bytes = encode_request(&req);
    assert_eq!(
        bytes,
        vec![0x08, 0x07, 0x06, 0x05, 0x04, 0x03, 0x02, 0x01, 0x00, 0xAA, 0xBB]
    );

    // response for the same id: Execute success with one affected row.
    let resp = StreamResponse {
        request_id: 0x0102030405060708,
        result: ResponsePayload::Execute(Ok(1)),
    };
    let bytes = encode_response(&resp);
    assert_eq!(
        bytes,
        vec![
            0x08, 0x07, 0x06, 0x05, 0x04, 0x03, 0x02, 0x01, // id
            0x00, // tag: Execute
            0x01, // status: success
            0x01, 0x00, 0x00, 0x00, 0x00, 0x00, 0x00, 0x00 // rows affected
        ]
    );
}

#[test]
fn malformed_frames_are_rejected() {
    // Too short to hold an id and a tag.
    assert!(decode_request(&[]).is_none());
    assert!(decode_request(&[0, 0, 0, 0, 0, 0, 0, 0]).is_none());
    assert!(decode_response(&[1, 2, 3]).is_none());
    // Unknown tags.
    assert!(decode_request(&[0, 0, 0, 0, 0, 0, 0, 0, 11]).is_none());
    assert!(decode_response(&[0, 0, 0, 0, 0, 0, 0, 0, 10]).is_none());
    // A backup body must be exactly eight bytes.
    assert!(decode_request(&[0, 0, 0, 0, 0, 0, 0, 0, 6, 1, 2]).is_none());
    // An integer result body must be exactly eight bytes after the status.
    assert!(decode_response(&[0, 0, 0, 0, 0, 0, 0, 0, 0, 1, 7]).is_none());
    // A unit success carries nothing after the status byte.
    assert!(decode_response(&[0, 0, 0, 0, 0, 0, 0, 0, 6, 1, 9]).is_none());
    // A lock resolution is one known state byte.
    assert!(decode_response(&[0, 0, 0, 0, 0, 0, 0, 0, 9, 3]).is_none());
    assert!(decode_response(&[0, 0, 0, 0, 0, 0, 0, 0, 9]).is_none());
    // An unknown error variant byte.
    assert!(decode_response(&[0, 0, 0, 0, 0, 0, 0, 0, 0, 0, 6]).is_none());
}

#[test]
fn empty_bodies_round_trip() {
    request_round_trip(StreamRequest { request_id: 0, payload: RequestPayload::Execute(vec![]) });
    response_round_trip(StreamResponse {
        request_id: 0,
        result: ResponsePayload::ExecuteReturning(Ok(vec![])),
    });
    response_round_trip(StreamResponse {
        request_id: 0,
        result: ResponsePayload::Execute(Err(ApiError::Transport(vec![]))),
    });
}
