use hiqlite_stream::inflight::{prepare_request, InFlightTable};
use hiqlite_stream::codec::decode_request;
use hiqlite_stream::protocol::RequestPayload;

#[test]
fn ids_are_fresh_and_monotonic() {
    let mut table: InFlightTable<&str> = InFlightTable::new();
    let a = table.register("a");
    let b = table.register("b");
    let c = table.register("c");
    assert_eq!((a, b, c), (0, 1, 2));
}

#[test]
fn hundred_submissions_get_distinct_ids_and_one_completion_each() {
    let mut table: InFlightTable<usize> = InFlightTable::new();
    let mut ids = Vec::new();
    for slot in 0..100usize {
        ids.push(table.register(slot));
    }
    for i in 0..100 {
        for j in (i + 1)..100 {
            assert_ne!(ids[i], ids[j]);
        }
    }
    assert_eq!(table.len(), 100);
    // Responses arrive out of order; each completes exactly its waiter.
    for i in (0..100usize).rev() {
        let slot = table.complete(ids[i]).expect("an outstanding id must complete");
        assert_eq!(slot, i);
    }
    assert_eq!(table.len(), 0);
}

#[test]
fn a_second_response_with_the_same_id_matches_nothing() {
    let mut table: InFlightTable<&str> = InFlightTable::new();
    let id = table.register("waiter");
    assert_eq!(table.complete(id), Some("waiter"));
    assert_eq!(table.complete(id), None);
}

#[test]
fn unknown_ids_complete_nothing() {
    let mut table: InFlightTable<&str> = InFlightTable::new();
    table.register("waiter");
    assert_eq!(table.complete(12345), None);
    assert_eq!(table.len(), 1);
}

#[test]
fn teardown_hands_every_waiter_back_and_keeps_the_counter() {
    let mut table: InFlightTable<&str> = InFlightTable::new();
    let a = table.register("a");
    let b = table.register("b");
    let waiters = table.take_all();
    assert_eq!(waiters, vec![(a, "a"), (b, "b")]);
    assert_eq!(table.len(), 0);
    // Ids stay unique across the reconnect.
    let c = table.register("c");
    assert_eq!(c, 2);
}

#[test]
fn prepare_request_frames_the_fresh_id() {
    let mut table: InFlightTable<&str> = InFlightTable::new();
    table.register("earlier");
    let (req, frame) = prepare_request(&mut table, RequestPayload::Execute(vec![7, 7]), "w");
    assert_eq!(req.request_id, 1);
    assert_eq!(req.payload, RequestPayload::Execute(vec![7, 7]));
    let decoded = decode_request(frame.as_slice()).expect("a prepared frame must decode");
    assert_eq!(decoded, req);
    assert_eq!(table.len(), 2);
}
