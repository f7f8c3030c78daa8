use hiqlite_stream::protocol::{is_leader_error, ApiError};
use hiqlite_stream::shim::{
    first_attempt_decision, health_status, route_for, LeaderCache, Route, ShimCall,
    ShimDecision,
};

#[test]
fn leader_errors_are_exactly_the_retryable_ones() {
    assert!(is_leader_error(&ApiError::NotLeader(vec![])));
    assert!(is_leader_error(&ApiError::LeaderChange(vec![])));
    assert!(is_leader_error(&ApiError::ForwardFailed(vec![])));
    assert!(!is_leader_error(&ApiError::Transport(vec![])));
    assert!(!is_leader_error(&ApiError::Raft(vec![])));
    assert!(!is_leader_error(&ApiError::Backend(vec![])));
}

#[test]
fn routing_prefers_the_local_raft_group() {
    let cache = LeaderCache::new(1);
    assert_eq!(route_for(&cache, 1), Route::Local);
    assert_eq!(route_for(&cache, 2), Route::Remote(1));
}

#[test]
fn leader_failover_retries_once_and_succeeds() {
    // First attempt fails with a leader change; the shim updates the
    // cache and retries exactly once; the retry succeeds.
    let mut cache = LeaderCache::new(1);
    let mut call = ShimCall::begin();

    let first: Result<u64, ApiError> = Err(ApiError::LeaderChange(b"moved".to_vec()));
    let d = first_attempt_decision(&first);
    assert_eq!(d, ShimDecision::RetryOnce);
    assert_eq!(call.observe(true), ShimDecision::RetryOnce);
    cache.update(2);
    assert_eq!(cache.leader_id, 2);

    // The retry's outcome settles the call whatever it is.
    assert_eq!(call.observe(false), ShimDecision::Finish);
    assert!(call.finished());
    assert_eq!(call.attempts(), 2);
}

#[test]
fn leader_flapping_surfaces_after_the_single_retry() {
    // Both attempts fail with leader errors: the call still settles
    // after two attempts; the second leader error is returned.
    let mut call = ShimCall::begin();
    assert_eq!(call.observe(true), ShimDecision::RetryOnce);
    assert_eq!(call.observe(true), ShimDecision::Finish);
    assert_eq!(call.attempts(), 2);
    assert!(call.finished());
}

#[test]
fn non_leader_errors_propagate_without_retry() {
    let first: Result<u64, ApiError> = Err(ApiError::Backend(b"syntax".to_vec()));
    assert_eq!(first_attempt_decision(&first), ShimDecision::Finish);
    let mut call = ShimCall::begin();
    assert_eq!(call.observe(false), ShimDecision::Finish);
    assert_eq!(call.attempts(), 1);
}

#[test]
fn success_needs_no_retry() {
    let first: Result<u64, ApiError> = Ok(1);
    assert_eq!(first_attempt_decision(&first), ShimDecision::Finish);
}

#[test]
fn health_reports_running_state_and_leader() {
    assert_eq!(health_status(None, true), Ok(()));
    match health_status(None, false) {
        Err(ApiError::LeaderChange(msg)) => {
            assert_eq!(msg, b"The leader voting process has not finished yet".to_vec());
        },
        other => panic!("expected a leader-change error, got {:?}", other),
    }
    assert_eq!(
        health_status(Some(b"halted".to_vec()), true),
        Err(ApiError::Raft(b"halted".to_vec()))
    );
}
