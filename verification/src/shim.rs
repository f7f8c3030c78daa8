//! Leader resolution and the retry shim.
//!
//! Every top-level call reads the cached leader identity and routes the
//! request: straight into the local Raft group when this node is the
//! leader, through the client stream otherwise.  When an attempt fails
//! with a leader error the shim updates the cache from the authoritative
//! source and retries exactly once; any other error, and any error of the
//! retry, propagates.  The shim therefore makes at most two attempts per
//! call, and repeated leader flapping surfaces as an error.

use vstd::prelude::*;
use vstd::string::StringSliceAdditionalSpecFns;

use crate::protocol::{ApiError, ApiErrorV, NodeId, spec_is_leader_error};

verus! {

/// Where a request goes: into the local Raft group or over the stream
/// to a remote leader.
#[derive(Debug, Clone, Copy, PartialEq, Eq, Structural)]
pub enum Route {
    Local,
    Remote(NodeId),
}

/// Client-side cache of the leader's identity.  Mutated only by the
/// retry shim, on startup or on receipt of a leader error.
#[derive(Debug, Clone, Copy, PartialEq, Eq, Structural)]
pub struct LeaderCache {
    pub leader_id: NodeId,
}

impl LeaderCache {
    /// Cache primed with the leader learned at startup.
    pub fn new(leader_id: NodeId) -> (c: LeaderCache)
        ensures
            c.leader_id == leader_id,
    {
        LeaderCache { leader_id }
    }

    /// Replace the cached identity with the authoritative one.
    pub fn update(&mut self, leader_id: NodeId)
        ensures
            final(self).leader_id == leader_id,
    {
        self.leader_id = leader_id;
    }
}

/// Route a request: local exactly when this node is the cached leader.
pub fn route_for(cache: &LeaderCache, self_id: NodeId) -> (r: Route)
    ensures
        r == if cache.leader_id == self_id {
            Route::Local
        } else {
            Route::Remote(cache.leader_id)
        },
{
    if cache.leader_id == self_id {
        Route::Local
    } else {
        Route::Remote(cache.leader_id)
    }
}

/// What the shim does with an attempt's outcome.
#[derive(Debug, Clone, Copy, PartialEq, Eq, Structural)]
pub enum ShimDecision {
    /// Return the outcome to the caller.
    Finish,
    /// Update the leader cache and try once more.
    RetryOnce,
}

/// The retry state of one top-level call, made explicit so that the
/// attempt bound is a checked invariant rather than a reading of the
/// control flow.
#[derive(Debug, Clone, Copy, PartialEq, Eq, Structural)]
pub struct ShimCall {
    attempts: u64,
    finished: bool,
}

impl ShimCall {
    /// Attempts recorded so far.
    pub closed spec fn spec_attempts(self) -> u64 {
        self.attempts
    }

    /// Whether the call's outcome is settled.
    pub closed spec fn spec_finished(self) -> bool {
        self.finished
    }

    /// The shim never records more than two attempts, and an unfinished
    /// call always has room for one.
    pub closed spec fn inv(self) -> bool {
        &&& self.attempts <= 2
        &&& (!self.finished ==> self.attempts < 2)
    }

    /// A fresh call: nothing attempted, nothing settled.
    pub fn begin() -> (c: ShimCall)
        ensures
            c.inv(),
            c.spec_attempts() == 0,
            !c.spec_finished(),
    {
        ShimCall { attempts: 0, finished: false }
    }

    /// Number of attempts made.
    pub fn attempts(&self) -> (n: u64)
        ensures
            n == self.spec_attempts(),
    {
        self.attempts
    }

    /// Whether the call is settled.
    pub fn finished(&self) -> (b: bool)
        ensures
            b == self.spec_finished(),
    {
        self.finished
    }

    /// Record one attempt's outcome and decide: the call retries exactly
    /// when the attempt failed with a leader error and it was the first
    /// attempt; every other outcome settles the call.
    pub fn observe(&mut self, leader_error: bool) -> (d: ShimDecision)
        requires
            old(self).inv(),
            !old(self).spec_finished(),
        ensures
            final(self).inv(),
            final(self).spec_attempts() == old(self).spec_attempts() + 1,
            d == ShimDecision::RetryOnce <==> (leader_error && final(self).spec_attempts() < 2),
            final(self).spec_finished() <==> d == ShimDecision::Finish,
    {
        self.attempts = self.attempts + 1;
        if leader_error && self.attempts < 2 {
            ShimDecision::RetryOnce
        } else {
            self.finished = true;
            ShimDecision::Finish
        }
    }
}

/// Retry-bound law: whatever outcomes the attempts had, a call under the
/// shim's invariant has made at most two attempts in total.
pub proof fn lemma_retry_bound(c: ShimCall)
    requires
        c.inv(),
    ensures
        c.spec_attempts() <= 2,
{
}

/// Classify one attempt's outcome for the retry guard: retry exactly
/// when it failed with a leader error.
pub fn first_attempt_decision<V>(r: &Result<V, ApiError>) -> (d: ShimDecision)
    ensures
        d == ShimDecision::RetryOnce <==> (r matches Err(e) && spec_is_leader_error(e@)),
{
    match r {
        Ok(_) => ShimDecision::Finish,
        Err(e) => {
            if crate::protocol::is_leader_error(e) {
                ShimDecision::RetryOnce
            } else {
                ShimDecision::Finish
            }
        },
    }
}

/// Decision of the health probe: healthy exactly when the Raft metrics
/// report a running state and a settled leader.  A reported running
/// error surfaces unchanged as a Raft error; a missing leader reports
/// that the vote has not finished.
pub fn health_status(running_error: Option<Vec<u8>>, has_leader: bool) -> (r: Result<
    (),
    ApiError,
>)
    ensures
        running_error matches Some(m) ==> r == Err::<(), ApiError>(ApiError::Raft(m)),
        running_error is None && !has_leader ==> (r matches Err(e) && e@
            == ApiErrorV::LeaderChange(
            "The leader voting process has not finished yet".spec_bytes(),
        )),
        running_error is None && has_leader ==> r == Ok::<(), ApiError>(()),
{
    match running_error {
        Some(m) => Err(ApiError::Raft(m)),
        None => {
            if has_leader {
                Ok(())
            } else {
                let msg = vstd::string::StrSliceExecFns::as_bytes_vec(
                    "The leader voting process has not finished yet",
                );
                Err(ApiError::LeaderChange(msg))
            }
        },
    }
}

} // verus!
