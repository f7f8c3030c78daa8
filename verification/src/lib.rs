//! Verified core of a client-to-leader stream protocol: binary framing of
//! request/response records, per-client response buffering, the server
//! session state machine, request dispatch, the client-side in-flight table,
//! and the leader-resolution retry shim.

pub mod buffer;
pub mod codec;
pub mod dispatch;
pub mod inflight;
pub mod protocol;
pub mod session;
pub mod shim;
