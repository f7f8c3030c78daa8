//! The server stream session.
//!
//! One session serves one accepted connection.  It handshakes, drains
//! the client's buffer of undelivered responses, then runs a reader and
//! a writer: the reader classifies inbound frames and hands decoded
//! requests out to independent dispatch tasks, the writer transmits
//! response frames in arrival order.  Any transport error moves the
//! session to `Closing`; the writer then flushes every response still in
//! its channel into the client's buffer, so that an acknowledged write's
//! response is never lost.  The session's decisions stand here; the
//! transport reads, writes and task plumbing around them do not.

use vstd::prelude::*;
use vstd::string::StringSliceAdditionalSpecFns;
use vstd::string::StrSliceExecFns;

use crate::buffer::BufferRegistry;
use crate::codec::{encode_response, spec_dec_request, spec_enc_response};
use crate::codec::decode_request;
use crate::protocol::{StreamRequest, StreamResponse, StreamResponseV};

verus! {

/// Close code used by both close frames the session sends.
pub const CLOSE_CODE_NORMAL: u16 = 1000;

/// Reason text of a close frame.
#[derive(Debug, Clone, Copy, PartialEq, Eq, Structural)]
pub enum CloseReason {
    /// The handshake failed; the buffer is untouched.
    InvalidHandshake,
    /// The reader saw a malformed or unexpected frame.
    InvalidRequest,
}

/// The reason texts on the wire.
pub open spec fn spec_close_reason_bytes(r: CloseReason) -> Seq<u8> {
    match r {
        CloseReason::InvalidHandshake => "Invalid Handshake".spec_bytes(),
        CloseReason::InvalidRequest => "Invalid Request".spec_bytes(),
    }
}

/// Reason text of a close frame, as bytes.
pub fn close_reason_bytes(r: CloseReason) -> (b: Vec<u8>)
    ensures
        b@ == spec_close_reason_bytes(r),
{
    match r {
        CloseReason::InvalidHandshake => StrSliceExecFns::as_bytes_vec("Invalid Handshake"),
        CloseReason::InvalidRequest => StrSliceExecFns::as_bytes_vec("Invalid Request"),
    }
}

/// The session's phase.
#[derive(Debug, Clone, Copy, PartialEq, Eq, Structural)]
pub enum SessionState {
    /// The connection upgrade has not completed yet.
    AwaitingUpgrade,
    /// Exchanging the handshake secret.
    Handshaking,
    /// Delivering the frames buffered for this client before accepting
    /// new requests.
    Draining,
    /// Reader and writer running; requests dispatched concurrently.
    Running,
    /// The writer flushes its channel into the client's buffer.
    Closing,
    /// Terminal.
    Closed,
}

/// What the transport or a task reports to the session.
#[derive(Debug, Clone, Copy, PartialEq, Eq, Structural)]
pub enum SessionEvent {
    /// The connection upgrade completed.
    Upgraded,
    /// The handshake authenticated the client.
    HandshakeOk,
    /// The handshake failed: close with `InvalidHandshake`, buffer untouched.
    HandshakeFailed,
    /// One buffered frame was delivered; draining continues.
    DrainDelivered,
    /// The buffer is empty; the session starts accepting requests.
    DrainFinished,
    /// A buffered frame could not be sent; it went back to the front.
    DrainFailed,
    /// The reader saw a Close frame.
    CloseReceived,
    /// The reader saw a malformed or non-binary frame.
    MalformedFrame,
    /// The writer could not send a response frame.
    WriteFailed,
    /// The writer flushed its remaining channel into the buffer.
    FlushedToBuffer,
}

/// The session's transition relation: exactly the edges of its diagram;
/// every other event leaves the phase unchanged.
pub open spec fn spec_session_step(s: SessionState, ev: SessionEvent) -> SessionState {
    match (s, ev) {
        (SessionState::AwaitingUpgrade, SessionEvent::Upgraded) => SessionState::Handshaking,
        (SessionState::Handshaking, SessionEvent::HandshakeOk) => SessionState::Draining,
        (SessionState::Handshaking, SessionEvent::HandshakeFailed) => SessionState::Closed,
        (SessionState::Draining, SessionEvent::DrainDelivered) => SessionState::Draining,
        (SessionState::Draining, SessionEvent::DrainFinished) => SessionState::Running,
        (SessionState::Draining, SessionEvent::DrainFailed) => SessionState::Closed,
        (SessionState::Running, SessionEvent::CloseReceived) => SessionState::Closing,
        (SessionState::Running, SessionEvent::MalformedFrame) => SessionState::Closing,
        (SessionState::Running, SessionEvent::WriteFailed) => SessionState::Closing,
        (SessionState::Closing, SessionEvent::FlushedToBuffer) => SessionState::Closed,
        (s, _) => s,
    }
}

/// Advance the session by one observed event.
pub fn session_step(s: SessionState, ev: SessionEvent) -> (t: SessionState)
    ensures
        t == spec_session_step(s, ev),
{
    match (s, ev) {
        (SessionState::AwaitingUpgrade, SessionEvent::Upgraded) => SessionState::Handshaking,
        (SessionState::Handshaking, SessionEvent::HandshakeOk) => SessionState::Draining,
        (SessionState::Handshaking, SessionEvent::HandshakeFailed) => SessionState::Closed,
        (SessionState::Draining, SessionEvent::DrainDelivered) => SessionState::Draining,
        (SessionState::Draining, SessionEvent::DrainFinished) => SessionState::Running,
        (SessionState::Draining, SessionEvent::DrainFailed) => SessionState::Closed,
        (SessionState::Running, SessionEvent::CloseReceived) => SessionState::Closing,
        (SessionState::Running, SessionEvent::MalformedFrame) => SessionState::Closing,
        (SessionState::Running, SessionEvent::WriteFailed) => SessionState::Closing,
        (SessionState::Closing, SessionEvent::FlushedToBuffer) => SessionState::Closed,
        (other, _) => other,
    }
}

/// Shape of the session's lifecycle: `Closed` is terminal, a running
/// session leaves only into `Closing`, and `Closing` only settles into
/// `Closed` after the flush.
pub proof fn lemma_session_lifecycle(ev: SessionEvent)
    ensures
        spec_session_step(SessionState::Closed, ev) == SessionState::Closed,
        spec_session_step(SessionState::Running, ev) == SessionState::Running
            || spec_session_step(SessionState::Running, ev) == SessionState::Closing,
        spec_session_step(SessionState::Closing, ev) == SessionState::Closing
            || spec_session_step(SessionState::Closing, ev) == SessionState::Closed,
{
}

/// Opcode class of an inbound frame, as the transport reports it.
#[derive(Debug, Clone, Copy, PartialEq, Eq, Structural)]
pub enum FrameKind {
    /// A binary frame: carries one serialized request.
    Binary,
    /// A Close frame.
    Close,
    /// Any other application opcode.
    Other,
}

/// The reader's decision for one inbound frame.
#[derive(Debug, PartialEq, Eq)]
pub enum ReaderStep {
    /// A well-formed request: dispatch it on its own task and read on.
    Dispatch(StreamRequest),
    /// Stop reading and signal the writer to close with
    /// `InvalidRequest`: the frame was malformed or unexpected.
    SignalBreak,
    /// The peer closed; stop reading.
    PeerClosed,
}

/// Classify one inbound frame: a binary frame that decodes is
/// dispatched; a binary frame that does not decode, and every
/// unexpected opcode, breaks the session; a Close frame ends it.
pub fn reader_step(kind: FrameKind, payload: &[u8]) -> (s: ReaderStep)
    ensures
        match s {
            ReaderStep::Dispatch(req) => kind == FrameKind::Binary && spec_dec_request(payload@)
                == Some(req@),
            ReaderStep::SignalBreak => kind == FrameKind::Other || (kind == FrameKind::Binary
                && spec_dec_request(payload@) is None),
            ReaderStep::PeerClosed => kind == FrameKind::Close,
        },
{
    match kind {
        FrameKind::Close => ReaderStep::PeerClosed,
        FrameKind::Binary => {
            match decode_request(payload) {
                Some(req) => ReaderStep::Dispatch(req),
                None => ReaderStep::SignalBreak,
            }
        },
        FrameKind::Other => ReaderStep::SignalBreak,
    }
}

/// One message in the writer's channel.
#[derive(Debug, PartialEq, Eq)]
pub enum WriterMsg {
    /// A computed response to serialize and transmit.
    Payload(StreamResponse),
    /// The reader broke: close the stream gracefully.
    Break,
}

/// The writer's next wire operation.
#[derive(Debug, PartialEq, Eq)]
pub enum WriterAction {
    /// Send these bytes as one binary frame.  If the send fails, the
    /// frame must go into the client's buffer and the writer stops.
    SendFrame(Vec<u8>),
    /// Send a close frame, ignoring errors, and stop.
    SendClose(u16, Vec<u8>),
}

/// Decide the wire operation for one writer message.  A response is
/// serialized exactly once; a break becomes the `Invalid Request` close.
pub fn writer_step(msg: &WriterMsg) -> (a: WriterAction)
    ensures
        match a {
            WriterAction::SendFrame(f) => msg matches WriterMsg::Payload(resp) && f@
                == spec_enc_response(resp@),
            WriterAction::SendClose(code, reason) => {
                &&& msg is Break
                &&& code == CLOSE_CODE_NORMAL
                &&& reason@ == spec_close_reason_bytes(CloseReason::InvalidRequest)
            },
        },
{
    match msg {
        WriterMsg::Payload(resp) => WriterAction::SendFrame(encode_response(resp)),
        WriterMsg::Break => WriterAction::SendClose(
            CLOSE_CODE_NORMAL,
            close_reason_bytes(CloseReason::InvalidRequest),
        ),
    }
}

/// The frames buffered for a client, empty when none are.
pub open spec fn buffer_of(m: Map<u64, Seq<Seq<u8>>>, client_id: u64) -> Seq<Seq<u8>> {
    if m.contains_key(client_id) {
        m[client_id]
    } else {
        Seq::<Seq<u8>>::empty()
    }
}

/// Closing flush: append the encoding of every response still pending
/// in the writer's channel to the client's buffer, in channel order,
/// each serialized exactly once.  Nothing else in the registry moves.
pub fn flush_pending(reg: &mut BufferRegistry, client_id: u64, pending: Vec<StreamResponse>)
    ensures
        final(reg)@ == old(reg)@.insert(
            client_id,
            buffer_of(old(reg)@, client_id) + pending@.map_values(
                |r: StreamResponse| spec_enc_response(r@),
            ),
        ),
{
    let ghost base = buffer_of(old(reg)@, client_id);
    let ghost all = pending@;
    let n = pending.len();
    let mut i: usize = 0;
    proof {
        assert(base + all.subrange(0, 0).map_values(|r: StreamResponse| spec_enc_response(r@))
            =~= base);
    }
    if n == 0 {
        reg.ensure_buffer(client_id);
        proof {
            assert(all.map_values(|r: StreamResponse| spec_enc_response(r@)) =~= Seq::<
                Seq<u8>,
            >::empty());
            assert(final(reg)@ =~= old(reg)@.insert(client_id, base + all.map_values(
                |r: StreamResponse| spec_enc_response(r@),
            )));
        }
        return ;
    }
    while i < n
        invariant
            n == all.len(),
            0 < n,
            i <= n,
            pending@ == all,
            base == buffer_of(old(reg)@, client_id),
            i == 0 ==> reg@ == old(reg)@,
            i > 0 ==> reg@ == old(reg)@.insert(
                client_id,
                base + all.subrange(0, i as int).map_values(
                    |r: StreamResponse| spec_enc_response(r@),
                ),
            ),
        decreases n - i,
    {
        let frame = encode_response(&pending[i]);
        reg.push_to(client_id, frame);
        proof {
            let f = |r: StreamResponse| spec_enc_response(r@);
            assert(all.subrange(0, i as int).map_values(f).push(spec_enc_response(all[i as int]@))
                =~= all.subrange(0, i + 1 as int).map_values(f));
            assert((base + all.subrange(0, i as int).map_values(f)).push(
                spec_enc_response(all[i as int]@),
            ) =~= base + all.subrange(0, i + 1 as int).map_values(f));
            if i == 0 {
                if old(reg)@.contains_key(client_id) {
                    assert(old(reg)@[client_id].push(spec_enc_response(all[0]@)) =~= base
                        + all.subrange(0, 1).map_values(f));
                } else {
                    assert(Seq::<Seq<u8>>::empty().push(spec_enc_response(all[0]@)) =~= base
                        + all.subrange(0, 1).map_values(f));
                }
                assert(reg@ =~= old(reg)@.insert(client_id, base + all.subrange(0, 1).map_values(
                    f,
                )));
            } else {
                assert(reg@ =~= old(reg)@.insert(
                    client_id,
                    base + all.subrange(0, i + 1 as int).map_values(f),
                ));
            }
        }
        i += 1;
    }
    proof {
        assert(all.subrange(0, n as int) =~= all);
    }
}

/// No-loss law (writer side): after the closing flush, every pending
/// response's encoding stands in the client's buffer, behind everything
/// buffered before and in channel order.
pub proof fn lemma_no_loss_flush(
    base: Map<u64, Seq<Seq<u8>>>,
    client_id: u64,
    pending: Seq<Seq<u8>>,
)
    ensures
        ({
            let after = buffer_of(base, client_id) + pending;
            &&& forall|i: int|
                0 <= i < pending.len() ==> after[buffer_of(base, client_id).len() + i]
                    == pending[i]
            &&& forall|i: int|
                0 <= i < buffer_of(base, client_id).len() ==> after[i] == buffer_of(
                    base,
                    client_id,
                )[i]
        }),
{
}

/// What one session's writer does with the responses handed to it, as a
/// function of where the transport first failed: every response before
/// the failure went out on the wire, the failing one and everything
/// after it land in the client's buffer.  `first_failure` is the number
/// of successful sends; a session whose transport never fails sends all.
pub open spec fn spec_writer_sent(msgs: Seq<StreamResponseV>, first_failure: int) -> Seq<
    Seq<u8>,
> {
    msgs.subrange(0, first_failure).map_values(|r: StreamResponseV| spec_enc_response(r))
}

/// The frames the writer leaves in the client's buffer; see
/// [`spec_writer_sent`].
pub open spec fn spec_writer_buffered(msgs: Seq<StreamResponseV>, first_failure: int) -> Seq<
    Seq<u8>,
> {
    msgs.subrange(first_failure, msgs.len() as int).map_values(
        |r: StreamResponseV| spec_enc_response(r),
    )
}

/// No-loss law (session writer): whatever the transport did, the frames
/// the writer sent and the frames it left in the client's buffer are
/// together exactly the encodings of the responses handed to it, in
/// order: a transport failure moves the tail into the buffer, it loses
/// nothing and duplicates nothing.
pub proof fn lemma_writer_no_loss(msgs: Seq<StreamResponseV>, first_failure: int)
    requires
        0 <= first_failure <= msgs.len(),
    ensures
        spec_writer_sent(msgs, first_failure) + spec_writer_buffered(msgs, first_failure)
            == msgs.map_values(|r: StreamResponseV| spec_enc_response(r)),
        spec_writer_sent(msgs, first_failure).len() + spec_writer_buffered(
            msgs,
            first_failure,
        ).len() == msgs.len(),
{
    let f = |r: StreamResponseV| spec_enc_response(r);
    assert(msgs.subrange(0, first_failure).map_values(f) + msgs.subrange(
        first_failure,
        msgs.len() as int,
    ).map_values(f) =~= msgs.map_values(f));
}

/// No-loss law (drain side): a drain that delivered some prefix of the
/// buffer and stopped has changed nothing about the remaining frames:
/// what was delivered and what stands in the buffer are together the
/// buffer as it was, in order.
pub proof fn lemma_drain_no_loss(buf: Seq<Seq<u8>>, delivered: int)
    requires
        0 <= delivered <= buf.len(),
    ensures
        buf.subrange(0, delivered) + buf.subrange(delivered, buf.len() as int) == buf,
{
    assert(buf.subrange(0, delivered) + buf.subrange(delivered, buf.len() as int) =~= buf);
}

/// No-loss law (drain side): a frame taken from the front of the buffer
/// and put back on a failed send restores the buffer exactly; nothing
/// is lost and nothing is reordered by the failed attempt.
pub proof fn lemma_drain_restore(buf: Seq<Seq<u8>>)
    requires
        buf.len() > 0,
    ensures
        seq![buf[0]] + buf.subrange(1, buf.len() as int) == buf,
{
    assert(seq![buf[0]] + buf.subrange(1, buf.len() as int) =~= buf);
}

} // verus!
