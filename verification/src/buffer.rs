//! Per-client response buffering.
//!
//! A [`ClientBuffer`] is a FIFO of serialized response frames that the
//! writer could not deliver on the connection that computed them; the
//! frames wait there for a later connection of the same client.  The
//! [`BufferRegistry`] is the process-wide mapping from client id to its
//! buffer: looking a client up is idempotent and creates the buffer on
//! first use, and a buffer, once created, lives as long as the registry.

use std::collections::HashMap;
use std::collections::VecDeque;

use vstd::prelude::*;

verus! {

/// FIFO of undelivered response frames for one client.
pub struct ClientBuffer {
    frames: VecDeque<Vec<u8>>,
}

impl View for ClientBuffer {
    type V = Seq<Seq<u8>>;

    closed spec fn view(&self) -> Seq<Seq<u8>> {
        self.frames@.map_values(|f: Vec<u8>| f@)
    }
}

impl ClientBuffer {
    /// Empty buffer.
    pub fn new() -> (b: ClientBuffer)
        ensures
            b@ == Seq::<Seq<u8>>::empty(),
    {
        let b = ClientBuffer { frames: VecDeque::new() };
        proof {
            assert(b@ =~= Seq::<Seq<u8>>::empty());
        }
        b
    }

    /// Number of buffered frames.
    pub fn len(&self) -> (n: usize)
        ensures
            n == self@.len(),
    {
        self.frames.len()
    }

    /// Append a frame at the back; always succeeds, never blocks.
    pub fn push_back(&mut self, frame: Vec<u8>)
        ensures
            final(self)@ == old(self)@.push(frame@),
    {
        self.frames.push_back(frame);
        proof {
            assert(self@ =~= old(self)@.push(frame@));
        }
    }

    /// Put a frame back at the front, undoing a failed delivery attempt:
    /// the frame keeps its place ahead of everything buffered after it.
    pub fn push_front(&mut self, frame: Vec<u8>)
        ensures
            final(self)@ == seq![frame@] + old(self)@,
    {
        self.frames.push_front(frame);
        proof {
            assert(self@ =~= seq![frame@] + old(self)@);
        }
    }

    /// Take the oldest frame, if any; non-blocking.
    pub fn try_pop(&mut self) -> (r: Option<Vec<u8>>)
        ensures
            match r {
                Some(f) => old(self)@.len() > 0 && f@ == old(self)@[0] && final(self)@ == old(
                    self,
                )@.subrange(1, old(self)@.len() as int),
                None => old(self)@.len() == 0 && final(self)@ == old(self)@,
            },
    {
        let r = self.frames.pop_front();
        proof {
            if old(self)@.len() > 0 {
                assert(self@ =~= old(self)@.subrange(1, old(self)@.len() as int));
            }
        }
        r
    }
}

/// Buffer-ordering law: writing one more frame moves no frame that was
/// already buffered; the new frame stands last.  Together with
/// [`ClientBuffer::try_pop`], which always yields the frame at position
/// zero, buffered frames leave in exactly the order they were written.
pub proof fn lemma_buffer_fifo(prior: Seq<Seq<u8>>, frame: Seq<u8>)
    ensures
        prior.push(frame).len() == prior.len() + 1,
        forall|i: int| 0 <= i < prior.len() ==> prior.push(frame)[i] == prior[i],
        prior.push(frame)[prior.len() as int] == frame,
{
}

/// Process-wide mapping from client id to that client's buffer.
pub struct BufferRegistry {
    buffers: HashMap<u64, ClientBuffer>,
}

impl View for BufferRegistry {
    type V = Map<u64, Seq<Seq<u8>>>;

    closed spec fn view(&self) -> Map<u64, Seq<Seq<u8>>> {
        self.buffers@.map_values(|b: ClientBuffer| b@)
    }
}

impl BufferRegistry {
    /// Empty registry; made once at server start.
    pub fn new() -> (r: BufferRegistry)
        ensures
            r@ == Map::<u64, Seq<Seq<u8>>>::empty(),
    {
        let r = BufferRegistry { buffers: HashMap::new() };
        proof {
            assert(r@ =~= Map::<u64, Seq<Seq<u8>>>::empty());
        }
        r
    }

    /// Whether a buffer exists for this client.
    pub fn contains(&self, client_id: u64) -> (b: bool)
        ensures
            b == self@.contains_key(client_id),
    {
        self.buffers.contains_key(&client_id)
    }

    /// Look a client up, creating its empty buffer on first use;
    /// idempotent.  The buffer is never destroyed afterwards: it may
    /// hold unacknowledged work.
    pub fn ensure_buffer(&mut self, client_id: u64)
        ensures
            final(self)@ == if old(self)@.contains_key(client_id) {
                old(self)@
            } else {
                old(self)@.insert(client_id, Seq::<Seq<u8>>::empty())
            },
            final(self)@.contains_key(client_id),
    {
        if !self.buffers.contains_key(&client_id) {
            self.buffers.insert(client_id, ClientBuffer::new());
            proof {
                assert(self@ =~= old(self)@.insert(client_id, Seq::<Seq<u8>>::empty()));
            }
        } else {
            proof {
                assert(self@ =~= old(self)@);
            }
        }
    }

    /// Append an undelivered frame at the back of this client's buffer,
    /// creating the buffer on first use.  Every other client's buffer is
    /// untouched.
    pub fn push_to(&mut self, client_id: u64, frame: Vec<u8>)
        ensures
            final(self)@ == old(self)@.insert(
                client_id,
                if old(self)@.contains_key(client_id) {
                    old(self)@[client_id].push(frame@)
                } else {
                    Seq::<Seq<u8>>::empty().push(frame@)
                },
            ),
    {
        let mut buf = match self.buffers.remove(&client_id) {
            Some(b) => b,
            None => ClientBuffer::new(),
        };
        buf.push_back(frame);
        self.buffers.insert(client_id, buf);
        proof {
            if old(self)@.contains_key(client_id) {
                assert(self@ =~= old(self)@.insert(
                    client_id,
                    old(self)@[client_id].push(frame@),
                ));
            } else {
                assert(self@ =~= old(self)@.insert(
                    client_id,
                    Seq::<Seq<u8>>::empty().push(frame@),
                ));
            }
        }
    }

    /// Put a frame back at the front of this client's buffer after a
    /// failed delivery attempt during draining.
    pub fn push_front_to(&mut self, client_id: u64, frame: Vec<u8>)
        ensures
            final(self)@ == old(self)@.insert(
                client_id,
                seq![frame@] + if old(self)@.contains_key(client_id) {
                    old(self)@[client_id]
                } else {
                    Seq::<Seq<u8>>::empty()
                },
            ),
    {
        let mut buf = match self.buffers.remove(&client_id) {
            Some(b) => b,
            None => ClientBuffer::new(),
        };
        buf.push_front(frame);
        self.buffers.insert(client_id, buf);
        proof {
            if old(self)@.contains_key(client_id) {
                assert(self@ =~= old(self)@.insert(
                    client_id,
                    seq![frame@] + old(self)@[client_id],
                ));
            } else {
                assert(self@ =~= old(self)@.insert(
                    client_id,
                    seq![frame@] + Seq::<Seq<u8>>::empty(),
                ));
            }
        }
    }

    /// Take the oldest buffered frame of this client, if any.
    pub fn try_pop_from(&mut self, client_id: u64) -> (r: Option<Vec<u8>>)
        ensures
            match r {
                Some(f) => {
                    &&& old(self)@.contains_key(client_id)
                    &&& old(self)@[client_id].len() > 0
                    &&& f@ == old(self)@[client_id][0]
                    &&& final(self)@ == old(self)@.insert(
                        client_id,
                        old(self)@[client_id].subrange(
                            1,
                            old(self)@[client_id].len() as int,
                        ),
                    )
                },
                None => {
                    &&& final(self)@ == old(self)@
                    &&& (old(self)@.contains_key(client_id) ==> old(self)@[client_id].len()
                        == 0)
                },
            },
    {
        match self.buffers.remove(&client_id) {
            Some(mut buf) => {
                let r = buf.try_pop();
                self.buffers.insert(client_id, buf);
                proof {
                    if old(self)@[client_id].len() > 0 {
                        assert(self@ =~= old(self)@.insert(
                            client_id,
                            old(self)@[client_id].subrange(
                                1,
                                old(self)@[client_id].len() as int,
                            ),
                        ));
                    } else {
                        assert(self@ =~= old(self)@);
                    }
                }
                r
            },
            None => None,
        }
    }
}

} // verus!
