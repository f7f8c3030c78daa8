//! Client-side table of in-flight requests.
//!
//! Each submitted request registers a completion slot under a fresh
//! `request_id`; the reader completes the slot whose id a received
//! response echoes.  The table holds at most one slot per id, so every
//! response matches at most one outstanding submission, and a completed
//! id matches none until the session is torn down and the waiters are
//! handed back.

use vstd::prelude::*;

use crate::codec::{encode_request, spec_enc_request};
use crate::protocol::{RequestPayload, StreamRequest};

verus! {

/// Completion slots of the requests still awaiting a response, keyed by
/// `request_id`.  `T` is the waiter: the sending half of a one-shot
/// channel in a live client.
pub struct InFlightTable<T> {
    entries: Vec<(u64, T)>,
    next_id: u64,
}

impl<T> InFlightTable<T> {
    /// The registered ids, in registration order.
    pub closed spec fn ids(self) -> Seq<u64> {
        self.entries@.map_values(|e: (u64, T)| e.0)
    }

    /// The registered slots with their ids, in registration order.
    pub closed spec fn slots(self) -> Seq<(u64, T)> {
        self.entries@
    }

    /// The id the next registration will take.
    pub closed spec fn spec_next_id(self) -> u64 {
        self.next_id
    }

    /// Well-formedness: ids are pairwise distinct and all lie below the
    /// counter, so a fresh registration can never collide.
    pub closed spec fn wf(self) -> bool {
        &&& forall|i: int, j: int|
            0 <= i < j < self.ids().len() ==> self.ids()[i] != self.ids()[j]
        &&& forall|i: int| 0 <= i < self.ids().len() ==> self.ids()[i] < self.next_id
    }

    /// Whether an id has an outstanding slot.
    pub open spec fn contains_id(self, id: u64) -> bool {
        self.ids().contains(id)
    }

    /// Empty table; the id counter starts at zero.
    pub fn new() -> (t: InFlightTable<T>)
        ensures
            t.wf(),
            t.slots() == Seq::<(u64, T)>::empty(),
            t.spec_next_id() == 0,
    {
        let t = InFlightTable { entries: Vec::new(), next_id: 0u64 };
        proof {
            assert(t.ids() =~= Seq::<u64>::empty());
        }
        t
    }

    /// Number of outstanding requests.
    pub fn len(&self) -> (n: usize)
        ensures
            n == self.slots().len(),
    {
        self.entries.len()
    }

    /// The id the next registration will take.
    pub fn next_id(&self) -> (n: u64)
        ensures
            n == self.spec_next_id(),
    {
        self.next_id
    }

    /// Register a waiter under a fresh id.  The id is the current
    /// counter value, strictly larger than every id handed out before;
    /// no outstanding slot is disturbed.  Ids do not wrap within a
    /// session, hence the bound on the counter.
    pub fn register(&mut self, slot: T) -> (id: u64)
        requires
            old(self).wf(),
            old(self).spec_next_id() < u64::MAX,
        ensures
            final(self).wf(),
            id == old(self).spec_next_id(),
            !old(self).contains_id(id),
            final(self).contains_id(id),
            final(self).slots() == old(self).slots().push((id, slot)),
            final(self).spec_next_id() == old(self).spec_next_id() + 1,
    {
        let id = self.next_id;
        proof {
            if old(self).contains_id(id) {
                let i = choose|i: int|
                    0 <= i < old(self).ids().len() && old(self).ids()[i] == id;
                assert(old(self).ids()[i] < id);
            }
        }
        self.entries.push((id, slot));
        self.next_id = self.next_id + 1;
        proof {
            assert(self.ids() =~= old(self).ids().push(id));
            assert(self.contains_id(id)) by {
                assert(self.ids()[self.ids().len() - 1] == id);
            }
        }
        id
    }

    /// Complete the outstanding slot whose id a response echoed.
    /// Returns the waiter exactly when the id is outstanding and removes
    /// it, so a second response with the same id matches nothing; every
    /// other slot keeps its place.
    pub fn complete(&mut self, id: u64) -> (r: Option<T>)
        requires
            old(self).wf(),
        ensures
            final(self).wf(),
            r is Some <==> old(self).contains_id(id),
            final(self).spec_next_id() == old(self).spec_next_id(),
            r matches Some(slot) ==> exists|i: int|
                {
                    &&& 0 <= i < old(self).slots().len()
                    &&& #[trigger] old(self).slots()[i] == (id, slot)
                    &&& final(self).slots() == old(self).slots().remove(i)
                },
            r is None ==> final(self).slots() == old(self).slots(),
            !final(self).contains_id(id),
    {
        let n = self.entries.len();
        let mut i: usize = 0;
        while i < n
            invariant
                old(self).wf(),
                n == self.slots().len(),
                i <= n,
                *self == *old(self),
                forall|j: int| 0 <= j < i ==> self.ids()[j] != id,
            decreases n - i,
        {
            if self.entries[i].0 == id {
                let ghost oldt = *old(self);
                let ghost oi = i as int;
                let pair = self.entries.remove(i);
                proof {
                    assert(oldt.ids()[oi] == id);
                    assert(oldt.contains_id(id));
                    assert(pair == (id, pair.1));
                    oldt.slots().remove_ensures(oi);
                    assert(self.slots() == oldt.slots().remove(oi));
                    assert(self.ids().len() == oldt.ids().len() - 1);
                    assert forall|m: int|
                        0 <= m < self.ids().len() implies #[trigger] self.ids()[m] != id by {
                        if m < oi {
                            assert(self.ids()[m] == oldt.ids()[m]);
                            assert(oldt.ids()[m] != oldt.ids()[oi]);
                        } else {
                            assert(self.ids()[m] == oldt.ids()[m + 1]);
                            assert(oldt.ids()[oi] != oldt.ids()[m + 1]);
                        }
                    }
                    assert(!self.contains_id(id)) by {
                        if self.contains_id(id) {
                            let m = choose|m: int|
                                0 <= m < self.ids().len() && self.ids()[m] == id;
                            assert(self.ids()[m] != id);
                        }
                    }
                    assert(self.wf()) by {
                        assert forall|a: int, b: int|
                            0 <= a < b < self.ids().len() implies self.ids()[a]
                            != self.ids()[b] by {
                            let a2: int = if a < oi {
                                a
                            } else {
                                a + 1
                            };
                            let b2: int = if b < oi {
                                b
                            } else {
                                b + 1
                            };
                            assert(self.ids()[a] == oldt.ids()[a2]);
                            assert(self.ids()[b] == oldt.ids()[b2]);
                            assert(oldt.ids()[a2] != oldt.ids()[b2]);
                        }
                        assert forall|a: int|
                            0 <= a < self.ids().len() implies self.ids()[a]
                            < self.spec_next_id() by {
                            let a2: int = if a < oi {
                                a
                            } else {
                                a + 1
                            };
                            assert(self.ids()[a] == oldt.ids()[a2]);
                        }
                    }
                }
                return Some(pair.1);
            }
            i += 1;
        }
        proof {
            if old(self).contains_id(id) {
                let m = choose|m: int|
                    0 <= m < old(self).ids().len() && old(self).ids()[m] == id;
                assert(old(self).ids()[m] != id);
            }
        }
        None
    }

    /// Tear the session down: hand every outstanding waiter back, in
    /// registration order, to be woken with a transport error.  The id
    /// counter is kept: ids stay unique across the reconnect.
    pub fn take_all(&mut self) -> (waiters: Vec<(u64, T)>)
        requires
            old(self).wf(),
        ensures
            final(self).wf(),
            waiters@ == old(self).slots(),
            final(self).slots() == Seq::<(u64, T)>::empty(),
            final(self).spec_next_id() == old(self).spec_next_id(),
    {
        let mut taken = Vec::new();
        std::mem::swap(&mut taken, &mut self.entries);
        proof {
            assert(self.ids() =~= Seq::<u64>::empty());
        }
        taken
    }
}

/// Prepare one submission: register the waiter under a fresh id, build
/// the request record around the payload, and serialize it as the frame
/// to send.  The returned record is what a re-send after reconnect must
/// transmit unchanged.
pub fn prepare_request<T>(table: &mut InFlightTable<T>, payload: RequestPayload, slot: T) -> (r: (
    StreamRequest,
    Vec<u8>,
))
    requires
        old(table).wf(),
        old(table).spec_next_id() < u64::MAX,
    ensures
        final(table).wf(),
        r.0.request_id == old(table).spec_next_id(),
        r.0.payload == payload,
        r.1@ == spec_enc_request(r.0@),
        !old(table).contains_id(r.0.request_id),
        final(table).contains_id(r.0.request_id),
        final(table).slots() == old(table).slots().push((r.0.request_id, slot)),
        final(table).spec_next_id() == old(table).spec_next_id() + 1,
{
    let id = table.register(slot);
    let req = StreamRequest { request_id: id, payload };
    let frame = encode_request(&req);
    (req, frame)
}

/// Freshness law: every outstanding id lies strictly below the counter,
/// so the id the next registration takes collides with nothing, and ids
/// grow monotonically over one client session.
pub proof fn lemma_ids_below_counter<T>(t: InFlightTable<T>, i: int)
    requires
        t.wf(),
        0 <= i < t.slots().len(),
    ensures
        t.slots()[i].0 < t.spec_next_id(),
{
    assert(t.ids()[i] == t.slots()[i].0);
}

/// Id-matching law: under well-formedness an id keys at most one
/// outstanding slot, so a response completes at most one submission.
pub proof fn lemma_at_most_one_slot<T>(t: InFlightTable<T>, i: int, j: int)
    requires
        t.wf(),
        0 <= i < t.slots().len(),
        0 <= j < t.slots().len(),
        t.slots()[i].0 == t.slots()[j].0,
    ensures
        i == j,
{
    assert(t.ids()[i] == t.slots()[i].0);
    assert(t.ids()[j] == t.slots()[j].0);
}

} // verus!
