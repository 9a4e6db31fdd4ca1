//! Stream bookkeeping of a QUIC connection: ids of outgoing streams, the
//! incoming streams seen and not yet accepted, and streams on their way to
//! being closed.
//!
//! Outgoing stream ids advance by four from the first one. An id of the
//! other parity than the outgoing ids belongs to a stream the peer opened;
//! the first time such an id is seen it is registered and queued for accept.
//! A stream that is dropped is queued; once its fin is sent it waits,
//! half-closed, until the peer finishes it too.
use vstd::prelude::*;

use std::collections::{HashSet, VecDeque};

use super::listener::AcceptStep;

verus! {

broadcast use vstd::std_specs::hash::group_hash_axioms;

/// The connection is closed: it opens no stream, and the caller fails with
/// a broken pipe.
#[derive(Debug, Clone, Copy, PartialEq, Eq, Structural)]
pub struct ConnClosed;

/// Stream-id bookkeeping of one connection.
pub struct StreamTable {
    register_incoming_stream_ids: HashSet<u64>,
    lastest_outgoing_stream_id: u64,
    incoming: VecDeque<u64>,
    dropping_stream_queue: VecDeque<u64>,
    half_closed_streams: VecDeque<u64>,
}

/// Whether `id` is of the other parity than the outgoing ids, that is, an id
/// of a stream that the peer opens.
pub open spec fn is_peer_stream(outgoing: u64, id: u64) -> bool {
    outgoing % 2 != id % 2
}

/// The ids registered when the table is created from the streams that are
/// already readable: those opened by the peer.
pub open spec fn initial_registered(first: u64, readable: Seq<u64>) -> Set<u64> {
    Set::new(|id: u64| readable.contains(id) && is_peer_stream(first, id))
}

impl StreamTable {
    /// Ids of peer streams seen so far.
    pub closed spec fn registered(&self) -> Set<u64> {
        self.register_incoming_stream_ids@
    }

    /// The id the next outgoing stream gets.
    pub closed spec fn next_outgoing(&self) -> u64 {
        self.lastest_outgoing_stream_id
    }

    /// Incoming streams waiting to be accepted, oldest first.
    pub closed spec fn incoming(&self) -> Seq<u64> {
        self.incoming@
    }

    /// Streams dropped by the user whose fin is still to be sent.
    pub closed spec fn dropping(&self) -> Seq<u64> {
        self.dropping_stream_queue@
    }

    /// Streams whose fin was sent and that wait for the peer's.
    pub closed spec fn half_closed(&self) -> Seq<u64> {
        self.half_closed_streams@
    }

    /// Creates the table of a connection whose first outgoing stream has id
    /// `first_outgoing_stream_id`, given the streams that are readable when
    /// the connection is set up. Every readable stream is queued for accept;
    /// those opened by the peer are also registered.
    pub fn new(first_outgoing_stream_id: u64, readable: &[u64]) -> (r: Self)
        ensures
            r.next_outgoing() == first_outgoing_stream_id,
            r.incoming() == readable@,
            r.registered() == initial_registered(first_outgoing_stream_id, readable@),
            r.dropping() == Seq::<u64>::empty(),
            r.half_closed() == Seq::<u64>::empty(),
    {
        let mut registered: HashSet<u64> = HashSet::new();
        let mut incoming: VecDeque<u64> = VecDeque::new();
        let mut i: usize = 0;
        while i < readable.len()
            invariant
                i <= readable@.len(),
                incoming@ == readable@.take(i as int),
                registered@ == Set::new(
                    |id: u64|
                        readable@.take(i as int).contains(id) && is_peer_stream(
                            first_outgoing_stream_id,
                            id,
                        ),
                ),
            decreases readable@.len() - i,
        {
            let id = readable[i];
            let ghost before = registered@;
            if id % 2 != first_outgoing_stream_id % 2 {
                registered.insert(id);
            }
            incoming.push_back(id);
            proof {
                let t = readable@.take(i as int);
                let t1 = readable@.take(i + 1);
                assert(t1 =~= t.push(id));
                assert forall|x: u64| #[trigger]
                    t1.contains(x) <==> t.contains(x) || x == id by {
                    if t1.contains(x) {
                        let j = choose|j: int| 0 <= j < t1.len() && t1[j] == x;
                        if j < t.len() {
                            assert(t[j] == x);
                        }
                    }
                    if t.contains(x) {
                        let j = choose|j: int| 0 <= j < t.len() && t[j] == x;
                        assert(t1[j] == x);
                    }
                    if x == id {
                        assert(t1[i as int] == x);
                    }
                }
                assert(registered@ =~= Set::new(
                    |x: u64| t1.contains(x) && is_peer_stream(first_outgoing_stream_id, x),
                ));
            }
            i += 1;
        }
        assert(readable@.take(readable@.len() as int) =~= readable@);
        StreamTable {
            register_incoming_stream_ids: registered,
            lastest_outgoing_stream_id: first_outgoing_stream_id,
            incoming,
            dropping_stream_queue: VecDeque::new(),
            half_closed_streams: VecDeque::new(),
        }
    }

    /// Handles a stream id that the connection reports readable or writable.
    /// An id of a peer stream that was not seen before is registered and
    /// queued for accept, and `true` says so; any other id changes nothing.
    pub fn handle_incoming_stream(&mut self, id: u64) -> (added: bool)
        ensures
            added == (is_peer_stream(old(self).next_outgoing(), id) && !old(
                self,
            ).registered().contains(id)),
            final(self).registered() == if added {
                old(self).registered().insert(id)
            } else {
                old(self).registered()
            },
            final(self).incoming() == if added {
                old(self).incoming().push(id)
            } else {
                old(self).incoming()
            },
            final(self).next_outgoing() == old(self).next_outgoing(),
            final(self).dropping() == old(self).dropping(),
            final(self).half_closed() == old(self).half_closed(),
            ({
                let o = stream_op(
                    old(self).registered(),
                    old(self).incoming(),
                    old(self).next_outgoing(),
                    StreamOp::Seen(id),
                );
                final(self).registered() == o.0 && final(self).incoming() == o.1
            }),
    {
        if self.lastest_outgoing_stream_id % 2 != id % 2 && !self.register_incoming_stream_ids.contains(
            &id,
        ) {
            self.register_incoming_stream_ids.insert(id);
            self.incoming.push_back(id);
            true
        } else {
            false
        }
    }

    /// Handles the stream ids that the connection reports readable or
    /// writable after it read or wrote, in order, as
    /// [`StreamTable::handle_incoming_stream`] does for each. Returns how many
    /// were new peer streams, each of which the caller announces for accept.
    pub fn handle_ready_streams(&mut self, ids: &[u64]) -> (added: usize)
        ensures
            final(self).registered() == absorb_streams(
                old(self).registered(),
                old(self).incoming(),
                old(self).next_outgoing(),
                ids@,
            ).0,
            final(self).incoming() == absorb_streams(
                old(self).registered(),
                old(self).incoming(),
                old(self).next_outgoing(),
                ids@,
            ).1,
            added == final(self).incoming().len() - old(self).incoming().len(),
            final(self).next_outgoing() == old(self).next_outgoing(),
            final(self).dropping() == old(self).dropping(),
            final(self).half_closed() == old(self).half_closed(),
    {
        let ghost reg0 = self.registered();
        let ghost inc0 = self.incoming();
        let mut added: usize = 0;
        let mut i: usize = 0;
        while i < ids.len()
            invariant
                i <= ids@.len(),
                (self.registered(), self.incoming()) == absorb_streams(
                    reg0,
                    inc0,
                    self.next_outgoing(),
                    ids@.take(i as int),
                ),
                self.next_outgoing() == old(self).next_outgoing(),
                self.dropping() == old(self).dropping(),
                self.half_closed() == old(self).half_closed(),
                reg0 == old(self).registered(),
                inc0 == old(self).incoming(),
                added == self.incoming().len() - inc0.len(),
                added <= i,
            decreases ids@.len() - i,
        {
            assert(ids@.take(i + 1).drop_last() =~= ids@.take(i as int));
            if self.handle_incoming_stream(ids[i]) {
                added = added + 1;
            }
            i = i + 1;
        }
        assert(ids@.take(ids@.len() as int) =~= ids@);
        added
    }

    /// The id the next outgoing stream gets.
    pub fn next_outgoing_stream_id(&self) -> (id: u64)
        ensures
            id == self.next_outgoing(),
    {
        self.lastest_outgoing_stream_id
    }

    /// Hands out the id for a new outgoing stream; the next one is four
    /// further on.
    pub fn open_stream(&mut self) -> (id: u64)
        requires
            old(self).next_outgoing() <= u64::MAX - 4,
        ensures
            id == old(self).next_outgoing(),
            final(self).next_outgoing() == id + 4,
            final(self).registered() == old(self).registered(),
            final(self).incoming() == old(self).incoming(),
            final(self).dropping() == old(self).dropping(),
            final(self).half_closed() == old(self).half_closed(),
    {
        let stream_id = self.lastest_outgoing_stream_id;
        self.lastest_outgoing_stream_id = stream_id + 4;
        stream_id
    }

    /// Hands out the id for a new outgoing stream of a connection that is
    /// closed when `closed`: a closed connection refuses the stream and no
    /// id is used up; otherwise the id is handed out as by
    /// [`StreamTable::open_stream`].
    pub fn open_stream_checked(&mut self, closed: bool) -> (r: Result<u64, ConnClosed>)
        requires
            old(self).next_outgoing() <= u64::MAX - 4,
        ensures
            closed ==> r is Err && *final(self) == *old(self),
            !closed ==> r == Ok::<u64, ConnClosed>(old(self).next_outgoing()) && final(self).next_outgoing()
                == old(self).next_outgoing() + 4 && final(self).registered() == old(self).registered()
                && final(self).incoming() == old(self).incoming() && final(self).dropping() == old(
                self,
            ).dropping() && final(self).half_closed() == old(self).half_closed(),
    {
        if closed {
            return Err(ConnClosed);
        }
        Ok(self.open_stream())
    }

    /// Takes the oldest incoming stream waiting to be accepted.
    pub fn accept(&mut self) -> (r: Option<u64>)
        ensures
            old(self).incoming().len() == 0 ==> r is None && final(self).incoming()
                == old(self).incoming(),
            old(self).incoming().len() > 0 ==> r == Some(old(self).incoming()[0])
                && final(self).incoming() == old(self).incoming().drop_first(),
            final(self).registered() == old(self).registered(),
            final(self).next_outgoing() == old(self).next_outgoing(),
            final(self).dropping() == old(self).dropping(),
            final(self).half_closed() == old(self).half_closed(),
            ({
                let o = stream_op(
                    old(self).registered(),
                    old(self).incoming(),
                    old(self).next_outgoing(),
                    StreamOp::Accept,
                );
                &&& final(self).registered() == o.0
                &&& final(self).incoming() == o.1
                &&& r matches Some(x) ==> o.2 == seq![x]
                &&& r is None ==> o.2.len() == 0
            }),
    {
        self.incoming.pop_front()
    }

    /// Takes the oldest incoming stream waiting to be accepted on a
    /// connection that is closed when `closed`: a closed connection hands
    /// out no stream and changes nothing; otherwise the oldest waiting
    /// stream is taken, or the caller has to wait for one.
    pub fn accept_checked(&mut self, closed: bool) -> (r: AcceptStep<u64>)
        ensures
            closed ==> r is Closed && *final(self) == *old(self),
            !closed && old(self).incoming().len() == 0 ==> r is Wait && *final(self) == *old(self),
            !closed && old(self).incoming().len() > 0 ==> r == AcceptStep::Conn(old(self).incoming()[0])
                && final(self).incoming() == old(self).incoming().drop_first() && final(self).registered()
                == old(self).registered() && final(self).next_outgoing() == old(self).next_outgoing()
                && final(self).dropping() == old(self).dropping() && final(self).half_closed() == old(
                self,
            ).half_closed(),
    {
        if closed {
            return AcceptStep::Closed;
        }
        if self.incoming.len() == 0 {
            return AcceptStep::Wait;
        }
        match self.incoming.pop_front() {
            Some(id) => AcceptStep::Conn(id),
            None => AcceptStep::Wait,
        }
    }

    /// Queues a stream that the user dropped; its fin is sent on the next
    /// read of connection data.
    pub fn close_stream(&mut self, id: u64)
        ensures
            final(self).dropping() == old(self).dropping().push(id),
            final(self).registered() == old(self).registered(),
            final(self).next_outgoing() == old(self).next_outgoing(),
            final(self).incoming() == old(self).incoming(),
            final(self).half_closed() == old(self).half_closed(),
    {
        self.dropping_stream_queue.push_back(id);
    }

    /// Empties the queue of dropped streams, oldest first, and moves them to
    /// the half-closed streams. Returns them: the caller sends a fin on each.
    pub fn handle_dropping_streams(&mut self) -> (sent: Vec<u64>)
        ensures
            sent@ == old(self).dropping(),
            final(self).dropping() == Seq::<u64>::empty(),
            final(self).half_closed() == old(self).half_closed() + old(self).dropping(),
            final(self).registered() == old(self).registered(),
            final(self).next_outgoing() == old(self).next_outgoing(),
            final(self).incoming() == old(self).incoming(),
    {
        let mut sent: Vec<u64> = Vec::new();
        let ghost d0 = self.dropping_stream_queue@;
        let ghost h0 = self.half_closed_streams@;
        while self.dropping_stream_queue.len() > 0
            invariant
                sent@ + self.dropping_stream_queue@ == d0,
                self.half_closed_streams@ == h0 + sent@,
                self.register_incoming_stream_ids@ == old(self).register_incoming_stream_ids@,
                self.lastest_outgoing_stream_id == old(self).lastest_outgoing_stream_id,
                self.incoming@ == old(self).incoming@,
            decreases self.dropping_stream_queue@.len(),
        {
            let stream_id = self.dropping_stream_queue.pop_front().unwrap();
            let ghost q = self.dropping_stream_queue@;
            self.half_closed_streams.push_back(stream_id);
            sent.push(stream_id);
            proof {
                assert(sent@ + q =~= d0) by {
                    assert(sent@ + q =~= sent@.drop_last() + seq![stream_id] + q);
                }
                assert(self.half_closed_streams@ =~= h0 + sent@);
            }
        }
        assert(sent@ =~= d0);
        sent
    }

    /// The half-closed streams, oldest first.
    pub fn half_closed_streams(&self) -> (r: Vec<u64>)
        ensures
            r@ == self.half_closed(),
    {
        let mut r: Vec<u64> = Vec::new();
        let n = self.half_closed_streams.len();
        let mut i: usize = 0;
        while i < n
            invariant
                n == self.half_closed_streams@.len(),
                i <= n,
                r@ == self.half_closed_streams@.take(i as int),
            decreases n - i,
        {
            r.push(self.half_closed_streams[i]);
            assert(r@ =~= self.half_closed_streams@.take(i + 1));
            i += 1;
        }
        assert(r@ =~= self.half_closed_streams@);
        r
    }

    /// Drops the half-closed streams that are finished: `finished[i]` says
    /// whether the `i`-th half-closed stream is. The others stay, in order.
    pub fn handle_half_closed_streams(&mut self, finished: &[bool])
        requires
            finished@.len() == old(self).half_closed().len(),
        ensures
            final(self).half_closed() == keep_unfinished(old(self).half_closed(), finished@),
            final(self).registered() == old(self).registered(),
            final(self).next_outgoing() == old(self).next_outgoing(),
            final(self).incoming() == old(self).incoming(),
            final(self).dropping() == old(self).dropping(),
    {
        let ghost h0 = self.half_closed_streams@;
        let mut remaining: Vec<u64> = Vec::new();
        let mut i: usize = 0;
        while self.half_closed_streams.len() > 0
            invariant
                i as int + self.half_closed_streams@.len() == h0.len(),
                finished@.len() == h0.len(),
                self.half_closed_streams@ == h0.skip(i as int),
                remaining@ == keep_unfinished(h0.take(i as int), finished@.take(i as int)),
                self.register_incoming_stream_ids@ == old(self).register_incoming_stream_ids@,
                self.lastest_outgoing_stream_id == old(self).lastest_outgoing_stream_id,
                self.incoming@ == old(self).incoming@,
                self.dropping_stream_queue@ == old(self).dropping_stream_queue@,
            decreases self.half_closed_streams@.len(),
        {
            let stream_id = self.half_closed_streams.pop_front().unwrap();
            proof {
                assert(h0[i as int] == stream_id);
                lemma_keep_unfinished_step(h0, finished@, i as int);
            }
            if !finished[i] {
                remaining.push(stream_id);
            }
            proof {
                assert(self.half_closed_streams@ =~= h0.skip(i + 1));
            }
            i += 1;
        }
        proof {
            assert(h0.take(h0.len() as int) =~= h0);
            assert(finished@.take(h0.len() as int) =~= finished@);
        }
        let mut j: usize = 0;
        while j < remaining.len()
            invariant
                j <= remaining@.len(),
                self.half_closed_streams@ == remaining@.take(j as int),
                self.register_incoming_stream_ids@ == old(self).register_incoming_stream_ids@,
                self.lastest_outgoing_stream_id == old(self).lastest_outgoing_stream_id,
                self.incoming@ == old(self).incoming@,
                self.dropping_stream_queue@ == old(self).dropping_stream_queue@,
            decreases remaining@.len() - j,
        {
            self.half_closed_streams.push_back(remaining[j]);
            assert(self.half_closed_streams@ =~= remaining@.take(j + 1));
            j += 1;
        }
        assert(remaining@.take(remaining@.len() as int) =~= remaining@);
    }
}

/// The registered ids and the accept queue after the ids `ids` were
/// handled in order, each as [`StreamTable::handle_incoming_stream`] does.
pub open spec fn absorb_streams(reg: Set<u64>, inc: Seq<u64>, outgoing: u64, ids: Seq<u64>) -> (
    Set<u64>,
    Seq<u64>,
)
    decreases ids.len(),
{
    if ids.len() == 0 {
        (reg, inc)
    } else {
        let (r, q) = absorb_streams(reg, inc, outgoing, ids.drop_last());
        let id = ids.last();
        if is_peer_stream(outgoing, id) && !r.contains(id) {
            (r.insert(id), q.push(id))
        } else {
            (r, q)
        }
    }
}

/// Handling ready ids queues each new peer stream once: every queued stream
/// is registered, and no stream is queued twice, as long as that held
/// before.
pub proof fn lemma_absorb_queues_once(reg: Set<u64>, inc: Seq<u64>, outgoing: u64, ids: Seq<u64>)
    requires
        forall|j: int| 0 <= j < inc.len() ==> reg.contains(#[trigger] inc[j]),
        forall|j: int, k: int| 0 <= j < k < inc.len() ==> inc[j] != inc[k],
    ensures
        ({
            let (r, q) = absorb_streams(reg, inc, outgoing, ids);
            &&& forall|j: int| 0 <= j < q.len() ==> r.contains(#[trigger] q[j])
            &&& forall|j: int, k: int| 0 <= j < k < q.len() ==> q[j] != q[k]
            &&& reg.subset_of(r)
        }),
    decreases ids.len(),
{
    if ids.len() > 0 {
        lemma_absorb_queues_once(reg, inc, outgoing, ids.drop_last());
        let (r, q) = absorb_streams(reg, inc, outgoing, ids.drop_last());
        let id = ids.last();
        if is_peer_stream(outgoing, id) && !r.contains(id) {
            let q2 = q.push(id);
            assert forall|j: int, k: int| 0 <= j < k < q2.len() implies q2[j] != q2[k] by {
                if k == q.len() {
                    assert(r.contains(q[j]));
                }
            }
        }
    }
}

/// Successive `open_stream` calls hand out the first outgoing id and then
/// every fourth id after it: if `nexts[i]` is the next outgoing id before the
/// `i`-th call and `ids[i]` what that call returned (as `open_stream` says),
/// the `i`-th id is `nexts[0] + 4 * i`.
pub proof fn lemma_open_streams_every_fourth(ids: Seq<u64>, nexts: Seq<u64>)
    requires
        nexts.len() == ids.len() + 1,
        forall|i: int|
            0 <= i < ids.len() ==> #[trigger] ids[i] == nexts[i] && nexts[i + 1] == nexts[i] + 4,
    ensures
        forall|i: int| 0 <= i < ids.len() ==> #[trigger] ids[i] == nexts[0] + 4 * i,
        nexts.last() == nexts[0] + 4 * ids.len(),
    decreases ids.len(),
{
    if ids.len() > 0 {
        let k = ids.len() - 1;
        assert(ids[k] == nexts[k] && nexts[k + 1] == nexts[k] + 4);
        assert forall|i: int| 0 <= i < ids.drop_last().len() implies #[trigger] ids.drop_last()[i]
            == nexts.drop_last()[i] && nexts.drop_last()[i + 1] == nexts.drop_last()[i] + 4 by {
            assert(ids[i] == nexts[i] && nexts[i + 1] == nexts[i] + 4);
        }
        lemma_open_streams_every_fourth(ids.drop_last(), nexts.drop_last());
        assert forall|i: int| 0 <= i < ids.len() implies #[trigger] ids[i] == nexts[0] + 4 * i by {
            if i < k {
                assert(ids.drop_last()[i] == ids[i]);
            } else {
                assert(nexts.drop_last().last() == nexts[k]);
            }
        }
    }
}

/// Outgoing ids keep their parity as they advance by four, so an id the
/// peer opens is never one of ours: what is a peer stream before
/// `open_stream` still is after it, and no outgoing id is a peer stream.
pub proof fn lemma_outgoing_parity(outgoing: u64, id: u64)
    requires
        outgoing <= u64::MAX - 4,
    ensures
        is_peer_stream(outgoing, id) == is_peer_stream((outgoing + 4) as u64, id),
        !is_peer_stream(outgoing, outgoing),
{
}

/// The elements of `s` whose flag in `finished` is false, in order.
pub open spec fn keep_unfinished(s: Seq<u64>, finished: Seq<bool>) -> Seq<u64>
    decreases s.len(),
{
    if s.len() == 0 || finished.len() != s.len() {
        Seq::empty()
    } else {
        let rest = keep_unfinished(s.drop_last(), finished.drop_last());
        if finished.last() {
            rest
        } else {
            rest.push(s.last())
        }
    }
}

pub proof fn lemma_keep_unfinished_step(s: Seq<u64>, drop: Seq<bool>, i: int)
    requires
        0 <= i < s.len(),
        drop.len() == s.len(),
    ensures
        keep_unfinished(s.take(i + 1), drop.take(i + 1)) == if drop[i] {
            keep_unfinished(s.take(i), drop.take(i))
        } else {
            keep_unfinished(s.take(i), drop.take(i)).push(s[i])
        },
{
    assert(s.take(i + 1).drop_last() =~= s.take(i));
    assert(drop.take(i + 1).drop_last() =~= drop.take(i));
}


/// What the accept side of a connection sees: a stream id that the
/// connection reports, or the user taking the oldest incoming stream.
pub enum StreamOp {
    Seen(u64),
    Accept,
}

/// One such operation on the registered peer streams `reg` and the streams
/// waiting for accept `inc`, as [`StreamTable::handle_incoming_stream`] and
/// [`StreamTable::accept`] say: the table after it, the stream handed out
/// (at most one) and the stream queued (at most one).
pub open spec fn stream_op(reg: Set<u64>, inc: Seq<u64>, outgoing: u64, op: StreamOp) -> (
    Set<u64>,
    Seq<u64>,
    Seq<u64>,
    Seq<u64>,
) {
    match op {
        StreamOp::Seen(id) => if is_peer_stream(outgoing, id) && !reg.contains(id) {
            (reg.insert(id), inc.push(id), Seq::empty(), seq![id])
        } else {
            (reg, inc, Seq::empty(), Seq::empty())
        },
        StreamOp::Accept => if inc.len() == 0 {
            (reg, inc, Seq::empty(), Seq::empty())
        } else {
            (reg, inc.drop_first(), seq![inc[0]], Seq::empty())
        },
    }
}

/// A run of such operations: the streams handed out, in order, the streams
/// queued, in order, and the table after the run.
pub open spec fn stream_run(reg: Set<u64>, inc: Seq<u64>, outgoing: u64, ops: Seq<StreamOp>) -> (
    Seq<u64>,
    Seq<u64>,
    Set<u64>,
    Seq<u64>,
)
    decreases ops.len(),
{
    if ops.len() == 0 {
        (Seq::empty(), Seq::empty(), reg, inc)
    } else {
        let one = stream_op(reg, inc, outgoing, ops[0]);
        let rest = stream_run(one.0, one.1, outgoing, ops.skip(1));
        (one.2 + rest.0, one.3 + rest.1, rest.2, rest.3)
    }
}

/// Peer streams are accepted in the order they were first seen, each at
/// most once: over any run of reported ids and accepts on a table whose
/// waiting streams are registered and all different, the streams handed
/// out, followed by those still waiting, are the ones that were waiting
/// followed by the peer streams seen for the first time, in that order,
/// and no stream appears twice among them.
pub proof fn lemma_accept_first_seen_once(
    reg: Set<u64>,
    inc: Seq<u64>,
    outgoing: u64,
    ops: Seq<StreamOp>,
)
    requires
        forall|j: int| 0 <= j < inc.len() ==> reg.contains(#[trigger] inc[j]),
        forall|j: int, k: int| 0 <= j < k < inc.len() ==> inc[j] != inc[k],
    ensures
        ({
            let run = stream_run(reg, inc, outgoing, ops);
            let all = run.0 + run.3;
            &&& all == inc + run.1
            &&& forall|j: int| 0 <= j < run.1.len() ==> !reg.contains(#[trigger] run.1[j])
                && is_peer_stream(outgoing, run.1[j])
            &&& forall|j: int, k: int| 0 <= j < k < all.len() ==> all[j] != all[k]
            &&& forall|j: int| 0 <= j < all.len() ==> run.2.contains(#[trigger] all[j])
            &&& reg.subset_of(run.2)
        }),
    decreases ops.len(),
{
    let run = stream_run(reg, inc, outgoing, ops);
    if ops.len() == 0 {
        assert(run.0 + run.3 =~= inc + run.1);
        return;
    }
    let one = stream_op(reg, inc, outgoing, ops[0]);
    assert forall|j: int| 0 <= j < one.1.len() implies one.0.contains(#[trigger] one.1[j]) by {
        if let StreamOp::Accept = ops[0] {
            if inc.len() > 0 {
                assert(one.1[j] == inc[j + 1]);
            }
        }
    }
    assert forall|j: int, k: int| 0 <= j < k < one.1.len() implies one.1[j] != one.1[k] by {
        match ops[0] {
            StreamOp::Accept => if inc.len() > 0 {
                assert(one.1[j] == inc[j + 1] && one.1[k] == inc[k + 1]);
            },
            StreamOp::Seen(id) => if k == inc.len() && one.1.len() == inc.len() + 1 {
                assert(reg.contains(inc[j]));
            },
        }
    }
    lemma_accept_first_seen_once(one.0, one.1, outgoing, ops.skip(1));
    let rest = stream_run(one.0, one.1, outgoing, ops.skip(1));
    assert(run.0 == one.2 + rest.0 && run.1 == one.3 + rest.1 && run.2 == rest.2 && run.3 == rest.3);
    assert(inc + one.3 =~= one.2 + one.1);
    assert(run.0 + run.3 =~= one.2 + (rest.0 + rest.3));
    assert(inc + run.1 =~= (inc + one.3) + rest.1);
    assert(one.1 + rest.1 == rest.0 + rest.3);
    assert(run.0 + run.3 =~= inc + run.1);
    assert(reg.subset_of(one.0));
    assert forall|j: int| 0 <= j < run.1.len() implies !reg.contains(#[trigger] run.1[j])
        && is_peer_stream(outgoing, run.1[j]) by {
        if j >= one.3.len() {
            assert(run.1[j] == rest.1[j - one.3.len()]);
        }
    }
    let all = run.0 + run.3;
    let rall = rest.0 + rest.3;
    assert(all =~= one.2 + rall);
    if one.2.len() == 1 {
        let x = inc[0];
        assert(one.2[0] == x);
        assert forall|k: int| 0 <= k < rall.len() implies rall[k] != x by {
            assert(rall == one.1 + rest.1);
            if k < one.1.len() {
                assert(one.1[k] == inc[k + 1]);
            } else {
                assert(rall[k] == rest.1[k - one.1.len()]);
                assert(one.0.contains(x));
            }
        }
        assert forall|j: int, k: int| 0 <= j < k < all.len() implies all[j] != all[k] by {
            if j == 0 {
                assert(all[k] == rall[k - 1]);
            } else {
                assert(all[j] == rall[j - 1] && all[k] == rall[k - 1]);
            }
        }
        assert forall|j: int| 0 <= j < all.len() implies run.2.contains(#[trigger] all[j]) by {
            if j == 0 {
                assert(reg.contains(x));
            } else {
                assert(all[j] == rall[j - 1]);
            }
        }
    } else {
        assert(all =~= rall);
    }
}

} // verus!
