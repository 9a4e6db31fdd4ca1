//! The queue of connections a QUIC listener has accepted, and the decisions
//! of the listener's write and read paths.
use vstd::prelude::*;

use std::collections::VecDeque;

verus! {

/// What taking a connection from the queue gives.
#[derive(Debug)]
pub enum AcceptStep<T> {
    /// The oldest connection that was waiting.
    Conn(T),
    /// None is waiting yet: wait for one to be pushed.
    Wait,
    /// The listener is closed.
    Closed,
}

/// Connections accepted by the listener and not yet handed to the user.
/// Closing the listener drops the queue for good.
pub struct IncomingQueue<T> {
    queue: Option<VecDeque<T>>,
}

impl<T> IncomingQueue<T> {
    /// The waiting connections, oldest first, or `None` once closed.
    pub closed spec fn waiting(&self) -> Option<Seq<T>> {
        match self.queue {
            Some(q) => Some(q@),
            None => None,
        }
    }

    /// An open, empty queue.
    pub fn new() -> (r: Self)
        ensures
            r.waiting() == Some(Seq::<T>::empty()),
    {
        IncomingQueue { queue: Some(VecDeque::new()) }
    }

    /// Whether the queue was closed.
    pub fn is_closed(&self) -> (r: bool)
        ensures
            r == self.waiting() is None,
    {
        self.queue.is_none()
    }

    /// Queues a newly accepted connection; a closed queue refuses it and
    /// hands it back.
    pub fn push(&mut self, conn: T) -> (r: Result<(), T>)
        ensures
            match old(self).waiting() {
                Some(q) => r is Ok && final(self).waiting() == Some(q.push(conn)),
                None => r == Err::<(), T>(conn) && final(self).waiting() is None,
            },
            final(self).waiting() == queue_op(old(self).waiting(), QueueOp::Push(conn)).0,
            r is Ok <==> queue_op(old(self).waiting(), QueueOp::Push(conn)).2.len() == 1,
    {
        match &mut self.queue {
            Some(q) => {
                q.push_back(conn);
                Ok(())
            },
            None => Err(conn),
        }
    }

    /// Takes the oldest waiting connection.
    pub fn accept(&mut self) -> (r: AcceptStep<T>)
        ensures
            match old(self).waiting() {
                None => r is Closed && final(self).waiting() is None,
                Some(q) => if q.len() == 0 {
                    r is Wait && final(self).waiting() == Some(q)
                } else {
                    r == AcceptStep::Conn(q[0]) && final(self).waiting() == Some(q.drop_first())
                },
            },
            final(self).waiting() == queue_op(old(self).waiting(), QueueOp::<T>::Accept).0,
            r matches AcceptStep::Conn(c) ==> queue_op(old(self).waiting(), QueueOp::<T>::Accept).1
                == seq![c],
            !(r is Conn) ==> queue_op(old(self).waiting(), QueueOp::<T>::Accept).1.len() == 0,
    {
        match &mut self.queue {
            Some(q) => match q.pop_front() {
                Some(c) => AcceptStep::Conn(c),
                None => AcceptStep::Wait,
            },
            None => AcceptStep::Closed,
        }
    }

    /// Closes the queue, dropping the connections still waiting.
    pub fn close(&mut self)
        ensures
            final(self).waiting() is None,
            final(self).waiting() == queue_op(old(self).waiting(), QueueOp::<T>::Close).0,
    {
        self.queue = None;
    }
}

/// One operation on an accept queue.
pub enum QueueOp<T> {
    /// A connection is pushed.
    Push(T),
    /// The user asks for a connection.
    Accept,
    /// The listener is closed.
    Close,
}

/// One operation on an accept queue whose waiting connections are `w`
/// (`None` once closed), as [`IncomingQueue`]'s methods say: the queue
/// after it, the connection handed out (at most one) and the connection
/// admitted (at most one).
pub open spec fn queue_op<T>(w: Option<Seq<T>>, op: QueueOp<T>) -> (Option<Seq<T>>, Seq<T>, Seq<T>) {
    match op {
        QueueOp::Push(c) => match w {
            Some(q) => (Some(q.push(c)), Seq::empty(), seq![c]),
            Option::None => (Option::None, Seq::empty(), Seq::empty()),
        },
        QueueOp::Accept => match w {
            Some(q) => if q.len() == 0 {
                (w, Seq::empty(), Seq::empty())
            } else {
                (Some(q.drop_first()), seq![q[0]], Seq::empty())
            },
            Option::None => (Option::None, Seq::empty(), Seq::empty()),
        },
        QueueOp::Close => (Option::None, Seq::empty(), Seq::empty()),
    }
}

/// A run of operations on an accept queue: the connections handed out, in
/// order, the connections admitted, in order, and the queue after the run.
pub open spec fn queue_run<T>(w: Option<Seq<T>>, ops: Seq<QueueOp<T>>) -> (Seq<T>, Seq<T>, Option<
    Seq<T>,
>)
    decreases ops.len(),
{
    if ops.len() == 0 {
        (Seq::empty(), Seq::empty(), w)
    } else {
        let one = queue_op(w, ops[0]);
        let rest = queue_run(one.0, ops.skip(1));
        (one.1 + rest.0, one.2 + rest.1, rest.2)
    }
}

/// Accepted connections come out in the order they were admitted, each
/// once: over any run of pushes, accepts and closes on an open queue
/// holding `q0`, the connections handed out are the first ones of `q0`
/// followed by those admitted, in order, and while the queue stays open
/// they are followed by exactly the ones still waiting. A closed queue
/// hands out and admits nothing, whatever the run.
pub proof fn lemma_queue_run<T>(q0: Seq<T>, ops: Seq<QueueOp<T>>)
    ensures
        ({
            let run = queue_run(Some(q0), ops);
            let all = q0 + run.1;
            &&& run.0.len() <= all.len()
            &&& run.0 == all.take(run.0.len() as int)
            &&& run.2 matches Some(qf) ==> run.0 + qf == all
        }),
        queue_run(Option::<Seq<T>>::None, ops).0.len() == 0,
        queue_run(Option::<Seq<T>>::None, ops).1.len() == 0,
        queue_run(Option::<Seq<T>>::None, ops).2 is None,
    decreases ops.len(),
{
    lemma_closed_queue_run(ops);
    if ops.len() > 0 {
        let one = queue_op(Some(q0), ops[0]);
        match one.0 {
            Some(q1) => {
                lemma_queue_run(q1, ops.skip(1));
                let rest = queue_run(Some(q1), ops.skip(1));
                let run = queue_run(Some(q0), ops);
                assert(run.0 == one.1 + rest.0);
                assert(run.1 == one.2 + rest.1);
                assert(q0 + one.2 =~= one.1 + q1);
                assert(q0 + run.1 =~= one.1 + (q1 + rest.1));
                assert(run.0 =~= (q0 + run.1).take(run.0.len() as int));
                if rest.2 is Some {
                    assert(run.0 + rest.2->Some_0 =~= q0 + run.1);
                }
            },
            Option::None => {
                let run = queue_run(Some(q0), ops);
                assert(run.0 =~= Seq::<T>::empty());
                assert(run.0 =~= (q0 + run.1).take(0));
            },
        }
    } else {
        assert(q0 + Seq::<T>::empty() =~= q0);
        assert(Seq::<T>::empty() =~= q0.take(0));
    }
}

proof fn lemma_closed_queue_run<T>(ops: Seq<QueueOp<T>>)
    ensures
        queue_run(Option::<Seq<T>>::None, ops).0.len() == 0,
        queue_run(Option::<Seq<T>>::None, ops).1.len() == 0,
        queue_run(Option::<Seq<T>>::None, ops).2 is None,
    decreases ops.len(),
{
    if ops.len() > 0 {
        lemma_closed_queue_run(ops.skip(1));
    }
}

/// What the listener's handshake made of a datagram.
#[derive(Clone, Copy, PartialEq, Eq, Structural, Debug)]
pub enum HandshakeOutcome {
    /// The datagram belongs to an established connection.
    Unhandled,
    /// A connection completed its handshake.
    Incoming,
    /// The acceptor answered the datagram itself.
    Internal,
}

/// What the listener's write path does with a datagram.
#[derive(Clone, Copy, PartialEq, Eq, Structural, Debug)]
pub enum ListenerWrite {
    /// The listener is closed: refuse the datagram with a broken-pipe
    /// error, before any handshake.
    Refuse,
    /// Hand it to the established connection it belongs to.
    Forward,
    /// No connection has its id: drop it, reporting it written.
    Drop,
    /// Register the new connection, queue it for accept and start reading
    /// from it.
    Admit,
    /// Send the acceptor's answer back.
    Reply,
}

/// Routes a datagram on the listener's write path. A listener that is
/// `closed` when the datagram arrives refuses it, and the handshake
/// `outcome` is not looked at. Otherwise the route follows the outcome;
/// `known` says whether a connection with the datagram's destination id is
/// registered.
pub fn listener_write_route(closed: bool, outcome: HandshakeOutcome, known: bool) -> (r:
    ListenerWrite)
    ensures
        r == if closed {
            ListenerWrite::Refuse
        } else {
            match outcome {
                HandshakeOutcome::Unhandled => if known {
                    ListenerWrite::Forward
                } else {
                    ListenerWrite::Drop
                },
                HandshakeOutcome::Incoming => ListenerWrite::Admit,
                HandshakeOutcome::Internal => ListenerWrite::Reply,
            }
        },
{
    if closed {
        return ListenerWrite::Refuse;
    }
    match outcome {
        HandshakeOutcome::Unhandled => if known {
            ListenerWrite::Forward
        } else {
            ListenerWrite::Drop
        },
        HandshakeOutcome::Incoming => ListenerWrite::Admit,
        HandshakeOutcome::Internal => ListenerWrite::Reply,
    }
}

/// What the listener's event loop does with one received datagram.
#[derive(Clone, Copy, PartialEq, Eq, Structural, Debug)]
pub enum ListenerLoop {
    /// The handshake failed: skip the datagram and go on with the next.
    Skip,
    /// Hand it to the established connection it belongs to.
    Forward,
    /// No connection has its id: drop it and go on.
    Drop,
    /// Start and register the new connection, send the acceptor's answer
    /// when `reply`, then hand the connection out.
    Admit { reply: bool },
    /// Send the acceptor's answer when `reply`.
    Reply { reply: bool },
}

/// The event loop's decision on one datagram: `handshake` is the
/// handshake's outcome, `None` where it failed; `known` says whether a
/// connection with the datagram's destination id is registered; and
/// `read_size` is the length of the acceptor's answer. An answer is sent
/// exactly when it is not empty.
pub fn listener_loop_step(handshake: Option<HandshakeOutcome>, known: bool, read_size: usize) -> (r:
    ListenerLoop)
    ensures
        r == match handshake {
            None => ListenerLoop::Skip,
            Some(HandshakeOutcome::Unhandled) => if known {
                ListenerLoop::Forward
            } else {
                ListenerLoop::Drop
            },
            Some(HandshakeOutcome::Incoming) => ListenerLoop::Admit { reply: read_size > 0 },
            Some(HandshakeOutcome::Internal) => ListenerLoop::Reply { reply: read_size > 0 },
        },
{
    match handshake {
        None => ListenerLoop::Skip,
        Some(HandshakeOutcome::Unhandled) => if known {
            ListenerLoop::Forward
        } else {
            ListenerLoop::Drop
        },
        Some(HandshakeOutcome::Incoming) => ListenerLoop::Admit { reply: read_size > 0 },
        Some(HandshakeOutcome::Internal) => ListenerLoop::Reply { reply: read_size > 0 },
    }
}

/// The answer datagram: the first `read_size` bytes that the acceptor wrote
/// into `buf`.
pub fn reply_datagram(buf: &[u8], read_size: usize) -> (r: Vec<u8>)
    requires
        read_size <= buf@.len(),
    ensures
        r@ == buf@.take(read_size as int),
{
    let mut r: Vec<u8> = Vec::new();
    r.extend_from_slice(&buf[0..read_size]);
    assert(buf@.subrange(0, read_size as int) =~= buf@.take(read_size as int));
    r
}

/// What the listener's batch of connection reads produced.
#[derive(Clone, Copy, PartialEq, Eq, Structural, Debug)]
pub enum ConnRead {
    /// A connection failed to produce a packet.
    Failed,
    /// A connection produced a packet.
    Packet,
    /// The batch produced nothing.
    Nothing,
}

/// What the listener's read path does next.
#[derive(Clone, Copy, PartialEq, Eq, Structural, Debug)]
pub enum ListenerRead {
    /// The listener is closed: stop with an error.
    Closed,
    /// Forget the failed connection and read again.
    DropConn,
    /// Read from the connection again later, and hand the packet out.
    Deliver,
    /// Read again.
    Retry,
}

/// The next step of the listener's read path: a closed listener stops
/// whatever was read; otherwise a failed connection is forgotten, a packet
/// is handed out, and an empty batch is read again.
pub fn listener_read_step(closed: bool, r: ConnRead) -> (a: ListenerRead)
    ensures
        a == if closed {
            ListenerRead::Closed
        } else {
            match r {
                ConnRead::Failed => ListenerRead::DropConn,
                ConnRead::Packet => ListenerRead::Deliver,
                ConnRead::Nothing => ListenerRead::Retry,
            }
        },
{
    if closed {
        return ListenerRead::Closed;
    }
    match r {
        ConnRead::Failed => ListenerRead::DropConn,
        ConnRead::Packet => ListenerRead::Deliver,
        ConnRead::Nothing => ListenerRead::Retry,
    }
}

} // verus!
