//! Decisions of a QUIC connection's send loop, of the client connect loop,
//! of the server's handshake routing and of the client connection pool.
//!
//! Durations are counted in nanoseconds. Each loop is written as a function
//! from what the connection reported to what the caller does next; the
//! caller makes the calls into the QUIC implementation and the waits.
use vstd::prelude::*;

verus! {

/// The time left before the next keep-alive ping is due, or `None` when
/// more than `ping_timeout` has passed since the last one and a ping is to
/// be sent now.
pub open spec fn ping_due_spec(since_ping: u128, ping_timeout: u128) -> Option<u128> {
    if since_ping > ping_timeout {
        None
    } else {
        Some((ping_timeout - since_ping) as u128)
    }
}

/// The time left before the next keep-alive ping is due, as
/// [`ping_due_spec`] says.
pub fn ping_due(since_ping: u128, ping_timeout: u128) -> (r: Option<u128>)
    ensures
        r == ping_due_spec(since_ping, ping_timeout),
{
    if since_ping > ping_timeout {
        None
    } else {
        Some(ping_timeout - since_ping)
    }
}

/// What the connection reported to its packet-producing loop.
#[derive(Clone, Copy, PartialEq, Eq, Structural, Debug)]
pub enum SendEvent {
    /// A packet of `size` bytes was produced; `closed` says whether the
    /// connection is closed afterwards.
    Produced { size: usize, closed: bool },
    /// Nothing to send now. `closed` says whether the connection is closed,
    /// `conn_timeout` is the connection's own timer, if it runs, and
    /// `since_ping` the time since the last ping.
    Idle { closed: bool, conn_timeout: Option<u128>, since_ping: u128 },
    /// The wait for the connection to become readable was woken.
    Woken,
    /// The wait timed out, `since_ping` after the last ping.
    WaitTimedOut { since_ping: u128 },
    /// Producing a packet failed; `closed` says whether the connection is
    /// closed afterwards.
    Failed { closed: bool },
    /// The wait failed: it was canceled or the connection is going away.
    WaitFailed,
}

/// What the packet-producing loop does next.
#[derive(Clone, Copy, PartialEq, Eq, Structural, Debug)]
pub enum SendAction {
    /// Hand the produced packet of this many bytes to the caller.
    Deliver(usize),
    /// Send a keep-alive ping, restart the ping clock, and produce again.
    Ping,
    /// Wait at most this long for the connection to become readable.
    Wait(u128),
    /// Let the connection handle its timer, and produce again.
    HandleTimeout,
    /// Produce again.
    Retry,
    /// The connection is closed: release every task waiting on it with a
    /// cancel, and stop with a broken-pipe error.
    Closed,
    /// Stop with the error that occurred.
    Fail,
}

/// The next action of the loop, as a spec.
///
/// A closed connection stops the loop, whether a packet was produced or
/// not. When nothing is to be sent on an open one, a due ping is sent,
/// and otherwise the loop waits until the earlier of the connection's timer
/// and the next ping. A wait that times out sends a ping if one is due and
/// lets the connection handle its timer otherwise.
pub open spec fn send_step_spec(ping_timeout: u128, ev: SendEvent) -> SendAction {
    match ev {
        SendEvent::Produced { size, closed } => if closed {
            SendAction::Closed
        } else {
            SendAction::Deliver(size)
        },
        SendEvent::Idle { closed, conn_timeout, since_ping } => if closed {
            SendAction::Closed
        } else {
            match ping_due_spec(since_ping, ping_timeout) {
                None => SendAction::Ping,
                Some(left) => match conn_timeout {
                    Some(t) => SendAction::Wait(if t > left { left } else { t }),
                    None => SendAction::Wait(left),
                },
            }
        },
        SendEvent::Woken => SendAction::Retry,
        SendEvent::WaitTimedOut { since_ping } => if since_ping > ping_timeout {
            SendAction::Ping
        } else {
            SendAction::HandleTimeout
        },
        SendEvent::Failed { closed } => if closed {
            SendAction::Closed
        } else {
            SendAction::Fail
        },
        SendEvent::WaitFailed => SendAction::Fail,
    }
}

/// Whether the loop may be handed `ev`: when nothing is to be sent on an open
/// connection, the ping must not fall due exactly now, as the wait before it
/// would have no length.
pub open spec fn send_event_ok(ping_timeout: u128, ev: SendEvent) -> bool {
    ev matches SendEvent::Idle { closed, since_ping, .. } ==> closed || since_ping != ping_timeout
}

/// The next action of the packet-producing loop of a connection whose pings
/// are `ping_timeout` apart, as [`send_step_spec`] says.
pub fn send_step(ping_timeout: u128, ev: SendEvent) -> (a: SendAction)
    requires
        send_event_ok(ping_timeout, ev),
    ensures
        a == send_step_spec(ping_timeout, ev),
{
    match ev {
        SendEvent::Produced { size, closed } => if closed {
            SendAction::Closed
        } else {
            SendAction::Deliver(size)
        },
        SendEvent::Idle { closed, conn_timeout, since_ping } => {
            if closed {
                return SendAction::Closed;
            }
            match ping_due(since_ping, ping_timeout) {
                None => SendAction::Ping,
                Some(left) => match conn_timeout {
                    Some(t) => if t > left {
                        SendAction::Wait(left)
                    } else {
                        SendAction::Wait(t)
                    },
                    None => SendAction::Wait(left),
                },
            }
        },
        SendEvent::Woken => SendAction::Retry,
        SendEvent::WaitTimedOut { since_ping } => if since_ping > ping_timeout {
            SendAction::Ping
        } else {
            SendAction::HandleTimeout
        },
        SendEvent::Failed { closed } => if closed {
            SendAction::Closed
        } else {
            SendAction::Fail
        },
        SendEvent::WaitFailed => SendAction::Fail,
    }
}

/// A wait of the packet-producing loop ends no later than the next ping is
/// due and no later than the connection's timer; it ends strictly after
/// it began unless the connection's own timer is already due. A ping is
/// only sent when more than `ping_timeout` has passed since the last one.
pub proof fn lemma_send_wait_bounded(ping_timeout: u128, ev: SendEvent)
    requires
        send_event_ok(ping_timeout, ev),
    ensures
        send_step_spec(ping_timeout, ev) matches SendAction::Wait(t) ==> ev matches SendEvent::Idle {
            conn_timeout, since_ping, .. } && t <= ping_timeout - since_ping && (conn_timeout
            matches Some(c) ==> t <= c) && (conn_timeout matches Some(c) && c > 0 ==> t > 0)
            && (conn_timeout is None ==> t > 0),
        send_step_spec(ping_timeout, ev) is Ping ==> match ev {
            SendEvent::Idle { since_ping, .. } => since_ping > ping_timeout,
            SendEvent::WaitTimedOut { since_ping } => since_ping > ping_timeout,
            _ => false,
        },
{
}

/// Which connection of a client pool opens the next stream.
#[derive(Clone, Copy, PartialEq, Eq, Structural, Debug)]
pub enum PoolChoice {
    /// The connection at this index still has stream credit.
    Reuse(usize),
    /// No connection has credit and there is room: connect a new one.
    Connect,
    /// No connection has credit and the pool is full.
    Full,
}

/// The pool's choice, as a spec: the first connection with bidirectional
/// stream credit left, else a new connection while fewer than `max_conns`
/// are open, else none.
pub open spec fn pool_choice_spec(streams_left: Seq<u64>, max_conns: usize) -> PoolChoice {
    if exists|i: int| 0 <= i < streams_left.len() && streams_left[i] > 0 {
        let i = choose|i: int|
            0 <= i < streams_left.len() && streams_left[i] > 0 && forall|j: int|
                0 <= j < i ==> streams_left[j] == 0;
        PoolChoice::Reuse(i as usize)
    } else if streams_left.len() >= max_conns {
        PoolChoice::Full
    } else {
        PoolChoice::Connect
    }
}

/// Chooses the connection of a pool that opens the next stream, given the
/// bidirectional stream credit left on each open connection, in order.
pub fn pool_choice(streams_left: &[u64], max_conns: usize) -> (r: PoolChoice)
    ensures
        match r {
            PoolChoice::Reuse(i) => i < streams_left@.len() && streams_left@[i as int] > 0
                && forall|j: int| 0 <= j < i ==> streams_left@[j] == 0,
            PoolChoice::Connect => (forall|j: int|
                0 <= j < streams_left@.len() ==> streams_left@[j] == 0) && streams_left@.len()
                < max_conns,
            PoolChoice::Full => (forall|j: int|
                0 <= j < streams_left@.len() ==> streams_left@[j] == 0) && streams_left@.len()
                >= max_conns,
        },
        r == pool_choice_spec(streams_left@, max_conns),
{
    let mut i: usize = 0;
    let mut found: Option<usize> = None;
    while i < streams_left.len()
        invariant_except_break
            i <= streams_left@.len(),
            forall|j: int| 0 <= j < i ==> streams_left@[j] == 0,
            found is None,
        ensures
            match found {
                Some(k) => k < streams_left@.len() && streams_left@[k as int] > 0 && forall|j: int|
                    0 <= j < k ==> streams_left@[j] == 0,
                None => forall|j: int| 0 <= j < streams_left@.len() ==> streams_left@[j] == 0,
            },
        decreases streams_left@.len() - i,
    {
        if streams_left[i] > 0 {
            found = Some(i);
            break;
        }
        i = i + 1;
    }
    let r = match found {
        Some(k) => PoolChoice::Reuse(k),
        None => if streams_left.len() >= max_conns {
            PoolChoice::Full
        } else {
            PoolChoice::Connect
        },
    };
    proof {
        lemma_pool_choice_unique(streams_left@, max_conns, r);
    }
    r
}

/// The choice of [`pool_choice`] is the one [`pool_choice_spec`] describes.
pub proof fn lemma_pool_choice_unique(streams_left: Seq<u64>, max_conns: usize, r: PoolChoice)
    requires
        match r {
            PoolChoice::Reuse(i) => i < streams_left.len() && streams_left[i as int] > 0
                && forall|j: int| 0 <= j < i ==> streams_left[j] == 0,
            PoolChoice::Connect => (forall|j: int|
                0 <= j < streams_left.len() ==> streams_left[j] == 0) && streams_left.len()
                < max_conns,
            PoolChoice::Full => (forall|j: int|
                0 <= j < streams_left.len() ==> streams_left[j] == 0) && streams_left.len()
                >= max_conns,
        },
    ensures
        r == pool_choice_spec(streams_left, max_conns),
{
    if let PoolChoice::Reuse(i) = r {
        assert(streams_left[i as int] > 0);
        let k = choose|k: int|
            0 <= k < streams_left.len() && streams_left[k] > 0 && forall|j: int|
                0 <= j < k ==> streams_left[j] == 0;
        assert(0 <= k < streams_left.len() && streams_left[k] > 0 && forall|j: int|
            0 <= j < k ==> streams_left[j] == 0);
        if k < i {
            assert(streams_left[k] == 0);
        } else if k > i {
            assert(streams_left[i as int] == 0);
        }
    }
}

/// The index of the first connection at or after `j` with stream credit
/// left (`s.len()` when there is none).
pub open spec fn first_with_credit(s: Seq<u64>, j: int) -> int
    decreases s.len() - j,
{
    if j < 0 || j >= s.len() {
        s.len() as int
    } else if s[j] > 0 {
        j
    } else {
        first_with_credit(s, j + 1)
    }
}

proof fn lemma_first_with_credit(s: Seq<u64>, j: int)
    requires
        0 <= j <= s.len(),
    ensures
        j <= first_with_credit(s, j) <= s.len(),
        forall|k: int| j <= k < first_with_credit(s, j) ==> #[trigger] s[k] == 0,
        first_with_credit(s, j) < s.len() ==> s[first_with_credit(s, j)] > 0,
    decreases s.len() - j,
{
    if j < s.len() && s[j] == 0 {
        lemma_first_with_credit(s, j + 1);
    }
}

/// What [`pool_choice_spec`] chooses, case by case.
proof fn lemma_pool_choice_cases(streams_left: Seq<u64>, max_conns: usize)
    requires
        streams_left.len() <= max_conns,
    ensures
        match pool_choice_spec(streams_left, max_conns) {
            PoolChoice::Reuse(i) => i < streams_left.len() && streams_left[i as int] > 0,
            PoolChoice::Connect => (forall|j: int|
                0 <= j < streams_left.len() ==> streams_left[j] == 0) && streams_left.len()
                < max_conns,
            PoolChoice::Full => (forall|j: int|
                0 <= j < streams_left.len() ==> streams_left[j] == 0) && streams_left.len()
                == max_conns,
        },
{
    lemma_first_with_credit(streams_left, 0);
    let k0 = first_with_credit(streams_left, 0);
    if exists|i: int| 0 <= i < streams_left.len() && streams_left[i] > 0 {
        let w = choose|i: int| 0 <= i < streams_left.len() && streams_left[i] > 0;
        if k0 == streams_left.len() {
            assert(streams_left[w] == 0);
        }
        assert(0 <= k0 < streams_left.len() && streams_left[k0] > 0 && forall|j: int|
            0 <= j < k0 ==> streams_left[j] == 0);
    }
}

/// The stream credit left on each connection of a pool after it opens one
/// stream, when a new connection starts with `credit` streams: the chosen
/// connection has one stream less, a new connection joins with one of its
/// streams used, and a full pool opens none and is unchanged.
pub open spec fn pool_open_spec(streams_left: Seq<u64>, max_conns: usize, credit: u64) -> Seq<u64> {
    match pool_choice_spec(streams_left, max_conns) {
        PoolChoice::Reuse(i) => streams_left.update(i as int, (streams_left[i as int] - 1) as u64),
        PoolChoice::Connect => streams_left.push((credit - 1) as u64),
        PoolChoice::Full => streams_left,
    }
}

/// The streams left on all the connections together.
pub open spec fn credit_sum(s: Seq<u64>) -> int
    decreases s.len(),
{
    if s.len() == 0 {
        0
    } else {
        credit_sum(s.drop_last()) + s.last()
    }
}

/// `n` stream openings on a pool: how many succeed, and the credit left on
/// each connection afterwards.
pub open spec fn pool_run(streams_left: Seq<u64>, max_conns: usize, credit: u64, n: nat) -> (
    nat,
    Seq<u64>,
)
    decreases n,
{
    if n == 0 {
        (0, streams_left)
    } else {
        let after = pool_open_spec(streams_left, max_conns, credit);
        let rest = pool_run(after, max_conns, credit, (n - 1) as nat);
        if pool_choice_spec(streams_left, max_conns) is Full {
            rest
        } else {
            (rest.0 + 1, rest.1)
        }
    }
}

proof fn lemma_credit_sum_update(s: Seq<u64>, i: int, v: u64)
    requires
        0 <= i < s.len(),
    ensures
        credit_sum(s.update(i, v)) == credit_sum(s) - s[i] + v,
    decreases s.len(),
{
    let t = s.update(i, v);
    if i == s.len() - 1 {
        assert(t.drop_last() =~= s.drop_last());
    } else {
        lemma_credit_sum_update(s.drop_last(), i, v);
        assert(t.drop_last() =~= s.drop_last().update(i, v));
    }
}

proof fn lemma_credit_sum_nonneg(s: Seq<u64>)
    ensures
        credit_sum(s) >= 0,
    decreases s.len(),
{
    if s.len() > 0 {
        lemma_credit_sum_nonneg(s.drop_last());
    }
}

proof fn lemma_credit_sum_zero(s: Seq<u64>)
    requires
        forall|j: int| 0 <= j < s.len() ==> s[j] == 0,
    ensures
        credit_sum(s) == 0,
    decreases s.len(),
{
    if s.len() > 0 {
        lemma_credit_sum_zero(s.drop_last());
    }
}

/// A pool never holds more than `max_conns` connections, and opens exactly
/// as many streams as its connections allow: when every new connection
/// starts with `credit` streams (at least one), the first `cap` openings
/// succeed, where `cap` is the credit left on the open connections plus
/// `credit` for each connection that can still be made, and every later
/// one fails because the pool is full.
pub proof fn lemma_pool_capacity(streams_left: Seq<u64>, max_conns: usize, credit: u64, n: nat)
    requires
        credit >= 1,
        streams_left.len() <= max_conns,
    ensures
        ({
            let cap = credit_sum(streams_left) + (max_conns - streams_left.len()) * credit;
            let run = pool_run(streams_left, max_conns, credit, n);
            &&& run.0 == if n < cap {
                n as int
            } else {
                cap
            }
            &&& run.1.len() <= max_conns
        }),
    decreases n,
{
    let cap = credit_sum(streams_left) + (max_conns - streams_left.len()) * credit;
    lemma_credit_sum_nonneg(streams_left);
    assert(0 <= (max_conns - streams_left.len()) * credit) by (nonlinear_arith)
        requires
            streams_left.len() <= max_conns,
    ;
    if n == 0 {
        return;
    }
    lemma_pool_choice_cases(streams_left, max_conns);
    let after = pool_open_spec(streams_left, max_conns, credit);
    let cap2 = credit_sum(after) + (max_conns - after.len()) * credit;
    match pool_choice_spec(streams_left, max_conns) {
        PoolChoice::Reuse(i) => {
            lemma_credit_sum_update(streams_left, i as int, (streams_left[i as int] - 1) as u64);
            assert(after.len() == streams_left.len());
            assert(cap2 == cap - 1);
        },
        PoolChoice::Connect => {
            lemma_credit_sum_zero(streams_left);
            assert(after.drop_last() =~= streams_left);
            assert(credit_sum(after) == credit - 1);
            assert((max_conns - streams_left.len()) * credit == credit + (max_conns - after.len())
                * credit) by (nonlinear_arith)
                requires
                    after.len() == streams_left.len() + 1,
            ;
            assert(cap2 == cap - 1);
        },
        PoolChoice::Full => {
            lemma_credit_sum_zero(streams_left);
            assert((max_conns - streams_left.len()) * credit == 0) by (nonlinear_arith)
                requires
                    streams_left.len() == max_conns,
            ;
            assert(cap == 0);
        },
    }
    lemma_pool_capacity(after, max_conns, credit, (n - 1) as nat);
}

/// What a client connection attempt observed.
#[derive(Clone, Copy, PartialEq, Eq, Structural, Debug)]
pub enum ConnectEvent {
    /// After sending what was due: whether the connection is closed.
    Sent { closed: bool },
    /// A datagram was received and fed in; whether the handshake is done.
    Received { established: bool },
    /// The receive timed out.
    RecvTimedOut,
    /// Sending, receiving or feeding in failed.
    Failed,
}

/// What the connection attempt does next.
#[derive(Clone, Copy, PartialEq, Eq, Structural, Debug)]
pub enum ConnectAction {
    /// Receive the next datagram, waiting at most the connection's timer.
    Receive,
    /// Let the connection handle its timer, then send again.
    HandleTimeout,
    /// Send what is due again.
    Send,
    /// The handshake is done: the connection is established.
    Established,
    /// The connection closed before it was established: the attempt timed
    /// out.
    TimedOut,
    /// Stop with the error that occurred.
    Fail,
}

/// The next action of a client connection attempt.
pub fn connect_step(ev: ConnectEvent) -> (a: ConnectAction)
    ensures
        a == match ev {
            ConnectEvent::Sent { closed } => if closed {
                ConnectAction::TimedOut
            } else {
                ConnectAction::Receive
            },
            ConnectEvent::Received { established } => if established {
                ConnectAction::Established
            } else {
                ConnectAction::Send
            },
            ConnectEvent::RecvTimedOut => ConnectAction::HandleTimeout,
            ConnectEvent::Failed => ConnectAction::Fail,
        },
{
    match ev {
        ConnectEvent::Sent { closed } => if closed {
            ConnectAction::TimedOut
        } else {
            ConnectAction::Receive
        },
        ConnectEvent::Received { established } => if established {
            ConnectAction::Established
        } else {
            ConnectAction::Send
        },
        ConnectEvent::RecvTimedOut => ConnectAction::HandleTimeout,
        ConnectEvent::Failed => ConnectAction::Fail,
    }
}

/// Where a server's acceptor sends an incoming datagram.
#[derive(Clone, Copy, PartialEq, Eq, Structural, Debug)]
pub enum HandshakeRoute {
    /// To the connection that is still completing its handshake.
    PreEstablished,
    /// To the client-hello handling of an Initial packet.
    ClientHello,
    /// To an established connection, outside the acceptor.
    Unhandled,
}

/// Routes a datagram: a connection still in its handshake takes it first,
/// then an Initial packet starts a new one, and anything else belongs to an
/// established connection.
pub fn handshake_route(pre_established: bool, initial: bool) -> (r: HandshakeRoute)
    ensures
        pre_established ==> r == HandshakeRoute::PreEstablished,
        !pre_established && initial ==> r == HandshakeRoute::ClientHello,
        !pre_established && !initial ==> r == HandshakeRoute::Unhandled,
{
    if pre_established {
        HandshakeRoute::PreEstablished
    } else if initial {
        HandshakeRoute::ClientHello
    } else {
        HandshakeRoute::Unhandled
    }
}

/// What a stream read or write loop observed.
#[derive(Clone, Copy, PartialEq, Eq, Structural, Debug)]
pub enum StreamIoEvent {
    /// At the top of the loop: whether the connection is closed.
    Start { closed: bool },
    /// The stream operation moved data; whether the connection is closed
    /// afterwards.
    Moved { closed: bool },
    /// The stream operation had nothing to do; whether the connection is
    /// closed afterwards.
    Blocked { closed: bool },
    /// The stream operation failed; whether the connection is closed
    /// afterwards.
    Failed { closed: bool },
    /// The wait for the stream was woken.
    Woken,
    /// The wait for the stream timed out.
    WaitTimedOut,
    /// The wait for the stream failed: it was canceled or the connection
    /// is going away.
    WaitFailed,
}

/// What a stream read or write loop does next.
#[derive(Clone, Copy, PartialEq, Eq, Structural, Debug)]
pub enum StreamIoAction {
    /// Perform the stream operation.
    Operate,
    /// Hand the operation's result to the caller.
    Return,
    /// Wait for the stream, at most this many milliseconds when a bound is
    /// given.
    Wait(Option<u64>),
    /// Start over.
    Retry,
    /// The connection is closed: release every task waiting on it with a
    /// cancel, and stop with a broken-pipe error.
    Closed,
    /// Stop with the error that occurred.
    Fail,
}

/// How long a stream waits before trying again on its own: a read waits at
/// most half a second, a write until it is woken.
pub open spec fn stream_wait_bound(recv: bool) -> Option<u64> {
    if recv {
        Some(500)
    } else {
        None
    }
}

/// The next action of a stream's read loop (`recv`) or write loop. A
/// closed connection stops the operation, also right after data moved or
/// after it failed; a blocked stream waits; a wait that ends retries
/// unless it failed.
pub fn stream_io_step(recv: bool, ev: StreamIoEvent) -> (a: StreamIoAction)
    requires
        !recv ==> ev != StreamIoEvent::WaitTimedOut,
    ensures
        a == match ev {
            StreamIoEvent::Start { closed } => if closed {
                StreamIoAction::Closed
            } else {
                StreamIoAction::Operate
            },
            StreamIoEvent::Moved { closed } => if closed {
                StreamIoAction::Closed
            } else {
                StreamIoAction::Return
            },
            StreamIoEvent::Blocked { closed } => if closed {
                StreamIoAction::Closed
            } else {
                StreamIoAction::Wait(stream_wait_bound(recv))
            },
            StreamIoEvent::Failed { closed } => if closed {
                StreamIoAction::Closed
            } else {
                StreamIoAction::Fail
            },
            StreamIoEvent::Woken => StreamIoAction::Retry,
            StreamIoEvent::WaitTimedOut => StreamIoAction::Retry,
            StreamIoEvent::WaitFailed => StreamIoAction::Fail,
        },
{
    match ev {
        StreamIoEvent::Start { closed } => if closed {
            StreamIoAction::Closed
        } else {
            StreamIoAction::Operate
        },
        StreamIoEvent::Moved { closed } => if closed {
            StreamIoAction::Closed
        } else {
            StreamIoAction::Return
        },
        StreamIoEvent::Blocked { closed } => if closed {
            StreamIoAction::Closed
        } else if recv {
            StreamIoAction::Wait(Some(500))
        } else {
            StreamIoAction::Wait(None)
        },
        StreamIoEvent::Failed { closed } => if closed {
            StreamIoAction::Closed
        } else {
            StreamIoAction::Fail
        },
        StreamIoEvent::Woken => StreamIoAction::Retry,
        StreamIoEvent::WaitTimedOut => StreamIoAction::Retry,
        StreamIoEvent::WaitFailed => StreamIoAction::Fail,
    }
}

/// What reading a half-closed stream gave.
#[derive(Clone, Copy, PartialEq, Eq, Structural, Debug)]
pub enum HalfClosedRead {
    /// Data was read, with or without the peer's fin.
    Read { fin: bool },
    /// There was nothing to read.
    Done,
    /// The read failed.
    Error,
}

/// Whether a half-closed stream is finished after a read: when the peer's
/// fin arrived or the stream failed; not while it stays quiet.
pub fn half_closed_finished(r: HalfClosedRead) -> (finished: bool)
    ensures
        finished == match r {
            HalfClosedRead::Read { fin } => fin,
            HalfClosedRead::Done => false,
            HalfClosedRead::Error => true,
        },
{
    match r {
        HalfClosedRead::Read { fin } => fin,
        HalfClosedRead::Done => false,
        HalfClosedRead::Error => true,
    }
}

} // verus!
