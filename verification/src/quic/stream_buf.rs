//! Received data of one QUIC stream, waiting to be read: the bytes in
//! arrival order and whether the peer has finished the stream.
use vstd::prelude::*;

use bytes::BytesMut;

use crate::buf::{
    bytes_mut_contents, bytes_mut_copy_to_slice, bytes_mut_len, bytes_mut_new, bytes_mut_put,
    bytes_mut_split_off, bytes_mut_split_to,
};

verus! {

/// Stream data and the fin flag that came with the last of it.
pub struct QuicStreamBuf {
    pub buf: BytesMut,
    pub fin: bool,
}

impl QuicStreamBuf {
    /// The buffered bytes.
    pub open spec fn data(&self) -> Seq<u8> {
        bytes_mut_contents(self.buf)
    }

    /// An empty buffer of an unfinished stream.
    pub fn new() -> (r: Self)
        ensures
            r.data() == Seq::<u8>::empty(),
            !r.fin,
    {
        QuicStreamBuf { buf: bytes_mut_new(), fin: false }
    }

    /// Appends the data and fin flag of another buffer.
    pub fn append_buf(&mut self, buf: QuicStreamBuf)
        requires
            !old(self).fin,
        ensures
            final(self).data() == old(self).data() + buf.data(),
            final(self).fin == buf.fin,
    {
        self.append(buf.buf, buf.fin);
    }

    /// Appends data received after what is buffered. Appending after the fin
    /// flag was set is refused (the operation asserts it).
    pub fn append(&mut self, buf: BytesMut, fin: bool)
        requires
            !old(self).fin,
        ensures
            final(self).data() == old(self).data() + bytes_mut_contents(buf),
            final(self).fin == fin,
    {
        bytes_mut_put(&mut self.buf, buf);
        self.fin = fin;
    }

    /// Moves as many buffered bytes as fit to the front of `buf`. Returns how
    /// many were moved and whether the stream is finished, which is only said
    /// once every buffered byte has been handed out.
    pub fn read(&mut self, buf: &mut [u8]) -> (r: (usize, bool))
        ensures
            r.0 as int == if old(buf)@.len() < old(self).data().len() {
                old(buf)@.len() as int
            } else {
                old(self).data().len() as int
            },
            final(buf)@ == old(self).data().take(r.0 as int) + old(buf)@.skip(r.0 as int),
            final(self).data() == old(self).data().skip(r.0 as int),
            final(self).fin == old(self).fin,
            r.1 == (old(buf)@.len() >= old(self).data().len() && old(self).fin),
    {
        if buf.len() < bytes_mut_len(&self.buf) {
            let n = buf.len();
            let mut src = bytes_mut_split_to(&mut self.buf, n);
            bytes_mut_copy_to_slice(&mut src, buf, n);
            (n, false)
        } else {
            let len = bytes_mut_len(&self.buf);
            bytes_mut_copy_to_slice(&mut self.buf, buf, len);
            (len, self.fin)
        }
    }
}

/// A stream reader's read when nothing was handed out from its cache: reads
/// from the newly received `incoming` data, and caches what is left of it
/// behind what is cached.
pub fn read_incoming(cache: &mut QuicStreamBuf, incoming: QuicStreamBuf, buf: &mut [u8]) -> (r: (
    usize,
    bool,
))
    requires
        !old(cache).fin,
    ensures
        r.0 as int == if old(buf)@.len() < incoming.data().len() {
            old(buf)@.len() as int
        } else {
            incoming.data().len() as int
        },
        final(buf)@ == incoming.data().take(r.0 as int) + old(buf)@.skip(r.0 as int),
        r.1 == (old(buf)@.len() >= incoming.data().len() && incoming.fin),
        final(cache).data() == old(cache).data() + incoming.data().skip(r.0 as int),
        final(cache).fin == incoming.fin,
{
    let mut recv_buf = incoming;
    let (read_size, fin) = recv_buf.read(buf);
    cache.append_buf(recv_buf);
    (read_size, fin)
}

/// Whether a read from the cache already answers the reader: some bytes
/// were handed out, or the stream is finished.
pub fn cache_read_answers(read_size: usize, fin: bool) -> (b: bool)
    ensures
        b == (read_size > 0 || fin),
{
    read_size > 0 || fin
}

/// How a write of `data` with fin flag `fin` is split when the stream can
/// take `capacity` bytes now: the bytes to send now, the fin flag to send
/// with them, and the data to keep for later with its fin flag.
pub open spec fn send_split_spec(data: Seq<u8>, fin: bool, capacity: nat) -> (
    Seq<u8>,
    bool,
    Seq<u8>,
    bool,
) {
    if capacity == 0 {
        (Seq::empty(), false, data, fin)
    } else {
        let n = if capacity < data.len() { capacity as int } else { data.len() as int };
        (data.take(n), fin && n == data.len(), data.skip(n), fin && n < data.len())
    }
}

/// Splits a write on a stream that can take `capacity` bytes now: as many
/// bytes as fit are sent now, with the fin flag only when nothing is left;
/// the rest is kept, with the fin flag, for when the stream can take more.
/// A stream that can take nothing keeps the whole write.
pub fn split_for_send(buf: BytesMut, fin: bool, capacity: usize) -> (r: (BytesMut, bool, QuicStreamBuf))
    ensures
        ({
            let (now, now_fin, later, later_fin) = send_split_spec(
                bytes_mut_contents(buf),
                fin,
                capacity as nat,
            );
            &&& bytes_mut_contents(r.0) == now
            &&& r.1 == now_fin
            &&& r.2.data() == later
            &&& r.2.fin == later_fin
        }),
        capacity > 0 && bytes_mut_contents(buf).len() <= capacity ==> bytes_mut_contents(r.0)
            == bytes_mut_contents(buf) && r.1 == fin && r.2.data().len() == 0 && !r.2.fin,
        capacity > 0 && bytes_mut_contents(buf).len() > capacity ==> bytes_mut_contents(r.0).len()
            == capacity && !r.1 && r.2.fin == fin && bytes_mut_contents(r.0) + r.2.data()
            == bytes_mut_contents(buf),
{
    if capacity == 0 {
        return (bytes_mut_new(), false, QuicStreamBuf { buf, fin });
    }
    let len = bytes_mut_len(&buf);
    let n = if capacity < len {
        capacity
    } else {
        len
    };
    let mut now = buf;
    let later = bytes_mut_split_off(&mut now, n);
    let done = n == len;
    (now, fin && done, QuicStreamBuf { buf: later, fin: fin && !done })
}

/// A split write loses no byte and sends or keeps the fin flag once: what
/// is sent now followed by what is kept is the write, and a set fin flag
/// goes either with the bytes sent now or with those kept, not both.
pub proof fn lemma_send_split_conserves(data: Seq<u8>, fin: bool, capacity: nat)
    ensures
        ({
            let (now, now_fin, later, later_fin) = send_split_spec(data, fin, capacity);
            &&& now + later == data
            &&& fin == (now_fin || later_fin)
            &&& !(now_fin && later_fin)
            &&& now.len() <= capacity
        }),
{
    if capacity > 0 {
        let n = if capacity < data.len() { capacity as int } else { data.len() as int };
        assert(data.take(n) + data.skip(n) =~= data);
    } else {
        assert(Seq::<u8>::empty() + data =~= data);
    }
}

/// The smaller of two lengths.
pub open spec fn min_len(a: nat, b: nat) -> nat {
    if a < b {
        a
    } else {
        b
    }
}

/// A chunk of stream data as a model: its bytes and its fin flag.
pub open spec fn chunk_model(c: Option<QuicStreamBuf>) -> Option<(Seq<u8>, bool)> {
    match c {
        Some(b) => Some((b.data(), b.fin)),
        Option::None => Option::None,
    }
}

/// Whether a reader's cache, holding `c` and finished when `f`, answers a
/// read of `len` bytes: it hands out bytes, or it tells that the stream is
/// finished.
pub open spec fn cache_answers(c: Seq<u8>, f: bool, len: nat) -> bool {
    min_len(len, c.len()) > 0 || (len >= c.len() && f)
}

/// One read of `len` bytes by a stream reader whose cache holds `c`,
/// finished when `f`. When the cache does not answer, the read takes
/// `next`, the next chunk of the stream's data (`None` once the data
/// channel has closed). Gives the bytes handed out, the fin flag handed
/// out, the cache after the read with its fin flag, and whether a chunk was
/// taken; `None` when the read fails because the channel has closed.
pub open spec fn recv_spec(c: Seq<u8>, f: bool, len: nat, next: Option<(Seq<u8>, bool)>) -> Option<
    (Seq<u8>, bool, Seq<u8>, bool, bool),
> {
    if cache_answers(c, f, len) {
        let n = min_len(len, c.len()) as int;
        Some((c.take(n), len >= c.len() && f, c.skip(n), f, false))
    } else {
        match next {
            Option::None => Option::None,
            Some(chunk) => {
                let n = min_len(len, chunk.0.len()) as int;
                Some((chunk.0.take(n), len >= chunk.0.len() && chunk.1, c + chunk.0.skip(n), chunk.1, true))
            },
        }
    }
}

/// The data channel of a stream has closed: a read that finds nothing
/// cached fails with a broken pipe.
#[derive(Debug, Clone, Copy, PartialEq, Eq, Structural)]
pub struct StreamClosed;

/// The first part of a stream reader's read: from its cache. Returns what
/// the read hands out when the cache answers; `None` when the read has to
/// wait for the next chunk of the stream's data, having changed nothing.
pub fn recv_cached(cache: &mut QuicStreamBuf, buf: &mut [u8]) -> (r: Option<(usize, bool)>)
    ensures
        r is Some <==> cache_answers(old(cache).data(), old(cache).fin, old(buf)@.len()),
        match recv_spec(old(cache).data(), old(cache).fin, old(buf)@.len(), Option::None) {
            Some(step) => r matches Some(x) && x.0 == step.0.len() && x.1 == step.1 && final(buf)@
                == step.0 + old(buf)@.skip(x.0 as int) && final(cache).data() == step.2
                && final(cache).fin == step.3,
            Option::None => r is None,
        },
        r is None ==> final(cache).data() == old(cache).data() && final(cache).fin == old(cache).fin
            && final(buf)@ == old(buf)@,
{
    let (n, fin) = cache.read(buf);
    assert(old(buf)@.skip(0) =~= old(buf)@);
    assert(old(cache).data().skip(0) =~= old(cache).data());
    if cache_read_answers(n, fin) {
        Some((n, fin))
    } else {
        Option::None
    }
}

/// The second part of a stream reader's read, once its cache did not
/// answer: reads from `next`, the next chunk of the stream's data, and
/// caches what is left of it; fails when the data channel has closed
/// (`next` is `None`).
pub fn recv_chunk(cache: &mut QuicStreamBuf, next: Option<QuicStreamBuf>, buf: &mut [u8]) -> (r:
    Result<(usize, bool), StreamClosed>)
    requires
        !cache_answers(old(cache).data(), old(cache).fin, old(buf)@.len()),
        !old(cache).fin,
    ensures
        match recv_spec(old(cache).data(), old(cache).fin, old(buf)@.len(), chunk_model(next)) {
            Some(step) => r matches Ok(x) && x.0 == step.0.len() && x.1 == step.1 && final(buf)@
                == step.0 + old(buf)@.skip(x.0 as int) && final(cache).data() == step.2
                && final(cache).fin == step.3,
            Option::None => r is Err,
        },
{
    match next {
        Some(incoming) => Ok(read_incoming(cache, incoming, buf)),
        Option::None => Err(StreamClosed),
    }
}

/// The bytes of a run of chunks, one after another.
pub open spec fn chunk_bytes(chunks: Seq<(Seq<u8>, bool)>) -> Seq<u8>
    decreases chunks.len(),
{
    if chunks.len() == 0 {
        Seq::empty()
    } else {
        chunks[0].0 + chunk_bytes(chunks.skip(1))
    }
}

/// Reads of lengths `lens` by a reader whose cache starts as `c`, finished
/// when `f`, and whose data channel yields `chunks` and then closes: the
/// bytes they hand out, in order, the cache left with its fin flag, the
/// chunks not taken, and whether a read failed (the run stops there).
pub open spec fn recv_run(c: Seq<u8>, f: bool, lens: Seq<nat>, chunks: Seq<(Seq<u8>, bool)>) -> (
    Seq<u8>,
    Seq<u8>,
    bool,
    Seq<(Seq<u8>, bool)>,
    bool,
)
    decreases lens.len(),
{
    if lens.len() == 0 {
        (Seq::empty(), c, f, chunks, false)
    } else {
        let next = if chunks.len() > 0 {
            Some(chunks[0])
        } else {
            Option::None
        };
        match recv_spec(c, f, lens[0], next) {
            Option::None => (Seq::empty(), c, f, chunks, true),
            Some(step) => {
                let rest = if step.4 {
                    chunks.skip(1)
                } else {
                    chunks
                };
                let run = recv_run(step.2, step.3, lens.skip(1), rest);
                (step.0 + run.0, run.1, run.2, run.3, run.4)
            },
        }
    }
}

proof fn lemma_recv_step_conserves(c: Seq<u8>, f: bool, len: nat, next: Option<(Seq<u8>, bool)>)
    ensures
        recv_spec(c, f, len, next) matches Some(step) ==> (!step.4 ==> step.0 + step.2 == c) && (
        step.4 ==> next is Some && step.0 + step.2 == c + next->Some_0.0),
{
    if cache_answers(c, f, len) {
        let n = min_len(len, c.len()) as int;
        assert(c.take(n) + c.skip(n) =~= c);
    } else if next is Some {
        let d = next->Some_0.0;
        let n = min_len(len, d.len()) as int;
        if len == 0 {
            assert(d.take(0) + (c + d.skip(0)) =~= c + d);
        } else {
            assert(c.len() == 0);
            assert(d.take(n) + (c + d.skip(n)) =~= c + d);
        }
    }
}

/// A write that fits is sent whole: when the stream can take something and
/// can take all of `data`, all of it goes now with the fin flag as given
/// and nothing is kept, the empty write that closes a stream included.
/// A write that does not fit sends exactly what the stream can take,
/// without the fin flag, and keeps the rest with it.
pub proof fn lemma_send_split_fits(data: Seq<u8>, fin: bool, capacity: nat)
    requires
        capacity > 0,
    ensures
        data.len() <= capacity ==> send_split_spec(data, fin, capacity) == (
            data,
            fin,
            Seq::<u8>::empty(),
            false,
        ),
        data.len() > capacity ==> ({
            let (now, now_fin, later, later_fin) = send_split_spec(data, fin, capacity);
            &&& now.len() == capacity
            &&& !now_fin
            &&& later_fin == fin
            &&& now + later == data
        }),
{
    if data.len() <= capacity {
        assert(data.take(data.len() as int) =~= data);
        assert(data.skip(data.len() as int) =~= Seq::<u8>::empty());
    } else {
        assert(data.take(capacity as int) + data.skip(capacity as int) =~= data);
    }
}

/// Successive reads deliver a stream's data in order, with nothing lost,
/// duplicated or reordered: the chunks that a run of reads takes are the
/// first ones of the channel, in order, and what the reads hand out,
/// followed by what is left cached, is what was cached followed by the
/// bytes of the chunks taken.
pub proof fn lemma_reads_deliver_in_order(
    c: Seq<u8>,
    f: bool,
    lens: Seq<nat>,
    chunks: Seq<(Seq<u8>, bool)>,
)
    ensures
        ({
            let run = recv_run(c, f, lens, chunks);
            let taken = chunks.len() - run.3.len();
            &&& 0 <= taken <= chunks.len()
            &&& run.3 == chunks.skip(taken)
            &&& run.0 + run.1 == c + chunk_bytes(chunks.take(taken))
        }),
    decreases lens.len(),
{
    let run = recv_run(c, f, lens, chunks);
    assert(chunks.skip(0) =~= chunks);
    assert(chunks.take(0) =~= Seq::<(Seq<u8>, bool)>::empty());
    assert(c + chunk_bytes(chunks.take(0)) =~= c);
    if lens.len() == 0 {
        assert(run.0 + run.1 =~= c);
        return;
    }
    let next = if chunks.len() > 0 {
        Some(chunks[0])
    } else {
        Option::None
    };
    lemma_recv_step_conserves(c, f, lens[0], next);
    let o = recv_spec(c, f, lens[0], next);
    if o is None {
        assert(run.0 + run.1 =~= c);
        return;
    }
    let step = o->Some_0;
    let rest = if step.4 {
        chunks.skip(1)
    } else {
        chunks
    };
    lemma_reads_deliver_in_order(step.2, step.3, lens.skip(1), rest);
    let sub = recv_run(step.2, step.3, lens.skip(1), rest);
    assert(run == (step.0 + sub.0, sub.1, sub.2, sub.3, sub.4));
    let t2 = rest.len() - sub.3.len();
    let cb = chunk_bytes(rest.take(t2));
    assert(sub.0 + sub.1 == step.2 + cb);
    assert((step.0 + sub.0) + sub.1 =~= step.0 + (sub.0 + sub.1));
    assert(step.0 + (step.2 + cb) =~= (step.0 + step.2) + cb);
    assert(run.0 + run.1 == (step.0 + step.2) + cb);
    if step.4 {
        let d = chunks[0].0;
        let t = 1 + t2;
        assert(chunks.take(t).skip(1) =~= chunks.skip(1).take(t2));
        assert(chunks.take(t)[0] == chunks[0]);
        assert(chunk_bytes(chunks.take(t)) == d + chunk_bytes(chunks.skip(1).take(t2)));
        assert(chunks.skip(1).skip(t2) =~= chunks.skip(t));
        assert((c + d) + chunk_bytes(chunks.skip(1).take(t2)) =~= c + chunk_bytes(chunks.take(t)));
    }
}

/// The fin flag of a stream is handed out once all of its data has been:
/// a read of a non-empty buffer that reports the stream finished leaves
/// nothing cached; after
/// that, every read hands out nothing and reports the stream finished; and
/// a read of a non-empty buffer fails only when nothing is cached, the
/// stream is not finished and the data channel has closed.
pub proof fn lemma_recv_fin(c: Seq<u8>, f: bool, len: nat, next: Option<(Seq<u8>, bool)>)
    ensures
        len > 0 ==> (recv_spec(c, f, len, next) matches Some(step) ==> (step.1 ==> step.2.len() == 0
            && step.3)),
        c.len() == 0 && f ==> recv_spec(c, f, len, next) == Some(
            (Seq::<u8>::empty(), true, Seq::<u8>::empty(), true, false),
        ),
        len > 0 && recv_spec(c, f, len, next) is None ==> c.len() == 0 && !f && next is None,
{
    if c.len() == 0 && f {
        assert(c.take(0) =~= Seq::<u8>::empty());
        assert(c.skip(0) =~= Seq::<u8>::empty());
    }
}

/// Handing out bytes loses none and invents none: after a read of `n`
/// bytes into `dst`, the bytes delivered at the front of `dst`, followed by
/// what stays buffered, are what was buffered.
pub proof fn lemma_read_conserves(
    before: QuicStreamBuf,
    after: QuicStreamBuf,
    dst: Seq<u8>,
    out: Seq<u8>,
    n: usize,
)
    requires
        n <= dst.len(),
        n <= before.data().len(),
        out == before.data().take(n as int) + dst.skip(n as int),
        after.data() == before.data().skip(n as int),
    ensures
        out.take(n as int) + after.data() == before.data(),
{
    assert(out.take(n as int) =~= before.data().take(n as int));
    assert(before.data().take(n as int) + before.data().skip(n as int) =~= before.data());
}

/// Data appended in two parts is read back as one sequence in the same
/// order: after appending `a`, then `b` with fin flag `fin`, to an empty
/// buffer, a read into a `dst` with room for all of it delivers `a + b`,
/// leaves nothing buffered and reports `fin`.
pub proof fn lemma_append_then_read(
    empty: QuicStreamBuf,
    first: QuicStreamBuf,
    second: QuicStreamBuf,
    a: Seq<u8>,
    b: Seq<u8>,
    fin: bool,
    dst: Seq<u8>,
)
    requires
        empty.data() == Seq::<u8>::empty(),
        first.data() == empty.data() + a,
        second.data() == first.data() + b,
        second.fin == fin,
        dst.len() >= a.len() + b.len(),
    ensures
        ({
            let n = if dst.len() < second.data().len() {
                dst.len() as int
            } else {
                second.data().len() as int
            };
            &&& n == a.len() + b.len()
            &&& (second.data().take(n) + dst.skip(n)).take(n) == a + b
            &&& second.data().skip(n) == Seq::<u8>::empty()
            &&& (dst.len() >= second.data().len() && second.fin) == fin
        }),
{
    let data = second.data();
    assert(data =~= a + b);
    let n = data.len() as int;
    assert((data.take(n) + dst.skip(n)).take(n) =~= a + b);
    assert(data.skip(n) =~= Seq::<u8>::empty());
}

} // verus!
