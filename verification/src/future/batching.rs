//! Batching futures that one task polls: the slot where the batch keeps the
//! waker of that task, and the bookkeeping of which futures are pending and
//! which were woken and are due for a poll.
//!
//! A new waker replaces the old one, and a wake-up takes the waker out and
//! wakes its task once. Each future gets a fresh id; a woken id is queued;
//! the poller takes queued ids in order and polls the future of the first
//! one still pending, out of the pending set, so that no future is polled
//! twice at once; a future that stays pending is put back.
use vstd::prelude::*;

use std::collections::{HashMap, VecDeque};
use std::task::Waker;

verus! {

broadcast use vstd::std_specs::hash::group_hash_axioms;

/// `std::task::Waker::wake`: schedules the task.
#[verifier::external_body]
fn wake_task(waker: Waker) {
    waker.wake()
}

/// Holds at most one waker: that of the task polling the batch.
pub struct WakerHost {
    waker: Option<Waker>,
}

impl WakerHost {
    /// The waker held, if any.
    pub closed spec fn held(&self) -> Option<Waker> {
        self.waker
    }

    /// An empty slot.
    pub fn new() -> (r: WakerHost)
        ensures
            r.held() is None,
    {
        WakerHost { waker: None }
    }

    /// Takes the held waker out, leaving the slot empty.
    pub fn remove_waker(&mut self) -> (r: Option<Waker>)
        ensures
            r == old(self).held(),
            final(self).held() is None,
    {
        self.waker.take()
    }

    /// Puts `waker` in the slot and hands back the waker it replaces; a
    /// replaced waker means the batch was woken without being polled.
    pub fn add_waker(&mut self, waker: Waker) -> (replaced: Option<Waker>)
        ensures
            final(self).held() == Some(waker),
            replaced == old(self).held(),
    {
        let replaced = self.waker.take();
        self.waker = Some(waker);
        replaced
    }

    /// Wakes the task whose waker is held, if any, and empties the slot.
    /// Returns whether a task was woken.
    pub fn wake(&mut self) -> (woken: bool)
        ensures
            woken == old(self).held() is Some,
            final(self).held() is None,
    {
        match self.remove_waker() {
            Some(w) => {
                wake_task(w);
                true
            },
            None => false,
        }
    }
}

/// The index of the first id at or after `i` in `ready` that is in `live`
/// (`ready.len()` when there is none).
pub open spec fn first_live(ready: Seq<usize>, live: Set<usize>, i: int) -> int
    decreases ready.len() - i,
{
    if i < 0 || i >= ready.len() {
        ready.len() as int
    } else if live.contains(ready[i]) {
        i
    } else {
        first_live(ready, live, i + 1)
    }
}

proof fn lemma_first_live(ready: Seq<usize>, live: Set<usize>, i: int)
    requires
        0 <= i <= ready.len(),
    ensures
        i <= first_live(ready, live, i) <= ready.len(),
        forall|j: int| i <= j < first_live(ready, live, i) ==> !live.contains(#[trigger] ready[j]),
        first_live(ready, live, i) < ready.len() ==> live.contains(
            ready[first_live(ready, live, i)],
        ),
    decreases ready.len() - i,
{
    if i < ready.len() && !live.contains(ready[i]) {
        lemma_first_live(ready, live, i + 1);
    }
}

/// The id after `id`, wrapping around as an atomic counter does.
pub open spec fn next_id_after(id: usize) -> usize {
    if id == usize::MAX {
        0
    } else {
        (id + 1) as usize
    }
}

/// The futures of a batch, by id, and the ids woken since they were last
/// polled.
pub struct BatchQueue<F> {
    next_id: usize,
    pending: HashMap<usize, F>,
    ready: VecDeque<usize>,
}

impl<F> BatchQueue<F> {
    /// The id the next pushed future gets.
    pub closed spec fn next_id(&self) -> usize {
        self.next_id
    }

    /// The futures waiting to be polled, by id.
    pub closed spec fn pending(&self) -> Map<usize, F> {
        self.pending@
    }

    /// The ids woken and not yet taken, oldest first.
    pub closed spec fn ready(&self) -> Seq<usize> {
        self.ready@
    }

    /// An empty batch.
    pub fn new() -> (r: Self)
        ensures
            r.next_id() == 0,
            r.pending() == Map::<usize, F>::empty(),
            r.ready() == Seq::<usize>::empty(),
    {
        BatchQueue { next_id: 0, pending: HashMap::new(), ready: VecDeque::new() }
    }

    /// Adds `fut` under the next id and queues that id, so that the future
    /// is polled once. Returns the id.
    pub fn push(&mut self, fut: F) -> (id: usize)
        ensures
            id == old(self).next_id(),
            final(self).next_id() == next_id_after(id),
            final(self).pending() == old(self).pending().insert(id, fut),
            final(self).ready() == old(self).ready().push(id),
            ({
                let o = batch_op(old(self).next_id(), old(self).pending(), old(self).ready(), BatchOp::Push(fut));
                &&& final(self).next_id() == o.0
                &&& final(self).pending() == o.1
                &&& final(self).ready() == o.2
            }),
    {
        let id = self.next_id;
        self.next_id = if id == usize::MAX {
            0
        } else {
            id + 1
        };
        self.pending.insert(id, fut);
        self.ready.push_back(id);
        id
    }

    /// Queues the id of a future whose waker fired.
    pub fn wake(&mut self, id: usize)
        ensures
            final(self).ready() == old(self).ready().push(id),
            final(self).pending() == old(self).pending(),
            final(self).next_id() == old(self).next_id(),
            ({
                let o = batch_op(old(self).next_id(), old(self).pending(), old(self).ready(), BatchOp::<F>::Wake(id));
                &&& final(self).next_id() == o.0
                &&& final(self).pending() == o.1
                &&& final(self).ready() == o.2
            }),
    {
        self.ready.push_back(id);
    }

    /// Takes the first queued id whose future is still pending, and takes
    /// that future out of the pending set. Queued ids before it, whose
    /// futures are gone, are dropped; with none left, the queue is emptied.
    pub fn take_ready(&mut self) -> (r: Option<(usize, F)>)
        ensures
            ({
                let k = first_live(old(self).ready(), old(self).pending().dom(), 0);
                &&& k == old(self).ready().len() ==> r is None && final(self).ready()
                    == Seq::<usize>::empty() && final(self).pending() == old(self).pending()
                &&& k < old(self).ready().len() ==> {
                    let id = old(self).ready()[k];
                    &&& r == Some((id, old(self).pending()[id]))
                    &&& final(self).ready() == old(self).ready().skip(k + 1)
                    &&& final(self).pending() == old(self).pending().remove(id)
                }
            }),
            final(self).next_id() == old(self).next_id(),
            ({
                let o = batch_op(old(self).next_id(), old(self).pending(), old(self).ready(), BatchOp::<F>::Take);
                &&& final(self).next_id() == o.0
                &&& final(self).pending() == o.1
                &&& final(self).ready() == o.2
                &&& (r matches Some(p) ==> o.3 == Some(p.0))
                &&& (r is None ==> o.3 is None)
            }),
    {
        let ghost q0 = self.ready@;
        let ghost live = self.pending@.dom();
        proof {
            lemma_first_live(q0, live, 0);
        }
        let ghost mut i: int = 0;
        while self.ready.len() > 0
            invariant
                0 <= i <= q0.len(),
                self.ready@ == q0.skip(i),
                self.pending@ == old(self).pending(),
                live == old(self).pending().dom(),
                q0 == old(self).ready(),
                self.next_id == old(self).next_id(),
                forall|j: int| 0 <= j < i ==> !live.contains(#[trigger] q0[j]),
                i <= first_live(q0, live, 0),
                first_live(q0, live, 0) <= q0.len(),
                first_live(q0, live, 0) < q0.len() ==> live.contains(q0[first_live(q0, live, 0)]),
                forall|j: int| 0 <= j < first_live(q0, live, 0) ==> !live.contains(#[trigger] q0[j]),
            decreases self.ready@.len(),
        {
            let id = self.ready.pop_front().unwrap();
            assert(id == q0[i]);
            proof {
                i = i + 1;
            }
            assert(self.ready@ =~= q0.skip(i));
            match self.pending.remove(&id) {
                Some(f) => {
                    assert(live.contains(q0[i - 1]));
                    return Some((id, f));
                },
                None => {
                    assert(self.pending@ =~= old(self).pending());
                },
            }
        }
        assert(q0.skip(i).len() == 0);
        None
    }

    /// Puts back a future that a poll left pending.
    pub fn repend(&mut self, id: usize, fut: F)
        ensures
            final(self).pending() == old(self).pending().insert(id, fut),
            final(self).ready() == old(self).ready(),
            final(self).next_id() == old(self).next_id(),
    {
        self.pending.insert(id, fut);
    }
}

/// While every pending id is below the next id, a pushed future gets an id
/// that no pending future has, and the property holds after the push
/// unless the counter wraps around.
pub proof fn lemma_push_fresh<F>(pending: Map<usize, F>, next: usize, fut: F)
    requires
        forall|k: usize| #[trigger] pending.contains_key(k) ==> k < next,
    ensures
        !pending.contains_key(next),
        next < usize::MAX ==> forall|k: usize| #[trigger]
            pending.insert(next, fut).contains_key(k) ==> k < next_id_after(next),
{
}


/// One operation on a batch whose next id is `next`, whose pending futures
/// are `pending` and whose woken ids are `ready`, as [`BatchQueue`]'s
/// methods say.
pub enum BatchOp<F> {
    /// A future is pushed.
    Push(F),
    /// The future with this id was woken.
    Wake(usize),
    /// The poller takes the next woken future that is still pending.
    Take,
}

/// The batch after one operation, and the id of the future taken, if any.
pub open spec fn batch_op<F>(next: usize, pending: Map<usize, F>, ready: Seq<usize>, op: BatchOp<F>) -> (
    usize,
    Map<usize, F>,
    Seq<usize>,
    Option<usize>,
) {
    match op {
        BatchOp::Push(f) => (next_id_after(next), pending.insert(next, f), ready.push(next), None),
        BatchOp::Wake(id) => (next, pending, ready.push(id), None),
        BatchOp::Take => {
            let k = first_live(ready, pending.dom(), 0);
            if k == ready.len() {
                (next, pending, Seq::empty(), None)
            } else {
                let id = ready[k];
                (next, pending.remove(id), ready.skip(k + 1), Some(id))
            }
        },
    }
}

/// The ids of the futures that a run of operations takes, in order.
pub open spec fn batch_run<F>(
    next: usize,
    pending: Map<usize, F>,
    ready: Seq<usize>,
    ops: Seq<BatchOp<F>>,
) -> Seq<usize>
    decreases ops.len(),
{
    if ops.len() == 0 {
        Seq::empty()
    } else {
        let one = batch_op(next, pending, ready, ops[0]);
        let rest = batch_run(one.0, one.1, one.2, ops.skip(1));
        match one.3 {
            Some(id) => seq![id] + rest,
            None => rest,
        }
    }
}

proof fn lemma_batch_run_avoids<F>(
    next: usize,
    pending: Map<usize, F>,
    ready: Seq<usize>,
    ops: Seq<BatchOp<F>>,
    gone: Set<usize>,
)
    requires
        next + ops.len() <= usize::MAX,
        forall|k: usize| #[trigger] pending.contains_key(k) ==> k < next,
        forall|k: usize| #[trigger] gone.contains(k) ==> k < next && !pending.contains_key(k),
    ensures
        ({
            let taken = batch_run(next, pending, ready, ops);
            &&& forall|i: int, j: int| 0 <= i < j < taken.len() ==> taken[i] != taken[j]
            &&& forall|i: int| 0 <= i < taken.len() ==> !gone.contains(#[trigger] taken[i])
            &&& forall|i: int| 0 <= i < taken.len() ==> (pending.contains_key(#[trigger] taken[i])
                || next <= taken[i] < next + ops.len())
        }),
    decreases ops.len(),
{
    if ops.len() == 0 {
        return;
    }
    let one = batch_op(next, pending, ready, ops[0]);
    let rest_ops = ops.skip(1);
    match ops[0] {
        BatchOp::Push(f) => {
            assert(next < usize::MAX);
            assert(one.0 == next + 1);
            assert forall|k: usize| #[trigger] one.1.contains_key(k) implies k < one.0 by {}
            lemma_batch_run_avoids(one.0, one.1, one.2, rest_ops, gone);
            let taken = batch_run(next, pending, ready, ops);
            let rest = batch_run(one.0, one.1, one.2, rest_ops);
            assert(taken == rest);
            assert forall|i: int| 0 <= i < taken.len() implies (pending.contains_key(
                #[trigger] taken[i],
            ) || next <= taken[i] < next + ops.len()) by {
                if one.1.contains_key(taken[i]) && taken[i] != next {
                    assert(pending.contains_key(taken[i]));
                }
            }
        },
        BatchOp::Wake(id) => {
            lemma_batch_run_avoids(one.0, one.1, one.2, rest_ops, gone);
            assert(batch_run(next, pending, ready, ops) == batch_run(one.0, one.1, one.2, rest_ops));
        },
        BatchOp::Take => {
            lemma_first_live(ready, pending.dom(), 0);
            let k = first_live(ready, pending.dom(), 0);
            if k == ready.len() {
                lemma_batch_run_avoids(one.0, one.1, one.2, rest_ops, gone);
                assert(batch_run(next, pending, ready, ops) == batch_run(one.0, one.1, one.2, rest_ops));
            } else {
                let id = ready[k];
                assert(pending.contains_key(id));
                let gone2 = gone.insert(id);
                lemma_batch_run_avoids(one.0, one.1, one.2, rest_ops, gone2);
                let rest = batch_run(one.0, one.1, one.2, rest_ops);
                let taken = batch_run(next, pending, ready, ops);
                assert(taken == seq![id] + rest);
                assert forall|i: int, j: int| 0 <= i < j < taken.len() implies taken[i] != taken[j] by {
                    if i == 0 {
                        assert(taken[j] == rest[j - 1]);
                        assert(!gone2.contains(rest[j - 1]));
                    } else {
                        assert(taken[i] == rest[i - 1] && taken[j] == rest[j - 1]);
                    }
                }
                assert forall|i: int| 0 <= i < taken.len() implies !gone.contains(#[trigger] taken[i])
                    && (pending.contains_key(taken[i]) || next <= taken[i] < next + ops.len()) by {
                    if i > 0 {
                        assert(taken[i] == rest[i - 1]);
                        assert(!gone2.contains(rest[i - 1]));
                        if one.1.contains_key(rest[i - 1]) {
                            assert(pending.contains_key(rest[i - 1]));
                        }
                    }
                }
            }
        },
    }
}

/// Each batched future is handed to the poller at most once: over any run
/// of pushes, wake-ups and takes (no future put back) on a batch whose
/// pending ids are all below its next id, the ids taken are all different,
/// and each is that of a future pending at the start or pushed during the
/// run. This holds while the id counter does not wrap around.
pub proof fn lemma_batch_takes_once<F>(
    next: usize,
    pending: Map<usize, F>,
    ready: Seq<usize>,
    ops: Seq<BatchOp<F>>,
)
    requires
        next + ops.len() <= usize::MAX,
        forall|k: usize| #[trigger] pending.contains_key(k) ==> k < next,
    ensures
        ({
            let taken = batch_run(next, pending, ready, ops);
            &&& forall|i: int, j: int| 0 <= i < j < taken.len() ==> taken[i] != taken[j]
            &&& forall|i: int| 0 <= i < taken.len() ==> (pending.contains_key(#[trigger] taken[i])
                || next <= taken[i] < next + ops.len())
        }),
{
    lemma_batch_run_avoids(next, pending, ready, ops, Set::empty());
}

} // verus!
