use vstd::prelude::*;

use std::collections::VecDeque;

use crate::thread::Thread;

verus! {

/// `q` without the contexts whose id is `id`, order kept.
pub open spec fn without_tid(q: Seq<Thread>, id: usize) -> Seq<Thread>
    decreases q.len(),
{
    if q.len() == 0 {
        q
    } else {
        let rest = without_tid(q.drop_last(), id);
        if q.last().tid() == id {
            rest
        } else {
            rest.push(q.last())
        }
    }
}

/// `q` after enqueueing the contexts `ts` one by one at its tail.
pub open spec fn enqueue_all(q: Seq<Thread>, ts: Seq<Thread>) -> Seq<Thread>
    decreases ts.len(),
{
    if ts.len() == 0 {
        q
    } else {
        enqueue_all(q, ts.drop_last()).push(ts.last())
    }
}

/// Enqueueing one by one appends in order.
pub proof fn lemma_enqueue_all(q: Seq<Thread>, ts: Seq<Thread>)
    ensures
        enqueue_all(q, ts) == q + ts,
    decreases ts.len(),
{
    if ts.len() > 0 {
        lemma_enqueue_all(q, ts.drop_last());
        assert(q + ts.drop_last().push(ts.last()) =~= q + ts);
        assert((q + ts.drop_last()).push(ts.last()) =~= q + ts.drop_last().push(ts.last()));
    }
}

/// FIFO start: after any sequence of `ready` calls on an empty ready queue,
/// `schedule` resumes the first context enqueued.
pub proof fn lemma_fifo_first_resumed(ts: Seq<Thread>)
    requires
        ts.len() > 0,
    ensures
        enqueue_all(Seq::empty(), ts)[0] == ts[0],
        enqueue_all(Seq::empty(), ts)[0].tid() == ts[0].tid(),
{
    lemma_enqueue_all(Seq::empty(), ts);
    assert(Seq::<Thread>::empty() + ts =~= ts);
}

/// The ready queue after the running context `cur` hands the processor to the
/// head of `q`: the head leaves, `cur` joins at the tail.
pub open spec fn rotated(q: Seq<Thread>, cur: Thread) -> Seq<Thread> {
    q.drop_first().push(cur)
}

/// Round-robin scheduler: the running context, a FIFO queue of ready
/// contexts, whether preemption is permitted yet, and the next free context id.
///
/// Contexts are owned: a context is either the active one, in the ready queue,
/// or handed out (to a wait queue) by value, never in two places at once.
pub struct Scheduler {
    active: Option<Thread>,
    ready_queue: VecDeque<Thread>,
    initialized: bool,
    next_tid: usize,
}

/// Enqueueing a context whose id is not held, or is below the next id, keeps
/// the ids distinct, or below the next id.
proof fn lemma_push_keeps_tids(before: Scheduler, after: Scheduler, that: Thread)
    requires
        after.ready_seq() == before.ready_seq().push(that),
        after.active() == before.active(),
        after.next_id() == before.next_id(),
    ensures
        before.tids_distinct() && !before.holds_tid(that.tid()) ==> after.tids_distinct(),
        before.tids_below_next() && that.tid() < before.next_id() ==> after.tids_below_next(),
{
    let q = after.ready_seq();
    let n = before.ready_seq().len();
    assert forall|i: int| 0 <= i < n implies #[trigger] q[i] == before.ready_seq()[i] by {}
    if before.tids_distinct() && !before.holds_tid(that.tid()) {
        assert forall|i: int, j: int| 0 <= i < j < q.len() implies #[trigger] q[i].tid()
            != #[trigger] q[j].tid() by {
            if j == n {
                assert(q[i] == before.ready_seq()[i]);
                assert(before.ready_seq()[i].tid() != that.tid());
            } else {
                assert(q[i] == before.ready_seq()[i]);
                assert(q[j] == before.ready_seq()[j]);
            }
        }
        if after.active().is_some() {
            assert forall|i: int| 0 <= i < q.len() implies #[trigger] q[i].tid()
                != after.active().unwrap().tid() by {
                if i < n {
                    assert(q[i] == before.ready_seq()[i]);
                }
            }
        }
    }
    if before.tids_below_next() && that.tid() < before.next_id() {
        assert forall|i: int| 0 <= i < q.len() implies #[trigger] q[i].tid() < after.next_id() by {
            if i < n {
                assert(q[i] == before.ready_seq()[i]);
            }
        }
    }
}

/// Making the head of the ready queue the running context keeps the ids
/// distinct and below the next id.
proof fn lemma_pop_head_keeps_tids(before: Scheduler, after: Scheduler)
    requires
        before.ready_seq().len() > 0,
        after.active() == Some(before.ready_seq()[0]),
        after.ready_seq() == before.ready_seq().drop_first(),
        after.next_id() == before.next_id(),
    ensures
        before.tids_distinct() ==> after.tids_distinct(),
        before.tids_below_next() ==> after.tids_below_next(),
{
    let q = before.ready_seq();
    let r = after.ready_seq();
    assert forall|i: int| 0 <= i < r.len() implies #[trigger] r[i] == q[i + 1] by {}
    if before.tids_distinct() {
        assert forall|i: int, j: int| 0 <= i < j < r.len() implies #[trigger] r[i].tid()
            != #[trigger] r[j].tid() by {
            assert(r[i] == q[i + 1]);
            assert(r[j] == q[j + 1]);
        }
        assert forall|i: int| 0 <= i < r.len() implies #[trigger] r[i].tid()
            != after.active().unwrap().tid() by {
            assert(r[i] == q[i + 1]);
            assert(q[0].tid() != q[i + 1].tid());
        }
    }
    if before.tids_below_next() {
        assert(q[0].tid() < before.next_id());
        assert forall|i: int| 0 <= i < r.len() implies #[trigger] r[i].tid() < after.next_id() by {
            assert(r[i] == q[i + 1]);
        }
    }
}

/// Rotating the running context to the tail keeps the ids distinct and below
/// the next id; with distinct ids the switch is never to the running context.
proof fn lemma_rotate_keeps_tids(before: Scheduler, after: Scheduler)
    requires
        before.ready_seq().len() > 0,
        before.active().is_some(),
        after.active() == Some(before.ready_seq()[0]),
        after.ready_seq() == rotated(before.ready_seq(), before.active().unwrap()),
        after.next_id() == before.next_id(),
    ensures
        before.tids_distinct() ==> after.tids_distinct() && before.active().unwrap().tid()
            != before.ready_seq()[0].tid(),
        before.tids_below_next() ==> after.tids_below_next(),
{
    let q = before.ready_seq();
    let cur = before.active().unwrap();
    let r = after.ready_seq();
    let n = q.len();
    assert forall|i: int| 0 <= i < n - 1 implies #[trigger] r[i] == q[i + 1] by {}
    assert(r[n - 1] == cur);
    if before.tids_distinct() {
        assert(q[0].tid() != cur.tid());
        assert forall|i: int, j: int| 0 <= i < j < r.len() implies #[trigger] r[i].tid()
            != #[trigger] r[j].tid() by {
            assert(r[i] == q[i + 1]);
            if j < n - 1 {
                assert(r[j] == q[j + 1]);
            }
        }
        assert forall|i: int| 0 <= i < r.len() implies #[trigger] r[i].tid()
            != after.active().unwrap().tid() by {
            if i < n - 1 {
                assert(r[i] == q[i + 1]);
                assert(q[0].tid() != q[i + 1].tid());
            }
        }
    }
    if before.tids_below_next() {
        assert(q[0].tid() < before.next_id());
        assert forall|i: int| 0 <= i < r.len() implies #[trigger] r[i].tid() < after.next_id() by {
            if i < n - 1 {
                assert(r[i] == q[i + 1]);
            }
        }
    }
}

/// Every context kept by `without_tid` comes from `q`, and distinct ids in
/// `q` stay distinct.
proof fn lemma_without_tid_from(q: Seq<Thread>, id: usize)
    ensures
        forall|k: int|
            0 <= k < without_tid(q, id).len() ==> exists|m: int|
                0 <= m < q.len() && q[m] == #[trigger] without_tid(q, id)[k],
        (forall|i: int, j: int| 0 <= i < j < q.len() ==> #[trigger] q[i].tid() != #[trigger] q[j].tid())
            ==> (forall|i: int, j: int|
            0 <= i < j < without_tid(q, id).len() ==> #[trigger] without_tid(q, id)[i].tid()
                != #[trigger] without_tid(q, id)[j].tid()),
    decreases q.len(),
{
    if q.len() > 0 {
        let p = q.drop_last();
        lemma_without_tid_from(p, id);
        let w = without_tid(q, id);
        let wp = without_tid(p, id);
        assert forall|k: int| 0 <= k < w.len() implies exists|m: int|
            0 <= m < q.len() && q[m] == #[trigger] w[k] by {
            if k < wp.len() {
                assert(w[k] == wp[k]);
                let m = choose|m: int| 0 <= m < p.len() && p[m] == wp[k];
                assert(q[m] == w[k]);
            } else {
                assert(q[q.len() - 1] == w[k]);
            }
        }
        if forall|i: int, j: int| 0 <= i < j < q.len() ==> #[trigger] q[i].tid() != #[trigger] q[j].tid() {
            assert forall|i: int, j: int| 0 <= i < j < p.len() implies #[trigger] p[i].tid()
                != #[trigger] p[j].tid() by {
                assert(p[i] == q[i] && p[j] == q[j]);
            }
            assert forall|i: int, j: int| 0 <= i < j < w.len() implies #[trigger] w[i].tid()
                != #[trigger] w[j].tid() by {
                if j < wp.len() {
                    assert(w[i] == wp[i] && w[j] == wp[j]);
                } else {
                    assert(w[i] == wp[i]);
                    let m = choose|m: int| 0 <= m < p.len() && p[m] == wp[i];
                    assert(q[m] == p[m]);
                    assert(w[j] == q[q.len() - 1]);
                }
            }
        }
    }
}

impl Scheduler {
    /// The running context, if any.
    pub closed spec fn active(&self) -> Option<Thread> {
        self.active
    }

    /// The ready queue, head first.
    pub closed spec fn ready_seq(&self) -> Seq<Thread> {
        self.ready_queue@
    }

    /// Whether preemption is permitted.
    pub closed spec fn is_initialized(&self) -> bool {
        self.initialized
    }

    /// The id that the next call of `next_thread_id` hands out.
    pub closed spec fn next_id(&self) -> usize {
        self.next_tid
    }

    /// Some held context (running or ready) has id `id`.
    pub open spec fn holds_tid(&self, id: usize) -> bool {
        ||| (self.active().is_some() && self.active().unwrap().tid() == id)
        ||| exists|i: int| 0 <= i < self.ready_seq().len() && #[trigger] self.ready_seq()[i].tid() == id
    }

    /// No two held contexts share an id; in particular the ready queue never
    /// holds the running context.
    pub open spec fn tids_distinct(&self) -> bool {
        &&& forall|i: int, j: int|
            0 <= i < j < self.ready_seq().len() ==> #[trigger] self.ready_seq()[i].tid()
                != #[trigger] self.ready_seq()[j].tid()
        &&& self.active().is_some() ==> forall|i: int|
            0 <= i < self.ready_seq().len() ==> #[trigger] self.ready_seq()[i].tid()
                != self.active().unwrap().tid()
    }

    /// Every held context has an id below the next id to be handed out.
    pub open spec fn tids_below_next(&self) -> bool {
        &&& self.active().is_some() ==> self.active().unwrap().tid() < self.next_id()
        &&& forall|i: int|
            0 <= i < self.ready_seq().len() ==> #[trigger] self.ready_seq()[i].tid()
                < self.next_id()
    }

    /// An empty scheduler: nothing running, nothing ready, preemption off.
    pub fn new() -> (r: Scheduler)
        ensures
            r.active().is_none(),
            r.ready_seq() == Seq::<Thread>::empty(),
            !r.is_initialized(),
            r.next_id() == 0,
            r.tids_distinct(),
            r.tids_below_next(),
    {
        Scheduler { active: None, ready_queue: VecDeque::new(), initialized: false, next_tid: 0 }
    }

    /// Permits preemption from now on.
    pub fn set_initialized(&mut self)
        ensures
            final(self).is_initialized(),
            final(self).active() == old(self).active(),
            final(self).ready_seq() == old(self).ready_seq(),
            final(self).next_id() == old(self).next_id(),
    {
        self.initialized = true;
    }

    /// Hands out a fresh context id: ids are assigned in increasing order.
    pub fn next_thread_id(&mut self) -> (r: usize)
        requires
            old(self).next_id() < usize::MAX,
        ensures
            r == old(self).next_id(),
            final(self).next_id() == r + 1,
            final(self).active() == old(self).active(),
            final(self).ready_seq() == old(self).ready_seq(),
            final(self).is_initialized() == old(self).is_initialized(),
            old(self).tids_below_next() ==> final(self).tids_below_next(),
            old(self).tids_below_next() ==> !old(self).holds_tid(r),
    {
        let id = self.next_tid;
        self.next_tid = self.next_tid + 1;
        proof {
            if old(self).tids_below_next() {
                assert forall|i: int| 0 <= i < self.ready_seq().len() implies #[trigger] self.ready_seq()[i].tid()
                    < self.next_id() by {
                    assert(old(self).ready_seq()[i].tid() < old(self).next_id());
                }
            }
        }
        id
    }

    /// Id of the running context.
    pub fn get_active_tid(&self) -> (r: usize)
        requires
            self.active().is_some(),
        ensures
            r == self.active().unwrap().tid(),
    {
        match &self.active {
            Some(t) => t.get_tid(),
            None => 0,
        }
    }

    /// Ids of the ready contexts, head first.
    pub fn ready_tids(&self) -> (r: Vec<usize>)
        ensures
            r@ == self.ready_seq().map_values(|t: Thread| t.tid()),
    {
        let n = self.ready_queue.len();
        let mut ids: Vec<usize> = Vec::with_capacity(n);
        let mut i: usize = 0;
        while i < n
            invariant
                i <= n,
                n == self.ready_seq().len(),
                ids@ == self.ready_seq().subrange(0, i as int).map_values(|t: Thread| t.tid()),
            decreases n - i,
        {
            ids.push(self.ready_queue[i].get_tid());
            i = i + 1;
            assert(ids@ =~= self.ready_seq().subrange(0, i as int).map_values(|t: Thread| t.tid()));
        }
        assert(self.ready_seq().subrange(0, n as int) =~= self.ready_seq());
        ids
    }

    /// Whether a context is running.
    pub fn has_active(&self) -> (r: bool)
        ensures
            r == self.active().is_some(),
    {
        self.active.is_some()
    }

    /// The running context, if any.
    pub fn get_active(&self) -> (r: Option<&Thread>)
        ensures
            r.is_some() == self.active().is_some(),
            r.is_some() ==> *r.unwrap() == self.active().unwrap(),
    {
        match &self.active {
            Some(t) => Some(t),
            None => None,
        }
    }

    /// Whether preemption is permitted.
    pub fn get_initialized(&self) -> (r: bool)
        ensures
            r == self.is_initialized(),
    {
        self.initialized
    }

    /// Number of contexts in the ready queue.
    pub fn ready_len(&self) -> (r: usize)
        ensures
            r == self.ready_seq().len(),
    {
        self.ready_queue.len()
    }

    /// Enqueues `that` at the tail of the ready queue.
    pub fn ready(&mut self, that: Thread)
        ensures
            final(self).ready_seq() == old(self).ready_seq().push(that),
            final(self).active() == old(self).active(),
            final(self).is_initialized() == old(self).is_initialized(),
            final(self).next_id() == old(self).next_id(),
            old(self).tids_distinct() && !old(self).holds_tid(that.tid())
                ==> final(self).tids_distinct(),
            old(self).tids_below_next() && that.tid() < old(self).next_id()
                ==> final(self).tids_below_next(),
    {
        self.ready_queue.push_back(that);
        proof {
            lemma_push_keeps_tids(*old(self), *self, that);
        }
    }

    /// Puts a previously blocked context back at the tail of the ready queue;
    /// no switch happens.
    pub fn deblock(&mut self, that: Thread)
        ensures
            final(self).ready_seq() == old(self).ready_seq().push(that),
            final(self).active() == old(self).active(),
            final(self).is_initialized() == old(self).is_initialized(),
            final(self).next_id() == old(self).next_id(),
            old(self).tids_distinct() && !old(self).holds_tid(that.tid())
                ==> final(self).tids_distinct(),
            old(self).tids_below_next() && that.tid() < old(self).next_id()
                ==> final(self).tids_below_next(),
    {
        self.ready_queue.push_back(that);
        proof {
            lemma_push_keeps_tids(*old(self), *self, that);
        }
    }

    /// Bootstrap: the head of the ready queue becomes the running context.
    /// Returns its id; the caller resumes it for the first time.
    pub fn schedule(&mut self) -> (r: usize)
        requires
            old(self).active().is_none(),
            old(self).ready_seq().len() > 0,
        ensures
            r == old(self).ready_seq()[0].tid(),
            final(self).active() == Some(old(self).ready_seq()[0]),
            final(self).ready_seq() == old(self).ready_seq().drop_first(),
            final(self).is_initialized() == old(self).is_initialized(),
            final(self).next_id() == old(self).next_id(),
            old(self).tids_distinct() ==> final(self).tids_distinct(),
            old(self).tids_below_next() ==> final(self).tids_below_next(),
    {
        let next = self.ready_queue.pop_front().unwrap();
        let id = next.get_tid();
        self.active = Some(next);
        proof {
            lemma_pop_head_keeps_tids(*old(self), *self);
        }
        id
    }

    /// The running context terminates: it is dropped, never re-enqueued, and
    /// the head of the ready queue becomes the running context. Returns the id
    /// of the context to resume.
    pub fn exit(&mut self) -> (r: usize)
        requires
            old(self).active().is_some(),
            old(self).ready_seq().len() > 0,
        ensures
            r == old(self).ready_seq()[0].tid(),
            final(self).active() == Some(old(self).ready_seq()[0]),
            final(self).ready_seq() == old(self).ready_seq().drop_first(),
            final(self).is_initialized() == old(self).is_initialized(),
            final(self).next_id() == old(self).next_id(),
            old(self).tids_distinct() ==> final(self).tids_distinct(),
            old(self).tids_below_next() ==> final(self).tids_below_next(),
    {
        let next = self.ready_queue.pop_front().unwrap();
        let id = next.get_tid();
        self.active = Some(next);
        proof {
            lemma_pop_head_keeps_tids(*old(self), *self);
        }
        id
    }

    /// Moves the running context to the tail of the ready queue and makes the
    /// head the running context; returns the ids `(from, to)` of the switch.
    fn rotate(&mut self) -> (r: (usize, usize))
        requires
            old(self).active().is_some(),
            old(self).ready_seq().len() > 0,
        ensures
            r == (old(self).active().unwrap().tid(), old(self).ready_seq()[0].tid()),
            final(self).active() == Some(old(self).ready_seq()[0]),
            final(self).ready_seq() == rotated(old(self).ready_seq(), old(self).active().unwrap()),
            final(self).is_initialized() == old(self).is_initialized(),
            final(self).next_id() == old(self).next_id(),
            old(self).tids_distinct() ==> final(self).tids_distinct() && r.0 != r.1,
            old(self).tids_below_next() ==> final(self).tids_below_next(),
    {
        let next = self.ready_queue.pop_front().unwrap();
        let cur = self.active.take().unwrap();
        let ids = (cur.get_tid(), next.get_tid());
        self.ready_queue.push_back(cur);
        self.active = Some(next);
        assert(self.ready_queue@ =~= rotated(old(self).ready_seq(), old(self).active().unwrap()));
        proof {
            lemma_rotate_keeps_tids(*old(self), *self);
        }
        ids
    }

    /// Cooperative hand-off by the running context. With nothing else ready it
    /// is a no-op and returns `None`; otherwise the running context goes to the
    /// tail, the head runs, and the switch `(from, to)` to perform (outside
    /// any lock on the scheduler) is returned.
    pub fn yield_cpu(&mut self) -> (r: Option<(usize, usize)>)
        requires
            old(self).active().is_some(),
        ensures
            old(self).ready_seq().len() == 0 ==> r.is_none() && *final(self) == *old(self),
            old(self).ready_seq().len() > 0 ==> {
                &&& r == Some(
                    (old(self).active().unwrap().tid(), old(self).ready_seq()[0].tid()),
                )
                &&& final(self).active() == Some(old(self).ready_seq()[0])
                &&& final(self).ready_seq() == rotated(
                    old(self).ready_seq(),
                    old(self).active().unwrap(),
                )
                &&& final(self).is_initialized() == old(self).is_initialized()
                &&& final(self).next_id() == old(self).next_id()
            },
            old(self).tids_distinct() ==> final(self).tids_distinct() && (r.is_some()
                ==> r.unwrap().0 != r.unwrap().1),
            old(self).tids_below_next() ==> final(self).tids_below_next(),
    {
        if self.ready_queue.len() == 0 {
            None
        } else {
            Some(self.rotate())
        }
    }

    /// Non-blocking preemption step for the timer interrupt. Returns `None`
    /// and changes nothing when preemption is not yet permitted, nothing runs,
    /// or nothing else is ready (the rotation would pick the running context
    /// itself). Otherwise rotates like `yield_cpu` and returns the switch
    /// `(current, next)`, which the caller performs after releasing the lock.
    pub fn prepare_preempt(&mut self) -> (r: Option<(usize, usize)>)
        ensures
            !old(self).is_initialized() || old(self).active().is_none() || old(
                self,
            ).ready_seq().len() == 0 ==> r.is_none() && *final(self) == *old(self),
            old(self).is_initialized() && old(self).active().is_some() && old(
                self,
            ).ready_seq().len() > 0 ==> {
                &&& r == Some(
                    (old(self).active().unwrap().tid(), old(self).ready_seq()[0].tid()),
                )
                &&& final(self).active() == Some(old(self).ready_seq()[0])
                &&& final(self).ready_seq() == rotated(
                    old(self).ready_seq(),
                    old(self).active().unwrap(),
                )
                &&& final(self).is_initialized()
                &&& final(self).next_id() == old(self).next_id()
            },
            old(self).tids_distinct() ==> final(self).tids_distinct() && (r.is_some()
                ==> r.unwrap().0 != r.unwrap().1),
            old(self).tids_below_next() ==> final(self).tids_below_next(),
    {
        if !self.initialized || self.active.is_none() || self.ready_queue.len() == 0 {
            None
        } else {
            Some(self.rotate())
        }
    }

    /// Blocking step: the running context leaves the scheduler and is handed
    /// to the caller, which parks it in its own wait queue; the head of the
    /// ready queue becomes the running context. Returns the blocked context
    /// and the id of the one to switch to.
    pub fn prepare_block(&mut self) -> (r: (Thread, usize))
        requires
            old(self).is_initialized(),
            old(self).active().is_some(),
            old(self).ready_seq().len() > 0,
        ensures
            r.0 == old(self).active().unwrap(),
            r.1 == old(self).ready_seq()[0].tid(),
            final(self).active() == Some(old(self).ready_seq()[0]),
            final(self).ready_seq() == old(self).ready_seq().drop_first(),
            final(self).is_initialized(),
            final(self).next_id() == old(self).next_id(),
            old(self).tids_distinct() ==> final(self).tids_distinct() && r.0.tid() != r.1,
            old(self).tids_below_next() ==> final(self).tids_below_next(),
    {
        let next = self.ready_queue.pop_front().unwrap();
        let cur = self.active.take().unwrap();
        let id = next.get_tid();
        self.active = Some(next);
        proof {
            lemma_pop_head_keeps_tids(*old(self), *self);
        }
        (cur, id)
    }

    /// Removes every ready context with id `tokill_tid` from the ready queue.
    /// A context cannot kill itself: when `tokill_tid` is the running context's
    /// id nothing changes.
    pub fn kill(&mut self, tokill_tid: usize)
        ensures
            final(self).active() == old(self).active(),
            final(self).is_initialized() == old(self).is_initialized(),
            final(self).next_id() == old(self).next_id(),
            old(self).active().is_some() && old(self).active().unwrap().tid() == tokill_tid
                ==> final(self).ready_seq() == old(self).ready_seq(),
            !(old(self).active().is_some() && old(self).active().unwrap().tid() == tokill_tid)
                ==> final(self).ready_seq() == without_tid(old(self).ready_seq(), tokill_tid),
            old(self).tids_distinct() ==> final(self).tids_distinct(),
            old(self).tids_below_next() ==> final(self).tids_below_next(),
    {
        let is_self = match &self.active {
            Some(t) => t.get_tid() == tokill_tid,
            None => false,
        };
        if is_self {
            return ;
        }
        let n = self.ready_queue.len();
        let mut kept: VecDeque<Thread> = VecDeque::new();
        let mut i: usize = 0;
        while i < n
            invariant
                i <= n,
                n == old(self).ready_seq().len(),
                self.ready_queue@ == old(self).ready_seq().subrange(i as int, n as int),
                kept@ == without_tid(old(self).ready_seq().subrange(0, i as int), tokill_tid),
                self.active == old(self).active,
                self.initialized == old(self).initialized,
                self.next_tid == old(self).next_tid,
            decreases n - i,
        {
            let t = self.ready_queue.pop_front().unwrap();
            proof {
                let q = old(self).ready_seq();
                assert(q.subrange(0, i + 1).drop_last() =~= q.subrange(0, i as int));
                assert(q.subrange(0, i + 1).last() == q[i as int]);
            }
            if t.get_tid() != tokill_tid {
                kept.push_back(t);
            }
            i = i + 1;
        }
        assert(old(self).ready_seq().subrange(0, n as int) =~= old(self).ready_seq());
        self.ready_queue = kept;
        proof {
            let q = old(self).ready_seq();
            let w = self.ready_seq();
            lemma_without_tid_from(q, tokill_tid);
            if old(self).tids_distinct() && self.active().is_some() {
                assert forall|i: int| 0 <= i < w.len() implies #[trigger] w[i].tid()
                    != self.active().unwrap().tid() by {
                    let m = choose|m: int| 0 <= m < q.len() && q[m] == w[i];
                    assert(q[m].tid() != old(self).active().unwrap().tid());
                }
            }
            if old(self).tids_below_next() {
                assert forall|i: int| 0 <= i < w.len() implies #[trigger] w[i].tid()
                    < self.next_id() by {
                    let m = choose|m: int| 0 <= m < q.len() && q[m] == w[i];
                    assert(q[m].tid() < old(self).next_id());
                }
            }
        }
    }
}

} // verus!
