use vstd::prelude::*;

use std::collections::VecDeque;

use crate::scheduler::{enqueue_all, Scheduler};
use crate::spinlock::Spinlock;
use crate::thread::Thread;

verus! {

/// Blocking lock: a flag and a FIFO queue of blocked contexts, the queue
/// guarded by its own spinlock.
pub struct Mutex {
    lock: bool,
    wait_queue: Spinlock<VecDeque<Thread>>,
}

/// Proof of holding a [`Mutex`], handed back by `unlock`.
///
/// When `lock` had to block, the guard also names the switch `(from, to)` that
/// parks the caller; the caller holds the mutex once it is resumed.
pub struct MutexGuard {
    pending: Option<(usize, usize)>,
}

impl MutexGuard {
    /// The switch to perform before the caller owns the mutex, if it blocked.
    pub closed spec fn pending(&self) -> Option<(usize, usize)> {
        self.pending
    }

    /// The switch to perform before the caller owns the mutex, if it blocked.
    pub fn pending_switch(&self) -> (r: Option<(usize, usize)>)
        ensures
            r == self.pending(),
    {
        self.pending
    }
}

/// The queue after `k` unlocks, each of which wakes the head.
pub open spec fn after_wakes(q: Seq<Thread>, k: nat) -> Seq<Thread>
    decreases k,
{
    if k == 0 {
        q
    } else {
        after_wakes(q, (k - 1) as nat).drop_first()
    }
}

/// Wake order equals arrival order: when contexts `ts` block one after the
/// other on a mutex with no waiters, the `k`-th unlock (from 0) wakes `ts[k]`.
pub proof fn lemma_wake_order(ts: Seq<Thread>, k: nat)
    requires
        k < ts.len(),
    ensures
        after_wakes(enqueue_all(Seq::empty(), ts), k)[0] == ts[k as int],
{
    crate::scheduler::lemma_enqueue_all(Seq::empty(), ts);
    assert(Seq::<Thread>::empty() + ts =~= ts);
    lemma_after_wakes(ts, k);
}

proof fn lemma_after_wakes(q: Seq<Thread>, k: nat)
    requires
        k <= q.len(),
    ensures
        after_wakes(q, k) == q.subrange(k as int, q.len() as int),
    decreases k,
{
    if k == 0 {
        assert(q.subrange(0, q.len() as int) =~= q);
    } else {
        lemma_after_wakes(q, (k - 1) as nat);
        assert(q.subrange(k - 1, q.len() as int).drop_first() =~= q.subrange(
            k as int,
            q.len() as int,
        ));
    }
}

impl Mutex {
    /// Whether the mutex is held.
    pub closed spec fn is_locked(&self) -> bool {
        self.lock
    }

    /// The blocked contexts, in arrival order.
    pub closed spec fn waiters(&self) -> Seq<Thread> {
        self.wait_queue.payload().unwrap()@
    }

    /// The queue's spinlock is free between operations, and a free mutex has
    /// no waiters.
    pub closed spec fn wf(&self) -> bool {
        &&& !self.wait_queue.is_locked()
        &&& self.wait_queue.payload().is_some()
        &&& (!self.lock ==> self.waiters().len() == 0)
    }

    /// A free mutex without waiters.
    pub fn new() -> (r: Mutex)
        ensures
            r.wf(),
            !r.is_locked(),
            r.waiters() == Seq::<Thread>::empty(),
    {
        Mutex { lock: false, wait_queue: Spinlock::new(VecDeque::new()) }
    }

    /// Whether the mutex is held.
    pub fn get_locked(&self) -> (r: bool)
        ensures
            r == self.is_locked(),
    {
        self.lock
    }

    /// Ids of the blocked contexts, in arrival order.
    pub fn waiter_tids(&mut self) -> (r: Vec<usize>)
        requires
            old(self).wf(),
        ensures
            final(self).wf(),
            final(self).is_locked() == old(self).is_locked(),
            final(self).waiters() == old(self).waiters(),
            r@ == old(self).waiters().map_values(|t: Thread| t.tid()),
    {
        let g = self.wait_queue.lock();
        let q = g.get();
        let n = q.len();
        let mut ids: Vec<usize> = Vec::with_capacity(n);
        let mut i: usize = 0;
        while i < n
            invariant
                i <= n,
                n == q@.len(),
                ids@ == q@.subrange(0, i as int).map_values(|t: Thread| t.tid()),
            decreases n - i,
        {
            ids.push(q[i].get_tid());
            i = i + 1;
            assert(ids@ =~= q@.subrange(0, i as int).map_values(|t: Thread| t.tid()));
        }
        assert(q@.subrange(0, n as int) =~= q@);
        self.wait_queue.unlock(g);
        ids
    }

    /// Acquires the mutex for the running context of `sched`.
    ///
    /// A free mutex is taken at once. A held one blocks the caller: it leaves
    /// the scheduler, joins the tail of the wait queue, and the head of the
    /// ready queue runs; the guard names that switch. The caller must keep
    /// interrupts disabled from this call until the switch is done.
    pub fn lock(&mut self, sched: &mut Scheduler) -> (g: MutexGuard)
        requires
            old(self).wf(),
            old(self).is_locked() ==> {
                &&& old(sched).is_initialized()
                &&& old(sched).active().is_some()
                &&& old(sched).ready_seq().len() > 0
            },
        ensures
            final(self).wf(),
            final(self).is_locked(),
            !old(self).is_locked() ==> {
                &&& g.pending().is_none()
                &&& final(self).waiters() == old(self).waiters()
                &&& *final(sched) == *old(sched)
            },
            old(self).is_locked() ==> {
                &&& g.pending() == Some(
                    (old(sched).active().unwrap().tid(), old(sched).ready_seq()[0].tid()),
                )
                &&& final(self).waiters() == old(self).waiters().push(old(sched).active().unwrap())
                &&& final(sched).active() == Some(old(sched).ready_seq()[0])
                &&& final(sched).ready_seq() == old(sched).ready_seq().drop_first()
                &&& final(sched).is_initialized()
                &&& final(sched).next_id() == old(sched).next_id()
            },
            old(sched).tids_distinct() ==> final(sched).tids_distinct() && (g.pending().is_some()
                ==> g.pending().unwrap().0 != g.pending().unwrap().1),
            old(sched).tids_below_next() ==> final(sched).tids_below_next(),
    {
        if !self.lock {
            self.lock = true;
            MutexGuard { pending: None }
        } else {
            let (cur, next) = sched.prepare_block();
            let from = cur.get_tid();
            let mut g = self.wait_queue.lock();
            g.get_mut().push_back(cur);
            self.wait_queue.unlock(g);
            MutexGuard { pending: Some((from, next)) }
        }
    }

    /// Releases the mutex. With waiters, the head of the wait queue is
    /// deblocked into the ready queue and ownership passes to it directly
    /// (the flag stays set); without, the flag is cleared.
    pub fn unlock(&mut self, guard: MutexGuard, sched: &mut Scheduler)
        requires
            old(self).wf(),
            old(self).is_locked(),
        ensures
            final(self).wf(),
            old(self).waiters().len() == 0 ==> {
                &&& !final(self).is_locked()
                &&& final(self).waiters() == old(self).waiters()
                &&& *final(sched) == *old(sched)
            },
            old(self).waiters().len() > 0 ==> {
                &&& final(self).is_locked()
                &&& final(self).waiters() == old(self).waiters().drop_first()
                &&& final(sched).ready_seq() == old(sched).ready_seq().push(old(self).waiters()[0])
                &&& final(sched).active() == old(sched).active()
                &&& final(sched).is_initialized() == old(sched).is_initialized()
                &&& final(sched).next_id() == old(sched).next_id()
            },
    {
        let mut g = self.wait_queue.lock();
        let first = g.get_mut().pop_front();
        self.wait_queue.unlock(g);
        match first {
            Some(t) => sched.deblock(t),
            None => {
                self.lock = false;
            },
        }
    }
}

} // verus!
