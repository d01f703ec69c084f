use vstd::prelude::*;

use crate::stack::{initial_frame, Stack, FRAME_ENTRIES, STACK_ENTRY_SIZE, STACK_SIZE};

verus! {

/// A cooperatively switched context: its id, its own stack, the saved stack
/// pointer, the address of its entry function, and the index of its
/// successor in the ring it belongs to.
pub struct Coroutine {
    cid: usize,
    stack_ptr: usize,
    stack: Stack,
    entry: u64,
    next: Option<usize>,
}

/// Every member names a successor inside the table.
pub open spec fn links_valid(m: Seq<Coroutine>) -> bool {
    forall|i: int|
        0 <= i < m.len() ==> (#[trigger] m[i].next()).is_some() && m[i].next().unwrap() < m.len()
}

/// The member reached from `i` by following `k` successor links.
pub open spec fn walk(m: Seq<Coroutine>, i: int, k: nat) -> int
    decreases k,
{
    if k == 0 {
        i
    } else {
        m[walk(m, i, (k - 1) as nat)].next().unwrap() as int
    }
}

/// The successor links form one simple cycle through all members, starting
/// at `first`: following them from `first` returns there after exactly as
/// many steps as there are members, and not before.
pub open spec fn is_ring(m: Seq<Coroutine>, first: int) -> bool {
    &&& 0 <= first < m.len()
    &&& links_valid(m)
    &&& walk(m, first, m.len()) == first
    &&& forall|k: nat| 0 < k < m.len() ==> #[trigger] walk(m, first, k) != first
}

impl Coroutine {
    /// The coroutine's id.
    pub closed spec fn cid(&self) -> usize {
        self.cid
    }

    /// The saved stack pointer.
    pub closed spec fn saved_sp(&self) -> usize {
        self.stack_ptr
    }

    /// The entries of the coroutine's stack, bottom first.
    pub closed spec fn stack_entries(&self) -> Seq<u64> {
        self.stack@
    }

    /// Address of the entry function.
    pub closed spec fn entry(&self) -> u64 {
        self.entry
    }

    /// Index of the successor, once linked.
    pub closed spec fn next(&self) -> Option<usize> {
        self.next
    }

    /// A new, unlinked coroutine whose stack holds the initial frame: the first
    /// resume enters the trampoline at `kickoff` with the id as its argument
    /// and interrupts disabled.
    pub fn new(my_cid: usize, my_entry: u64, kickoff: u64) -> (r: Coroutine)
        ensures
            r.cid() == my_cid,
            r.entry() == my_entry,
            r.next().is_none(),
            r.stack_entries().len() == STACK_SIZE / STACK_ENTRY_SIZE,
            r.saved_sp() == r.stack_entries().len() - FRAME_ENTRIES,
            r.stack_entries().subrange(r.saved_sp() as int, r.stack_entries().len() as int)
                == initial_frame(kickoff, my_cid as u64),
    {
        let mut corout = Coroutine {
            cid: my_cid,
            stack_ptr: 0,
            stack: Stack::new(STACK_SIZE),
            entry: my_entry,
            next: None,
        };
        corout.coroutine_prepare_stack(kickoff);
        corout
    }

    /// Writes the initial frame, with this coroutine's id as the trampoline's
    /// argument, and saves the stack pointer that points at it.
    fn coroutine_prepare_stack(&mut self, kickoff: u64)
        requires
            old(self).stack_entries().len() >= FRAME_ENTRIES,
        ensures
            final(self).cid() == old(self).cid(),
            final(self).entry() == old(self).entry(),
            final(self).next() == old(self).next(),
            final(self).stack_entries().len() == old(self).stack_entries().len(),
            final(self).saved_sp() == old(self).stack_entries().len() - FRAME_ENTRIES,
            final(self).stack_entries().subrange(
                final(self).saved_sp() as int,
                final(self).stack_entries().len() as int,
            ) == initial_frame(kickoff, old(self).cid() as u64),
    {
        let object = self.cid as u64;
        self.stack_ptr = self.stack.prepare_frame(kickoff, object);
    }

    /// The coroutine's id.
    pub fn get_cid(&self) -> (r: usize)
        ensures
            r == self.cid(),
    {
        self.cid
    }

    /// Links the successor: the member at index `nxt` of the ring.
    pub fn set_next(&mut self, nxt: usize)
        ensures
            final(self).next() == Some(nxt),
            final(self).cid() == old(self).cid(),
            final(self).saved_sp() == old(self).saved_sp(),
            final(self).stack_entries() == old(self).stack_entries(),
            final(self).entry() == old(self).entry(),
    {
        self.next = Some(nxt);
    }

    /// Index of the successor, once linked.
    pub fn get_next(&self) -> (r: Option<usize>)
        ensures
            r == self.next(),
    {
        self.next
    }

    /// The saved stack pointer.
    pub fn get_stack_ptr(&self) -> (r: usize)
        ensures
            r == self.saved_sp(),
    {
        self.stack_ptr
    }

    /// The coroutine's stack.
    pub fn get_stack(&self) -> (r: &Stack)
        ensures
            r@ == self.stack_entries(),
    {
        &self.stack
    }

    /// Starts the ring at member `first`, provided the successor links form one
    /// simple cycle through all members; otherwise nothing changes and `false`
    /// is returned. On success `first` is the running member, to be resumed
    /// for the first time by the caller.
    pub fn start(ring: &mut CoroutineRing, first: usize) -> (r: bool)
        ensures
            r == is_ring(old(ring).members(), first as int),
            final(ring).members() == old(ring).members(),
            r ==> final(ring).running() == Some(first),
            !r ==> final(ring).running() == old(ring).running(),
            old(ring).wf() ==> final(ring).wf(),
    {
        let n = ring.members.len();
        if first >= n {
            return false;
        }
        let ghost m = ring.members@;
        let mut i: usize = 0;
        while i < n
            invariant
                i <= n,
                n == m.len(),
                m == ring.members@,
                forall|j: int|
                    0 <= j < i ==> (#[trigger] m[j].next()).is_some() && m[j].next().unwrap() < n,
            decreases n - i,
        {
            match ring.members[i].next {
                None => {
                    assert(m[i as int].next().is_none());
                    return false;
                },
                Some(j) => {
                    if j >= n {
                        assert(m[i as int].next() == Some(j));
                        return false;
                    }
                },
            }
            i = i + 1;
        }
        assert(links_valid(m));
        let mut cur: usize = first;
        let mut k: usize = 0;
        while k < n
            invariant
                k <= n,
                n == m.len(),
                m == ring.members@,
                links_valid(m),
                0 <= first < n,
                cur as int == walk(m, first as int, k as nat),
                cur < n,
                forall|j: nat| 0 < j <= k && j < n ==> #[trigger] walk(m, first as int, j) != first,
            decreases n - k,
        {
            assert(m[cur as int].next().is_some());
            cur = match ring.members[cur].next {
                Some(j) => j,
                None => cur,
            };
            k = k + 1;
            assert(walk(m, first as int, k as nat) == cur);
            if k < n && cur == first {
                assert(walk(m, first as int, k as nat) == first);
                return false;
            }
        }
        if cur != first {
            return false;
        }
        ring.running = Some(first);
        true
    }

    /// Transfers from the running member to its successor; returns the indices
    /// `(from, to)` of the switch for the caller to perform.
    pub fn switch2next(ring: &mut CoroutineRing) -> (r: (usize, usize))
        requires
            old(ring).wf(),
            old(ring).running().is_some(),
        ensures
            final(ring).wf(),
            final(ring).members() == old(ring).members(),
            r.0 == old(ring).running().unwrap(),
            r.1 == old(ring).members()[r.0 as int].next().unwrap(),
            final(ring).running() == Some(r.1),
    {
        let from = match ring.running {
            Some(i) => i,
            None => 0,
        };
        let to = match ring.members[from].next {
            Some(j) => j,
            None => from,
        };
        ring.running = Some(to);
        (from, to)
    }
}

/// A table of coroutines linked into a cycle by successor indices, and the
/// member currently running.
pub struct CoroutineRing {
    members: Vec<Coroutine>,
    running: Option<usize>,
}

impl CoroutineRing {
    /// The members, by index.
    pub closed spec fn members(&self) -> Seq<Coroutine> {
        self.members@
    }

    /// Index of the running member, once started.
    pub closed spec fn running(&self) -> Option<usize> {
        self.running
    }

    /// A started ring has valid links and its running member is in the table.
    pub open spec fn wf(&self) -> bool {
        self.running().is_some() ==> links_valid(self.members()) && self.running().unwrap()
            < self.members().len()
    }

    /// An empty, unstarted ring.
    pub fn new() -> (r: CoroutineRing)
        ensures
            r.wf(),
            r.members() == Seq::<Coroutine>::empty(),
            r.running().is_none(),
    {
        CoroutineRing { members: Vec::new(), running: None }
    }

    /// Adds a member to an unstarted ring; returns its index.
    pub fn add(&mut self, c: Coroutine) -> (r: usize)
        requires
            old(self).running().is_none(),
        ensures
            r == old(self).members().len(),
            final(self).members() == old(self).members().push(c),
            final(self).running().is_none(),
            final(self).wf(),
    {
        let i = self.members.len();
        self.members.push(c);
        i
    }

    /// Number of members.
    pub fn len(&self) -> (r: usize)
        ensures
            r == self.members().len(),
    {
        self.members.len()
    }

    /// The member at index `i`.
    pub fn get(&self, i: usize) -> (r: &Coroutine)
        requires
            i < self.members().len(),
        ensures
            *r == self.members()[i as int],
    {
        &self.members[i]
    }

    /// Index of the running member, once started.
    pub fn get_running(&self) -> (r: Option<usize>)
        ensures
            r == self.running(),
    {
        self.running
    }
}

} // verus!
