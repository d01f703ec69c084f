use vstd::prelude::*;

use crate::scheduler::Scheduler;
use crate::stack::{initial_frame, FRAME_ENTRIES};
use crate::thread::Thread;

verus! {

/// Spawns the idle context, which runs the loop at `entry` (yielding forever)
/// so that some context is always ready: it takes a fresh id, gets a prepared
/// stack, and is enqueued at the tail of the ready queue. Returns its id.
pub fn init(sched: &mut Scheduler, entry: u64, kickoff: u64) -> (r: usize)
    requires
        old(sched).next_id() < usize::MAX,
    ensures
        r == old(sched).next_id(),
        final(sched).next_id() == r + 1,
        final(sched).active() == old(sched).active(),
        final(sched).is_initialized() == old(sched).is_initialized(),
        final(sched).ready_seq().len() == old(sched).ready_seq().len() + 1,
        final(sched).ready_seq().drop_last() == old(sched).ready_seq(),
        final(sched).ready_seq().last().tid() == r,
        final(sched).ready_seq().last().entry() == entry,
        final(sched).ready_seq().last().stack_entries().subrange(
            final(sched).ready_seq().last().saved_sp() as int,
            final(sched).ready_seq().last().stack_entries().len() as int,
        ) == initial_frame(kickoff, r as u64),
        final(sched).ready_seq().last().saved_sp() + FRAME_ENTRIES
            == final(sched).ready_seq().last().stack_entries().len(),
        old(sched).tids_distinct() && old(sched).tids_below_next()
            ==> final(sched).tids_distinct() && final(sched).tids_below_next(),
{
    let tid = sched.next_thread_id();
    let idle = Thread::new(tid, entry, kickoff);
    sched.ready(idle);
    proof {
        assert(sched.ready_seq().drop_last() =~= old(sched).ready_seq());
    }
    tid
}

} // verus!
