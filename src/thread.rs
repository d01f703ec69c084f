use vstd::prelude::*;

use crate::stack::{initial_frame, Stack, FRAME_ENTRIES, STACK_ENTRY_SIZE, STACK_SIZE};

verus! {

/// A schedulable execution context: its id, its own stack, the saved stack
/// pointer (an entry index into that stack, meaningful while not running) and
/// the address of its entry function.
pub struct Thread {
    tid: usize,
    stack_ptr: usize,
    stack: Stack,
    entry: u64,
}

impl Thread {
    /// The context's id.
    pub closed spec fn tid(&self) -> usize {
        self.tid
    }

    /// The saved stack pointer.
    pub closed spec fn saved_sp(&self) -> usize {
        self.stack_ptr
    }

    /// The entries of the context's stack, bottom first.
    pub closed spec fn stack_entries(&self) -> Seq<u64> {
        self.stack@
    }

    /// Address of the entry function.
    pub closed spec fn entry(&self) -> u64 {
        self.entry
    }

    /// A new context with id `my_tid` whose stack holds the initial frame: the
    /// first resume enters the trampoline at `kickoff` with the context's id as
    /// its argument and interrupts disabled; the trampoline then enables them
    /// and calls `my_entry`.
    pub fn new(my_tid: usize, my_entry: u64, kickoff: u64) -> (r: Thread)
        ensures
            r.tid() == my_tid,
            r.entry() == my_entry,
            r.stack_entries().len() == STACK_SIZE / STACK_ENTRY_SIZE,
            r.saved_sp() == r.stack_entries().len() - FRAME_ENTRIES,
            r.stack_entries().subrange(r.saved_sp() as int, r.stack_entries().len() as int)
                == initial_frame(kickoff, my_tid as u64),
    {
        let mut thread = Thread {
            tid: my_tid,
            stack_ptr: 0,
            stack: Stack::new(STACK_SIZE),
            entry: my_entry,
        };
        thread.thread_prepare_stack(kickoff);
        thread
    }

    /// Writes the initial frame, with this context's id as the trampoline's
    /// argument, and saves the stack pointer that points at it.
    fn thread_prepare_stack(&mut self, kickoff: u64)
        requires
            old(self).stack_entries().len() >= FRAME_ENTRIES,
        ensures
            final(self).tid() == old(self).tid(),
            final(self).entry() == old(self).entry(),
            final(self).stack_entries().len() == old(self).stack_entries().len(),
            final(self).saved_sp() == old(self).stack_entries().len() - FRAME_ENTRIES,
            final(self).stack_entries().subrange(
                final(self).saved_sp() as int,
                final(self).stack_entries().len() as int,
            ) == initial_frame(kickoff, old(self).tid() as u64),
    {
        let object = self.tid as u64;
        self.stack_ptr = self.stack.prepare_frame(kickoff, object);
    }

    /// The context's id.
    pub fn get_tid(&self) -> (r: usize)
        ensures
            r == self.tid(),
    {
        self.tid
    }

    /// The saved stack pointer.
    pub fn get_stack_ptr(&self) -> (r: usize)
        ensures
            r == self.saved_sp(),
    {
        self.stack_ptr
    }

    /// Records where the context's registers were saved when it was switched out.
    pub fn set_stack_ptr(&mut self, sp: usize)
        ensures
            final(self).saved_sp() == sp,
            final(self).tid() == old(self).tid(),
            final(self).entry() == old(self).entry(),
            final(self).stack_entries() == old(self).stack_entries(),
    {
        self.stack_ptr = sp;
    }

    /// The context's stack.
    pub fn get_stack(&self) -> (r: &Stack)
        ensures
            r@ == self.stack_entries(),
    {
        &self.stack
    }

    /// Address of the entry function.
    pub fn get_entry(&self) -> (r: u64)
        ensures
            r == self.entry(),
    {
        self.entry
    }
}

/// Contexts are the same context when their ids agree.
impl PartialEq for Thread {
    fn eq(&self, other: &Thread) -> (r: bool) {
        self.tid == other.tid
    }
}

impl vstd::std_specs::cmp::PartialEqSpecImpl for Thread {
    open spec fn obeys_eq_spec() -> bool {
        true
    }

    open spec fn eq_spec(&self, other: &Thread) -> bool {
        self.tid() == other.tid()
    }
}

} // verus!
