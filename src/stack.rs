use vstd::prelude::*;

verus! {

/// Size in bytes of one stack entry.
pub const STACK_ENTRY_SIZE: usize = 8;

/// Size in bytes of the stack given to each new context.
pub const STACK_SIZE: usize = 4096;

/// Number of entries of the initial register frame.
pub const FRAME_ENTRIES: usize = 18;

/// Return address placed above the trampoline; never jumped to.
pub const DUMMY_RETURN: u64 = 0x131155;

/// Flags register of a new context: only the reserved bit set, interrupts off.
pub const INITIAL_RFLAGS: u64 = 0x2;

/// The initial register frame, from the saved stack pointer upwards:
/// flags, rbp, rdi (the context itself), rsi, rdx, rcx, rbx, rax, r15 down to
/// r8, the trampoline's address and a dummy return address above it.
/// Popping it and returning behaves as if the trampoline were called with
/// `object` as its argument, with interrupts disabled.
pub open spec fn initial_frame(kickoff: u64, object: u64) -> Seq<u64> {
    seq![
        INITIAL_RFLAGS,
        0,
        object,
        0,
        0,
        0,
        0,
        0,
        0,
        0,
        0,
        0,
        0,
        0,
        0,
        0,
        kickoff,
        DUMMY_RETURN,
    ]
}

/// Memory of a context's stack, as 8-byte entries indexed from the bottom.
pub struct Stack {
    data: Vec<u64>,
}

impl Stack {
    /// The entries of the stack, bottom first.
    pub closed spec fn view(&self) -> Seq<u64> {
        self.data@
    }

    /// A zeroed stack of `size` bytes, rounded down to whole entries.
    pub fn new(size: usize) -> (r: Stack)
        requires
            size >= STACK_ENTRY_SIZE,
        ensures
            r@.len() == size / STACK_ENTRY_SIZE,
            forall|i: int| 0 <= i < r@.len() ==> r@[i] == 0,
    {
        let n = size / STACK_ENTRY_SIZE;
        let mut data: Vec<u64> = Vec::with_capacity(n);
        let mut i: usize = 0;
        while i < n
            invariant
                i <= n,
                data@.len() == i,
                forall|j: int| 0 <= j < i ==> data@[j] == 0,
            decreases n - i,
        {
            data.push(0);
            i = i + 1;
        }
        Stack { data }
    }

    /// Number of entries.
    pub fn len(&self) -> (r: usize)
        ensures
            r == self@.len(),
    {
        self.data.len()
    }

    /// The entry at index `i`.
    pub fn entry(&self, i: usize) -> (r: u64)
        requires
            i < self@.len(),
        ensures
            r == self@[i as int],
    {
        self.data[i]
    }

    /// Index of the last usable entry (the top of the stack).
    pub fn end_of_stack(&self) -> (r: usize)
        requires
            self@.len() > 0,
        ensures
            r == self@.len() - 1,
    {
        self.data.len() - 1
    }

    /// Writes the initial register frame at the top of the stack and returns
    /// the index of its lowest entry, which becomes the saved stack pointer.
    /// Entries below the frame are kept.
    pub fn prepare_frame(&mut self, kickoff: u64, object: u64) -> (sp: usize)
        requires
            old(self)@.len() >= FRAME_ENTRIES,
        ensures
            sp == old(self)@.len() - FRAME_ENTRIES,
            final(self)@.len() == old(self)@.len(),
            final(self)@.subrange(sp as int, final(self)@.len() as int) == initial_frame(
                kickoff,
                object,
            ),
            final(self)@.subrange(0, sp as int) == old(self)@.subrange(0, sp as int),
    {
        let frame: [u64; 18] = [
            INITIAL_RFLAGS,
            0,
            object,
            0,
            0,
            0,
            0,
            0,
            0,
            0,
            0,
            0,
            0,
            0,
            0,
            0,
            kickoff,
            DUMMY_RETURN,
        ];
        assert(frame@ == initial_frame(kickoff, object));
        let n = self.data.len();
        let sp = n - FRAME_ENTRIES;
        let mut i: usize = 0;
        while i < FRAME_ENTRIES
            invariant
                old(self)@.len() >= FRAME_ENTRIES,
                sp + FRAME_ENTRIES == n,
                n == old(self)@.len(),
                self@.len() == old(self)@.len(),
                i <= FRAME_ENTRIES,
                frame@ == initial_frame(kickoff, object),
                forall|j: int| 0 <= j < i ==> self@[sp + j] == frame@[j],
                forall|j: int| 0 <= j < sp ==> self@[j] == old(self)@[j],
            decreases FRAME_ENTRIES - i,
        {
            self.data.set(sp + i, frame[i]);
            i = i + 1;
        }
        assert(self@.subrange(sp as int, self@.len() as int) =~= initial_frame(kickoff, object));
        assert(self@.subrange(0, sp as int) =~= old(self)@.subrange(0, sp as int));
        sp
    }
}

} // verus!
