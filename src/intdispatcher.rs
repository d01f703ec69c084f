use vstd::prelude::*;

verus! {

/// Number of interrupt vectors.
pub const MAX_VEC_NUM: usize = 256;

/// Vector of the timer interrupt.
pub const INT_VEC_TIMER: usize = 32;

/// Vector of the keyboard interrupt.
pub const INT_VEC_KEYBOARD: usize = 33;

/// The interrupt service routines a vector can be bound to.
#[derive(Clone, Copy, PartialEq, Eq, Debug, Structural)]
pub enum Isr {
    /// The sentinel of a free slot: its interrupt is unexpected.
    Unregistered,
    /// The timer's tick handler.
    Pit,
    /// The keyboard's handler.
    Keyboard,
}

/// Table from interrupt vector to service routine.
pub struct IntDispatcher {
    map: Vec<Isr>,
}

impl IntDispatcher {
    /// The routine bound to each vector.
    pub closed spec fn table(&self) -> Seq<Isr> {
        self.map@
    }

    /// The table has one slot per vector.
    pub open spec fn wf(&self) -> bool {
        self.table().len() == MAX_VEC_NUM
    }

    /// A table whose every slot holds the sentinel.
    pub fn init() -> (r: IntDispatcher)
        ensures
            r.wf(),
            forall|v: int| 0 <= v < MAX_VEC_NUM ==> r.table()[v] == Isr::Unregistered,
    {
        let mut map: Vec<Isr> = Vec::with_capacity(MAX_VEC_NUM);
        let mut i: usize = 0;
        while i < MAX_VEC_NUM
            invariant
                i <= MAX_VEC_NUM,
                map@.len() == i,
                forall|v: int| 0 <= v < i ==> map@[v] == Isr::Unregistered,
            decreases MAX_VEC_NUM - i,
        {
            map.push(Isr::Unregistered);
            i = i + 1;
        }
        IntDispatcher { map }
    }

    /// Binds `isr` to `vector`. An out-of-range vector is rejected with
    /// `false` and the table is left unchanged. The caller keeps interrupts
    /// masked around the call, so no interrupt sees the slot half written.
    pub fn register(&mut self, vector: usize, isr: Isr) -> (r: bool)
        requires
            old(self).wf(),
        ensures
            final(self).wf(),
            r == (vector < MAX_VEC_NUM),
            r ==> final(self).table() == old(self).table().update(vector as int, isr),
            !r ==> final(self).table() == old(self).table(),
    {
        if vector >= MAX_VEC_NUM {
            return false;
        }
        self.map.set(vector, isr);
        true
    }

    /// The routine to trigger for `vector`: `None` for an out-of-range vector
    /// or a slot holding the sentinel, which the caller treats as fatal.
    pub fn report(&self, vector: usize) -> (r: Option<Isr>)
        requires
            self.wf(),
        ensures
            vector >= MAX_VEC_NUM ==> r.is_none(),
            vector < MAX_VEC_NUM ==> (r.is_none() <==> self.table()[vector as int]
                == Isr::Unregistered),
            r.is_some() ==> r == Some(self.table()[vector as int]),
    {
        if vector >= MAX_VEC_NUM {
            return None;
        }
        let isr = self.map[vector];
        match isr {
            Isr::Unregistered => None,
            _ => Some(isr),
        }
    }
}

} // verus!
