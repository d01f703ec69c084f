use vstd::prelude::*;

use crate::intdispatcher::{IntDispatcher, Isr, INT_VEC_TIMER};
use crate::pic::{after_allow, Pic, IRQ_TIMER};
use crate::scheduler::{rotated, Scheduler};

verus! {

/// Command port of the interval timer.
pub const PORT_CTRL: u16 = 0x43;

/// Data port of counter 0.
pub const PORT_DATA0: u16 = 0x40;

/// Command byte: counter 0, low byte then high byte, periodic mode 3, binary.
pub const PIT_COMMAND: u8 = 0x36;

/// Input clock of the interval timer in Hz.
pub const PIT_INPUT_HZ: u64 = 1_193_182;

/// Longest interval in microseconds whose divisor fits in 16 bits.
pub const MAX_INTERVAL_US: u32 = 54_925;

/// Tick period configured by `plugin`: 10 ms.
pub const TICK_INTERVAL_US: u32 = 10_000;

/// Every this many ticks the rotating indicator advances.
pub const SPINNER_PERIOD: u64 = 100;

/// Number of distinct indicator glyphs.
pub const SPINNER_GLYPHS: usize = 4;

/// One byte written to an I/O port.
#[derive(Clone, Copy, PartialEq, Eq, Debug, Structural)]
pub struct PortWrite {
    pub port: u16,
    pub value: u8,
}

/// The 16-bit counter divisor for an interval of `us` microseconds.
pub open spec fn pit_divisor(us: u32) -> int {
    us as int * PIT_INPUT_HZ as int / 1_000_000
}

/// The port writes that program a periodic interrupt every `us` microseconds:
/// the command byte, then the divisor's low byte, then its high byte.
pub open spec fn interval_writes(us: u32) -> Seq<PortWrite> {
    seq![
        PortWrite { port: PORT_CTRL, value: PIT_COMMAND },
        PortWrite { port: PORT_DATA0, value: (pit_divisor(us) % 256) as u8 },
        PortWrite { port: PORT_DATA0, value: (pit_divisor(us) / 256) as u8 },
    ]
}

/// The indicator glyph shown at step `i`: `|`, `/`, `-`, `\` in turn.
pub open spec fn spinner_glyph(i: usize) -> u8 {
    let k = i % 4;
    if k == 0 {
        0x7c
    } else if k == 1 {
        0x2f
    } else if k == 2 {
        0x2d
    } else {
        0x5c
    }
}

/// Port writes that make the timer fire every `x` microseconds.
pub fn interval(x: u32) -> (r: Vec<PortWrite>)
    requires
        x <= MAX_INTERVAL_US,
    ensures
        r@ == interval_writes(x),
        0 <= pit_divisor(x) <= 0xffff,
{
    let product = x as u64 * PIT_INPUT_HZ;
    let divisor = product / 1_000_000;
    assert(0 <= pit_divisor(x) <= 0xffff) by (nonlinear_arith)
        requires
            x <= MAX_INTERVAL_US,
            pit_divisor(x) == x as int * 1_193_182 / 1_000_000,
    ;
    let mut r: Vec<PortWrite> = Vec::new();
    r.push(PortWrite { port: PORT_CTRL, value: PIT_COMMAND });
    r.push(PortWrite { port: PORT_DATA0, value: (divisor % 256) as u8 });
    r.push(PortWrite { port: PORT_DATA0, value: (divisor / 256) as u8 });
    assert(r@ =~= interval_writes(x));
    r
}

/// Plugs the timer in: binds its routine to the timer vector, unmasks the
/// timer IRQ, and returns the port writes for a 10 ms period.
pub fn plugin(dispatcher: &mut IntDispatcher, pic: &mut Pic) -> (r: Vec<PortWrite>)
    requires
        old(dispatcher).wf(),
    ensures
        final(dispatcher).wf(),
        final(dispatcher).table() == old(dispatcher).table().update(INT_VEC_TIMER as int, Isr::Pit),
        *final(pic) == after_allow(*old(pic), IRQ_TIMER),
        !final(pic).is_masked(IRQ_TIMER),
        r@ == interval_writes(TICK_INTERVAL_US),
{
    dispatcher.register(INT_VEC_TIMER, Isr::Pit);
    pic.allow(IRQ_TIMER);
    interval(TICK_INTERVAL_US)
}

/// What one timer tick asks of its caller.
pub struct Tick {
    /// The indicator glyph to draw, on ticks where it advances.
    pub glyph: Option<u8>,
    /// The context switch `(current, next)` to perform, if preemption happened.
    pub switch: Option<(usize, usize)>,
}

/// The timer's state: ticks since start and indicator steps taken.
pub struct Pit {
    systime: u64,
    display: usize,
}

impl Pit {
    /// Ticks counted so far.
    pub closed spec fn ticks(&self) -> u64 {
        self.systime
    }

    /// Steps the rotating indicator has taken.
    pub closed spec fn steps(&self) -> usize {
        self.display
    }

    /// A timer that has not ticked yet.
    pub fn new() -> (r: Pit)
        ensures
            r.ticks() == 0,
            r.steps() == 0,
    {
        Pit { systime: 0, display: 0 }
    }

    /// Ticks counted so far.
    pub fn get_systime(&self) -> (r: u64)
        ensures
            r == self.ticks(),
    {
        self.systime
    }

    /// Steps the rotating indicator has taken.
    pub fn get_steps(&self) -> (r: usize)
        ensures
            r == self.steps(),
    {
        self.display
    }

    /// The timer interrupt: counts the tick; on every hundredth tick (the
    /// first included) advances the indicator and returns its glyph; then
    /// tries to preempt. `sched` is `None` when the scheduler's lock was busy:
    /// the tick then skips preemption, never waiting in interrupt context.
    /// Otherwise the scheduler takes its preemption step and the switch it
    /// chose, if any, is returned for the caller to perform after releasing
    /// the lock.
    pub fn trigger(&mut self, sched: Option<&mut Scheduler>) -> (r: Tick)
        requires
            old(self).ticks() < u64::MAX,
            old(self).steps() < usize::MAX,
        ensures
            final(self).ticks() == old(self).ticks() + 1,
            old(self).ticks() % SPINNER_PERIOD == 0 ==> {
                &&& final(self).steps() == old(self).steps() + 1
                &&& r.glyph == Some(spinner_glyph(old(self).steps()))
            },
            old(self).ticks() % SPINNER_PERIOD != 0 ==> {
                &&& final(self).steps() == old(self).steps()
                &&& r.glyph.is_none()
            },
            match sched {
                None => r.switch.is_none(),
                Some(s) => {
                    &&& (!(*s).is_initialized() || (*s).active().is_none()
                        || (*s).ready_seq().len() == 0) ==> {
                        &&& r.switch.is_none()
                        &&& *final(s) == *s
                    }
                    &&& ((*s).is_initialized() && (*s).active().is_some()
                        && (*s).ready_seq().len() > 0) ==> {
                        &&& r.switch == Some(
                            ((*s).active().unwrap().tid(), (*s).ready_seq()[0].tid()),
                        )
                        &&& final(s).active() == Some((*s).ready_seq()[0])
                        &&& final(s).ready_seq() == rotated(
                            (*s).ready_seq(),
                            (*s).active().unwrap(),
                        )
                        &&& final(s).is_initialized()
                        &&& final(s).next_id() == (*s).next_id()
                    }
                    &&& (*s).tids_distinct() ==> final(s).tids_distinct() && (r.switch.is_some()
                        ==> r.switch.unwrap().0 != r.switch.unwrap().1)
                },
            },
    {
        let time = self.systime;
        self.systime = self.systime + 1;
        let glyph = if time % SPINNER_PERIOD == 0 {
            let step = self.display;
            self.display = self.display + 1;
            Some(glyph_at(step))
        } else {
            None
        };
        let switch = match sched {
            None => None,
            Some(s) => s.prepare_preempt(),
        };
        Tick { glyph, switch }
    }
}

/// The indicator glyph shown at step `i`.
fn glyph_at(i: usize) -> (r: u8)
    ensures
        r == spinner_glyph(i),
{
    let k = i % SPINNER_GLYPHS;
    if k == 0 {
        0x7c
    } else if k == 1 {
        0x2f
    } else if k == 2 {
        0x2d
    } else {
        0x5c
    }
}

/// One poll of a busy-wait: whether `ticks` ticks have passed since
/// `start_time`, counting modulo 2^64 so that a wrapped counter still works.
pub fn delay(pit: &Pit, start_time: u64, ticks: u64) -> (r: bool)
    ensures
        r == ((pit.ticks() as int - start_time as int + 0x1_0000_0000_0000_0000) % 0x1_0000_0000_0000_0000
            > ticks as int),
{
    let elapsed = pit.systime.wrapping_sub(start_time);
    elapsed > ticks
}

} // verus!
