//! Execution-context core of a small teaching kernel, as verified state
//! machines: context frames, a round-robin scheduler, a coroutine ring, the
//! interrupt vector table, PIC masks, the interval timer, and the spinlock and
//! blocking mutex built on the scheduler.
//!
//! Every operation takes the state it works on explicitly and returns what the
//! machine must do next (port writes, the context switch to perform); reading
//! and writing the hardware is left to the caller.

pub mod coroutine;
pub mod idle_thread;
pub mod intdispatcher;
pub mod mutex;
pub mod pic;
pub mod pit;
pub mod scheduler;
pub mod spinlock;
pub mod stack;
pub mod thread;
