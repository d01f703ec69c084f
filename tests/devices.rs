use hhutos::coroutine::{Coroutine, CoroutineRing};
use hhutos::intdispatcher::{IntDispatcher, Isr, INT_VEC_KEYBOARD, INT_VEC_TIMER, MAX_VEC_NUM};
use hhutos::pic::{Pic, IRQ_TIMER};
use hhutos::pit::{delay, interval, plugin, Pit, PortWrite, PORT_CTRL, PORT_DATA0, PIT_COMMAND};
use hhutos::scheduler::Scheduler;
use hhutos::spinlock::Spinlock;
use hhutos::thread::Thread;

#[test]
fn pic_allow_then_status_enabled() {
    let mut p = Pic { imr1: 0xff, imr2: 0xff };
    let before4 = p.status(4);
    p.allow(3);
    assert!(!p.status(3));
    assert_eq!(p.status(4), before4);
    assert_eq!(p.imr1, 0xf7);
}

#[test]
fn pic_forbid_then_status_disabled() {
    let mut p = Pic { imr1: 0x00, imr2: 0x00 };
    let before4 = p.status(4);
    p.forbid(3);
    assert!(p.status(3));
    assert_eq!(p.status(4), before4);
    assert_eq!(p.imr1, 0x08);
}

#[test]
fn pic_slave_lines_use_second_register() {
    let mut p = Pic { imr1: 0x00, imr2: 0xff };
    p.allow(10);
    assert_eq!(p.imr2, 0xfb);
    assert_eq!(p.imr1, 0x00);
    assert!(!p.status(10));
    assert!(p.status(9));
    p.forbid(10);
    assert_eq!(p.imr2, 0xff);
    p.forbid(0);
    assert_eq!(p.imr1, 0x01);
}

#[test]
fn register_out_of_range_is_rejected() {
    let mut d = IntDispatcher::init();
    assert!(!d.register(300, Isr::Pit));
    assert_eq!(d.report(300), None);
    for v in 0..MAX_VEC_NUM {
        assert_eq!(d.report(v), None);
    }
}

#[test]
fn register_bounds() {
    let mut d = IntDispatcher::init();
    assert!(d.register(255, Isr::Keyboard));
    assert_eq!(d.report(255), Some(Isr::Keyboard));
    assert!(!d.register(256, Isr::Keyboard));
    assert_eq!(d.report(256), None);
}

#[test]
fn registered_vector_is_reported() {
    let mut d = IntDispatcher::init();
    assert_eq!(d.report(INT_VEC_KEYBOARD), None);
    assert!(d.register(INT_VEC_KEYBOARD, Isr::Keyboard));
    assert_eq!(d.report(INT_VEC_KEYBOARD), Some(Isr::Keyboard));
    assert!(d.register(INT_VEC_KEYBOARD, Isr::Unregistered));
    assert_eq!(d.report(INT_VEC_KEYBOARD), None);
}

#[test]
fn interval_writes_divisor_low_then_high() {
    let w = interval(10_000);
    assert_eq!(
        w,
        vec![
            PortWrite { port: 0x43, value: 0x36 },
            PortWrite { port: 0x40, value: 0x9b },
            PortWrite { port: 0x40, value: 0x2e },
        ]
    );
}

#[test]
fn interval_edges() {
    let w = interval(54_925);
    assert_eq!(w[1], PortWrite { port: PORT_DATA0, value: 0xff });
    assert_eq!(w[2], PortWrite { port: PORT_DATA0, value: 0xff });
    let z = interval(0);
    assert_eq!(z[0], PortWrite { port: PORT_CTRL, value: PIT_COMMAND });
    assert_eq!(z[1].value, 0);
    assert_eq!(z[2].value, 0);
    let one = interval(1000);
    assert_eq!(one[1].value, (1193u32 % 256) as u8);
    assert_eq!(one[2].value, (1193u32 / 256) as u8);
}

#[test]
fn plugin_binds_timer_and_unmasks_irq() {
    let mut d = IntDispatcher::init();
    let mut p = Pic { imr1: 0xff, imr2: 0xff };
    let w = plugin(&mut d, &mut p);
    assert_eq!(d.report(INT_VEC_TIMER), Some(Isr::Pit));
    assert!(!p.status(IRQ_TIMER));
    assert!(p.status(1));
    assert_eq!(w, interval(10_000));
}

#[test]
fn thousand_ticks_advance_indicator_ten_steps() {
    let mut pit = Pit::new();
    let mut glyphs: Vec<u8> = Vec::new();
    for _ in 0..1000 {
        let t = pit.trigger(None);
        assert_eq!(t.switch, None);
        if let Some(g) = t.glyph {
            glyphs.push(g);
        }
    }
    assert_eq!(pit.get_systime(), 1000);
    assert_eq!(pit.get_steps(), 10);
    assert_eq!(glyphs, b"|/-\\|/-\\|/".to_vec());
}

#[test]
fn tick_preempts_when_scheduler_is_free() {
    let mut s = Scheduler::new();
    s.ready(Thread::new(0, 1, 2));
    s.ready(Thread::new(1, 1, 2));
    s.schedule();
    s.set_initialized();
    let mut pit = Pit::new();
    let t = pit.trigger(Some(&mut s));
    assert_eq!(t.glyph, Some(b'|'));
    assert_eq!(t.switch, Some((0, 1)));
    assert_eq!(s.get_active_tid(), 1);
    let t = pit.trigger(None);
    assert_eq!(t.glyph, None);
    assert_eq!(t.switch, None);
    assert_eq!(s.get_active_tid(), 1);
    let t = pit.trigger(Some(&mut s));
    assert_eq!(t.switch, Some((1, 0)));
    assert_eq!(pit.get_systime(), 3);
}

#[test]
fn tick_before_initialization_does_not_switch() {
    let mut s = Scheduler::new();
    s.ready(Thread::new(0, 1, 2));
    s.ready(Thread::new(1, 1, 2));
    s.schedule();
    let mut pit = Pit::new();
    let t = pit.trigger(Some(&mut s));
    assert_eq!(t.switch, None);
    assert_eq!(s.get_active_tid(), 0);
}

#[test]
fn delay_polls_elapsed_ticks() {
    let mut pit = Pit::new();
    for _ in 0..5 {
        pit.trigger(None);
    }
    assert!(!delay(&pit, 0, 5));
    assert!(delay(&pit, 0, 4));
    assert!(!delay(&pit, 3, 2));
    assert!(delay(&pit, u64::MAX, 4));
}

#[test]
fn spinlock_second_acquire_fails() {
    let mut l = Spinlock::new(5i32);
    let g = l.try_lock();
    assert!(g.is_some());
    assert!(l.try_lock().is_none());
    assert!(l.try_lock().is_none());
    l.unlock(g.unwrap());
    let g2 = l.try_lock();
    assert!(g2.is_some());
    assert_eq!(*g2.as_ref().unwrap().get(), 5);
}

#[test]
fn spinlock_guard_changes_payload() {
    let mut l = Spinlock::new(vec![1u8]);
    let mut g = l.lock();
    g.get_mut().push(2);
    l.unlock(g);
    let g = l.lock();
    assert_eq!(g.get(), &vec![1u8, 2]);
    l.unlock(g);
}

fn ring_of(links: &[usize]) -> CoroutineRing {
    let mut r = CoroutineRing::new();
    for (i, n) in links.iter().enumerate() {
        let mut c = Coroutine::new(i + 1, 0x4000, 0x5000);
        c.set_next(*n);
        assert_eq!(r.add(c), i);
    }
    r
}

#[test]
fn coroutine_ring_cycles_through_members() {
    let mut r = ring_of(&[1, 2, 0]);
    assert!(Coroutine::start(&mut r, 0));
    assert_eq!(r.get_running(), Some(0));
    assert_eq!(Coroutine::switch2next(&mut r), (0, 1));
    assert_eq!(Coroutine::switch2next(&mut r), (1, 2));
    assert_eq!(Coroutine::switch2next(&mut r), (2, 0));
    assert_eq!(r.get(2).get_cid(), 3);
    assert_eq!(r.get(2).get_next(), Some(0));
}

#[test]
fn coroutine_broken_ring_is_refused() {
    let mut r = ring_of(&[1, 1, 0]);
    assert!(!Coroutine::start(&mut r, 0));
    assert_eq!(r.get_running(), None);
    let mut two_cycles = ring_of(&[1, 0, 3, 2]);
    assert!(!Coroutine::start(&mut two_cycles, 0));
    let mut dangling = ring_of(&[1, 5]);
    assert!(!Coroutine::start(&mut dangling, 0));
    let mut unlinked = CoroutineRing::new();
    unlinked.add(Coroutine::new(1, 0, 0));
    assert!(!Coroutine::start(&mut unlinked, 0));
    let mut empty = CoroutineRing::new();
    assert!(!Coroutine::start(&mut empty, 0));
}

#[test]
fn coroutine_single_member_ring() {
    let mut r = ring_of(&[0]);
    assert!(Coroutine::start(&mut r, 0));
    assert_eq!(Coroutine::switch2next(&mut r), (0, 0));
    assert_eq!(r.len(), 1);
}

#[test]
fn new_coroutine_is_unlinked_with_frame() {
    let c = Coroutine::new(9, 0x4000, 0x5000);
    assert_eq!(c.get_next(), None);
    assert_eq!(c.get_cid(), 9);
    let sp = c.get_stack_ptr();
    assert_eq!(c.get_stack().entry(sp + 2), 9);
    assert_eq!(c.get_stack().entry(sp + 16), 0x5000);
}
