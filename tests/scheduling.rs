use hhutos::idle_thread;
use hhutos::mutex::Mutex;
use hhutos::scheduler::Scheduler;
use hhutos::stack::{Stack, DUMMY_RETURN, FRAME_ENTRIES, INITIAL_RFLAGS};
use hhutos::thread::Thread;

const KICKOFF: u64 = 0x10_0000;
const ENTRY: u64 = 0x20_0000;

fn spawn(s: &mut Scheduler) -> usize {
    let id = s.next_thread_id();
    s.ready(Thread::new(id, ENTRY, KICKOFF));
    id
}

#[test]
fn first_resumed_is_first_enqueued() {
    let mut s = Scheduler::new();
    let a = spawn(&mut s);
    let b = spawn(&mut s);
    let c = spawn(&mut s);
    assert_eq!((a, b, c), (0, 1, 2));
    assert_eq!(s.schedule(), a);
    assert_eq!(s.get_active_tid(), a);
    assert_eq!(s.ready_tids(), vec![b, c]);
}

#[test]
fn first_resumed_after_single_ready() {
    let mut s = Scheduler::new();
    s.ready(Thread::new(42, ENTRY, KICKOFF));
    assert_eq!(s.schedule(), 42);
    assert_eq!(s.ready_len(), 0);
}

#[test]
fn yield_alone_is_no_op() {
    let mut s = Scheduler::new();
    let a = spawn(&mut s);
    s.schedule();
    assert_eq!(s.yield_cpu(), None);
    assert_eq!(s.get_active_tid(), a);
    assert_eq!(s.ready_len(), 0);
}

#[test]
fn yield_rotates_to_tail() {
    let mut s = Scheduler::new();
    let a = spawn(&mut s);
    let b = spawn(&mut s);
    let c = spawn(&mut s);
    s.schedule();
    assert_eq!(s.yield_cpu(), Some((a, b)));
    assert_eq!(s.get_active_tid(), b);
    assert_eq!(s.ready_tids(), vec![c, a]);
    assert_eq!(s.yield_cpu(), Some((b, c)));
    assert_eq!(s.ready_tids(), vec![a, b]);
}

#[test]
fn preempt_before_initialization_is_empty() {
    let mut s = Scheduler::new();
    let a = spawn(&mut s);
    let b = spawn(&mut s);
    s.schedule();
    assert_eq!(s.prepare_preempt(), None);
    assert_eq!(s.get_active_tid(), a);
    assert_eq!(s.ready_tids(), vec![b]);
}

#[test]
fn preempt_with_empty_queue_is_empty() {
    let mut s = Scheduler::new();
    let a = spawn(&mut s);
    s.schedule();
    s.set_initialized();
    assert_eq!(s.prepare_preempt(), None);
    assert_eq!(s.get_active_tid(), a);
}

#[test]
fn preempt_without_running_context_is_empty() {
    let mut s = Scheduler::new();
    spawn(&mut s);
    s.set_initialized();
    assert_eq!(s.prepare_preempt(), None);
    assert!(!s.has_active());
    assert_eq!(s.ready_len(), 1);
}

#[test]
fn preempt_rotates_when_initialized() {
    let mut s = Scheduler::new();
    let a = spawn(&mut s);
    let b = spawn(&mut s);
    s.schedule();
    s.set_initialized();
    assert!(s.get_initialized());
    assert_eq!(s.prepare_preempt(), Some((a, b)));
    assert_eq!(s.get_active_tid(), b);
    assert_eq!(s.ready_tids(), vec![a]);
}

#[test]
fn exit_resumes_head_and_drops_caller() {
    let mut s = Scheduler::new();
    let a = spawn(&mut s);
    let b = spawn(&mut s);
    let c = spawn(&mut s);
    s.schedule();
    assert_eq!(s.exit(), b);
    assert_eq!(s.get_active_tid(), b);
    assert_eq!(s.ready_tids(), vec![c]);
    assert!(!s.ready_tids().contains(&a));
}

#[test]
fn kill_removes_ready_context() {
    let mut s = Scheduler::new();
    let a = spawn(&mut s);
    let b = spawn(&mut s);
    let c = spawn(&mut s);
    let d = spawn(&mut s);
    s.schedule();
    s.kill(c);
    assert_eq!(s.get_active_tid(), a);
    assert_eq!(s.ready_tids(), vec![b, d]);
    s.kill(99);
    assert_eq!(s.ready_tids(), vec![b, d]);
}

#[test]
fn kill_self_is_no_op() {
    let mut s = Scheduler::new();
    let a = spawn(&mut s);
    let b = spawn(&mut s);
    s.schedule();
    s.kill(a);
    assert_eq!(s.get_active_tid(), a);
    assert_eq!(s.ready_tids(), vec![b]);
}

#[test]
fn prepare_block_hands_out_running_context() {
    let mut s = Scheduler::new();
    let a = spawn(&mut s);
    let b = spawn(&mut s);
    s.schedule();
    s.set_initialized();
    let (blocked, next) = s.prepare_block();
    assert_eq!(blocked.get_tid(), a);
    assert_eq!(next, b);
    assert_eq!(s.get_active_tid(), b);
    assert_eq!(s.ready_len(), 0);
    s.deblock(blocked);
    assert_eq!(s.ready_tids(), vec![a]);
}

#[test]
fn thread_ids_increase() {
    let mut s = Scheduler::new();
    assert_eq!(s.next_thread_id(), 0);
    assert_eq!(s.next_thread_id(), 1);
    assert_eq!(s.next_thread_id(), 2);
}

#[test]
fn idle_thread_is_enqueued() {
    let mut s = Scheduler::new();
    let a = spawn(&mut s);
    let idle = idle_thread::init(&mut s, 0x30_0000, KICKOFF);
    assert_eq!(idle, a + 1);
    assert_eq!(s.ready_tids(), vec![a, idle]);
    assert_eq!(s.schedule(), a);
    assert_eq!(s.exit(), idle);
    assert_eq!(s.get_active().unwrap().get_entry(), 0x30_0000);
}

#[test]
fn three_contexts_yield_round_robin() {
    let mut s = Scheduler::new();
    let ids = [spawn(&mut s), spawn(&mut s), spawn(&mut s)];
    s.schedule();
    let mut counts = [0usize; 3];
    let mut order: Vec<usize> = Vec::new();
    loop {
        let id = s.get_active_tid();
        if counts[id] == 100 {
            if s.ready_len() > 0 {
                s.exit();
                continue;
            }
            break;
        }
        counts[id] += 1;
        order.push(id);
        s.yield_cpu();
    }
    assert_eq!(counts, [100, 100, 100]);
    assert_eq!(order.len(), 300);
    for (k, id) in order.iter().enumerate() {
        assert_eq!(*id, ids[k % 3]);
    }
}

#[test]
fn new_thread_has_initial_frame() {
    let t = Thread::new(7, ENTRY, KICKOFF);
    let st = t.get_stack();
    assert_eq!(st.len(), 512);
    let sp = t.get_stack_ptr();
    assert_eq!(sp, 512 - FRAME_ENTRIES);
    assert_eq!(st.entry(sp), INITIAL_RFLAGS);
    assert_eq!(st.entry(sp + 1), 0);
    assert_eq!(st.entry(sp + 2), 7);
    for i in 3..16 {
        assert_eq!(st.entry(sp + i), 0);
    }
    assert_eq!(st.entry(sp + 16), KICKOFF);
    assert_eq!(st.entry(sp + 17), DUMMY_RETURN);
    assert_eq!(st.entry(sp + 17), 0x131155);
    assert_eq!(st.entry(0), 0);
    assert_eq!(t.get_tid(), 7);
    assert_eq!(t.get_entry(), ENTRY);
}

#[test]
fn saved_stack_pointer_is_recorded() {
    let mut t = Thread::new(1, ENTRY, KICKOFF);
    t.set_stack_ptr(300);
    assert_eq!(t.get_stack_ptr(), 300);
    assert_eq!(t.get_tid(), 1);
}

#[test]
fn stack_end_is_last_entry() {
    let st = Stack::new(4096);
    assert_eq!(st.len(), 512);
    assert_eq!(st.end_of_stack(), 511);
    let small = Stack::new(20);
    assert_eq!(small.len(), 2);
    assert_eq!(small.end_of_stack(), 1);
}

fn booted_with(n: usize) -> Scheduler {
    let mut s = Scheduler::new();
    for _ in 0..n {
        spawn(&mut s);
    }
    s.schedule();
    s.set_initialized();
    s
}

#[test]
fn mutex_free_is_taken_at_once() {
    let mut s = booted_with(2);
    let mut m = Mutex::new();
    assert!(!m.get_locked());
    let g = m.lock(&mut s);
    assert_eq!(g.pending_switch(), None);
    assert!(m.get_locked());
    assert_eq!(s.get_active_tid(), 0);
    assert_eq!(s.ready_tids(), vec![1]);
    m.unlock(g, &mut s);
    assert!(!m.get_locked());
    assert_eq!(s.ready_tids(), vec![1]);
}

#[test]
fn mutex_second_lock_blocks_until_unlock() {
    let mut s = booted_with(2);
    let mut m = Mutex::new();
    let g0 = m.lock(&mut s);
    s.yield_cpu();
    assert_eq!(s.get_active_tid(), 1);
    let g1 = m.lock(&mut s);
    assert_eq!(g1.pending_switch(), Some((1, 0)));
    assert_eq!(m.waiter_tids(), vec![1]);
    assert_eq!(s.get_active_tid(), 0);
    assert_eq!(s.ready_len(), 0);
    m.unlock(g0, &mut s);
    assert!(m.get_locked());
    assert_eq!(m.waiter_tids(), Vec::<usize>::new());
    assert_eq!(s.ready_tids(), vec![1]);
    s.yield_cpu();
    assert_eq!(s.get_active_tid(), 1);
    m.unlock(g1, &mut s);
    assert!(!m.get_locked());
}

#[test]
fn mutex_wakes_in_arrival_order() {
    let mut s = booted_with(4);
    let mut m = Mutex::new();
    let g0 = m.lock(&mut s);
    s.yield_cpu();
    let g1 = m.lock(&mut s);
    assert_eq!(g1.pending_switch(), Some((1, 2)));
    let g2 = m.lock(&mut s);
    assert_eq!(g2.pending_switch(), Some((2, 3)));
    let g3 = m.lock(&mut s);
    assert_eq!(g3.pending_switch(), Some((3, 0)));
    assert_eq!(m.waiter_tids(), vec![1, 2, 3]);
    assert_eq!(s.get_active_tid(), 0);
    assert_eq!(s.ready_len(), 0);

    let mut woken: Vec<usize> = Vec::new();
    m.unlock(g0, &mut s);
    woken.push(*s.ready_tids().last().unwrap());
    s.yield_cpu();
    m.unlock(g1, &mut s);
    woken.push(*s.ready_tids().last().unwrap());
    s.yield_cpu();
    m.unlock(g2, &mut s);
    woken.push(*s.ready_tids().last().unwrap());
    assert_eq!(woken, vec![1, 2, 3]);
    assert!(m.get_locked());
    s.yield_cpu();
    m.unlock(g3, &mut s);
    assert!(!m.get_locked());
}

#[test]
fn contexts_compare_by_id() {
    let a = Thread::new(3, ENTRY, KICKOFF);
    let b = Thread::new(3, 0x99, 0x77);
    let c = Thread::new(4, ENTRY, KICKOFF);
    assert!(a == b);
    assert!(a != c);
}
