use rustos::kernel::CritSect;
use rustos::kernel::CriticalCell;
use rustos::kernel::ExecContext;
use rustos::kernel::Kernel;
use rustos::kernel::Semaphore;
use rustos::kernel::SysCallID;
use rustos::task::IDLE_PRIO;
use rustos::task::Stack;
use rustos::task::Task;
use rustos::time::Instant;

fn cs() -> CritSect {
    CritSect::activate()
}

/// Boots a kernel with tasks at the given priorities and switches to the
/// highest one.
fn boot(prios: &[usize]) -> Kernel {
    let mut k = Kernel::new();
    for &p in prios {
        let t = Task::new(p, p, Stack::new(32));
        assert!(k.add_task(t).is_ok());
    }
    k.init(cs());
    k.schedule_next(cs());
    if k.switch_pending() {
        k.switch_to_next(100);
    }
    k
}

#[test]
fn fresh_kernel_is_idle() {
    let k = Kernel::new();
    assert_eq!(k.running(), IDLE_PRIO);
    assert_eq!(k.ticks(), 0);
    assert!(!k.started());
    assert!(!k.switch_pending());
}

#[test]
fn add_task_rejects_duplicate_priority() {
    let mut k = Kernel::new();
    assert!(k.add_task(Task::new(1, 7, Stack::new(32))).is_ok());
    assert!(k.add_task(Task::new(2, 7, Stack::new(32))).is_err());
    assert!(k.task_registered(7));
}

#[test]
fn remove_task_frees_slot() {
    let mut k = Kernel::new();
    assert!(k.add_task(Task::new(1, 7, Stack::new(32))).is_ok());
    let t = k.remove_task(7).unwrap();
    assert_eq!(t.prio(), 7);
    assert!(!k.task_registered(7));
    assert!(k.remove_task(7).is_err());
}

#[test]
fn init_selects_idle_and_schedules_highest() {
    let mut k = Kernel::new();
    assert!(k.add_task(Task::new(1, 5, Stack::new(32))).is_ok());
    assert!(k.add_task(Task::new(2, 9, Stack::new(32))).is_ok());
    k.init(cs());
    assert!(k.started());
    assert_eq!(k.running(), IDLE_PRIO);
    k.schedule_next(cs());
    assert!(k.switch_pending());
    assert_eq!(k.next(), 9);
    k.switch_to_next(100);
    assert_eq!(k.running(), 9);
    assert!(!k.switch_pending());
}

#[test]
fn running_is_registered_and_idle_when_none_ready() {
    let mut k = boot(&[4]);
    assert_eq!(k.running(), 4);
    assert!(k.task_registered(4));
    // The only task stops: nothing is ready, so the switch goes to idle.
    k.task_stop(4, cs());
    assert!(k.switch_pending());
    assert_eq!(k.next(), IDLE_PRIO);
    k.switch_to_next(100);
    assert_eq!(k.running(), IDLE_PRIO);
}

#[test]
fn sleep_wakes_after_exactly_k_ticks() {
    let mut k = boot(&[6]);
    k.task_sleep(6, 3, cs());
    assert!(k.task_sleeping(6));
    assert_eq!(k.task_sleep_left(6), 3);
    k.switch_to_next(100);
    assert_eq!(k.running(), IDLE_PRIO);
    // Two ticks: still asleep, counter down to one.
    k.on_tick(cs());
    assert!(k.task_sleeping(6));
    assert_eq!(k.task_sleep_left(6), 2);
    k.on_tick(cs());
    assert!(k.task_sleeping(6));
    assert_eq!(k.task_sleep_left(6), 1);
    // The third tick wakes it and pends the switch back.
    k.on_tick(cs());
    assert!(!k.task_sleeping(6));
    assert!(k.task_ready(6));
    assert!(k.switch_pending());
    assert_eq!(k.next(), 6);
}

#[test]
fn every_sleeping_slot_keeps_a_tick_after_on_tick() {
    let mut k = boot(&[3, 6]);
    assert_eq!(k.running(), 6);
    k.task_sleep(6, 5, cs());
    k.switch_to_next(100);
    assert_eq!(k.running(), 3);
    k.task_sleep(3, 2, cs());
    k.switch_to_next(100);
    for _ in 0..10 {
        k.on_tick(cs());
        for p in 0..32 {
            if k.task_sleeping(p) {
                assert!(k.task_sleep_left(p) >= 1);
            }
        }
    }
}

#[test]
fn preemption_at_wakeup() {
    // A low task runs a tight loop; a mid task sleeps 50 ticks and preempts
    // it the moment it wakes.
    let mut k = boot(&[3, 10]);
    assert_eq!(k.running(), 10);
    k.task_sleep(10, 50, cs());
    k.switch_to_next(100);
    assert_eq!(k.running(), 3);
    for _ in 0..49 {
        k.on_tick(cs());
        assert!(!k.switch_pending());
        assert_eq!(k.running(), 3);
    }
    k.on_tick(cs());
    assert!(k.switch_pending());
    assert_eq!(k.next(), 10);
    k.switch_to_next(100);
    assert_eq!(k.running(), 10);
    // The low task resumes only once the mid task sleeps again.
    k.task_sleep(10, 50, cs());
    k.switch_to_next(100);
    assert_eq!(k.running(), 3);
}

#[test]
fn fault_stops_task_and_system_continues() {
    let mut k = boot(&[2, 8]);
    assert_eq!(k.running(), 8);
    let before = k.ticks();
    k.on_fault(cs());
    assert!(!k.task_ready(8));
    assert!(!k.task_sleeping(8));
    assert!(k.task_registered(8));
    k.switch_to_next(100);
    assert_eq!(k.running(), 2);
    k.on_tick(cs());
    assert_eq!(k.ticks(), before + 1);
    assert_eq!(k.running(), 2);
}

#[test]
fn watermark_grows_with_deeper_stacks_and_never_shrinks() {
    let mut k = boot(&[5]);
    assert_eq!(k.running(), 5);
    // A 32-word stack is seeded with its frame top at byte offset 124.
    k.task_stop(5, cs());
    k.switch_to_next(84);
    let w1 = k.task_watermark(5);
    assert_eq!(w1, 10);
    k.task_idle(5, cs());
    // Re-ready the task, switch to it, then save a shallower stack pointer:
    // the watermark keeps its record.
    k.switch_to_next(100);
    assert_eq!(k.running(), 5);
    k.task_stop(5, cs());
    k.switch_to_next(120);
    assert_eq!(k.task_watermark(5), w1);
    k.task_idle(5, cs());
    k.switch_to_next(100);
    k.task_stop(5, cs());
    k.switch_to_next(4);
    assert_eq!(k.task_watermark(5), 30);
}

#[test]
fn tick_counter_advances() {
    let mut k = boot(&[1]);
    let t0 = Instant::now(&k);
    k.on_tick(cs());
    k.on_tick(cs());
    let t1 = Instant::now(&k);
    assert_eq!(t1.since(t0).ticks(), 2);
}

#[test]
fn supervisor_call_routing() {
    assert_eq!(SysCallID::from_code(0), SysCallID::Nop);
    assert_eq!(SysCallID::from_code(1), SysCallID::StartScheduler);
    assert_eq!(SysCallID::from_code(2), SysCallID::SetTaskIdle);
    assert_eq!(SysCallID::from_code(3), SysCallID::SetTaskSleep);
    assert_eq!(SysCallID::from_code(4), SysCallID::SetTaskStop);
    assert_eq!(SysCallID::from_code(99), SysCallID::Nop);
    let mut k = boot(&[6]);
    k.on_supervisor_call(3, 4, cs());
    assert!(k.task_sleeping(6));
    assert_eq!(k.task_sleep_left(6), 4);
}

#[test]
fn exec_context_decoding() {
    assert!(ExecContext::from_code(0).is_privileged());
    assert!(ExecContext::from_code(1).is_process());
    assert!(!ExecContext::from_code(1).is_privileged());
    assert_eq!(ExecContext::from_code(9), ExecContext::Error);
}

#[test]
fn critical_cell_access() {
    let mut cell = CriticalCell::new(5u64);
    assert_eq!(*cell.read(), 5);
    let token = cs();
    *cell.access(&token) = 9;
    token.deactivate();
    assert_eq!(*cell.read(), 9);
}

#[test]
fn semaphore_registry_slots() {
    let mut k = Kernel::new();
    let a = k.add_semaphore(Semaphore::new()).map_err(|_| ()).unwrap();
    let b = k.add_semaphore(Semaphore::new()).map_err(|_| ()).unwrap();
    assert_eq!(a, 0);
    assert_eq!(b, 1);
    assert!(k.is_sem_registered(a));
    assert!(k.is_sem_registered(b));
    assert!(!k.is_sem_registered(5));
}

#[test]
fn semaphore_registry_fills_at_thirty_two() {
    let mut k = Kernel::new();
    for i in 0..32 {
        assert_eq!(k.add_semaphore(Semaphore::new()).map_err(|_| ()), Ok(i));
    }
    assert!(k.add_semaphore(Semaphore::new()).is_err());
}

#[test]
fn timer_table_fills_at_thirty_two() {
    let mut k = Kernel::new();
    for i in 0..32 {
        assert_eq!(
            k.new_timer(rustos::time::Duration::new(5), false, rustos::timer::TimerMode::Looping),
            Ok(i)
        );
    }
    assert!(
        k.new_timer(rustos::time::Duration::new(5), false, rustos::timer::TimerMode::Looping)
            .is_err()
    );
}

#[test]
fn task_body_transitions_by_handle() {
    let mut k = boot(&[6]);
    // The task body holds its own control block and names itself by it.
    let me = Task::new(6, 6, Stack::new(32));
    me.sleep(&mut k, 2, cs());
    assert!(k.task_sleeping(6));
    k.switch_to_next(100);
    k.on_tick(cs());
    k.on_tick(cs());
    assert!(k.task_ready(6));
    k.switch_to_next(100);
    me.idle(&mut k, cs());
    assert!(k.task_ready(6));
    me.stop(&mut k, cs());
    assert!(!k.task_ready(6));
}

#[test]
fn semaphore_method_forms() {
    let mut k = Kernel::new();
    let s = k.add_semaphore(Semaphore::new()).map_err(|_| ()).unwrap();
    assert!(k.add_task(Task::new(4, 4, Stack::new(32))).is_ok());
    k.init(cs());
    k.schedule_next(cs());
    k.switch_to_next(100);
    Semaphore::release(&mut k, s, cs());
    assert!(!k.sem_has_waiter(s, 4));
    Semaphore::acquire(&mut k, s, 4, cs());
    assert!(k.sem_has_waiter(s, 4));
    Semaphore::release(&mut k, s, cs());
    assert!(!k.sem_has_waiter(s, 4));
    assert!(k.task_ready(4));
}

#[test]
fn remove_semaphore_frees_slot() {
    let mut k = Kernel::new();
    let a = k.add_semaphore(Semaphore::new()).map_err(|_| ()).unwrap();
    let b = k.add_semaphore(Semaphore::new()).map_err(|_| ()).unwrap();
    assert!(k.remove_semaphore(a).is_ok());
    assert!(!k.is_sem_registered(a));
    assert!(k.is_sem_registered(b));
    assert!(k.remove_semaphore(a).is_err());
    // The freed slot is reused by the next registration.
    assert_eq!(k.add_semaphore(Semaphore::new()).map_err(|_| ()), Ok(a));
}
