use rustos::kernel::CritSect;
use rustos::kernel::Kernel;
use rustos::kernel::Semaphore;
use rustos::sync::Mutex;
use rustos::sync::Rendezvous;
use rustos::task::IDLE_PRIO;
use rustos::task::Stack;
use rustos::task::Task;
use rustos::time::ms;

fn cs() -> CritSect {
    CritSect::activate()
}

fn boot(prios: &[usize]) -> Kernel {
    let mut k = Kernel::new();
    for &p in prios {
        let t = Task::new(p, p, Stack::new(32));
        assert!(k.add_task(t).is_ok());
    }
    k.init(cs());
    k.schedule_next(cs());
    if k.switch_pending() {
        k.switch_to_next(100);
    }
    k
}

#[test]
fn release_wakes_highest_priority_waiter() {
    let mut k = Kernel::new();
    let s = k.add_semaphore(Semaphore::new()).map_err(|_| ()).unwrap();
    assert!(k.add_task(Task::new(5, 5, Stack::new(32))).is_ok());
    assert!(k.add_task(Task::new(7, 7, Stack::new(32))).is_ok());
    k.init(cs());
    k.schedule_next(cs());
    k.switch_to_next(100);
    assert_eq!(k.running(), 7);
    k.sem_acquire(s, 7, cs());
    k.switch_to_next(100);
    assert_eq!(k.running(), 5);
    k.sem_acquire(s, 5, cs());
    k.switch_to_next(100);
    assert_eq!(k.running(), IDLE_PRIO);
    assert!(k.sem_has_waiter(s, 5));
    assert!(k.sem_has_waiter(s, 7));
    // The release picks the highest-priority waiter.
    k.sem_release(s, cs());
    assert!(!k.sem_has_waiter(s, 7));
    assert!(k.sem_has_waiter(s, 5));
    assert!(k.task_ready(7));
    assert!(!k.task_ready(5));
    k.switch_to_next(100);
    assert_eq!(k.running(), 7);
}

#[test]
fn release_with_no_waiter_does_not_accumulate() {
    let mut k = Kernel::new();
    let s = k.add_semaphore(Semaphore::new()).map_err(|_| ()).unwrap();
    assert!(k.add_task(Task::new(5, 5, Stack::new(32))).is_ok());
    k.init(cs());
    k.schedule_next(cs());
    k.switch_to_next(100);
    assert_eq!(k.running(), 5);
    // Repeated releases with no one waiting change nothing.
    k.sem_release(s, cs());
    k.sem_release(s, cs());
    assert!(!k.switch_pending());
    // A later acquire still blocks: no permit was stored up.
    k.sem_acquire(s, 5, cs());
    assert!(k.sem_has_waiter(s, 5));
    assert!(!k.task_ready(5));
}

#[test]
fn wait_timeout_expires_and_leaves_wait_set() {
    // A task waits on an empty semaphore with timeout 100 and nobody
    // releases: it resumes at tick 100, the wait reports failure, and the
    // wait set no longer contains it.
    let mut k = Kernel::new();
    let s = k.add_semaphore(Semaphore::new()).map_err(|_| ()).unwrap();
    assert!(k.add_task(Task::new(6, 6, Stack::new(32))).is_ok());
    k.init(cs());
    k.schedule_next(cs());
    k.switch_to_next(100);
    assert_eq!(k.running(), 6);
    let t0 = k.ticks();
    k.sem_wait(s, 6, ms::new(100), cs());
    assert!(k.sem_has_waiter(s, 6));
    k.switch_to_next(100);
    assert_eq!(k.running(), IDLE_PRIO);
    for _ in 0..99 {
        k.on_tick(cs());
        assert!(k.task_sleeping(6));
    }
    k.on_tick(cs());
    assert_eq!(k.ticks(), t0 + 100);
    assert!(k.task_ready(6));
    assert!(!k.sem_has_waiter(s, 6));
    assert!(k.sem_wait_outcome(6).is_err());
}

#[test]
fn wait_released_in_time_succeeds() {
    let mut k = Kernel::new();
    let s = k.add_semaphore(Semaphore::new()).map_err(|_| ()).unwrap();
    assert!(k.add_task(Task::new(6, 6, Stack::new(32))).is_ok());
    k.init(cs());
    k.schedule_next(cs());
    k.switch_to_next(100);
    k.sem_wait(s, 6, ms::new(100), cs());
    k.switch_to_next(100);
    for _ in 0..10 {
        k.on_tick(cs());
    }
    k.sem_release(s, cs());
    assert!(k.task_ready(6));
    assert!(!k.sem_has_waiter(s, 6));
    assert!(k.sem_wait_outcome(6).is_ok());
}

#[test]
fn ping_pong_toggles_once_per_release() {
    // Task A (priority 10) releases and sleeps 500; task B (priority 11)
    // waits and toggles.  Each release wakes B exactly once, 500 ticks
    // apart.
    let mut k = Kernel::new();
    let s = k.add_semaphore(Semaphore::new()).map_err(|_| ()).unwrap();
    assert!(k.add_task(Task::new(10, 10, Stack::new(32))).is_ok());
    assert!(k.add_task(Task::new(11, 11, Stack::new(32))).is_ok());
    k.init(cs());
    k.schedule_next(cs());
    k.switch_to_next(100);
    let mut toggles: u32 = 0;
    // B runs first and blocks on the semaphore.
    assert_eq!(k.running(), 11);
    k.sem_acquire(s, 11, cs());
    k.switch_to_next(100);
    let mut last_toggle_tick: u64 = 0;
    for _iteration in 0..3 {
        // A runs: release, then sleep 500.
        assert_eq!(k.running(), 10);
        k.sem_release(s, cs());
        assert!(k.task_ready(11));
        k.switch_to_next(100);
        // B preempts, toggles, and blocks again.
        assert_eq!(k.running(), 11);
        if toggles > 0 {
            assert_eq!(k.ticks() - last_toggle_tick, 500);
        }
        toggles += 1;
        last_toggle_tick = k.ticks();
        k.sem_acquire(s, 11, cs());
        k.switch_to_next(100);
        // A resumes and sleeps 500 ticks.
        assert_eq!(k.running(), 10);
        k.task_sleep(10, 500, cs());
        k.switch_to_next(100);
        for _ in 0..500 {
            k.on_tick(cs());
        }
        assert!(k.task_ready(10));
        k.switch_to_next(100);
    }
    assert_eq!(toggles, 3);
}

#[test]
fn rendezvous_last_arrival_wakes_all() {
    // Three tasks meet; the two early arrivals stop, and the last arrival
    // readies every one of them in a single step.
    let mut k = boot(&[4, 5, 6]);
    let mut r = Rendezvous::new(0b0111_0000);
    assert_eq!(k.running(), 6);
    r.meet(&mut k, 6, cs());
    assert!(!k.task_ready(6));
    k.switch_to_next(100);
    assert_eq!(k.running(), 5);
    r.meet(&mut k, 5, cs());
    assert!(!k.task_ready(5));
    k.switch_to_next(100);
    assert_eq!(k.running(), 4);
    r.meet(&mut k, 4, cs());
    assert!(k.task_ready(4));
    assert!(k.task_ready(5));
    assert!(k.task_ready(6));
    k.switch_to_next(100);
    assert_eq!(k.running(), 6);
}

#[test]
fn mutex_excludes_and_hands_over() {
    let mut k = boot(&[3, 9]);
    let s = k.add_semaphore(Semaphore::new()).map_err(|_| ()).unwrap();
    let mut m: Mutex<u64> = Mutex::new(7, s);
    assert_eq!(k.running(), 9);
    assert!(m.acquire(&mut k, 9, cs()));
    assert_eq!(*m.resource(), 7);
    *m.resource_mut(9) = 8;
    // The holder yields; the lower task contends and blocks.
    k.task_sleep(9, 5, cs());
    k.switch_to_next(100);
    assert_eq!(k.running(), 3);
    assert!(!m.acquire(&mut k, 3, cs()));
    k.switch_to_next(100);
    for _ in 0..5 {
        k.on_tick(cs());
    }
    k.switch_to_next(100);
    assert_eq!(k.running(), 9);
    // A release from a non-holder has no effect.
    m.release(&mut k, 3, cs());
    assert!(!k.task_ready(3));
    // The holder's release wakes the contender, which takes the mutex.
    m.release(&mut k, 9, cs());
    assert!(k.task_ready(3));
    k.task_stop(9, cs());
    k.switch_to_next(100);
    assert_eq!(k.running(), 3);
    assert!(m.acquire(&mut k, 3, cs()));
    assert_eq!(*m.resource(), 8);
}

#[test]
fn mutex_release_by_holder_signals_one_waiter() {
    // Two contenders block on a held mutex; the holder's release wakes
    // exactly the higher-priority one.
    let mut k = boot(&[3, 7, 9]);
    let s = k.add_semaphore(Semaphore::new()).map_err(|_| ()).unwrap();
    let mut m: Mutex<u64> = Mutex::new(0, s);
    assert_eq!(k.running(), 9);
    assert!(m.acquire(&mut k, 9, cs()));
    k.task_sleep(9, 1, cs());
    k.switch_to_next(100);
    assert_eq!(k.running(), 7);
    assert!(!m.acquire(&mut k, 7, cs()));
    k.switch_to_next(100);
    assert_eq!(k.running(), 3);
    assert!(!m.acquire(&mut k, 3, cs()));
    k.switch_to_next(100);
    k.on_tick(cs());
    k.switch_to_next(100);
    assert_eq!(k.running(), 9);
    m.release(&mut k, 9, cs());
    assert!(k.task_ready(7));
    assert!(!k.task_ready(3));
}
