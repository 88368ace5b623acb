use rustos::kernel::CritSect;
use rustos::kernel::Kernel;
use rustos::time::Duration;
use rustos::timer::Timer;
use rustos::timer::TimerMode;

fn cs() -> CritSect {
    CritSect::activate()
}

fn booted_kernel() -> Kernel {
    let mut k = Kernel::new();
    k.init(cs());
    k
}

/// Runs `ticks` kernel ticks and counts the firings of `slot`.
fn run_and_count(k: &mut Kernel, slot: usize, ticks: usize) -> usize {
    let mut count: usize = 0;
    for _ in 0..ticks {
        let fired = k.on_tick(cs());
        for f in fired {
            if f == slot {
                count += 1;
            }
        }
    }
    count
}

#[test]
fn one_shot_fires_once_and_expires() {
    let mut k = booted_kernel();
    let slot = k.new_timer(Duration::new(3), true, TimerMode::OneShot).unwrap();
    assert!(k.timer_registered(slot));
    assert!(k.timer_active(slot));
    assert_eq!(run_and_count(&mut k, slot, 10), 1);
    assert!(!k.timer_registered(slot));
    assert!(!k.timer_active(slot));
}

#[test]
fn looping_fires_every_period() {
    let mut k = booted_kernel();
    let slot = k.new_timer(Duration::new(4), true, TimerMode::Looping).unwrap();
    assert_eq!(run_and_count(&mut k, slot, 20), 5);
    assert!(k.timer_registered(slot));
}

#[test]
fn counted_fires_exactly_n_times() {
    let mut k = booted_kernel();
    let slot = k.new_timer(Duration::new(2), true, TimerMode::Counted(3)).unwrap();
    assert_eq!(run_and_count(&mut k, slot, 50), 3);
    assert!(!k.timer_registered(slot));
}

#[test]
fn counted_burst_fires_reps_times_burst_and_frees_slot() {
    // Five repetitions of four firings spaced 60 ticks, with a 350-tick gap
    // before each burst: exactly twenty firings, then the slot is free.
    let mut k = booted_kernel();
    let slot = k
        .new_timer(Duration::new(350), true, TimerMode::CountedBurst(5, 60, 4))
        .unwrap();
    let total = 5 * (350 + 3 * 60) + 350 + 50;
    assert_eq!(run_and_count(&mut k, slot, total), 20);
    assert!(!k.timer_registered(slot));
    assert!(!k.timer_active(slot));
    // The slot can be taken again.
    let again = k.new_timer(Duration::new(5), false, TimerMode::OneShot).unwrap();
    assert_eq!(again, slot);
}

#[test]
fn looping_burst_keeps_firing_in_groups() {
    let mut k = booted_kernel();
    let slot = k
        .new_timer(Duration::new(10), true, TimerMode::LoopingBurst(2, 3))
        .unwrap();
    // One full cycle lasts 10 + 2 + 2 ticks and fires three times.
    assert_eq!(run_and_count(&mut k, slot, 28), 6);
    assert!(k.timer_registered(slot));
}

#[test]
fn inactive_timer_does_not_fire_until_started() {
    let mut k = booted_kernel();
    let slot = k.new_timer(Duration::new(2), false, TimerMode::Looping).unwrap();
    assert_eq!(run_and_count(&mut k, slot, 10), 0);
    k.start_timer(slot);
    assert_eq!(run_and_count(&mut k, slot, 10), 5);
    k.stop_timer(slot);
    assert_eq!(run_and_count(&mut k, slot, 10), 0);
}

#[test]
fn remove_timer_frees_slot() {
    let mut k = booted_kernel();
    let slot = k.new_timer(Duration::new(2), true, TimerMode::Looping).unwrap();
    assert!(k.remove_timer(slot).is_ok());
    assert!(!k.timer_registered(slot));
    assert!(k.remove_timer(slot).is_err());
}

#[test]
fn timer_mode_advance_table() {
    let mut t = Timer::new(0, Duration::new(3));
    t.set_mode(TimerMode::OneShot);
    assert_eq!(t.tick_and_fire(), (TimerMode::OneShot, false));
    assert_eq!(t.tick_and_fire(), (TimerMode::OneShot, false));
    assert_eq!(t.tick_and_fire(), (TimerMode::Expired, true));

    let mut c = Timer::new(1, Duration::new(1));
    c.set_mode(TimerMode::Counted(2));
    assert_eq!(c.tick_and_fire(), (TimerMode::Counted(1), true));
    assert_eq!(c.tick_and_fire(), (TimerMode::Counted(0), true));
    assert_eq!(c.tick_and_fire(), (TimerMode::Expired, false));
}

#[test]
fn burst_mode_reloads_burst_spacing() {
    let mut t = Timer::new(0, Duration::new(5));
    t.set_mode(TimerMode::LoopingBurst(2, 2));
    // First firing comes after the period, the second two ticks later.
    for _ in 0..4 {
        assert_eq!(t.tick_and_fire().1, false);
    }
    assert_eq!(t.tick_and_fire(), (TimerMode::LoopingBurst(2, 2), true));
    assert_eq!(t.tick_and_fire().1, false);
    assert_eq!(t.tick_and_fire(), (TimerMode::LoopingBurst(2, 2), true));
    // After the burst, the long period runs again.
    for _ in 0..4 {
        assert_eq!(t.tick_and_fire().1, false);
    }
    assert_eq!(t.tick_and_fire().1, true);
}

#[test]
fn timer_handle_start_and_stop() {
    let mut k = booted_kernel();
    let slot = k.new_timer(Duration::new(2), false, TimerMode::Looping).unwrap();
    let handle = Timer::new(slot as u8, Duration::new(2));
    handle.start(&mut k);
    assert!(k.timer_active(slot));
    handle.stop(&mut k);
    assert!(!k.timer_active(slot));
}

#[test]
fn new_timer_takes_lowest_free_slot() {
    let mut k = booted_kernel();
    assert_eq!(k.new_timer(Duration::new(5), false, TimerMode::Looping), Ok(0));
    assert_eq!(k.new_timer(Duration::new(5), false, TimerMode::Looping), Ok(1));
    assert_eq!(k.new_timer(Duration::new(5), false, TimerMode::Looping), Ok(2));
    assert!(k.remove_timer(1).is_ok());
    assert_eq!(k.new_timer(Duration::new(5), false, TimerMode::Looping), Ok(1));
}
