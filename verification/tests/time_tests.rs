use rustos::time::CountDown;
use rustos::time::Deadline;
use rustos::time::Duration;
use rustos::time::Hz;
use rustos::time::Instant;
use rustos::time::MHz;
use rustos::time::kHz;
use rustos::time::ms;
use rustos::time::ns;
use rustos::time::us;

#[test]
fn duration_holds_ticks() {
    let d = Duration::new(42);
    assert_eq!(d.ticks(), 42);
}

#[test]
fn countdown_decrement_expire_reload() {
    let mut c = CountDown::new(Duration::new(2));
    assert!(!c.is_expired());
    c.decrement();
    assert!(!c.is_expired());
    c.decrement();
    assert!(c.is_expired());
    c.decrement();
    assert!(c.is_expired());
    c.reload();
    assert!(!c.is_expired());
}

#[test]
fn deadline_expiry_and_reload() {
    let now = Instant::at_tick(100);
    let mut d = Deadline::new(Duration::new(50), now);
    assert!(!d.is_expired(Instant::at_tick(149)));
    assert!(d.is_expired(Instant::at_tick(150)));
    d.reload();
    assert!(!d.is_expired(Instant::at_tick(150)));
    assert!(d.is_expired(Instant::at_tick(200)));
}

#[test]
fn instant_arithmetic_saturates() {
    let a = Instant::at_tick(10);
    let later = a.saturating_add(Duration::new(5));
    assert_eq!(later.since(a).ticks(), 5);
    let earlier = a.saturating_sub(Duration::new(50));
    assert_eq!(earlier.since(a).ticks(), 0);
    assert!(later.is_at_or_after(&a));
    assert!(!a.is_at_or_after(&later));
}

#[test]
fn frequency_periods() {
    assert_eq!(Hz::new(100).period_ms().value(), 10);
    assert_eq!(Hz::new(1000).period_us().value(), 1000);
    assert_eq!(Hz::new(1000).period_ns().value(), 1_000_000);
    assert_eq!(kHz::new(8).period_us().value(), 125);
    assert_eq!(kHz::new(100).period_ns().value(), 10_000);
    assert_eq!(MHz::new(8).period_ns().value(), 125);
}

#[test]
fn frequency_conversions_and_ratio() {
    assert_eq!(kHz::new(72).to_hz().value(), 72_000);
    assert_eq!(MHz::new(72).to_hz().value(), 72_000_000);
    assert_eq!(MHz::new(72).to_hz().div(Hz::new(1000)).value(), 72_000);
}

#[test]
fn span_saturation() {
    let a = ms::new(usize::MAX);
    assert_eq!(a.saturating_add(ms::new(5)).value(), usize::MAX);
    assert_eq!(ms::new(3).saturating_sub(ms::new(10)).value(), 0);
    assert_eq!(ms::new(10).saturating_sub(ms::new(3)).value(), 7);
    assert_eq!(us::new(1).saturating_add(us::new(2)).value(), 3);
    assert_eq!(us::new(1).saturating_sub(us::new(2)).value(), 0);
    assert_eq!(ns::new(7).saturating_add(ns::new(3)).value(), 10);
    assert_eq!(ns::new(7).saturating_sub(ns::new(9)).value(), 0);
}

#[test]
fn millis_to_ticks_caps() {
    assert_eq!(ms::new(500).as_ticks(), 500);
    assert_eq!(ms::new(usize::MAX).as_ticks(), u32::MAX);
}

#[test]
fn frequency_to_hz_saturates() {
    assert_eq!(kHz::new(usize::MAX).to_hz().value(), usize::MAX);
    assert_eq!(MHz::new(usize::MAX).to_hz().value(), usize::MAX);
}
