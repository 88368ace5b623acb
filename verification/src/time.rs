//! Strongly-typed time values: tick counts, durations, instants, countdowns,
//! deadlines and frequency units.
//!
//! Arithmetic on time values saturates; divisions and period computations
//! require a non-zero divisor, as a zero frequency has no period.

use vstd::prelude::*;

verus! {

/// A relative tick count: the argument of sleeps and timeouts.
pub type Ticks = u32;

/// The monotonic system tick counter.
pub type SystemTicks = u64;

/// A point of the system timeline, captured from the kernel's tick counter.
#[derive(Debug, Clone, Copy, PartialEq, Eq, Structural)]
pub struct Instant {
    t: SystemTicks,
}

impl Instant {
    /// The captured tick count.
    pub closed spec fn spec_ticks(self) -> SystemTicks {
        self.t
    }

    /// Captures an instant from a system tick count; the kernel's `now` reads
    /// its counter and builds the instant through this.
    pub fn at_tick(t: SystemTicks) -> (r: Instant)
        ensures
            r.spec_ticks() == t,
    {
        Instant { t }
    }

    /// The instant a duration later, saturating at the end of the timeline.
    pub fn saturating_add(self, rhs: Duration) -> (r: Instant)
        ensures
            r.spec_ticks() == if self.spec_ticks() + rhs.spec_ticks() <= u64::MAX {
                self.spec_ticks() + rhs.spec_ticks()
            } else {
                u64::MAX as int
            },
    {
        if self.t <= u64::MAX - rhs.ticks() as u64 {
            Instant { t: self.t + rhs.ticks() as u64 }
        } else {
            Instant { t: u64::MAX }
        }
    }

    /// The instant a duration earlier, saturating at the start of the timeline.
    pub fn saturating_sub(self, rhs: Duration) -> (r: Instant)
        ensures
            r.spec_ticks() == if self.spec_ticks() >= rhs.spec_ticks() {
                self.spec_ticks() - rhs.spec_ticks()
            } else {
                0
            },
    {
        if self.t >= rhs.ticks() as u64 {
            Instant { t: self.t - rhs.ticks() as u64 }
        } else {
            Instant { t: 0 }
        }
    }

    /// The duration since an earlier instant; zero when `rhs` is later, and
    /// capped at the widest representable duration.
    pub fn since(self, rhs: Instant) -> (r: Duration)
        ensures
            r.spec_ticks() == if self.spec_ticks() <= rhs.spec_ticks() {
                0
            } else if self.spec_ticks() - rhs.spec_ticks() <= u32::MAX {
                self.spec_ticks() - rhs.spec_ticks()
            } else {
                u32::MAX as int
            },
    {
        if self.t <= rhs.t {
            Duration::new(0)
        } else if self.t - rhs.t <= u32::MAX as u64 {
            Duration::new((self.t - rhs.t) as u32)
        } else {
            Duration::new(u32::MAX)
        }
    }

    /// Whether this instant is no earlier than `rhs`.
    pub fn is_at_or_after(&self, rhs: &Instant) -> (r: bool)
        ensures
            r == (self.spec_ticks() >= rhs.spec_ticks()),
    {
        self.t >= rhs.t
    }
}

/// A span of kernel ticks.
#[derive(Debug, Clone, Copy, PartialEq, Eq, Structural)]
pub struct Duration {
    t: Ticks,
}

impl Duration {
    /// The number of ticks spanned.
    pub closed spec fn spec_ticks(self) -> Ticks {
        self.t
    }

    /// A duration of the given tick count.
    pub fn new(t: Ticks) -> (r: Duration)
        ensures
            r.spec_ticks() == t,
    {
        Duration { t }
    }

    /// The number of ticks spanned.
    pub fn ticks(&self) -> (r: Ticks)
        ensures
            r == self.spec_ticks(),
    {
        self.t
    }
}

/// A reloadable tick counter: the heart of every software timer.
#[derive(Debug, Clone, Copy, PartialEq, Eq, Structural)]
pub struct CountDown {
    period: Duration,
    cnt: Ticks,
}

impl CountDown {
    /// The reload period.
    pub closed spec fn spec_period(self) -> Ticks {
        self.period.spec_ticks()
    }

    /// The remaining tick count.
    pub closed spec fn spec_count(self) -> Ticks {
        self.cnt
    }

    /// A countdown loaded with its period.
    pub fn new(period: Duration) -> (r: CountDown)
        ensures
            r.spec_period() == period.spec_ticks(),
            r.spec_count() == period.spec_ticks(),
    {
        CountDown { period, cnt: period.ticks() }
    }

    /// Counts one tick down, stopping at zero.
    pub fn decrement(&mut self)
        ensures
            final(self).spec_period() == old(self).spec_period(),
            final(self).spec_count() == if old(self).spec_count() > 0 {
                old(self).spec_count() - 1
            } else {
                0
            },
    {
        if self.cnt > 0 {
            self.cnt = self.cnt - 1;
        }
    }

    /// Whether the countdown has reached zero.
    pub fn is_expired(&self) -> (r: bool)
        ensures
            r == (self.spec_count() == 0),
    {
        self.cnt == 0
    }

    /// Reloads the countdown with its period.
    pub fn reload(&mut self)
        ensures
            final(self).spec_period() == old(self).spec_period(),
            final(self).spec_count() == old(self).spec_period(),
    {
        self.cnt = self.period.ticks();
    }
}

/// An absolute due instant that can be pushed forward by its period.
#[derive(Debug, Clone, Copy, PartialEq, Eq, Structural)]
pub struct Deadline {
    period: Duration,
    deadline: Instant,
}

impl Deadline {
    /// The reload period.
    pub closed spec fn spec_period(self) -> Ticks {
        self.period.spec_ticks()
    }

    /// The instant the deadline falls due.
    pub closed spec fn spec_deadline(self) -> SystemTicks {
        self.deadline.spec_ticks()
    }

    /// A deadline one period after the given current instant.
    pub fn new(period: Duration, now: Instant) -> (r: Deadline)
        ensures
            r.spec_period() == period.spec_ticks(),
            r.spec_deadline() == if now.spec_ticks() + period.spec_ticks() <= u64::MAX {
                now.spec_ticks() + period.spec_ticks()
            } else {
                u64::MAX as int
            },
    {
        Deadline { period, deadline: now.saturating_add(period) }
    }

    /// Whether the given current instant has reached the deadline.
    pub fn is_expired(&self, now: Instant) -> (r: bool)
        ensures
            r == (now.spec_ticks() >= self.spec_deadline()),
    {
        now.is_at_or_after(&self.deadline)
    }

    /// Pushes the deadline one period forward.
    pub fn reload(&mut self)
        ensures
            final(self).spec_period() == old(self).spec_period(),
            final(self).spec_deadline() == if old(self).spec_deadline() + old(
                self,
            ).spec_period() <= u64::MAX {
                old(self).spec_deadline() + old(self).spec_period()
            } else {
                u64::MAX as int
            },
    {
        self.deadline = self.deadline.saturating_add(self.period);
    }
}

/// Frequency in hertz.
#[derive(Debug, Clone, Copy, PartialEq, Eq, Structural)]
pub struct Hz(usize);

/// Frequency in kilohertz.
#[allow(non_camel_case_types)]
#[derive(Debug, Clone, Copy, PartialEq, Eq, Structural)]
pub struct kHz(usize);

/// Frequency in megahertz.
#[derive(Debug, Clone, Copy, PartialEq, Eq, Structural)]
pub struct MHz(usize);

/// A span of milliseconds: the unit of timeouts.
#[allow(non_camel_case_types)]
#[derive(Debug, Clone, Copy, PartialEq, Eq, Structural)]
pub struct ms(usize);

/// A span of microseconds.
#[allow(non_camel_case_types)]
#[derive(Debug, Clone, Copy, PartialEq, Eq, Structural)]
pub struct us(usize);

/// A span of nanoseconds.
#[allow(non_camel_case_types)]
#[derive(Debug, Clone, Copy, PartialEq, Eq, Structural)]
pub struct ns(usize);

impl Hz {
    /// The frequency value.
    pub closed spec fn spec_value(self) -> usize {
        self.0
    }

    /// A frequency of the given hertz.
    pub fn new(value: usize) -> (r: Hz)
        ensures
            r.spec_value() == value,
    {
        Hz(value)
    }

    /// The frequency value in hertz.
    pub fn value(&self) -> (r: usize)
        ensures
            r == self.spec_value(),
    {
        self.0
    }

    /// The period of one cycle in milliseconds.
    pub fn period_ms(&self) -> (r: ms)
        requires
            self.spec_value() > 0,
        ensures
            r.spec_value() == 1_000int / self.spec_value() as int,
    {
        ms(1_000 / self.0)
    }

    /// The period of one cycle in microseconds.
    pub fn period_us(&self) -> (r: us)
        requires
            self.spec_value() > 0,
        ensures
            r.spec_value() == 1_000_000int / self.spec_value() as int,
    {
        us(1_000_000 / self.0)
    }

    /// The period of one cycle in nanoseconds.
    pub fn period_ns(&self) -> (r: ns)
        requires
            self.spec_value() > 0,
        ensures
            r.spec_value() == 1_000_000_000int / self.spec_value() as int,
    {
        ns(1_000_000_000 / self.0)
    }

    /// The ratio of two frequencies.
    pub fn div(self, rhs: Hz) -> (r: Hz)
        requires
            rhs.spec_value() > 0,
        ensures
            r.spec_value() == self.spec_value() as int / rhs.spec_value() as int,
    {
        Hz(self.0 / rhs.0)
    }
}

impl kHz {
    /// The frequency value.
    pub closed spec fn spec_value(self) -> usize {
        self.0
    }

    /// A frequency of the given kilohertz.
    pub fn new(value: usize) -> (r: kHz)
        ensures
            r.spec_value() == value,
    {
        kHz(value)
    }

    /// The frequency value in kilohertz.
    pub fn value(&self) -> (r: usize)
        ensures
            r == self.spec_value(),
    {
        self.0
    }

    /// The same frequency in hertz, saturating at the widest value.
    pub fn to_hz(self) -> (r: Hz)
        ensures
            r.spec_value() == if self.spec_value() * 1_000 <= usize::MAX {
                self.spec_value() * 1_000
            } else {
                usize::MAX as int
            },
    {
        if self.0 <= usize::MAX / 1_000 {
            Hz(self.0 * 1_000)
        } else {
            Hz(usize::MAX)
        }
    }

    /// The period of one cycle in microseconds.
    pub fn period_us(&self) -> (r: us)
        requires
            self.spec_value() > 0,
        ensures
            r.spec_value() == 1_000int / self.spec_value() as int,
    {
        us(1_000 / self.0)
    }

    /// The period of one cycle in nanoseconds.
    pub fn period_ns(&self) -> (r: ns)
        requires
            self.spec_value() > 0,
        ensures
            r.spec_value() == 1_000_000int / self.spec_value() as int,
    {
        ns(1_000_000 / self.0)
    }
}

impl MHz {
    /// The frequency value.
    pub closed spec fn spec_value(self) -> usize {
        self.0
    }

    /// A frequency of the given megahertz.
    pub fn new(value: usize) -> (r: MHz)
        ensures
            r.spec_value() == value,
    {
        MHz(value)
    }

    /// The frequency value in megahertz.
    pub fn value(&self) -> (r: usize)
        ensures
            r == self.spec_value(),
    {
        self.0
    }

    /// The same frequency in hertz, saturating at the widest value.
    pub fn to_hz(self) -> (r: Hz)
        ensures
            r.spec_value() == if self.spec_value() * 1_000_000 <= usize::MAX {
                self.spec_value() * 1_000_000
            } else {
                usize::MAX as int
            },
    {
        if self.0 <= usize::MAX / 1_000_000 {
            Hz(self.0 * 1_000_000)
        } else {
            Hz(usize::MAX)
        }
    }

    /// The period of one cycle in nanoseconds.
    pub fn period_ns(&self) -> (r: ns)
        requires
            self.spec_value() > 0,
        ensures
            r.spec_value() == 1_000int / self.spec_value() as int,
    {
        ns(1_000 / self.0)
    }
}

impl ms {
    /// The number of milliseconds.
    pub closed spec fn spec_value(self) -> usize {
        self.0
    }

    /// A span of the given milliseconds.
    pub fn new(value: usize) -> (r: ms)
        ensures
            r.spec_value() == value,
    {
        ms(value)
    }

    /// The number of milliseconds.
    pub fn value(&self) -> (r: usize)
        ensures
            r == self.spec_value(),
    {
        self.0
    }

    /// The span in kernel ticks, at one millisecond per tick, capped at the
    /// widest representable tick count.
    pub open spec fn spec_as_ticks(self) -> Ticks {
        if self.spec_value() <= u32::MAX {
            self.spec_value() as Ticks
        } else {
            u32::MAX
        }
    }

    /// The span in kernel ticks, at one millisecond per tick, capped at the
    /// widest representable tick count.
    pub fn as_ticks(self) -> (r: Ticks)
        ensures
            r == self.spec_as_ticks(),
    {
        if self.0 <= u32::MAX as usize {
            self.0 as u32
        } else {
            u32::MAX
        }
    }

    /// The sum of two spans, saturating.
    pub fn saturating_add(self, rhs: ms) -> (r: ms)
        ensures
            r.spec_value() == if self.spec_value() + rhs.spec_value() <= usize::MAX {
                self.spec_value() + rhs.spec_value()
            } else {
                usize::MAX as int
            },
    {
        if self.0 <= usize::MAX - rhs.0 {
            ms(self.0 + rhs.0)
        } else {
            ms(usize::MAX)
        }
    }

    /// The difference of two spans, stopping at zero.
    pub fn saturating_sub(self, rhs: ms) -> (r: ms)
        ensures
            r.spec_value() == if self.spec_value() >= rhs.spec_value() {
                self.spec_value() - rhs.spec_value()
            } else {
                0
            },
    {
        if self.0 >= rhs.0 {
            ms(self.0 - rhs.0)
        } else {
            ms(0)
        }
    }
}

impl us {
    /// The number of microseconds.
    pub closed spec fn spec_value(self) -> usize {
        self.0
    }

    /// A span of the given microseconds.
    pub fn new(value: usize) -> (r: us)
        ensures
            r.spec_value() == value,
    {
        us(value)
    }

    /// The number of microseconds.
    pub fn value(&self) -> (r: usize)
        ensures
            r == self.spec_value(),
    {
        self.0
    }

    /// The sum of two spans, saturating.
    pub fn saturating_add(self, rhs: us) -> (r: us)
        ensures
            r.spec_value() == if self.spec_value() + rhs.spec_value() <= usize::MAX {
                self.spec_value() + rhs.spec_value()
            } else {
                usize::MAX as int
            },
    {
        if self.0 <= usize::MAX - rhs.0 {
            us(self.0 + rhs.0)
        } else {
            us(usize::MAX)
        }
    }

    /// The difference of two spans, stopping at zero.
    pub fn saturating_sub(self, rhs: us) -> (r: us)
        ensures
            r.spec_value() == if self.spec_value() >= rhs.spec_value() {
                self.spec_value() - rhs.spec_value()
            } else {
                0
            },
    {
        if self.0 >= rhs.0 {
            us(self.0 - rhs.0)
        } else {
            us(0)
        }
    }
}

impl ns {
    /// The number of nanoseconds.
    pub closed spec fn spec_value(self) -> usize {
        self.0
    }

    /// A span of the given nanoseconds.
    pub fn new(value: usize) -> (r: ns)
        ensures
            r.spec_value() == value,
    {
        ns(value)
    }

    /// The number of nanoseconds.
    pub fn value(&self) -> (r: usize)
        ensures
            r == self.spec_value(),
    {
        self.0
    }

    /// The sum of two spans, saturating.
    pub fn saturating_add(self, rhs: ns) -> (r: ns)
        ensures
            r.spec_value() == if self.spec_value() + rhs.spec_value() <= usize::MAX {
                self.spec_value() + rhs.spec_value()
            } else {
                usize::MAX as int
            },
    {
        if self.0 <= usize::MAX - rhs.0 {
            ns(self.0 + rhs.0)
        } else {
            ns(usize::MAX)
        }
    }

    /// The difference of two spans, stopping at zero.
    pub fn saturating_sub(self, rhs: ns) -> (r: ns)
        ensures
            r.spec_value() == if self.spec_value() >= rhs.spec_value() {
                self.spec_value() - rhs.spec_value()
            } else {
                0
            },
    {
        if self.0 >= rhs.0 {
            ns(self.0 - rhs.0)
        } else {
            ns(0)
        }
    }
}

} // verus!
