//! Software timers.
//!
//! A `Timer` counts kernel ticks down and fires when it reaches zero; its
//! mode decides what a firing does: expire, reload, count repetitions, or
//! run bursts of closely spaced firings separated by a long gap.  The
//! `TimerList` holds the timers in a slot table with an `active` bitmap and
//! advances every active timer on each kernel tick.  A timer that reaches
//! the `Expired` mode is removed from its slot on that same tick.
//!
//! The kernel reports which timers fired on a tick; invoking the fired
//! timers' callbacks is the embedding's job.

use vstd::prelude::*;

verus! {

use crate::bitvec::BitList;
use crate::bitvec::BitVec;
use crate::time::Duration;
use crate::time::Ticks;

/// What a timer does when its countdown reaches zero.
#[derive(Debug, Clone, Copy, PartialEq, Eq, Structural)]
pub enum TimerMode {
    /// Fire once, then expire.
    OneShot,
    /// Fire and reload the period, forever.
    Looping,
    /// Fire in bursts of the given count, spaced the given ticks apart, with
    /// one period-long gap between bursts, forever.
    LoopingBurst(Ticks, u8),
    /// Fire the given number of times, one period apart, then expire.
    Counted(u8),
    /// Run the given number of bursts of the given spacing and count, then
    /// expire.
    CountedBurst(u8, Ticks, u8),
    /// Terminal: the slot is reclaimed on the next tick sweep.
    Expired,
}

/// Burst modes need at least one tick of spacing and one firing per burst.
pub open spec fn mode_wf(mode: TimerMode) -> bool {
    match mode {
        TimerMode::LoopingBurst(ticks, bursts) => ticks >= 1 && bursts >= 1,
        TimerMode::CountedBurst(_, ticks, bursts) => ticks >= 1 && bursts >= 1,
        _ => true,
    }
}

/// A software timer: a slot id, a mode, a reload period, the running
/// countdown and the firings left in the current burst.
#[derive(Debug, Clone, Copy, PartialEq, Eq, Structural)]
pub struct Timer {
    /// The slot the timer lives in.
    pub id: u8,
    /// The timer's mode.
    pub mode: TimerMode,
    /// The reload period.
    pub period: Duration,
    /// The running countdown.
    pub cntdwn: Ticks,
    /// The firings left in the current burst.
    pub bursts_cnt: u8,
}

impl Timer {
    /// The slot the timer lives in.
    pub closed spec fn spec_id(self) -> u8 {
        self.id
    }

    /// The timer's mode.
    pub closed spec fn spec_mode(self) -> TimerMode {
        self.mode
    }

    /// The reload period in ticks.
    pub closed spec fn spec_period(self) -> Ticks {
        self.period.spec_ticks()
    }

    /// The running countdown.
    pub closed spec fn spec_cntdwn(self) -> Ticks {
        self.cntdwn
    }

    /// The firings left in the current burst.
    pub closed spec fn spec_bursts_cnt(self) -> u8 {
        self.bursts_cnt
    }

    /// A sound timer: a period of at least one tick, sound mode parameters,
    /// at least one firing left in the burst while in a burst mode, and a
    /// live countdown unless the timer has expired.
    pub open spec fn wf(self) -> bool {
        &&& self.config_wf()
        &&& (self.spec_cntdwn() >= 1 || self.spec_mode() is Expired)
    }

    /// The countdown-independent part of soundness.
    pub open spec fn config_wf(self) -> bool {
        &&& self.spec_period() >= 1
        &&& mode_wf(self.spec_mode())
        &&& (self.spec_mode() matches TimerMode::LoopingBurst(_, _) ==> self.spec_bursts_cnt()
            >= 1)
        &&& (self.spec_mode() matches TimerMode::CountedBurst(_, _, _) ==> self.spec_bursts_cnt()
            >= 1)
    }

    /// A timer for the given slot, expired until a mode is set.
    pub fn new(id: u8, period: Duration) -> (r: Timer)
        requires
            period.spec_ticks() >= 1,
        ensures
            r.wf(),
            r.spec_id() == id,
            r.spec_mode() is Expired,
            r.spec_period() == period.spec_ticks(),
            r.spec_cntdwn() == period.spec_ticks(),
    {
        Timer { id, mode: TimerMode::Expired, period, cntdwn: period.ticks(), bursts_cnt: 0 }
    }

    /// The slot the timer lives in.
    pub fn id(&self) -> (r: u8)
        ensures
            r == self.spec_id(),
    {
        self.id
    }

    /// The timer's mode.
    pub fn mode(&self) -> (r: TimerMode)
        ensures
            r == self.spec_mode(),
    {
        self.mode
    }

    /// Sets the mode, reloads the countdown from the period, and loads the
    /// burst counter for a burst mode.
    pub fn set_mode(&mut self, mode: TimerMode)
        requires
            old(self).wf(),
            mode_wf(mode),
        ensures
            final(self).wf(),
            final(self).spec_mode() == mode,
            final(self).spec_cntdwn() == old(self).spec_period(),
            final(self).spec_period() == old(self).spec_period(),
            final(self).spec_id() == old(self).spec_id(),
            final(self).spec_bursts_cnt() == match mode {
                TimerMode::CountedBurst(_, _, bursts) => bursts,
                TimerMode::LoopingBurst(_, bursts) => bursts,
                _ => old(self).spec_bursts_cnt(),
            },
    {
        self.mode = mode;
        self.cntdwn = self.period.ticks();
        match mode {
            TimerMode::CountedBurst(_, _, bursts) => {
                self.bursts_cnt = bursts;
            },
            TimerMode::LoopingBurst(_, bursts) => {
                self.bursts_cnt = bursts;
            },
            _ => {},
        }
    }

    /// Whether a firing of this timer invokes its callback.
    pub open spec fn spec_fires(self) -> bool {
        match self.spec_mode() {
            TimerMode::OneShot => true,
            TimerMode::Looping => true,
            TimerMode::LoopingBurst(_, _) => true,
            TimerMode::Counted(cnt) => cnt > 0,
            TimerMode::CountedBurst(cnt, _, _) => cnt > 0,
            TimerMode::Expired => false,
        }
    }

    /// The timer after one tick: the countdown drops by one, and on zero the
    /// timer fires and advances per its mode.
    pub open spec fn spec_tick(self) -> Timer {
        if self.spec_cntdwn() > 1 {
            Timer {
                cntdwn: (self.spec_cntdwn() - 1) as Ticks,
                id: self.spec_id(),
                mode: self.spec_mode(),
                period: self.spec_period_duration(),
                bursts_cnt: self.spec_bursts_cnt(),
            }
        } else {
            self.spec_fire()
        }
    }

    /// The period as the stored duration.
    pub closed spec fn spec_period_duration(self) -> Duration {
        self.period
    }

    /// The timer after a firing, per the mode table.
    pub open spec fn spec_fire(self) -> Timer {
        let id = self.spec_id();
        let period = self.spec_period_duration();
        match self.spec_mode() {
            TimerMode::OneShot => Timer {
                id,
                mode: TimerMode::Expired,
                period,
                cntdwn: 0,
                bursts_cnt: self.spec_bursts_cnt(),
            },
            TimerMode::Looping => Timer {
                id,
                mode: TimerMode::Looping,
                period,
                cntdwn: self.spec_period(),
                bursts_cnt: self.spec_bursts_cnt(),
            },
            TimerMode::LoopingBurst(ticks, bursts) => if self.spec_bursts_cnt() == 1 {
                Timer {
                    id,
                    mode: self.spec_mode(),
                    period,
                    cntdwn: self.spec_period(),
                    bursts_cnt: bursts,
                }
            } else {
                Timer {
                    id,
                    mode: self.spec_mode(),
                    period,
                    cntdwn: ticks,
                    bursts_cnt: (self.spec_bursts_cnt() - 1) as u8,
                }
            },
            TimerMode::Counted(cnt) => if cnt > 0 {
                Timer {
                    id,
                    mode: TimerMode::Counted((cnt - 1) as u8),
                    period,
                    cntdwn: self.spec_period(),
                    bursts_cnt: self.spec_bursts_cnt(),
                }
            } else {
                Timer {
                    id,
                    mode: TimerMode::Expired,
                    period,
                    cntdwn: 0,
                    bursts_cnt: self.spec_bursts_cnt(),
                }
            },
            TimerMode::CountedBurst(cnt, ticks, bursts) => if cnt > 0 {
                if self.spec_bursts_cnt() == 1 {
                    Timer {
                        id,
                        mode: TimerMode::CountedBurst((cnt - 1) as u8, ticks, bursts),
                        period,
                        cntdwn: self.spec_period(),
                        bursts_cnt: bursts,
                    }
                } else {
                    Timer {
                        id,
                        mode: self.spec_mode(),
                        period,
                        cntdwn: ticks,
                        bursts_cnt: (self.spec_bursts_cnt() - 1) as u8,
                    }
                }
            } else {
                Timer {
                    id,
                    mode: TimerMode::Expired,
                    period,
                    cntdwn: 0,
                    bursts_cnt: self.spec_bursts_cnt(),
                }
            },
            TimerMode::Expired => Timer {
                id,
                mode: TimerMode::Expired,
                period,
                cntdwn: 0,
                bursts_cnt: self.spec_bursts_cnt(),
            },
        }
    }

    /// Counts one tick down; on zero the timer fires and advances per its
    /// mode.  Returns the resulting mode and whether the callback is due.
    pub fn tick_and_fire(&mut self) -> (r: (TimerMode, bool))
        requires
            old(self).wf(),
            old(self).spec_cntdwn() >= 1,
        ensures
            final(self).wf(),
            *final(self) == old(self).spec_tick(),
            r.0 == final(self).spec_mode(),
            r.1 == (old(self).spec_cntdwn() == 1 && old(self).spec_fires()),
    {
        self.cntdwn = self.cntdwn - 1;
        if self.cntdwn == 0 {
            let fired = self.fire();
            (self.mode, fired)
        } else {
            (self.mode, false)
        }
    }

    /// Advances the timer past a firing, per the mode table; returns whether
    /// the callback is due.
    fn fire(&mut self) -> (fired: bool)
        requires
            old(self).config_wf(),
        ensures
            *final(self) == old(self).spec_fire(),
            fired == old(self).spec_fires(),
            final(self).wf(),
    {
        match self.mode {
            TimerMode::OneShot => {
                self.mode = TimerMode::Expired;
                self.cntdwn = 0;
                true
            },
            TimerMode::Looping => {
                self.cntdwn = self.period.ticks();
                true
            },
            TimerMode::LoopingBurst(ticks, bursts) => {
                self.bursts_cnt = self.bursts_cnt - 1;
                if self.bursts_cnt == 0 {
                    self.cntdwn = self.period.ticks();
                    self.bursts_cnt = bursts;
                } else {
                    self.cntdwn = ticks;
                }
                true
            },
            TimerMode::Counted(cnt) => {
                if cnt > 0 {
                    self.mode = TimerMode::Counted(cnt - 1);
                    self.cntdwn = self.period.ticks();
                    true
                } else {
                    self.mode = TimerMode::Expired;
                    self.cntdwn = 0;
                    false
                }
            },
            TimerMode::CountedBurst(cnt, ticks, bursts) => {
                if cnt > 0 {
                    self.bursts_cnt = self.bursts_cnt - 1;
                    if self.bursts_cnt == 0 {
                        self.mode = TimerMode::CountedBurst(cnt - 1, ticks, bursts);
                        self.cntdwn = self.period.ticks();
                        self.bursts_cnt = bursts;
                    } else {
                        self.cntdwn = ticks;
                    }
                    true
                } else {
                    self.mode = TimerMode::Expired;
                    self.cntdwn = 0;
                    false
                }
            },
            TimerMode::Expired => {
                self.mode = TimerMode::Expired;
                self.cntdwn = 0;
                false
            },
        }
    }
}

/// The kernel's timer table: a slot table of timers and the bitmap of the
/// active ones.
pub struct TimerList {
    timers: BitList<Timer>,
    active: BitVec,
}

impl TimerList {
    /// The slot table.
    pub closed spec fn spec_timers(self) -> BitList<Timer> {
        self.timers
    }

    /// The active bitmap.
    pub closed spec fn spec_active(self) -> BitVec {
        self.active
    }

    /// Whether slot `i` holds a timer.
    pub open spec fn spec_used(self, i: u32) -> bool {
        self.spec_timers().spec_occupied(i)
    }

    /// The timer of slot `i`.
    pub open spec fn spec_timer(self, i: u32) -> Timer {
        self.spec_timers().spec_get(i)->0
    }

    /// Whether slot `i` is active.
    pub open spec fn spec_is_active(self, i: u32) -> bool {
        self.spec_active().spec_check(i)
    }

    /// Table soundness: the slot table is sound, each stored timer is sound
    /// and carries its slot number, and every active slot holds a live
    /// timer.
    pub open spec fn wf(self) -> bool {
        &&& self.spec_timers().wf()
        &&& forall|i: u32| i < 32 ==> #[trigger] self.timer_slot_wf(i)
    }

    /// The invariants of one timer slot.
    pub open spec fn timer_slot_wf(self, i: u32) -> bool {
        &&& (self.spec_used(i) ==> self.spec_timer(i).wf() && self.spec_timer(i).spec_id() == i)
        &&& (self.spec_is_active(i) ==> self.spec_used(i) && self.spec_timer(i).spec_cntdwn()
            >= 1)
    }

    /// Nothing of timer slot `i` differs between the two tables.
    pub open spec fn timer_slot_unchanged(pre: TimerList, post: TimerList, i: u32) -> bool {
        &&& post.spec_used(i) == pre.spec_used(i)
        &&& post.spec_timers().spec_get(i) == pre.spec_timers().spec_get(i)
        &&& post.spec_is_active(i) == pre.spec_is_active(i)
    }

    /// An empty table.
    pub fn new() -> (r: TimerList)
        ensures
            r.wf(),
            forall|i: u32| i < 32 ==> !r.spec_used(i),
            forall|i: u32| i < 32 ==> !r.spec_is_active(i),
    {
        TimerList { timers: BitList::new(), active: BitVec::new() }
    }

    /// Whether a timer slot is registered.
    pub fn used_check(&self, slot: usize) -> (r: bool)
        requires
            slot < 32,
        ensures
            r == self.spec_used(slot as u32),
    {
        self.timers.is_occupied(slot)
    }

    /// Whether a timer slot is active.
    pub fn active_check(&self, slot: usize) -> (r: bool)
        requires
            slot < 32,
        ensures
            r == self.spec_is_active(slot as u32),
    {
        self.active.check(slot)
    }

    /// Adds a timer of the given period and mode in the lowest free slot and
    /// returns the slot, or refuses when the table is full.
    pub fn add_timer(&mut self, period: Duration, mode: TimerMode) -> (r: Result<usize, ()>)
        requires
            old(self).wf(),
            period.spec_ticks() >= 1,
            mode_wf(mode),
        ensures
            final(self).wf(),
            match r {
                Ok(id) => {
                    &&& id < 32
                    &&& !old(self).spec_used(id as u32)
                    &&& (forall|j: u32| j < id ==> old(self).spec_used(j))
                    &&& final(self).spec_used(id as u32)
                    &&& !final(self).spec_is_active(id as u32)
                    &&& final(self).spec_timer(id as u32).spec_mode() == mode
                    &&& final(self).spec_timer(id as u32).spec_period() == period.spec_ticks()
                    &&& final(self).spec_timer(id as u32).spec_cntdwn() == period.spec_ticks()
                    &&& forall|j: u32|
                        j < 32 && j != id ==> TimerList::timer_slot_unchanged(
                            *old(self),
                            *final(self),
                            j,
                        )
                },
                Err(()) => {
                    &&& forall|j: u32| j < 32 ==> old(self).spec_used(j)
                    &&& *final(self) == *old(self)
                },
            },
    {
        let id = match self.timers.first_free() {
            Ok(id) => id,
            Err(()) => {
                return Err(());
            },
        };
        let ghost pre = *self;
        let mut tim = Timer::new(id as u8, period);
        tim.set_mode(mode);
        let inserted = self.timers.insert_at(id, tim);
        proof {
            assert(inserted is Ok);
            assert(pre.timer_slot_wf(id as u32));
            assert forall|i: u32| i < 32 implies #[trigger] self.timer_slot_wf(i) by {
                assert(pre.timer_slot_wf(i));
            }
        }
        Ok(id)
    }

    /// Removes the timer of a slot; refuses a free slot.
    pub fn remove_timer(&mut self, slot: usize) -> (r: Result<(), ()>)
        requires
            old(self).wf(),
            slot < 32,
        ensures
            final(self).wf(),
            match r {
                Ok(()) => {
                    &&& old(self).spec_used(slot as u32)
                    &&& !final(self).spec_used(slot as u32)
                    &&& !final(self).spec_is_active(slot as u32)
                    &&& forall|j: u32|
                        j < 32 && j != slot ==> TimerList::timer_slot_unchanged(
                            *old(self),
                            *final(self),
                            j,
                        )
                },
                Err(()) => {
                    &&& !old(self).spec_used(slot as u32)
                    &&& *final(self) == *old(self)
                },
            },
    {
        let ghost pre = *self;
        match self.timers.remove(slot) {
            Ok(_) => {
                self.active.clear(slot);
                proof {
                    assert forall|i: u32| i < 32 implies #[trigger] self.timer_slot_wf(i) by {
                        assert(pre.timer_slot_wf(i));
                    }
                }
                Ok(())
            },
            Err(()) => Err(()),
        }
    }

    /// Marks a slot's timer running.
    pub fn start(&mut self, slot: usize)
        requires
            old(self).wf(),
            slot < 32,
            old(self).spec_used(slot as u32),
            old(self).spec_timer(slot as u32).spec_cntdwn() >= 1,
        ensures
            final(self).wf(),
            final(self).spec_is_active(slot as u32),
            final(self).spec_timers() == old(self).spec_timers(),
            forall|j: u32|
                j < 32 && j != slot ==> TimerList::timer_slot_unchanged(
                    *old(self),
                    *final(self),
                    j,
                ),
    {
        let ghost pre = *self;
        self.active.set(slot);
        proof {
            assert forall|i: u32| i < 32 implies #[trigger] self.timer_slot_wf(i) by {
                assert(pre.timer_slot_wf(i));
            }
        }
    }

    /// Marks a slot's timer stopped; it keeps its countdown.
    pub fn stop(&mut self, slot: usize)
        requires
            old(self).wf(),
            slot < 32,
        ensures
            final(self).wf(),
            !final(self).spec_is_active(slot as u32),
            final(self).spec_timers() == old(self).spec_timers(),
            forall|j: u32|
                j < 32 && j != slot ==> TimerList::timer_slot_unchanged(
                    *old(self),
                    *final(self),
                    j,
                ),
    {
        let ghost pre = *self;
        self.active.clear(slot);
        proof {
            assert forall|i: u32| i < 32 implies #[trigger] self.timer_slot_wf(i) by {
                assert(pre.timer_slot_wf(i));
            }
        }
    }

    /// What one kernel tick does to one timer slot: an inactive slot is
    /// untouched; an active timer counts one tick down, fires on zero, and
    /// leaves the table the moment its mode reaches `Expired`.
    pub open spec fn tick_timer_effect(pre: TimerList, post: TimerList, i: u32) -> bool {
        if pre.spec_is_active(i) {
            if pre.spec_timer(i).spec_tick().spec_mode() is Expired {
                &&& !post.spec_used(i)
                &&& !post.spec_is_active(i)
            } else {
                &&& post.spec_used(i)
                &&& post.spec_timer(i) == pre.spec_timer(i).spec_tick()
                &&& post.spec_is_active(i)
            }
        } else {
            TimerList::timer_slot_unchanged(pre, post, i)
        }
    }

    /// The whole-table reading of one tick.
    pub open spec fn ticked(pre: TimerList, post: TimerList) -> bool {
        forall|i: u32| i < 32 ==> #[trigger] TimerList::tick_timer_effect(pre, post, i)
    }

    /// The slots whose timers fire on this tick, highest slot first: the
    /// active timers whose countdown reaches zero in a mode that invokes the
    /// callback.
    pub open spec fn fired_from(pre: TimerList, n: nat) -> Seq<usize>
        decreases 32 - n,
    {
        if n >= 32 {
            Seq::empty()
        } else {
            let rest = TimerList::fired_from(pre, n + 1);
            if pre.spec_is_active(n as u32) && pre.spec_timer(n as u32).spec_cntdwn() == 1
                && pre.spec_timer(n as u32).spec_fires() {
                rest.push(n as usize)
            } else {
                rest
            }
        }
    }

    /// The slots already swept have taken the tick; the rest are untouched.
    pub open spec fn tick_suffix(pre: TimerList, post: TimerList, n: int) -> bool {
        &&& forall|i: u32| n <= i < 32 ==> #[trigger] TimerList::tick_timer_effect(pre, post, i)
        &&& forall|i: u32| i < n ==> #[trigger] TimerList::timer_slot_unchanged(pre, post, i)
    }

    /// Advances every active timer by one tick, sweeping from the highest
    /// slot down, and returns the slots whose callbacks are due, in sweep
    /// order.  Timers that expire leave the table and the active set.
    pub fn tick_timers(&mut self) -> (r: Vec<usize>)
        requires
            old(self).wf(),
        ensures
            final(self).wf(),
            TimerList::ticked(*old(self), *final(self)),
            r@ == TimerList::fired_from(*old(self), 0),
    {
        let ghost pre = *self;
        let mut out: Vec<usize> = Vec::new();
        let mut i: usize = 32;
        while i > 0
            invariant
                i <= 32,
                self.wf(),
                out@ == TimerList::fired_from(pre, i as nat),
                TimerList::tick_suffix(pre, *self, i as int),
            decreases i,
        {
            i = i - 1;
            let ghost at_entry = *self;
            proof {
                assert(TimerList::timer_slot_unchanged(pre, at_entry, i as u32));
                assert(pre.timer_slot_wf(i as u32));
                assert(self.timer_slot_wf(i as u32));
            }
            if self.active.check(i) {
                let mut tim = match self.timers.remove(i) {
                    Ok(t) => t,
                    Err(()) => {
                        proof {
                            assert(false);
                        }
                        return out;
                    },
                };
                let (mode, fired) = tim.tick_and_fire();
                if fired {
                    out.push(i);
                }
                if let TimerMode::Expired = mode {
                    self.active.clear(i);
                } else {
                    let put_back = self.timers.insert_at(i, tim);
                    proof {
                        assert(put_back is Ok);
                    }
                }
            }
            proof {
                assert(out@ =~= TimerList::fired_from(pre, i as nat));
                assert forall|k: u32| k < 32 implies #[trigger] self.timer_slot_wf(k) by {
                    assert(pre.timer_slot_wf(k));
                    assert(at_entry.timer_slot_wf(k));
                }
                assert forall|k: u32|
                    i <= k < 32 implies #[trigger] TimerList::tick_timer_effect(
                    pre,
                    *self,
                    k,
                ) by {
                    if k > i {
                        assert(TimerList::tick_timer_effect(pre, at_entry, k));
                    }
                }
                assert forall|k: u32|
                    k < i implies #[trigger] TimerList::timer_slot_unchanged(pre, *self, k) by {
                    assert(TimerList::timer_slot_unchanged(pre, at_entry, k));
                }
            }
        }
        out
    }
}

} // verus!
