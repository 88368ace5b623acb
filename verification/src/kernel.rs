//! The kernel: the scheduler state, the tick handler, the context-switch
//! decisions, and the semaphore registry.
//!
//! The kernel is a value; the embedding owns it, calls `on_tick` from its
//! tick interrupt, performs the context switches the kernel pends, and runs
//! the callbacks of the timers a tick reports as fired.  Interrupt masking
//! and the register save and restore of a real context switch belong to that
//! hardware seam; the `CritSect` token stands for the masked span.

use vstd::prelude::*;

verus! {

use crate::bitvec::BitList;
use crate::bitvec::BitVec;
use crate::task::IDLE_PRIO;
use crate::task::Stack;
use crate::task::Task;
use crate::task::TaskList;
use crate::time::Instant;
use crate::time::SystemTicks;
use crate::time::Ticks;
use crate::time::ms;
use crate::time::Duration;
use crate::timer::Timer;
use crate::timer::TimerList;
use crate::timer::TimerMode;
use crate::timer::mode_wf;

/// The execution context the processor reports: handler mode or thread mode.
#[derive(Debug, Clone, Copy, PartialEq, Eq, Structural)]
pub enum ExecContext {
    /// Handler (interrupt) context.
    Privileged,
    /// Thread (task) context.
    Process,
    /// An unrecognised report.
    Error,
}

impl ExecContext {
    /// Decodes the processor's context report: zero is handler context, one
    /// is thread context, anything else is an error.
    pub fn from_code(value: usize) -> (r: ExecContext)
        ensures
            r == (if value == 0 {
                ExecContext::Privileged
            } else if value == 1 {
                ExecContext::Process
            } else {
                ExecContext::Error
            }),
    {
        if value == 0 {
            ExecContext::Privileged
        } else if value == 1 {
            ExecContext::Process
        } else {
            ExecContext::Error
        }
    }

    /// Whether this is handler context.
    pub fn is_privileged(&self) -> (r: bool)
        ensures
            r == (*self == ExecContext::Privileged),
    {
        matches!(*self, ExecContext::Privileged)
    }

    /// Whether this is thread context.
    pub fn is_process(&self) -> (r: bool)
        ensures
            r == (*self == ExecContext::Process),
    {
        matches!(*self, ExecContext::Process)
    }
}

/// The supervisor-call identifiers the kernel routes.
#[derive(Debug, Clone, Copy, PartialEq, Eq, Structural)]
pub enum SysCallID {
    /// No operation.
    Nop,
    /// Hand the processor to the scheduler.
    StartScheduler,
    /// The running task yields but stays ready.
    SetTaskIdle,
    /// The running task sleeps.
    SetTaskSleep,
    /// The running task stops.
    SetTaskStop,
}

impl SysCallID {
    /// The decoding of a supervisor-call identifier.
    pub open spec fn from_code_spec(value: u32) -> SysCallID {
        if value == 1 {
            SysCallID::StartScheduler
        } else if value == 2 {
            SysCallID::SetTaskIdle
        } else if value == 3 {
            SysCallID::SetTaskSleep
        } else if value == 4 {
            SysCallID::SetTaskStop
        } else {
            SysCallID::Nop
        }
    }

    /// Decodes a supervisor-call identifier; unknown codes are no-ops.
    pub fn from_code(value: u32) -> (r: SysCallID)
        ensures
            r == SysCallID::from_code_spec(value),
            r == (if value == 1 {
                SysCallID::StartScheduler
            } else if value == 2 {
                SysCallID::SetTaskIdle
            } else if value == 3 {
                SysCallID::SetTaskSleep
            } else if value == 4 {
                SysCallID::SetTaskStop
            } else {
                SysCallID::Nop
            }),
    {
        if value == 1 {
            SysCallID::StartScheduler
        } else if value == 2 {
            SysCallID::SetTaskIdle
        } else if value == 3 {
            SysCallID::SetTaskSleep
        } else if value == 4 {
            SysCallID::SetTaskStop
        } else {
            SysCallID::Nop
        }
    }
}

/// The token of a critical section.  On the target hardware its creation
/// masks all interrupts and its release unmasks them; that masking is the
/// embedding's job.  Kernel operations that must run masked consume the
/// token, releasing it on every path.
#[must_use]
pub struct CritSect;

impl CritSect {
    /// Opens a critical section.
    pub fn activate() -> CritSect {
        CritSect
    }

    /// Closes the critical section.
    pub fn deactivate(self) {
    }
}

/// A container for process-wide state whose contents are read freely and
/// mutated only by whoever presents the critical-section token.
pub struct CriticalCell<T> {
    data: T,
}

impl<T> CriticalCell<T> {
    /// The contained value.
    pub closed spec fn spec_data(self) -> T {
        self.data
    }

    /// Wraps a value.
    pub fn new(value: T) -> (r: CriticalCell<T>)
        ensures
            r.spec_data() == value,
    {
        CriticalCell { data: value }
    }

    /// Reads the contained value.
    pub fn read(&self) -> (r: &T)
        ensures
            *r == self.spec_data(),
    {
        &self.data
    }

    /// Opens the contained value for mutation under the critical section.
    pub fn access(&mut self, _cs: &CritSect) -> (r: &mut T)
        ensures
            *r == old(self).spec_data(),
            final(self).spec_data() == *final(r),
    {
        &mut self.data
    }
}

impl<T: core::default::Default> CriticalCell<T> {
    /// Wraps the type's default value.
    pub fn default() -> CriticalCell<T> {
        CriticalCell { data: T::default() }
    }
}

/// A semaphore: a signaling wait set of blocked priorities.  It carries no
/// counter: releases with no waiter do not accumulate.
#[derive(Debug)]
pub struct Semaphore {
    locked: BitVec,
}

impl Semaphore {
    /// The wait set.
    pub closed spec fn spec_locked(self) -> BitVec {
        self.locked
    }

    /// A semaphore with an empty wait set.
    pub fn new() -> (r: Semaphore)
        ensures
            forall|j: u32| j < 32 ==> !r.spec_locked().spec_check(j),
    {
        Semaphore { locked: BitVec::new() }
    }

    /// Adds a priority to the wait set.
    pub fn set_waiter(&mut self, prio: usize)
        requires
            prio < 32,
        ensures
            forall|j: u32|
                j < 32 ==> (final(self).spec_locked().spec_check(j) <==> (j == prio || old(
                    self,
                ).spec_locked().spec_check(j))),
    {
        self.locked.set(prio);
    }

    /// Drops a priority from the wait set.
    pub fn clear_waiter(&mut self, prio: usize)
        requires
            prio < 32,
        ensures
            forall|j: u32|
                j < 32 ==> (final(self).spec_locked().spec_check(j) <==> (j != prio && old(
                    self,
                ).spec_locked().spec_check(j))),
    {
        self.locked.clear(prio);
    }

    /// The highest waiting priority, or a refusal when no one waits.
    pub fn highest_waiter(&self) -> (r: Result<usize, ()>)
        ensures
            match r {
                Ok(i) => i < 32 && i == self.spec_locked().spec_highest() && self.spec_locked(
                ).spec_check(i as u32) && forall|j: u32|
                    i < j < 32 ==> !self.spec_locked().spec_check(j),
                Err(()) => self.spec_locked().spec_is_empty() && self.spec_locked().spec_highest()
                    == -1,
            },
    {
        self.locked.find_highest_set()
    }

    /// Whether a priority is in the wait set.
    pub fn is_waiter(&self, prio: usize) -> (r: bool)
        requires
            prio < 32,
        ensures
            r == self.spec_locked().spec_check(prio as u32),
    {
        self.locked.check(prio)
    }
}

/// The kernel: the running and pending-next task, the system tick counter,
/// the task table, the timer table, and the semaphore registry.
pub struct Kernel {
    running: usize,
    next: usize,
    switch_pending: bool,
    ticks: SystemTicks,
    started: bool,
    idle: Task,
    tasks: TaskList,
    timers: TimerList,
    sems: BitList<Semaphore>,
}

impl Kernel {
    /// The priority of the task the processor is executing, or the idle
    /// sentinel.
    pub closed spec fn spec_running(self) -> usize {
        self.running
    }

    /// The priority latched for the pending context switch.
    pub closed spec fn spec_next(self) -> usize {
        self.next
    }

    /// Whether a deferred context switch has been requested.
    pub closed spec fn spec_switch_pending(self) -> bool {
        self.switch_pending
    }

    /// The monotonic tick counter.
    pub closed spec fn spec_ticks(self) -> SystemTicks {
        self.ticks
    }

    /// Whether scheduling has started.
    pub closed spec fn spec_started(self) -> bool {
        self.started
    }

    /// The built-in idle task.
    pub closed spec fn spec_idle_task(self) -> Task {
        self.idle
    }

    /// The task table.
    pub closed spec fn spec_tasks(self) -> TaskList {
        self.tasks
    }

    /// The timer table.
    pub closed spec fn spec_timers(self) -> TimerList {
        self.timers
    }

    /// The semaphore registry.
    pub closed spec fn spec_sems(self) -> BitList<Semaphore> {
        self.sems
    }

    /// The wait set of registered semaphore `s` of the registry holds
    /// priority `p`.
    pub open spec fn sem_waiter_of(sems: BitList<Semaphore>, s: u32, p: u32) -> bool {
        &&& sems.spec_occupied(s)
        &&& sems.spec_get(s)->0.spec_locked().spec_check(p)
    }

    /// The wait set of registered semaphore `s` holds priority `p`.
    #[verifier::inline]
    pub open spec fn spec_sem_waiter(self, s: u32, p: u32) -> bool {
        Kernel::sem_waiter_of(self.spec_sems(), s, p)
    }

    /// Whether semaphore slot `s` of the registry is registered.
    pub open spec fn sem_registered_of(sems: BitList<Semaphore>, s: u32) -> bool {
        sems.spec_occupied(s)
    }

    /// Whether semaphore slot `s` is registered.
    #[verifier::inline]
    pub open spec fn spec_sem_registered(self, s: u32) -> bool {
        Kernel::sem_registered_of(self.spec_sems(), s)
    }

    /// The kernel invariants: sound tables; the running and latched-next
    /// priorities name registered tasks or the idle task; a pended switch
    /// goes to a ready task or to idle; when nothing is ready the processor
    /// is on the idle task or a switch to it is pending; semaphore waiters
    /// are registered tasks; and before scheduling starts nothing runs,
    /// nothing is pended and no one waits.
    pub open spec fn wf(self) -> bool {
        &&& self.base_wf()
        &&& self.idle_when_none_ready()
    }

    /// All kernel invariants but the none-ready rule, which a blocking
    /// transition re-establishes only when it reaches `schedule_next`.
    pub open spec fn base_wf(self) -> bool {
        &&& self.spec_tasks().wf()
        &&& self.spec_timers().wf()
        &&& self.spec_sems().wf()
        &&& self.spec_idle_task().wf()
        &&& self.spec_idle_task().spec_prio() == IDLE_PRIO
        &&& Task::prio_ok(self.spec_running())
        &&& (self.spec_running() != IDLE_PRIO ==> self.spec_tasks().spec_used().spec_check(
            self.spec_running() as u32,
        ))
        &&& Task::prio_ok(self.spec_next())
        &&& (self.spec_next() != IDLE_PRIO ==> self.spec_tasks().spec_used().spec_check(
            self.spec_next() as u32,
        ))
        &&& (self.spec_switch_pending() ==> self.spec_next() == IDLE_PRIO || self.spec_tasks(
        ).spec_ready().spec_check(self.spec_next() as u32))
        &&& (self.spec_switch_pending() && self.spec_next() != IDLE_PRIO ==> self.spec_next()
            != self.spec_running())
        &&& (forall|s: u32, p: u32|
            s < 32 && p < 32 && #[trigger] Kernel::sem_waiter_of(self.spec_sems(), s, p) ==> self.spec_tasks(
            ).spec_used().spec_check(p))
        &&& (!self.spec_started() ==> self.spec_running() == IDLE_PRIO && self.spec_next()
            == IDLE_PRIO && !self.spec_switch_pending() && (forall|s: u32, p: u32|
            s < 32 && p < 32 ==> !#[trigger] Kernel::sem_waiter_of(self.spec_sems(), s, p)))
    }

    /// When nothing is ready, the processor is on the idle task or a switch
    /// to it is pending.
    pub open spec fn idle_when_none_ready(self) -> bool {
        self.spec_tasks().spec_ready().spec_is_empty() ==> self.spec_running() == IDLE_PRIO || (
        self.spec_switch_pending() && self.spec_next() == IDLE_PRIO)
    }

    /// The processor always executes a registered task or the built-in idle
    /// task; and when nothing is ready, it is on the idle task or a switch
    /// to it is pending.
    pub proof fn lemma_running_is_registered(self)
        requires
            self.wf(),
        ensures
            self.spec_running() == IDLE_PRIO || self.spec_tasks().spec_used().spec_check(
                self.spec_running() as u32,
            ),
            self.spec_tasks().spec_ready().spec_is_empty() ==> self.spec_running() == IDLE_PRIO
                || (self.spec_switch_pending() && self.spec_next() == IDLE_PRIO),
    {
    }

    /// The registry has at most one free slot: no two distinct slots are
    /// both unregistered.  A primitive that needs two fresh semaphores can
    /// be refused exactly when this holds.
    pub open spec fn at_most_one_sem_free(sems: BitList<Semaphore>) -> bool {
        forall|u: u32, v: u32|
            u < 32 && v < 32 && u != v ==> #[trigger] Kernel::sem_registered_of(sems, u)
                || #[trigger] Kernel::sem_registered_of(sems, v)
    }

    /// Semaphore waiters stay registered tasks in any state that keeps the
    /// semaphore registry and loses no registered task.
    proof fn lemma_waiters_stay_registered(pre: Kernel, post: Kernel)
        requires
            forall|s: u32, p: u32|
                s < 32 && p < 32 && #[trigger] Kernel::sem_waiter_of(pre.spec_sems(), s, p)
                    ==> pre.spec_tasks().spec_used().spec_check(p),
            post.spec_sems() == pre.spec_sems(),
            forall|p: u32|
                p < 32 && #[trigger] pre.spec_tasks().spec_used().spec_check(p)
                    ==> post.spec_tasks().spec_used().spec_check(p),
        ensures
            forall|s: u32, p: u32|
                s < 32 && p < 32 && #[trigger] Kernel::sem_waiter_of(post.spec_sems(), s, p)
                    ==> post.spec_tasks().spec_used().spec_check(p),
    {
        assert forall|s: u32, p: u32|
            s < 32 && p < 32 && #[trigger] Kernel::sem_waiter_of(
                post.spec_sems(),
                s,
                p,
            ) implies post.spec_tasks().spec_used().spec_check(p) by {
            assert(Kernel::sem_waiter_of(pre.spec_sems(), s, p));
        }
    }

    /// Empty wait sets stay empty in any state that keeps the semaphore
    /// registry.
    proof fn lemma_no_waiters_carry(pre: Kernel, post: Kernel)
        requires
            forall|s: u32, p: u32|
                s < 32 && p < 32 ==> !#[trigger] Kernel::sem_waiter_of(pre.spec_sems(), s, p),
            post.spec_sems() == pre.spec_sems(),
        ensures
            forall|s: u32, p: u32|
                s < 32 && p < 32 ==> !#[trigger] Kernel::sem_waiter_of(post.spec_sems(), s, p),
            forall|s: u32, p: u32|
                s < 32 && p < 32 && #[trigger] Kernel::sem_waiter_of(post.spec_sems(), s, p)
                    ==> post.spec_tasks().spec_used().spec_check(p),
    {
        assert forall|s: u32, p: u32|
            s < 32 && p < 32 implies !#[trigger] Kernel::sem_waiter_of(
                post.spec_sems(),
                s,
                p,
            ) by {
            assert(!Kernel::sem_waiter_of(pre.spec_sems(), s, p));
        }
    }

    /// The registered semaphores of `pre` are still registered in `post`.
    pub open spec fn sems_preserved(pre: Kernel, post: Kernel) -> bool {
        forall|s: u32|
            s < 32 && #[trigger] Kernel::sem_registered_of(pre.spec_sems(), s) ==> post.spec_sem_registered(s)
    }

    /// A fresh kernel: nothing runs, nothing is registered, the tick counter
    /// is at zero and scheduling has not started.
    pub fn new() -> (r: Kernel)
        ensures
            r.wf(),
            !r.spec_started(),
            r.spec_running() == IDLE_PRIO,
            r.spec_next() == IDLE_PRIO,
            !r.spec_switch_pending(),
            r.spec_ticks() == 0,
            forall|i: u32| i < 32 ==> !r.spec_tasks().spec_used().spec_check(i),
            forall|i: u32| i < 32 ==> !r.spec_timers().spec_used(i),
            forall|s: u32| s < 32 ==> !r.spec_sem_registered(s),
    {
        let idle = Task::new(0, IDLE_PRIO, Stack::new(32));
        Kernel {
            running: IDLE_PRIO,
            next: IDLE_PRIO,
            switch_pending: false,
            ticks: 0,
            started: false,
            idle,
            tasks: TaskList::new(),
            timers: TimerList::new(),
            sems: BitList::new(),
        }
    }

    /// The priority of the running task, or the idle sentinel.
    pub fn running(&self) -> (r: usize)
        ensures
            r == self.spec_running(),
    {
        self.running
    }

    /// The current system tick count.
    pub fn ticks(&self) -> (r: SystemTicks)
        ensures
            r == self.spec_ticks(),
    {
        self.ticks
    }

    /// The current instant of the system timeline.
    pub fn now(&self) -> (r: Instant)
        ensures
            r.spec_ticks() == self.spec_ticks(),
    {
        Instant::at_tick(self.ticks)
    }

    /// Whether a deferred context switch is pending.
    pub fn switch_pending(&self) -> (r: bool)
        ensures
            r == self.spec_switch_pending(),
    {
        self.switch_pending
    }


    /// The task control block the processor is executing: a table slot, or
    /// the built-in idle task.
    pub open spec fn spec_running_task(self) -> Task {
        if self.spec_running() == IDLE_PRIO {
            self.spec_idle_task()
        } else {
            self.spec_tasks().spec_task(self.spec_running() as u32)->0
        }
    }

    /// Everything the scheduler decisions leave alone.
    pub open spec fn frame_unchanged(pre: Kernel, post: Kernel) -> bool {
        &&& post.spec_ticks() == pre.spec_ticks()
        &&& post.spec_started() == pre.spec_started()
        &&& post.spec_timers() == pre.spec_timers()
        &&& post.spec_sems() == pre.spec_sems()
        &&& post.spec_idle_task() == pre.spec_idle_task()
    }

    /// The scheduling rule, over the running priority and the ready bitmap:
    /// when the highest ready priority differs from the running one, a
    /// switch to it is pended; when nothing is ready and a task is running,
    /// a switch to idle is pended; otherwise nothing changes.
    pub open spec fn scheduled(
        running: usize,
        ready: BitVec,
        pre_next: usize,
        pre_pend: bool,
        post_next: usize,
        post_pend: bool,
    ) -> bool {
        let hr = ready.spec_highest();
        if hr >= 0 {
            if hr != running {
                post_next == hr && post_pend
            } else {
                post_next == pre_next && post_pend == pre_pend
            }
        } else {
            if running != IDLE_PRIO {
                post_next == IDLE_PRIO && post_pend
            } else {
                post_next == pre_next && post_pend == pre_pend
            }
        }
    }

    /// Picks the task the processor should switch to, if any, and pends the
    /// deferred context switch.  The critical section ends first: the pend
    /// must happen outside the masked span.
    pub fn schedule_next(&mut self, cs: CritSect)
        requires
            old(self).base_wf(),
            old(self).spec_started(),
        ensures
            final(self).wf(),
            Kernel::frame_unchanged(*old(self), *final(self)),
            final(self).spec_tasks() == old(self).spec_tasks(),
            final(self).spec_running() == old(self).spec_running(),
            Kernel::scheduled(
                old(self).spec_running(),
                old(self).spec_tasks().spec_ready(),
                old(self).spec_next(),
                old(self).spec_switch_pending(),
                final(self).spec_next(),
                final(self).spec_switch_pending(),
            ),
    {
        let run = self.running;
        match self.tasks.next_waiting() {
            Ok(next) => {
                proof {
                    assert(self.spec_tasks().slot_wf(next as u32));
                }
                if next != run {
                    self.next = next;
                    cs.deactivate();
                    self.switch_pending = true;
                } else {
                    cs.deactivate();
                }
            },
            Err(()) => {
                if run != IDLE_PRIO {
                    self.next = IDLE_PRIO;
                    cs.deactivate();
                    self.switch_pending = true;
                } else {
                    cs.deactivate();
                }
            },
        }
        proof {
            Kernel::lemma_waiters_stay_registered(*old(self), *self);
            if !old(self).spec_started() {
                Kernel::lemma_no_waiters_carry(*old(self), *self);
            }
        }
    }

    /// Pends the deferred context switch by hand; the latched next task must
    /// still be a sound target.
    pub fn request_context_switch(&mut self)
        requires
            old(self).wf(),
            old(self).spec_started(),
            old(self).spec_next() == IDLE_PRIO || (old(self).spec_tasks(
            ).spec_ready().spec_check(old(self).spec_next() as u32) && old(self).spec_next()
                != old(self).spec_running()),
        ensures
            final(self).wf(),
            final(self).spec_switch_pending(),
            final(self).spec_next() == old(self).spec_next(),
            final(self).spec_running() == old(self).spec_running(),
            final(self).spec_tasks() == old(self).spec_tasks(),
            Kernel::frame_unchanged(*old(self), *final(self)),
    {
        self.switch_pending = true;
        proof {
            Kernel::lemma_waiters_stay_registered(*old(self), *self);
            if !old(self).spec_started() {
                Kernel::lemma_no_waiters_carry(*old(self), *self);
            }
        }
    }

    /// Performs the pended context switch: the running task's stack pointer,
    /// as the hardware saved it, is recorded and its watermark refreshed;
    /// the latched task becomes the running one and the latch falls back to
    /// idle.  The register save and restore themselves are the hardware
    /// seam.
    pub fn switch_to_next(&mut self, sp: usize)
        requires
            old(self).wf(),
            old(self).spec_started(),
            old(self).spec_switch_pending(),
            sp <= old(self).spec_running_task().spec_stack_start(),
        ensures
            final(self).wf(),
            final(self).spec_ticks() == old(self).spec_ticks(),
            final(self).spec_started() == old(self).spec_started(),
            final(self).spec_timers() == old(self).spec_timers(),
            final(self).spec_sems() == old(self).spec_sems(),
            final(self).spec_running() == old(self).spec_next(),
            final(self).spec_next() == IDLE_PRIO,
            !final(self).spec_switch_pending(),
            old(self).spec_tasks().spec_ready().spec_is_empty() ==> final(self).spec_running()
                == IDLE_PRIO,
            final(self).spec_tasks().spec_used() == old(self).spec_tasks().spec_used(),
            final(self).spec_tasks().spec_ready() == old(self).spec_tasks().spec_ready(),
            final(self).spec_tasks().spec_sleeping() == old(self).spec_tasks().spec_sleeping(),
            old(self).spec_running() == IDLE_PRIO ==> final(self).spec_tasks() == old(
                self,
            ).spec_tasks() && final(self).spec_idle_task().spec_watermark() >= old(
                self,
            ).spec_idle_task().spec_watermark(),
            old(self).spec_running() != IDLE_PRIO ==> {
                &&& final(self).spec_idle_task() == old(self).spec_idle_task()
                &&& forall|j: u32|
                    j < 32 && j != old(self).spec_running() ==> TaskList::slot_unchanged(
                        old(self).spec_tasks(),
                        final(self).spec_tasks(),
                        j,
                    )
                &&& final(self).spec_tasks().spec_task(old(self).spec_running() as u32) is Some
                &&& final(self).spec_tasks().spec_task(
                    old(self).spec_running() as u32,
                )->0.spec_watermark() >= old(self).spec_running_task().spec_watermark()
                &&& final(self).spec_tasks().spec_task(
                    old(self).spec_running() as u32,
                )->0.spec_sp() == sp
            },
    {
        let ghost pre = *self;
        if self.running != IDLE_PRIO {
            proof {
                assert(pre.spec_tasks().slot_wf(pre.spec_running() as u32));
            }
            self.tasks.save_running_sp(self.running, sp);
        } else {
            self.idle.save_sp(sp);
        }
        self.running = self.next;
        self.next = IDLE_PRIO;
        self.switch_pending = false;
        proof {
            Kernel::lemma_waiters_stay_registered(pre, *self);
        }
    }


    /// Boots the kernel: seeds every registered task's stack and the idle
    /// task's, and hands the processor to the scheduler with the idle task
    /// running.  On the target this call would load the idle context and
    /// never return; here the embedding takes over the loop.
    pub fn init(&mut self, cs: CritSect)
        requires
            old(self).wf(),
            !old(self).spec_started(),
        ensures
            final(self).wf(),
            final(self).spec_started(),
            final(self).spec_running() == IDLE_PRIO,
            final(self).spec_next() == IDLE_PRIO,
            !final(self).spec_switch_pending(),
            final(self).spec_ticks() == old(self).spec_ticks(),
            final(self).spec_timers() == old(self).spec_timers(),
            final(self).spec_sems() == old(self).spec_sems(),
            Kernel::sems_preserved(*old(self), *final(self)),
            forall|i: u32|
                i < 32 ==> #[trigger] TaskList::setup_slot_effect(
                    old(self).spec_tasks(),
                    final(self).spec_tasks(),
                    i,
                ),
            Task::setup_effect(old(self).spec_idle_task(), final(self).spec_idle_task()),
    {
        let ghost pre = *self;
        self.tasks.setup_all();
        self.idle.setup();
        self.started = true;
        cs.deactivate();
        proof {
            Kernel::lemma_no_waiters_carry(pre, *self);
            assert forall|i: u32|
                i < 32 implies #[trigger] TaskList::setup_slot_effect(
                    pre.spec_tasks(),
                    self.spec_tasks(),
                    i,
                ) by {}
        }
    }

    /// The running task yields: it stays ready but defers to any
    /// higher-priority ready task.
    pub fn task_idle(&mut self, prio: usize, cs: CritSect)
        requires
            old(self).wf(),
            old(self).spec_started(),
            prio == old(self).spec_running(),
            prio < 32,
        ensures
            final(self).wf(),
            Kernel::frame_unchanged(*old(self), *final(self)),
            final(self).spec_running() == old(self).spec_running(),
            final(self).spec_tasks().spec_ready().spec_check(prio as u32),
            !final(self).spec_tasks().spec_sleeping().spec_check(prio as u32),
            final(self).spec_tasks().spec_used() == old(self).spec_tasks().spec_used(),
            forall|j: u32|
                j < 32 && j != prio ==> TaskList::slot_unchanged(
                    old(self).spec_tasks(),
                    final(self).spec_tasks(),
                    j,
                ),
            Kernel::scheduled(
                old(self).spec_running(),
                final(self).spec_tasks().spec_ready(),
                old(self).spec_next(),
                old(self).spec_switch_pending(),
                final(self).spec_next(),
                final(self).spec_switch_pending(),
            ),
    {
        self.tasks.idle(prio);
        proof {
            let nx = old(self).spec_next();
            if nx != IDLE_PRIO && nx != prio {
                assert(TaskList::slot_unchanged(
                    old(self).spec_tasks(),
                    self.spec_tasks(),
                    nx as u32,
                ));
            }
            Kernel::lemma_waiters_stay_registered(*old(self), *self);
        }
        self.schedule_next(cs);
    }

    /// The running task stops: it leaves both the ready and the sleeping
    /// sets until something external re-readies it.
    pub fn task_stop(&mut self, prio: usize, cs: CritSect)
        requires
            old(self).wf(),
            old(self).spec_started(),
            prio == old(self).spec_running(),
            prio < 32,
        ensures
            final(self).wf(),
            Kernel::frame_unchanged(*old(self), *final(self)),
            final(self).spec_running() == old(self).spec_running(),
            !final(self).spec_tasks().spec_ready().spec_check(prio as u32),
            !final(self).spec_tasks().spec_sleeping().spec_check(prio as u32),
            final(self).spec_tasks().spec_used() == old(self).spec_tasks().spec_used(),
            forall|j: u32|
                j < 32 && j != prio ==> TaskList::slot_unchanged(
                    old(self).spec_tasks(),
                    final(self).spec_tasks(),
                    j,
                ),
            Kernel::scheduled(
                old(self).spec_running(),
                final(self).spec_tasks().spec_ready(),
                old(self).spec_next(),
                old(self).spec_switch_pending(),
                final(self).spec_next(),
                final(self).spec_switch_pending(),
            ),
    {
        self.tasks.stop(prio);
        proof {
            let nx = old(self).spec_next();
            if nx != IDLE_PRIO && nx != prio {
                assert(TaskList::slot_unchanged(
                    old(self).spec_tasks(),
                    self.spec_tasks(),
                    nx as u32,
                ));
            }
            Kernel::lemma_waiters_stay_registered(*old(self), *self);
        }
        self.schedule_next(cs);
    }

    /// The running task sleeps for the given number of ticks; a sleep lasts
    /// at least one tick.
    pub fn task_sleep(&mut self, prio: usize, ticks: Ticks, cs: CritSect)
        requires
            old(self).wf(),
            old(self).spec_started(),
            prio == old(self).spec_running(),
            prio < 32,
            ticks >= 1,
        ensures
            final(self).wf(),
            Kernel::frame_unchanged(*old(self), *final(self)),
            final(self).spec_running() == old(self).spec_running(),
            !final(self).spec_tasks().spec_ready().spec_check(prio as u32),
            final(self).spec_tasks().spec_sleeping().spec_check(prio as u32),
            final(self).spec_tasks().spec_sleep_time(prio as u32) == ticks,
            final(self).spec_tasks().spec_used() == old(self).spec_tasks().spec_used(),
            forall|j: u32|
                j < 32 && j != prio ==> TaskList::slot_unchanged(
                    old(self).spec_tasks(),
                    final(self).spec_tasks(),
                    j,
                ),
            Kernel::scheduled(
                old(self).spec_running(),
                final(self).spec_tasks().spec_ready(),
                old(self).spec_next(),
                old(self).spec_switch_pending(),
                final(self).spec_next(),
                final(self).spec_switch_pending(),
            ),
    {
        proof {
            assert(old(self).spec_tasks().slot_wf(prio as u32));
        }
        self.tasks.sleep(prio, ticks);
        proof {
            let nx = old(self).spec_next();
            if nx != IDLE_PRIO && nx != prio {
                assert(TaskList::slot_unchanged(
                    old(self).spec_tasks(),
                    self.spec_tasks(),
                    nx as u32,
                ));
            }
            Kernel::lemma_waiters_stay_registered(*old(self), *self);
        }
        self.schedule_next(cs);
    }

    /// A task fault: the offending task is stopped, the other tasks
    /// continue, and the next ready task is scheduled.
    pub fn on_fault(&mut self, cs: CritSect)
        requires
            old(self).wf(),
            old(self).spec_started(),
            old(self).spec_running() != IDLE_PRIO,
        ensures
            final(self).wf(),
            Kernel::frame_unchanged(*old(self), *final(self)),
            final(self).spec_running() == old(self).spec_running(),
            !final(self).spec_tasks().spec_ready().spec_check(old(self).spec_running() as u32),
            !final(self).spec_tasks().spec_sleeping().spec_check(
                old(self).spec_running() as u32,
            ),
            final(self).spec_tasks().spec_used() == old(self).spec_tasks().spec_used(),
            forall|j: u32|
                j < 32 && j != old(self).spec_running() ==> TaskList::slot_unchanged(
                    old(self).spec_tasks(),
                    final(self).spec_tasks(),
                    j,
                ),
            Kernel::scheduled(
                old(self).spec_running(),
                final(self).spec_tasks().spec_ready(),
                old(self).spec_next(),
                old(self).spec_switch_pending(),
                final(self).spec_next(),
                final(self).spec_switch_pending(),
            ),
    {
        let run = self.running;
        self.task_stop(run, cs);
    }

    /// Registers a software timer and returns its slot; when `active` it
    /// starts counting at once.
    pub fn new_timer(&mut self, period: Duration, active: bool, mode: TimerMode) -> (r: Result<
        usize,
        (),
    >)
        requires
            old(self).wf(),
            period.spec_ticks() >= 1,
            mode_wf(mode),
        ensures
            final(self).wf(),
            final(self).spec_tasks() == old(self).spec_tasks(),
            final(self).spec_sems() == old(self).spec_sems(),
            Kernel::sems_preserved(*old(self), *final(self)),
            final(self).spec_running() == old(self).spec_running(),
            final(self).spec_next() == old(self).spec_next(),
            final(self).spec_switch_pending() == old(self).spec_switch_pending(),
            final(self).spec_ticks() == old(self).spec_ticks(),
            final(self).spec_started() == old(self).spec_started(),
            match r {
                Ok(id) => {
                    &&& id < 32
                    &&& !old(self).spec_timers().spec_used(id as u32)
                    &&& (forall|j: u32| j < id ==> old(self).spec_timers().spec_used(j))
                    &&& final(self).spec_timers().spec_used(id as u32)
                    &&& final(self).spec_timers().spec_is_active(id as u32) == active
                    &&& final(self).spec_timers().spec_timer(id as u32).spec_mode() == mode
                    &&& final(self).spec_timers().spec_timer(id as u32).spec_period()
                        == period.spec_ticks()
                    &&& final(self).spec_timers().spec_timer(id as u32).spec_cntdwn()
                        == period.spec_ticks()
                    &&& forall|j: u32|
                        j < 32 && j != id ==> TimerList::timer_slot_unchanged(
                            old(self).spec_timers(),
                            final(self).spec_timers(),
                            j,
                        )
                },
                Err(()) => {
                    &&& forall|j: u32| j < 32 ==> old(self).spec_timers().spec_used(j)
                    &&& final(self).spec_timers() == old(self).spec_timers()
                },
            },
    {
        let r = self.timers.add_timer(period, mode);
        let out = match r {
            Ok(id) => {
                let ghost mid = *self;
                if active {
                    self.timers.start(id);
                    proof {
                        assert forall|j: u32|
                            j < 32 && j != id implies TimerList::timer_slot_unchanged(
                            old(self).spec_timers(),
                            self.spec_timers(),
                            j,
                        ) by {
                            assert(TimerList::timer_slot_unchanged(
                                old(self).spec_timers(),
                                mid.spec_timers(),
                                j,
                            ));
                            assert(TimerList::timer_slot_unchanged(
                                mid.spec_timers(),
                                self.spec_timers(),
                                j,
                            ));
                        }
                    }
                }
                Ok(id)
            },
            Err(()) => Err(()),
        };
        proof {
            Kernel::lemma_waiters_stay_registered(*old(self), *self);
            if !old(self).spec_started() {
                Kernel::lemma_no_waiters_carry(*old(self), *self);
            }
        }
        out
    }

    /// Removes the timer of a slot; refuses a free slot.
    pub fn remove_timer(&mut self, slot: usize) -> (r: Result<(), ()>)
        requires
            old(self).wf(),
            slot < 32,
        ensures
            final(self).wf(),
            final(self).spec_tasks() == old(self).spec_tasks(),
            final(self).spec_sems() == old(self).spec_sems(),
            Kernel::sems_preserved(*old(self), *final(self)),
            final(self).spec_running() == old(self).spec_running(),
            final(self).spec_ticks() == old(self).spec_ticks(),
            final(self).spec_started() == old(self).spec_started(),
            match r {
                Ok(()) => {
                    &&& old(self).spec_timers().spec_used(slot as u32)
                    &&& !final(self).spec_timers().spec_used(slot as u32)
                    &&& forall|j: u32|
                        j < 32 && j != slot ==> TimerList::timer_slot_unchanged(
                            old(self).spec_timers(),
                            final(self).spec_timers(),
                            j,
                        )
                },
                Err(()) => {
                    &&& !old(self).spec_timers().spec_used(slot as u32)
                    &&& final(self).spec_timers() == old(self).spec_timers()
                },
            },
    {
        let r = self.timers.remove_timer(slot);
        proof {
            Kernel::lemma_waiters_stay_registered(*old(self), *self);
            if !old(self).spec_started() {
                Kernel::lemma_no_waiters_carry(*old(self), *self);
            }
        }
        r
    }

    /// Starts the timer of a slot.
    pub fn start_timer(&mut self, slot: usize)
        requires
            old(self).wf(),
            slot < 32,
            old(self).spec_timers().spec_used(slot as u32),
            old(self).spec_timers().spec_timer(slot as u32).spec_cntdwn() >= 1,
        ensures
            final(self).wf(),
            final(self).spec_tasks() == old(self).spec_tasks(),
            final(self).spec_sems() == old(self).spec_sems(),
            final(self).spec_running() == old(self).spec_running(),
            final(self).spec_next() == old(self).spec_next(),
            final(self).spec_switch_pending() == old(self).spec_switch_pending(),
            final(self).spec_ticks() == old(self).spec_ticks(),
            final(self).spec_started() == old(self).spec_started(),
            final(self).spec_timers().spec_is_active(slot as u32),
            final(self).spec_timers().spec_timers() == old(self).spec_timers().spec_timers(),
            forall|j: u32|
                j < 32 && j != slot ==> TimerList::timer_slot_unchanged(
                    old(self).spec_timers(),
                    final(self).spec_timers(),
                    j,
                ),
    {
        self.timers.start(slot);
        proof {
            Kernel::lemma_waiters_stay_registered(*old(self), *self);
            if !old(self).spec_started() {
                Kernel::lemma_no_waiters_carry(*old(self), *self);
            }
        }
    }

    /// Stops the timer of a slot; it keeps its countdown.
    pub fn stop_timer(&mut self, slot: usize)
        requires
            old(self).wf(),
            slot < 32,
        ensures
            final(self).wf(),
            final(self).spec_tasks() == old(self).spec_tasks(),
            final(self).spec_sems() == old(self).spec_sems(),
            final(self).spec_running() == old(self).spec_running(),
            final(self).spec_next() == old(self).spec_next(),
            final(self).spec_switch_pending() == old(self).spec_switch_pending(),
            final(self).spec_ticks() == old(self).spec_ticks(),
            final(self).spec_started() == old(self).spec_started(),
            !final(self).spec_timers().spec_is_active(slot as u32),
            final(self).spec_timers().spec_timers() == old(self).spec_timers().spec_timers(),
            forall|j: u32|
                j < 32 && j != slot ==> TimerList::timer_slot_unchanged(
                    old(self).spec_timers(),
                    final(self).spec_timers(),
                    j,
                ),
    {
        self.timers.stop(slot);
        proof {
            Kernel::lemma_waiters_stay_registered(*old(self), *self);
            if !old(self).spec_started() {
                Kernel::lemma_no_waiters_carry(*old(self), *self);
            }
        }
    }


    /// Registers a semaphore, whose wait set must still be empty, and
    /// returns its slot; hands it back when the registry is full.
    pub fn add_semaphore(&mut self, sem: Semaphore) -> (r: Result<usize, Semaphore>)
        requires
            old(self).wf(),
            forall|j: u32| j < 32 ==> !sem.spec_locked().spec_check(j),
        ensures
            final(self).wf(),
            Kernel::frame_sems_only(*old(self), *final(self)),
            Kernel::sems_preserved(*old(self), *final(self)),
            match r {
                Ok(id) => {
                    &&& id < 32
                    &&& !old(self).spec_sem_registered(id as u32)
                    &&& final(self).spec_sem_registered(id as u32)
                    &&& (forall|p: u32| p < 32 ==> !#[trigger] Kernel::sem_waiter_of(final(self).spec_sems(), id as u32, p))
                    &&& (forall|t: u32|
                        t < 32 && t != id ==> #[trigger] final(self).spec_sems().spec_get(t)
                            == old(self).spec_sems().spec_get(t))
                    &&& (forall|t: u32|
                        t < 32 && t != id ==> #[trigger] Kernel::sem_registered_of(
                            final(self).spec_sems(),
                            t,
                        ) == Kernel::sem_registered_of(old(self).spec_sems(), t))
                },
                Err(e) => {
                    &&& e == sem
                    &&& forall|t: u32| t < 32 ==> old(self).spec_sem_registered(t)
                    &&& final(self).spec_sems() == old(self).spec_sems()
                },
            },
    {
        let r = self.sems.insert(sem);
        proof {
            assert forall|s: u32, p: u32|
                s < 32 && p < 32 && #[trigger] Kernel::sem_waiter_of(self.spec_sems(), s, p) implies self.spec_tasks(
            ).spec_used().spec_check(p) by {
                if old(self).spec_sem_registered(s) {
                    assert(old(self).spec_sem_waiter(s, p));
                }
            }
            if !old(self).spec_started() {
                assert forall|s: u32, p: u32|
                    s < 32 && p < 32 implies !#[trigger] Kernel::sem_waiter_of(self.spec_sems(), s, p) by {
                    if old(self).spec_sem_registered(s) {
                        assert(!old(self).spec_sem_waiter(s, p));
                    }
                }
            }
        }
        r
    }

    /// Everything a semaphore-registry change leaves alone.
    pub open spec fn frame_sems_only(pre: Kernel, post: Kernel) -> bool {
        &&& post.spec_tasks() == pre.spec_tasks()
        &&& post.spec_timers() == pre.spec_timers()
        &&& post.spec_ticks() == pre.spec_ticks()
        &&& post.spec_started() == pre.spec_started()
        &&& post.spec_running() == pre.spec_running()
        &&& post.spec_next() == pre.spec_next()
        &&& post.spec_switch_pending() == pre.spec_switch_pending()
        &&& post.spec_idle_task() == pre.spec_idle_task()
    }

    /// Adds a waiter to a registered semaphore's wait set; every other
    /// semaphore keeps its value.
    fn sem_set_bit(&mut self, sem: usize, prio: usize)
        requires
            old(self).spec_sems().wf(),
            sem < 32,
            prio < 32,
            old(self).spec_sem_registered(sem as u32),
        ensures
            final(self).spec_sems().wf(),
            Kernel::frame_sems_only(*old(self), *final(self)),
            Kernel::sems_preserved(*old(self), *final(self)),
            forall|t: u32|
                t < 32 && t != sem ==> #[trigger] final(self).spec_sems().spec_get(t) == old(
                    self,
                ).spec_sems().spec_get(t),
            forall|t: u32|
                t < 32 && t != sem ==> #[trigger] Kernel::sem_registered_of(final(self).spec_sems(), t) == old(
                    self,
                ).spec_sem_registered(t),
            final(self).spec_sem_registered(sem as u32),
            forall|p: u32|
                p < 32 ==> (#[trigger] Kernel::sem_waiter_of(final(self).spec_sems(), sem as u32, p) <==> (p == prio
                    || old(self).spec_sem_waiter(sem as u32, p))),
    {
        let slot = self.sems.remove(sem);
        let mut sv = match slot {
            Ok(sv) => sv,
            Err(()) => {
                proof {
                    assert(false);
                }
                return ;
            },
        };
        sv.set_waiter(prio);
        let put = self.sems.insert_at(sem, sv);
        proof {
            assert(put is Ok);
        }
    }

    /// Drops a waiter from a registered semaphore's wait set; every other
    /// semaphore keeps its value.
    fn sem_clear_bit(&mut self, sem: usize, prio: usize)
        requires
            old(self).spec_sems().wf(),
            sem < 32,
            prio < 32,
            old(self).spec_sem_registered(sem as u32),
        ensures
            final(self).spec_sems().wf(),
            Kernel::frame_sems_only(*old(self), *final(self)),
            Kernel::sems_preserved(*old(self), *final(self)),
            forall|t: u32|
                t < 32 && t != sem ==> #[trigger] final(self).spec_sems().spec_get(t) == old(
                    self,
                ).spec_sems().spec_get(t),
            forall|t: u32|
                t < 32 && t != sem ==> #[trigger] Kernel::sem_registered_of(final(self).spec_sems(), t) == old(
                    self,
                ).spec_sem_registered(t),
            final(self).spec_sem_registered(sem as u32),
            forall|p: u32|
                p < 32 ==> (#[trigger] Kernel::sem_waiter_of(final(self).spec_sems(), sem as u32, p) <==> (p != prio
                    && old(self).spec_sem_waiter(sem as u32, p))),
    {
        let slot = self.sems.remove(sem);
        let mut sv = match slot {
            Ok(sv) => sv,
            Err(()) => {
                proof {
                    assert(false);
                }
                return ;
            },
        };
        sv.clear_waiter(prio);
        let put = self.sems.insert_at(sem, sv);
        proof {
            assert(put is Ok);
        }
    }

    /// The running task blocks on a semaphore until someone releases it: its
    /// bit joins the wait set, the task stops, and the next ready task is
    /// scheduled.
    pub fn sem_acquire(&mut self, sem: usize, prio: usize, cs: CritSect)
        requires
            old(self).wf(),
            old(self).spec_started(),
            sem < 32,
            old(self).spec_sem_registered(sem as u32),
            prio == old(self).spec_running(),
            prio < 32,
        ensures
            final(self).wf(),
            final(self).spec_ticks() == old(self).spec_ticks(),
            final(self).spec_started(),
            final(self).spec_timers() == old(self).spec_timers(),
            final(self).spec_idle_task() == old(self).spec_idle_task(),
            final(self).spec_running() == old(self).spec_running(),
            Kernel::sems_preserved(*old(self), *final(self)),
            forall|t: u32|
                t < 32 && t != sem ==> #[trigger] final(self).spec_sems().spec_get(t) == old(
                    self,
                ).spec_sems().spec_get(t),
            forall|t: u32|
                t < 32 && t != sem ==> #[trigger] Kernel::sem_registered_of(final(self).spec_sems(), t) == old(
                    self,
                ).spec_sem_registered(t),
            forall|p: u32|
                p < 32 ==> (#[trigger] Kernel::sem_waiter_of(final(self).spec_sems(), sem as u32, p) <==> (p == prio
                    || old(self).spec_sem_waiter(sem as u32, p))),
            !final(self).spec_tasks().spec_ready().spec_check(prio as u32),
            !final(self).spec_tasks().spec_sleeping().spec_check(prio as u32),
            final(self).spec_tasks().spec_used() == old(self).spec_tasks().spec_used(),
            forall|j: u32|
                j < 32 && j != prio ==> TaskList::slot_unchanged(
                    old(self).spec_tasks(),
                    final(self).spec_tasks(),
                    j,
                ),
            Kernel::scheduled(
                old(self).spec_running(),
                final(self).spec_tasks().spec_ready(),
                old(self).spec_next(),
                old(self).spec_switch_pending(),
                final(self).spec_next(),
                final(self).spec_switch_pending(),
            ),
            Kernel::sem_acquire_effect(*old(self), *final(self), sem as u32, prio as u32),
    {
        self.sem_set_bit(sem, prio);
        let ghost mid = *self;
        self.tasks.stop(prio);
        proof {
            assert(self.spec_sems() == mid.spec_sems());
            assert forall|t: u32|
                t < 32 && t != sem implies #[trigger] self.spec_sems().spec_get(t) == old(
                self,
            ).spec_sems().spec_get(t) && #[trigger] Kernel::sem_registered_of(self.spec_sems(), t) == old(
                self,
            ).spec_sem_registered(t) by {
                assert(mid.spec_sems().spec_get(t) == old(self).spec_sems().spec_get(t));
                assert(mid.spec_sem_registered(t) == old(self).spec_sem_registered(t));
            }
            assert forall|p: u32|
                p < 32 implies (#[trigger] Kernel::sem_waiter_of(self.spec_sems(), sem as u32, p) <==> (p == prio
                    || old(self).spec_sem_waiter(sem as u32, p))) by {
                assert(mid.spec_sem_waiter(sem as u32, p) <==> (p == prio || old(
                    self,
                ).spec_sem_waiter(sem as u32, p)));
            }
            let nx = old(self).spec_next();
            if nx != IDLE_PRIO && nx != prio {
                assert(TaskList::slot_unchanged(
                    old(self).spec_tasks(),
                    self.spec_tasks(),
                    nx as u32,
                ));
            }
            assert forall|s: u32, p: u32|
                s < 32 && p < 32 && #[trigger] Kernel::sem_waiter_of(self.spec_sems(), s, p) implies self.spec_tasks(
            ).spec_used().spec_check(p) by {
                if s == sem {
                    assert(self.spec_sem_waiter(sem as u32, p) <==> (p == prio || old(
                        self,
                    ).spec_sem_waiter(sem as u32, p)));
                    if p != prio {
                        assert(old(self).spec_sem_waiter(s, p));
                    }
                } else {
                    assert(self.spec_sems().spec_get(s) == old(self).spec_sems().spec_get(s));
                    assert(old(self).spec_sem_waiter(s, p));
                }
            }
        }
        self.schedule_next(cs);
    }

    /// The running task blocks on a semaphore with a timeout: its bit joins
    /// the wait set, the task records the semaphore and sleeps for the
    /// timeout, and the next ready task is scheduled.  On resumption,
    /// `sem_wait_outcome` tells a release from an expired clock.
    pub fn sem_wait(&mut self, sem: usize, prio: usize, timeout: ms, cs: CritSect)
        requires
            old(self).wf(),
            old(self).spec_started(),
            sem < 32,
            old(self).spec_sem_registered(sem as u32),
            prio == old(self).spec_running(),
            prio < 32,
            timeout.spec_value() >= 1,
        ensures
            final(self).wf(),
            final(self).spec_ticks() == old(self).spec_ticks(),
            final(self).spec_started(),
            final(self).spec_timers() == old(self).spec_timers(),
            final(self).spec_idle_task() == old(self).spec_idle_task(),
            final(self).spec_running() == old(self).spec_running(),
            Kernel::sems_preserved(*old(self), *final(self)),
            forall|t: u32|
                t < 32 && t != sem ==> #[trigger] final(self).spec_sems().spec_get(t) == old(
                    self,
                ).spec_sems().spec_get(t),
            forall|t: u32|
                t < 32 && t != sem ==> #[trigger] Kernel::sem_registered_of(final(self).spec_sems(), t) == old(
                    self,
                ).spec_sem_registered(t),
            forall|p: u32|
                p < 32 ==> (#[trigger] Kernel::sem_waiter_of(final(self).spec_sems(), sem as u32, p) <==> (p == prio
                    || old(self).spec_sem_waiter(sem as u32, p))),
            !final(self).spec_tasks().spec_ready().spec_check(prio as u32),
            final(self).spec_tasks().spec_sleeping().spec_check(prio as u32),
            final(self).spec_tasks().spec_sleep_time(prio as u32) == timeout.spec_as_ticks(),
            final(self).spec_tasks().spec_task(prio as u32) is Some,
            final(self).spec_tasks().spec_task(prio as u32)->0.spec_semaphore() == Some(sem),
            final(self).spec_tasks().spec_used() == old(self).spec_tasks().spec_used(),
            forall|j: u32|
                j < 32 && j != prio ==> TaskList::slot_unchanged(
                    old(self).spec_tasks(),
                    final(self).spec_tasks(),
                    j,
                ),
            Kernel::scheduled(
                old(self).spec_running(),
                final(self).spec_tasks().spec_ready(),
                old(self).spec_next(),
                old(self).spec_switch_pending(),
                final(self).spec_next(),
                final(self).spec_switch_pending(),
            ),
            Kernel::sem_wait_effect(
                *old(self),
                *final(self),
                sem as u32,
                prio as u32,
                timeout.spec_as_ticks(),
            ),
    {
        let ticks = timeout.as_ticks();
        self.sem_set_bit(sem, prio);
        let ghost mid1 = *self;
        self.tasks.set_task_semaphore(prio, Some(sem));
        let ghost mid2 = *self;
        self.tasks.sleep(prio, ticks);
        proof {
            assert(self.spec_sems() == mid1.spec_sems());
            assert forall|t: u32|
                t < 32 && t != sem implies #[trigger] self.spec_sems().spec_get(t) == old(
                self,
            ).spec_sems().spec_get(t) && #[trigger] Kernel::sem_registered_of(self.spec_sems(), t) == old(
                self,
            ).spec_sem_registered(t) by {
                assert(mid1.spec_sems().spec_get(t) == old(self).spec_sems().spec_get(t));
                assert(mid1.spec_sem_registered(t) == old(self).spec_sem_registered(t));
            }
            assert forall|p: u32|
                p < 32 implies (#[trigger] Kernel::sem_waiter_of(self.spec_sems(), sem as u32, p) <==> (p == prio
                    || old(self).spec_sem_waiter(sem as u32, p))) by {
                assert(mid1.spec_sem_waiter(sem as u32, p) <==> (p == prio || old(
                    self,
                ).spec_sem_waiter(sem as u32, p)));
            }
            let nx = old(self).spec_next();
            if nx != IDLE_PRIO && nx != prio {
                assert(TaskList::slot_unchanged(
                    old(self).spec_tasks(),
                    mid2.spec_tasks(),
                    nx as u32,
                ));
                assert(TaskList::slot_unchanged(
                    mid2.spec_tasks(),
                    self.spec_tasks(),
                    nx as u32,
                ));
            }
            assert forall|j: u32|
                j < 32 && j != prio implies TaskList::slot_unchanged(
                old(self).spec_tasks(),
                self.spec_tasks(),
                j,
            ) by {
                assert(TaskList::slot_unchanged(
                    old(self).spec_tasks(),
                    mid2.spec_tasks(),
                    j,
                ));
                assert(TaskList::slot_unchanged(mid2.spec_tasks(), self.spec_tasks(), j));
            }
            assert forall|s: u32, p: u32|
                s < 32 && p < 32 && #[trigger] Kernel::sem_waiter_of(self.spec_sems(), s, p) implies self.spec_tasks(
            ).spec_used().spec_check(p) by {
                if s == sem {
                    assert(self.spec_sem_waiter(sem as u32, p) <==> (p == prio || old(
                        self,
                    ).spec_sem_waiter(sem as u32, p)));
                    if p != prio {
                        assert(old(self).spec_sem_waiter(s, p));
                    }
                } else {
                    assert(self.spec_sems().spec_get(s) == old(self).spec_sems().spec_get(s));
                    assert(old(self).spec_sem_waiter(s, p));
                }
            }
        }
        self.schedule_next(cs);
    }

    /// How a resumed timed wait ended: still holding sleep ticks means a
    /// release woke the task in time; a drained counter means the clock
    /// expired first, and the tick handler has already left the wait set.
    pub fn sem_wait_outcome(&self, prio: usize) -> (r: Result<(), ()>)
        requires
            self.wf(),
            prio < 32,
            self.spec_tasks().spec_used().spec_check(prio as u32),
        ensures
            r is Ok <==> self.spec_tasks().spec_sleep_time(prio as u32) != 0,
    {
        if self.tasks.sleep_left(prio) != 0 {
            Ok(())
        } else {
            Err(())
        }
    }

    /// Releases a semaphore: the highest-priority waiter, if any, leaves the
    /// wait set, drops its semaphore note and turns ready, and the next
    /// ready task is scheduled.  With no waiter the release is a no-op and
    /// does not accumulate.
    pub fn sem_release(&mut self, sem: usize, cs: CritSect)
        requires
            old(self).wf(),
            old(self).spec_started(),
            sem < 32,
            old(self).spec_sem_registered(sem as u32),
        ensures
            final(self).wf(),
            final(self).spec_ticks() == old(self).spec_ticks(),
            final(self).spec_started(),
            final(self).spec_timers() == old(self).spec_timers(),
            final(self).spec_idle_task() == old(self).spec_idle_task(),
            final(self).spec_running() == old(self).spec_running(),
            Kernel::sems_preserved(*old(self), *final(self)),
            old(self).spec_sems().spec_get(sem as u32)->0.spec_locked().spec_is_empty()
                ==> *final(self) == *old(self),
            !old(self).spec_sems().spec_get(sem as u32)->0.spec_locked().spec_is_empty() ==> {
                let h = old(self).spec_sems().spec_get(sem as u32)->0.spec_locked().spec_highest();
                &&& 0 <= h < 32
                &&& old(self).spec_sem_waiter(sem as u32, h as u32)
                &&& (forall|p: u32|
                    h < p < 32 ==> !#[trigger] Kernel::sem_waiter_of(old(self).spec_sems(), sem as u32, p))
                &&& (forall|p: u32|
                    p < 32 ==> (#[trigger] Kernel::sem_waiter_of(final(self).spec_sems(), sem as u32, p) <==> (p != h
                        && old(self).spec_sem_waiter(sem as u32, p))))
                &&& (forall|t: u32|
                    t < 32 && t != sem ==> #[trigger] final(self).spec_sems().spec_get(t) == old(
                        self,
                    ).spec_sems().spec_get(t))
                &&& (forall|t: u32|
                    t < 32 && t != sem ==> #[trigger] Kernel::sem_registered_of(final(self).spec_sems(), t) == old(
                        self,
                    ).spec_sem_registered(t))
                &&& final(self).spec_tasks().spec_ready().spec_check(h as u32)
                &&& !final(self).spec_tasks().spec_sleeping().spec_check(h as u32)
                &&& final(self).spec_tasks().spec_task(h as u32) is Some
                &&& final(self).spec_tasks().spec_task(h as u32)->0.spec_semaphore() is None
                &&& final(self).spec_tasks().spec_used() == old(self).spec_tasks().spec_used()
                &&& (forall|j: u32|
                    j < 32 && j != h ==> TaskList::slot_unchanged(
                        old(self).spec_tasks(),
                        final(self).spec_tasks(),
                        j,
                    ))
                &&& Kernel::scheduled(
                    old(self).spec_running(),
                    final(self).spec_tasks().spec_ready(),
                    old(self).spec_next(),
                    old(self).spec_switch_pending(),
                    final(self).spec_next(),
                    final(self).spec_switch_pending(),
                )
            },
            Kernel::sem_release_effect(*old(self), *final(self), sem as u32),
    {
        let found = match self.sems.get(sem) {
            Ok(sv) => sv.highest_waiter(),
            Err(()) => {
                proof {
                    assert(false);
                }
                Err(())
            },
        };
        match found {
            Ok(h) => {
                proof {
                    assert(old(self).spec_sem_waiter(sem as u32, h as u32));
                    assert(old(self).spec_tasks().spec_used().spec_check(h as u32));
                }
                self.sem_clear_bit(sem, h);
                let ghost mid1 = *self;
                self.tasks.set_task_semaphore(h, None);
                let ghost mid2 = *self;
                self.tasks.idle(h);
                proof {
                    assert(self.spec_sems() == mid1.spec_sems());
                    assert forall|t: u32|
                        t < 32 && t != sem implies #[trigger] self.spec_sems().spec_get(t) == old(
                        self,
                    ).spec_sems().spec_get(t) && #[trigger] Kernel::sem_registered_of(self.spec_sems(), t) == old(
                        self,
                    ).spec_sem_registered(t) by {
                        assert(mid1.spec_sems().spec_get(t) == old(self).spec_sems().spec_get(
                            t,
                        ));
                        assert(mid1.spec_sem_registered(t) == old(self).spec_sem_registered(t));
                    }
                    assert forall|p: u32|
                        p < 32 implies (#[trigger] Kernel::sem_waiter_of(self.spec_sems(), sem as u32, p) <==> (p
                            != h && old(self).spec_sem_waiter(sem as u32, p))) by {
                        assert(mid1.spec_sem_waiter(sem as u32, p) <==> (p != h && old(
                            self,
                        ).spec_sem_waiter(sem as u32, p)));
                    }
                    let nx = old(self).spec_next();
                    if nx != IDLE_PRIO && nx != h {
                        assert(TaskList::slot_unchanged(
                            old(self).spec_tasks(),
                            mid2.spec_tasks(),
                            nx as u32,
                        ));
                        assert(TaskList::slot_unchanged(
                            mid2.spec_tasks(),
                            self.spec_tasks(),
                            nx as u32,
                        ));
                    }
                    assert forall|j: u32|
                        j < 32 && j != h implies TaskList::slot_unchanged(
                        old(self).spec_tasks(),
                        self.spec_tasks(),
                        j,
                    ) by {
                        assert(TaskList::slot_unchanged(
                            old(self).spec_tasks(),
                            mid2.spec_tasks(),
                            j,
                        ));
                        assert(TaskList::slot_unchanged(
                            mid2.spec_tasks(),
                            self.spec_tasks(),
                            j,
                        ));
                    }
                    assert forall|s: u32, p: u32|
                        s < 32 && p < 32 && #[trigger] Kernel::sem_waiter_of(self.spec_sems(), s, p) implies self
                        .spec_tasks().spec_used().spec_check(p) by {
                        if s == sem {
                            assert(self.spec_sem_waiter(sem as u32, p) <==> (p != h && old(
                                self,
                            ).spec_sem_waiter(sem as u32, p)));
                            assert(old(self).spec_sem_waiter(s, p));
                        } else {
                            assert(self.spec_sems().spec_get(s) == old(self).spec_sems().spec_get(
                                s,
                            ));
                            assert(old(self).spec_sem_waiter(s, p));
                        }
                    }
                }
                self.schedule_next(cs);
            },
            Err(()) => {
                cs.deactivate();
            },
        }
    }


    /// Whether a semaphore slot is registered.
    pub fn is_sem_registered(&self, s: usize) -> (r: bool)
        requires
            s < 32,
        ensures
            r == self.spec_sem_registered(s as u32),
    {
        self.sems.is_occupied(s)
    }

    /// The kernel tick handler: advances the system tick counter, counts
    /// every sleeping task down and wakes those whose sleep expires, clears
    /// the wait-set bit of every wait whose timeout expired, advances every
    /// active timer, and schedules the next task.  Returns the slots of the
    /// timers whose callbacks are due, for the embedding to run.  The tick
    /// counter saturates at its widest value rather than wrapping -- at one
    /// millisecond per tick, a horizon of over half a billion years.
    pub fn on_tick(&mut self, cs: CritSect) -> (fired: Vec<usize>)
        requires
            old(self).wf(),
            old(self).spec_started(),
        ensures
            final(self).wf(),
            final(self).spec_started(),
            final(self).spec_ticks() == if old(self).spec_ticks() < u64::MAX {
                old(self).spec_ticks() + 1
            } else {
                u64::MAX as int
            },
            final(self).spec_running() == old(self).spec_running(),
            final(self).spec_idle_task() == old(self).spec_idle_task(),
            TaskList::ticked(old(self).spec_tasks(), final(self).spec_tasks()),
            TimerList::ticked(old(self).spec_timers(), final(self).spec_timers()),
            fired@ == TimerList::fired_from(old(self).spec_timers(), 0),
            Kernel::sems_preserved(*old(self), *final(self)),
            forall|s: u32|
                s < 32 ==> #[trigger] Kernel::sem_registered_of(final(self).spec_sems(), s) == old(
                    self,
                ).spec_sem_registered(s),
            forall|s: u32, p: u32|
                s < 32 && p < 32 ==> (#[trigger] Kernel::sem_waiter_of(
                    final(self).spec_sems(),
                    s,
                    p,
                ) <==> (Kernel::sem_waiter_of(old(self).spec_sems(), s, p)
                    && !TaskList::wait_expired(old(self).spec_tasks(), p, s as usize))),
            Kernel::scheduled(
                old(self).spec_running(),
                final(self).spec_tasks().spec_ready(),
                old(self).spec_next(),
                old(self).spec_switch_pending(),
                final(self).spec_next(),
                final(self).spec_switch_pending(),
            ),
    {
        if self.ticks < u64::MAX {
            self.ticks = self.ticks + 1;
        }
        let expired = self.tasks.tick_sleeping();
        let ghost t1 = *self;
        proof {
            TaskList::lemma_expired_waits_elements(old(self).spec_tasks(), 32);
        }
        let mut k: usize = 0;
        while k < expired.len()
            invariant
                k <= expired.len(),
                expired@ == TaskList::expired_waits_below(old(self).spec_tasks(), 32),
                self.spec_sems().wf(),
                self.spec_tasks() == t1.spec_tasks(),
                self.spec_timers() == t1.spec_timers(),
                self.spec_ticks() == t1.spec_ticks(),
                self.spec_started() == t1.spec_started(),
                self.spec_running() == t1.spec_running(),
                self.spec_next() == t1.spec_next(),
                self.spec_switch_pending() == t1.spec_switch_pending(),
                self.spec_idle_task() == t1.spec_idle_task(),
                forall|s: u32|
                    s < 32 ==> #[trigger] Kernel::sem_registered_of(self.spec_sems(), s) == old(
                        self,
                    ).spec_sem_registered(s),
                forall|s: u32, p: u32|
                    s < 32 && p < 32 ==> (#[trigger] Kernel::sem_waiter_of(
                        self.spec_sems(),
                        s,
                        p,
                    ) <==> (Kernel::sem_waiter_of(old(self).spec_sems(), s, p)
                        && !expired@.take(k as int).contains((p as usize, s as usize)))),
            decreases expired.len() - k,
        {
            let ghost at_entry = *self;
            let pair = expired[k];
            let p = pair.0;
            let s0 = pair.1;
            proof {
                assert(expired@[k as int] == pair);
                assert(TaskList::wait_expired(old(self).spec_tasks(), p as u32, s0));
            }
            if s0 < 32 && self.is_sem_registered(s0) {
                self.sem_clear_bit(s0, p);
            }
            k = k + 1;
            proof {
                assert(expired@.take(k as int) =~= expired@.take(k as int - 1).push(pair));
                assert forall|s: u32, q: u32|
                    s < 32 && q < 32 implies (#[trigger] Kernel::sem_waiter_of(
                    self.spec_sems(),
                    s,
                    q,
                ) <==> (Kernel::sem_waiter_of(old(self).spec_sems(), s, q)
                    && !expired@.take(k as int).contains((q as usize, s as usize)))) by {
                    crate::task::lemma_seq_push_contains(
                        expired@.take(k as int - 1),
                        pair,
                        (q as usize, s as usize),
                    );
                    assert(Kernel::sem_waiter_of(at_entry.spec_sems(), s, q) <==> (
                    Kernel::sem_waiter_of(old(self).spec_sems(), s, q) && !expired@.take(
                        k as int - 1,
                    ).contains((q as usize, s as usize))));
                    if s0 < 32 && at_entry.spec_sem_registered(s0 as u32) {
                        assert(forall|q2: u32|
                            q2 < 32 ==> (#[trigger] Kernel::sem_waiter_of(
                                self.spec_sems(),
                                s0 as u32,
                                q2,
                            ) <==> (q2 != p && Kernel::sem_waiter_of(
                                at_entry.spec_sems(),
                                s0 as u32,
                                q2,
                            ))));
                    }
                }
            }
        }
        proof {
            assert forall|s: u32, q: u32|
                s < 32 && q < 32 implies (#[trigger] Kernel::sem_waiter_of(
                self.spec_sems(),
                s,
                q,
            ) <==> (Kernel::sem_waiter_of(old(self).spec_sems(), s, q)
                && !TaskList::wait_expired(old(self).spec_tasks(), q, s as usize))) by {
                TaskList::lemma_expired_waits_membership(
                    old(self).spec_tasks(),
                    32,
                    q as usize,
                    s as usize,
                );
                assert(expired@.take(expired@.len() as int) =~= expired@);
            }
        }
        let fired = self.timers.tick_timers();
        proof {
            assert forall|s: u32, q: u32|
                s < 32 && q < 32 && #[trigger] Kernel::sem_waiter_of(
                    self.spec_sems(),
                    s,
                    q,
                ) implies self.spec_tasks().spec_used().spec_check(q) by {
                assert(Kernel::sem_waiter_of(old(self).spec_sems(), s, q));
                assert(old(self).spec_tasks().spec_used().spec_check(q));
                assert(TaskList::tick_slot_effect(
                    old(self).spec_tasks(),
                    self.spec_tasks(),
                    q,
                ));
            }
            let nx = old(self).spec_next();
            if nx != IDLE_PRIO {
                assert(TaskList::tick_slot_effect(
                    old(self).spec_tasks(),
                    self.spec_tasks(),
                    nx as u32,
                ));
            }
            let ru = old(self).spec_running();
            if ru != IDLE_PRIO {
                assert(TaskList::tick_slot_effect(
                    old(self).spec_tasks(),
                    self.spec_tasks(),
                    ru as u32,
                ));
            }
            assert forall|s: u32|
                s < 32 && #[trigger] Kernel::sem_registered_of(old(self).spec_sems(), s) implies self
                .spec_sem_registered(s) by {
                assert(self.spec_sem_registered(s) == old(self).spec_sem_registered(s));
            }
        }
        self.schedule_next(cs);
        fired
    }


    /// Routes a supervisor-call identifier to the kernel entry point it
    /// names: starting the scheduler, or the running task's voluntary
    /// transitions.  Unknown identifiers are no-ops.
    pub fn on_supervisor_call(&mut self, id: u32, ticks: Ticks, cs: CritSect)
        requires
            old(self).wf(),
            SysCallID::from_code_spec(id) == SysCallID::StartScheduler
                ==> !old(self).spec_started(),
            (SysCallID::from_code_spec(id) == SysCallID::SetTaskIdle
                || SysCallID::from_code_spec(id) == SysCallID::SetTaskSleep
                || SysCallID::from_code_spec(id) == SysCallID::SetTaskStop)
                ==> old(self).spec_started() && old(self).spec_running() < 32,
            SysCallID::from_code_spec(id) == SysCallID::SetTaskSleep ==> ticks >= 1,
        ensures
            final(self).wf(),
            SysCallID::from_code_spec(id) == SysCallID::Nop ==> *final(self) == *old(self),
            SysCallID::from_code_spec(id) == SysCallID::StartScheduler ==> {
                &&& final(self).spec_started()
                &&& final(self).spec_running() == IDLE_PRIO
                &&& !final(self).spec_switch_pending()
                &&& final(self).spec_ticks() == old(self).spec_ticks()
                &&& final(self).spec_timers() == old(self).spec_timers()
                &&& final(self).spec_sems() == old(self).spec_sems()
                &&& (forall|i: u32|
                    i < 32 ==> #[trigger] TaskList::setup_slot_effect(
                        old(self).spec_tasks(),
                        final(self).spec_tasks(),
                        i,
                    ))
                &&& Task::setup_effect(
                    old(self).spec_idle_task(),
                    final(self).spec_idle_task(),
                )
            },
            ({
                let c = SysCallID::from_code_spec(id);
                let run = old(self).spec_running() as u32;
                let post = final(self).spec_tasks();
                let voluntary = c == SysCallID::SetTaskIdle || c == SysCallID::SetTaskStop || c
                    == SysCallID::SetTaskSleep;
                &&& (c == SysCallID::SetTaskIdle ==> post.spec_ready().spec_check(run)
                    && !post.spec_sleeping().spec_check(run))
                &&& (c == SysCallID::SetTaskStop ==> !post.spec_ready().spec_check(run)
                    && !post.spec_sleeping().spec_check(run))
                &&& (c == SysCallID::SetTaskSleep ==> !post.spec_ready().spec_check(run)
                    && post.spec_sleeping().spec_check(run) && post.spec_sleep_time(run)
                    == ticks)
                &&& (voluntary ==> {
                    &&& Kernel::frame_unchanged(*old(self), *final(self))
                    &&& final(self).spec_running() == old(self).spec_running()
                    &&& post.spec_used() == old(self).spec_tasks().spec_used()
                    &&& (forall|j: u32|
                        j < 32 && j != run ==> TaskList::slot_unchanged(
                            old(self).spec_tasks(),
                            post,
                            j,
                        ))
                    &&& Kernel::scheduled(
                        old(self).spec_running(),
                        post.spec_ready(),
                        old(self).spec_next(),
                        old(self).spec_switch_pending(),
                        final(self).spec_next(),
                        final(self).spec_switch_pending(),
                    )
                })
            }),
    {
        let run = self.running;
        match SysCallID::from_code(id) {
            SysCallID::Nop => {
                cs.deactivate();
            },
            SysCallID::StartScheduler => {
                self.init(cs);
            },
            SysCallID::SetTaskIdle => {
                self.task_idle(run, cs);
            },
            SysCallID::SetTaskSleep => {
                self.task_sleep(run, ticks, cs);
            },
            SysCallID::SetTaskStop => {
                self.task_stop(run, cs);
            },
        }
    }


    /// Readies every task of a mask in one critical section and schedules
    /// the next task; the barrier primitive completes through this.
    pub fn wake_all(&mut self, mask: &BitVec, cs: CritSect)
        requires
            old(self).wf(),
            old(self).spec_started(),
            forall|j: u32|
                j < 32 && #[trigger] mask.spec_check(j) ==> old(
                    self,
                ).spec_tasks().spec_used().spec_check(j),
        ensures
            final(self).wf(),
            Kernel::frame_unchanged(*old(self), *final(self)),
            final(self).spec_running() == old(self).spec_running(),
            final(self).spec_tasks().spec_used() == old(self).spec_tasks().spec_used(),
            forall|j: u32|
                j < 32 ==> (final(self).spec_tasks().spec_ready().spec_check(j) <==> (old(
                    self,
                ).spec_tasks().spec_ready().spec_check(j) || mask.spec_check(j))),
            forall|j: u32|
                j < 32 ==> (final(self).spec_tasks().spec_sleeping().spec_check(j) <==> (old(
                    self,
                ).spec_tasks().spec_sleeping().spec_check(j) && !mask.spec_check(j))),
            forall|j: u32|
                j < 32 ==> final(self).spec_tasks().spec_task(j) == old(
                    self,
                ).spec_tasks().spec_task(j),
            forall|j: u32|
                j < 32 ==> final(self).spec_tasks().spec_sleep_time(j) == old(
                    self,
                ).spec_tasks().spec_sleep_time(j),
            Kernel::scheduled(
                old(self).spec_running(),
                final(self).spec_tasks().spec_ready(),
                old(self).spec_next(),
                old(self).spec_switch_pending(),
                final(self).spec_next(),
                final(self).spec_switch_pending(),
            ),
    {
        self.tasks.wake_mask(mask);
        proof {
            assert forall|j: u32|
                j < 32 implies (self.spec_tasks().spec_ready().spec_check(j) <==> (old(
                self,
            ).spec_tasks().spec_ready().spec_check(j) || mask.spec_check(j))) by {}
            assert forall|j: u32|
                j < 32 implies (self.spec_tasks().spec_sleeping().spec_check(j) <==> (old(
                self,
            ).spec_tasks().spec_sleeping().spec_check(j) && !mask.spec_check(j))) by {}
            Kernel::lemma_waiters_stay_registered(*old(self), *self);
            let nx = old(self).spec_next();
            if nx != IDLE_PRIO {
                assert(self.spec_tasks().spec_ready().spec_check(nx as u32) <==> (old(
                    self,
                ).spec_tasks().spec_ready().spec_check(nx as u32) || mask.spec_check(nx as u32)));
            }
        }
        self.schedule_next(cs);
    }


    /// The effect of one blocking acquire of semaphore `sem` by `prio`: the
    /// priority joined the wait set and its task stopped; all else besides
    /// the schedule decision is untouched.
    pub open spec fn sem_acquire_effect(pre: Kernel, post: Kernel, sem: u32, prio: u32) -> bool {
        &&& post.spec_ticks() == pre.spec_ticks()
        &&& post.spec_started()
        &&& post.spec_timers() == pre.spec_timers()
        &&& post.spec_idle_task() == pre.spec_idle_task()
        &&& post.spec_running() == pre.spec_running()
        &&& Kernel::sems_preserved(pre, post)
        &&& (forall|t: u32|
            t < 32 && t != sem ==> #[trigger] post.spec_sems().spec_get(t)
                == pre.spec_sems().spec_get(t))
        &&& (forall|p: u32|
            p < 32 ==> (#[trigger] Kernel::sem_waiter_of(post.spec_sems(), sem, p) <==> (p == prio
                || Kernel::sem_waiter_of(pre.spec_sems(), sem, p))))
        &&& !post.spec_tasks().spec_ready().spec_check(prio)
        &&& !post.spec_tasks().spec_sleeping().spec_check(prio)
        &&& post.spec_tasks().spec_used() == pre.spec_tasks().spec_used()
        &&& (forall|j: u32|
            j < 32 && j != prio ==> TaskList::slot_unchanged(
                pre.spec_tasks(),
                post.spec_tasks(),
                j,
            ))
        &&& Kernel::scheduled(
            pre.spec_running(),
            post.spec_tasks().spec_ready(),
            pre.spec_next(),
            pre.spec_switch_pending(),
            post.spec_next(),
            post.spec_switch_pending(),
        )
    }

    /// The effect of one timed wait on semaphore `sem` by `prio` for `t`
    /// ticks: the priority joined the wait set, noted the semaphore and
    /// went to sleep for the timeout.
    pub open spec fn sem_wait_effect(pre: Kernel, post: Kernel, sem: u32, prio: u32, t: Ticks) -> bool {
        &&& post.spec_ticks() == pre.spec_ticks()
        &&& post.spec_started()
        &&& post.spec_timers() == pre.spec_timers()
        &&& post.spec_idle_task() == pre.spec_idle_task()
        &&& post.spec_running() == pre.spec_running()
        &&& Kernel::sems_preserved(pre, post)
        &&& (forall|q: u32|
            q < 32 && q != sem ==> #[trigger] post.spec_sems().spec_get(q)
                == pre.spec_sems().spec_get(q))
        &&& (forall|p: u32|
            p < 32 ==> (#[trigger] Kernel::sem_waiter_of(post.spec_sems(), sem, p) <==> (p == prio
                || Kernel::sem_waiter_of(pre.spec_sems(), sem, p))))
        &&& !post.spec_tasks().spec_ready().spec_check(prio)
        &&& post.spec_tasks().spec_sleeping().spec_check(prio)
        &&& post.spec_tasks().spec_sleep_time(prio) == t
        &&& post.spec_tasks().spec_task(prio) is Some
        &&& post.spec_tasks().spec_task(prio)->0.spec_semaphore() == Some(sem as usize)
        &&& post.spec_tasks().spec_used() == pre.spec_tasks().spec_used()
        &&& (forall|j: u32|
            j < 32 && j != prio ==> TaskList::slot_unchanged(
                pre.spec_tasks(),
                post.spec_tasks(),
                j,
            ))
        &&& Kernel::scheduled(
            pre.spec_running(),
            post.spec_tasks().spec_ready(),
            pre.spec_next(),
            pre.spec_switch_pending(),
            post.spec_next(),
            post.spec_switch_pending(),
        )
    }

    /// The effect of one release of semaphore `sem`: with no waiter, nothing
    /// at all; else the highest waiter left the wait set and turned ready.
    pub open spec fn sem_release_effect(pre: Kernel, post: Kernel, sem: u32) -> bool {
        &&& post.spec_ticks() == pre.spec_ticks()
        &&& post.spec_started()
        &&& post.spec_timers() == pre.spec_timers()
        &&& post.spec_idle_task() == pre.spec_idle_task()
        &&& post.spec_running() == pre.spec_running()
        &&& Kernel::sems_preserved(pre, post)
        &&& (pre.spec_sems().spec_get(sem)->0.spec_locked().spec_is_empty() ==> post == pre)
        &&& (!pre.spec_sems().spec_get(sem)->0.spec_locked().spec_is_empty() ==> {
            let h = pre.spec_sems().spec_get(sem)->0.spec_locked().spec_highest();
            &&& 0 <= h < 32
            &&& Kernel::sem_waiter_of(pre.spec_sems(), sem, h as u32)
            &&& (forall|p: u32|
                h < p < 32 ==> !#[trigger] Kernel::sem_waiter_of(pre.spec_sems(), sem, p))
            &&& (forall|p: u32|
                p < 32 ==> (#[trigger] Kernel::sem_waiter_of(post.spec_sems(), sem, p) <==> (p
                    != h && Kernel::sem_waiter_of(pre.spec_sems(), sem, p))))
            &&& (forall|q: u32|
                q < 32 && q != sem ==> #[trigger] post.spec_sems().spec_get(q)
                    == pre.spec_sems().spec_get(q))
            &&& post.spec_tasks().spec_ready().spec_check(h as u32)
            &&& !post.spec_tasks().spec_sleeping().spec_check(h as u32)
            &&& post.spec_tasks().spec_used() == pre.spec_tasks().spec_used()
            &&& (forall|j: u32|
                j < 32 && j != h ==> TaskList::slot_unchanged(
                    pre.spec_tasks(),
                    post.spec_tasks(),
                    j,
                ))
            &&& Kernel::scheduled(
                pre.spec_running(),
                post.spec_tasks().spec_ready(),
                pre.spec_next(),
                pre.spec_switch_pending(),
                post.spec_next(),
                post.spec_switch_pending(),
            )
        })
    }


    /// The priority latched for the pending context switch.
    pub fn next(&self) -> (r: usize)
        ensures
            r == self.spec_next(),
    {
        self.next
    }

    /// Whether scheduling has started.
    pub fn started(&self) -> (r: bool)
        ensures
            r == self.spec_started(),
    {
        self.started
    }

    /// Whether a priority slot holds a registered task.
    pub fn task_registered(&self, prio: usize) -> (r: bool)
        requires
            prio < 32,
        ensures
            r == self.spec_tasks().spec_used().spec_check(prio as u32),
    {
        self.tasks.used_check(prio)
    }

    /// Whether a task is ready.
    pub fn task_ready(&self, prio: usize) -> (r: bool)
        requires
            prio < 32,
        ensures
            r == self.spec_tasks().spec_ready().spec_check(prio as u32),
    {
        self.tasks.ready_check(prio)
    }

    /// Whether a task is sleeping.
    pub fn task_sleeping(&self, prio: usize) -> (r: bool)
        requires
            prio < 32,
        ensures
            r == self.spec_tasks().spec_sleeping().spec_check(prio as u32),
    {
        self.tasks.sleeping_check(prio)
    }

    /// The remaining sleep ticks of a task's slot.
    pub fn task_sleep_left(&self, prio: usize) -> (r: Ticks)
        requires
            self.wf(),
            prio < 32,
        ensures
            r == self.spec_tasks().spec_sleep_time(prio as u32),
    {
        self.tasks.sleep_left(prio)
    }

    /// The stack watermark of a registered task, in words.
    pub fn task_watermark(&self, prio: usize) -> (r: usize)
        requires
            self.wf(),
            prio < 32,
            self.spec_tasks().spec_used().spec_check(prio as u32),
        ensures
            self.spec_tasks().spec_task(prio as u32) matches Some(t) && r == t.spec_watermark(),
    {
        self.tasks.get(prio).watermark()
    }

    /// Whether a priority waits on a registered semaphore.
    pub fn sem_has_waiter(&self, sem: usize, prio: usize) -> (r: bool)
        requires
            self.wf(),
            sem < 32,
            prio < 32,
        ensures
            r == Kernel::sem_waiter_of(self.spec_sems(), sem as u32, prio as u32),
    {
        match self.sems.get(sem) {
            Ok(sv) => sv.is_waiter(prio),
            Err(()) => false,
        }
    }

    /// Whether a timer slot is registered.
    pub fn timer_registered(&self, slot: usize) -> (r: bool)
        requires
            slot < 32,
        ensures
            r == self.spec_timers().spec_used(slot as u32),
    {
        self.timers.used_check(slot)
    }

    /// Whether a timer slot is active.
    pub fn timer_active(&self, slot: usize) -> (r: bool)
        requires
            slot < 32,
        ensures
            r == self.spec_timers().spec_is_active(slot as u32),
    {
        self.timers.active_check(slot)
    }


    /// Unregisters a semaphore whose wait set is empty and returns it;
    /// refuses a free slot.  A primitive that registered a semaphore and
    /// then could not finish its setup hands the slot back through this.
    pub fn remove_semaphore(&mut self, slot: usize) -> (r: Result<Semaphore, ()>)
        requires
            old(self).wf(),
            slot < 32,
            forall|p: u32|
                p < 32 ==> !#[trigger] Kernel::sem_waiter_of(
                    old(self).spec_sems(),
                    slot as u32,
                    p,
                ),
        ensures
            final(self).wf(),
            Kernel::frame_sems_only(*old(self), *final(self)),
            match r {
                Ok(sem) => {
                    &&& old(self).spec_sem_registered(slot as u32)
                    &&& !final(self).spec_sem_registered(slot as u32)
                    &&& final(self).spec_sems().spec_get(slot as u32) is None
                    &&& old(self).spec_sems().spec_get(slot as u32) == Some(sem)
                    &&& (forall|t: u32|
                        t < 32 && t != slot ==> #[trigger] final(self).spec_sems().spec_get(t)
                            == old(self).spec_sems().spec_get(t))
                    &&& (forall|t: u32|
                        t < 32 && t != slot ==> #[trigger] Kernel::sem_registered_of(
                            final(self).spec_sems(),
                            t,
                        ) == Kernel::sem_registered_of(old(self).spec_sems(), t))
                },
                Err(()) => {
                    &&& !old(self).spec_sem_registered(slot as u32)
                    &&& *final(self) == *old(self)
                },
            },
    {
        let r = self.sems.remove(slot);
        proof {
            assert forall|s: u32, p: u32|
                s < 32 && p < 32 && #[trigger] Kernel::sem_waiter_of(
                    self.spec_sems(),
                    s,
                    p,
                ) implies self.spec_tasks().spec_used().spec_check(p) by {
                if s != slot {
                    assert(self.spec_sems().spec_get(s) == old(self).spec_sems().spec_get(s));
                    assert(Kernel::sem_waiter_of(old(self).spec_sems(), s, p));
                }
            }
            if !old(self).spec_started() {
                assert forall|s: u32, p: u32|
                    s < 32 && p < 32 implies !#[trigger] Kernel::sem_waiter_of(
                    self.spec_sems(),
                    s,
                    p,
                ) by {
                    if s != slot {
                        assert(self.spec_sems().spec_get(s) == old(self).spec_sems().spec_get(
                            s,
                        ));
                        assert(!Kernel::sem_waiter_of(old(self).spec_sems(), s, p));
                    }
                }
            }
        }
        r
    }

    /// Registers a task before scheduling starts; refuses a duplicate
    /// priority.
    pub fn add_task(&mut self, task: Task) -> (r: Result<(), Task>)
        requires
            old(self).wf(),
            !old(self).spec_started(),
            task.wf(),
            task.spec_prio() < 32,
        ensures
            final(self).wf(),
            !final(self).spec_started(),
            Kernel::sems_preserved(*old(self), *final(self)),
            final(self).spec_timers() == old(self).spec_timers(),
            final(self).spec_sems() == old(self).spec_sems(),
            match r {
                Ok(()) => {
                    &&& !old(self).spec_tasks().spec_used().spec_check(task.spec_prio() as u32)
                    &&& final(self).spec_tasks().spec_used().spec_check(task.spec_prio() as u32)
                    &&& final(self).spec_tasks().spec_ready().spec_check(task.spec_prio() as u32)
                    &&& final(self).spec_tasks().spec_task(task.spec_prio() as u32) == Some(task)
                    &&& forall|j: u32|
                        j < 32 && j != task.spec_prio() ==> TaskList::slot_unchanged(
                            old(self).spec_tasks(),
                            final(self).spec_tasks(),
                            j,
                        )
                },
                Err(t) => {
                    &&& t == task
                    &&& old(self).spec_tasks().spec_used().spec_check(task.spec_prio() as u32)
                    &&& final(self).spec_tasks() == old(self).spec_tasks()
                },
            },
    {
        let r = self.tasks.add_task(task);
        proof {
            Kernel::lemma_no_waiters_carry(*old(self), *self);
        }
        r
    }

    /// Unregisters the task of a priority before scheduling starts; refuses
    /// a free slot.
    pub fn remove_task(&mut self, prio: usize) -> (r: Result<Task, ()>)
        requires
            old(self).wf(),
            !old(self).spec_started(),
            prio < 32,
        ensures
            final(self).wf(),
            !final(self).spec_started(),
            Kernel::sems_preserved(*old(self), *final(self)),
            final(self).spec_timers() == old(self).spec_timers(),
            final(self).spec_sems() == old(self).spec_sems(),
            match r {
                Ok(t) => {
                    &&& old(self).spec_tasks().spec_task(prio as u32) == Some(t)
                    &&& !final(self).spec_tasks().spec_used().spec_check(prio as u32)
                    &&& forall|j: u32|
                        j < 32 && j != prio ==> TaskList::slot_unchanged(
                            old(self).spec_tasks(),
                            final(self).spec_tasks(),
                            j,
                        )
                },
                Err(()) => {
                    &&& !old(self).spec_tasks().spec_used().spec_check(prio as u32)
                    &&& final(self).spec_tasks() == old(self).spec_tasks()
                },
            },
    {
        let r = self.tasks.remove_task(prio);
        proof {
            Kernel::lemma_no_waiters_carry(*old(self), *self);
        }
        r
    }
}

/// The priority rule: a schedule decision, followed by the context switch
/// it pends, leaves the processor on the ready task of highest priority, or
/// on the idle task when none is ready.  Between the decision and the
/// deferred switch the previous task may still hold the processor; the rule
/// speaks of the state after the pended switch has run.
pub proof fn lemma_priority_rule(
    run: usize,
    ready: BitVec,
    pre_next: usize,
    next: usize,
    pend: bool,
)
    requires
        Kernel::scheduled(run, ready, pre_next, false, next, pend),
        Task::prio_ok(run),
    ensures
        ({
            let hr = ready.spec_highest();
            let after = if pend {
                next as int
            } else {
                run as int
            };
            after == if hr >= 0 {
                hr
            } else {
                IDLE_PRIO as int
            }
        }),
{
    crate::bitvec::lemma_highest_set_below(ready.spec_raw(), 32);
}

/// Releases of a semaphore no one waits on do not accumulate: any number of
/// them leaves the kernel exactly as it was, so a later acquire still
/// blocks.
pub proof fn lemma_release_no_accumulation(a: Kernel, b: Kernel, c: Kernel, sem: u32)
    requires
        sem < 32,
        a.spec_sems().spec_get(sem)->0.spec_locked().spec_is_empty(),
        Kernel::sem_release_effect(a, b, sem),
        Kernel::sem_release_effect(b, c, sem),
    ensures
        c == a,
{
}


impl Task {
    /// The task body yields its slice of the processor: its slot stays
    /// ready, but any higher-priority ready task is scheduled first.
    pub fn idle(&self, k: &mut Kernel, cs: CritSect)
        requires
            old(k).wf(),
            old(k).spec_started(),
            self.spec_prio() == old(k).spec_running(),
            self.spec_prio() < 32,
        ensures
            final(k).wf(),
            Kernel::frame_unchanged(*old(k), *final(k)),
            final(k).spec_running() == old(k).spec_running(),
            final(k).spec_tasks().spec_ready().spec_check(self.spec_prio() as u32),
            !final(k).spec_tasks().spec_sleeping().spec_check(self.spec_prio() as u32),
            final(k).spec_tasks().spec_used() == old(k).spec_tasks().spec_used(),
            forall|j: u32|
                j < 32 && j != self.spec_prio() ==> TaskList::slot_unchanged(
                    old(k).spec_tasks(),
                    final(k).spec_tasks(),
                    j,
                ),
            Kernel::scheduled(
                old(k).spec_running(),
                final(k).spec_tasks().spec_ready(),
                old(k).spec_next(),
                old(k).spec_switch_pending(),
                final(k).spec_next(),
                final(k).spec_switch_pending(),
            ),
    {
        k.task_idle(self.prio(), cs);
    }

    /// The task body stops itself until something external re-readies it.
    pub fn stop(&self, k: &mut Kernel, cs: CritSect)
        requires
            old(k).wf(),
            old(k).spec_started(),
            self.spec_prio() == old(k).spec_running(),
            self.spec_prio() < 32,
        ensures
            final(k).wf(),
            Kernel::frame_unchanged(*old(k), *final(k)),
            final(k).spec_running() == old(k).spec_running(),
            !final(k).spec_tasks().spec_ready().spec_check(self.spec_prio() as u32),
            !final(k).spec_tasks().spec_sleeping().spec_check(self.spec_prio() as u32),
            final(k).spec_tasks().spec_used() == old(k).spec_tasks().spec_used(),
            forall|j: u32|
                j < 32 && j != self.spec_prio() ==> TaskList::slot_unchanged(
                    old(k).spec_tasks(),
                    final(k).spec_tasks(),
                    j,
                ),
            Kernel::scheduled(
                old(k).spec_running(),
                final(k).spec_tasks().spec_ready(),
                old(k).spec_next(),
                old(k).spec_switch_pending(),
                final(k).spec_next(),
                final(k).spec_switch_pending(),
            ),
    {
        k.task_stop(self.prio(), cs);
    }

    /// The task body sleeps for the given number of ticks; a sleep lasts at
    /// least one tick.
    pub fn sleep(&self, k: &mut Kernel, ticks: Ticks, cs: CritSect)
        requires
            old(k).wf(),
            old(k).spec_started(),
            self.spec_prio() == old(k).spec_running(),
            self.spec_prio() < 32,
            ticks >= 1,
        ensures
            final(k).wf(),
            Kernel::frame_unchanged(*old(k), *final(k)),
            final(k).spec_running() == old(k).spec_running(),
            !final(k).spec_tasks().spec_ready().spec_check(self.spec_prio() as u32),
            final(k).spec_tasks().spec_sleeping().spec_check(self.spec_prio() as u32),
            final(k).spec_tasks().spec_sleep_time(self.spec_prio() as u32) == ticks,
            final(k).spec_tasks().spec_used() == old(k).spec_tasks().spec_used(),
            forall|j: u32|
                j < 32 && j != self.spec_prio() ==> TaskList::slot_unchanged(
                    old(k).spec_tasks(),
                    final(k).spec_tasks(),
                    j,
                ),
            Kernel::scheduled(
                old(k).spec_running(),
                final(k).spec_tasks().spec_ready(),
                old(k).spec_next(),
                old(k).spec_switch_pending(),
                final(k).spec_next(),
                final(k).spec_switch_pending(),
            ),
    {
        k.task_sleep(self.prio(), ticks, cs);
    }
}

impl Timer {
    /// Starts this timer's slot counting.
    pub fn start(&self, k: &mut Kernel)
        requires
            old(k).wf(),
            self.spec_id() < 32,
            old(k).spec_timers().spec_used(self.spec_id() as u32),
            old(k).spec_timers().spec_timer(self.spec_id() as u32).spec_cntdwn() >= 1,
        ensures
            final(k).wf(),
            final(k).spec_timers().spec_is_active(self.spec_id() as u32),
            final(k).spec_timers().spec_timers() == old(k).spec_timers().spec_timers(),
            forall|j: u32|
                j < 32 && j != self.spec_id() ==> TimerList::timer_slot_unchanged(
                    old(k).spec_timers(),
                    final(k).spec_timers(),
                    j,
                ),
            final(k).spec_tasks() == old(k).spec_tasks(),
            final(k).spec_sems() == old(k).spec_sems(),
            final(k).spec_running() == old(k).spec_running(),
            final(k).spec_next() == old(k).spec_next(),
            final(k).spec_switch_pending() == old(k).spec_switch_pending(),
            final(k).spec_ticks() == old(k).spec_ticks(),
            final(k).spec_started() == old(k).spec_started(),
    {
        k.start_timer(self.id() as usize);
    }

    /// Stops this timer's slot; it keeps its countdown.
    pub fn stop(&self, k: &mut Kernel)
        requires
            old(k).wf(),
            self.spec_id() < 32,
        ensures
            final(k).wf(),
            !final(k).spec_timers().spec_is_active(self.spec_id() as u32),
            final(k).spec_timers().spec_timers() == old(k).spec_timers().spec_timers(),
            forall|j: u32|
                j < 32 && j != self.spec_id() ==> TimerList::timer_slot_unchanged(
                    old(k).spec_timers(),
                    final(k).spec_timers(),
                    j,
                ),
            final(k).spec_tasks() == old(k).spec_tasks(),
            final(k).spec_sems() == old(k).spec_sems(),
            final(k).spec_running() == old(k).spec_running(),
            final(k).spec_next() == old(k).spec_next(),
            final(k).spec_switch_pending() == old(k).spec_switch_pending(),
            final(k).spec_ticks() == old(k).spec_ticks(),
            final(k).spec_started() == old(k).spec_started(),
    {
        k.stop_timer(self.id() as usize);
    }
}

impl Semaphore {
    /// The running task blocks on the registered semaphore of a slot until
    /// someone releases it.
    pub fn acquire(k: &mut Kernel, sem: usize, prio: usize, cs: CritSect)
        requires
            old(k).wf(),
            old(k).spec_started(),
            sem < 32,
            old(k).spec_sem_registered(sem as u32),
            prio == old(k).spec_running(),
            prio < 32,
        ensures
            final(k).wf(),
            Kernel::sem_acquire_effect(*old(k), *final(k), sem as u32, prio as u32),
    {
        k.sem_acquire(sem, prio, cs);
    }

    /// The running task blocks on the registered semaphore of a slot with a
    /// timeout.
    pub fn wait(k: &mut Kernel, sem: usize, prio: usize, timeout: ms, cs: CritSect)
        requires
            old(k).wf(),
            old(k).spec_started(),
            sem < 32,
            old(k).spec_sem_registered(sem as u32),
            prio == old(k).spec_running(),
            prio < 32,
            timeout.spec_value() >= 1,
        ensures
            final(k).wf(),
            Kernel::sem_wait_effect(
                *old(k),
                *final(k),
                sem as u32,
                prio as u32,
                timeout.spec_as_ticks(),
            ),
    {
        k.sem_wait(sem, prio, timeout, cs);
    }

    /// Releases the registered semaphore of a slot: the highest-priority
    /// waiter, if any, turns ready; with none, nothing changes.
    pub fn release(k: &mut Kernel, sem: usize, cs: CritSect)
        requires
            old(k).wf(),
            old(k).spec_started(),
            sem < 32,
            old(k).spec_sem_registered(sem as u32),
        ensures
            final(k).wf(),
            Kernel::sem_release_effect(*old(k), *final(k), sem as u32),
    {
        k.sem_release(sem, cs);
    }
}

impl Instant {
    /// The current instant, read from the kernel's tick counter.
    pub fn now(k: &Kernel) -> (r: Instant)
        ensures
            r.spec_ticks() == k.spec_ticks(),
    {
        k.now()
    }
}

} // verus!
