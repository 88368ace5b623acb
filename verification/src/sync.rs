//! Synchronization primitives layered on the kernel's scheduler state: the
//! rendezvous barrier and the ownership mutex.  The signaling semaphore
//! itself lives with the kernel, which owns every wait set so that the tick
//! handler can clear a timed-out waiter's bit.

use vstd::prelude::*;

verus! {

use crate::bitvec::AtomicBitVec;
use crate::bitvec::BitVec;
use crate::bitvec::nth_bit;
use crate::kernel::CritSect;
use crate::kernel::Kernel;
use crate::task::TaskList;

/// A one-shot barrier for a preconfigured mask of priorities: tasks arrive
/// one by one and stop, and the arrival that covers the whole mask readies
/// every arrived task in a single critical section.
pub struct Rendezvous {
    mask: AtomicBitVec,
    arrived: AtomicBitVec,
}

impl Rendezvous {
    /// The set of priorities that must meet.
    pub closed spec fn spec_mask(self) -> AtomicBitVec {
        self.mask
    }

    /// The set of priorities that have arrived.
    pub closed spec fn spec_arrived(self) -> AtomicBitVec {
        self.arrived
    }

    /// A rendezvous over the given mask of priorities, with no arrivals.
    pub fn new(mask: u32) -> (r: Rendezvous)
        ensures
            r.spec_mask().spec_raw() == mask,
            forall|j: u32| j < 32 ==> !r.spec_arrived().spec_check(j),
    {
        Rendezvous { mask: AtomicBitVec::init(mask), arrived: AtomicBitVec::new() }
    }

    /// The running task arrives at the barrier.  When every masked priority
    /// has arrived, all arrived tasks turn ready at once and the barrier
    /// empties; otherwise the task stops to wait.
    pub fn meet(&mut self, k: &mut Kernel, prio: usize, cs: CritSect)
        requires
            old(k).wf(),
            old(k).spec_started(),
            prio == old(k).spec_running(),
            prio < 32,
            forall|j: u32|
                j < 32 && #[trigger] old(self).spec_arrived().spec_check(j) ==> old(
                    k,
                ).spec_tasks().spec_used().spec_check(j),
        ensures
            final(k).wf(),
            Kernel::frame_unchanged(*old(k), *final(k)),
            final(k).spec_running() == old(k).spec_running(),
            final(k).spec_tasks().spec_used() == old(k).spec_tasks().spec_used(),
            final(self).spec_mask() == old(self).spec_mask(),
            Kernel::scheduled(
                old(k).spec_running(),
                final(k).spec_tasks().spec_ready(),
                old(k).spec_next(),
                old(k).spec_switch_pending(),
                final(k).spec_next(),
                final(k).spec_switch_pending(),
            ),
            ({
                let joined = old(self).spec_arrived().spec_raw() | (1u32 << prio as u32);
                if (forall|j: u32|
                    j < 32 && old(self).spec_mask().spec_check(j) ==> nth_bit(joined, j)) {
                    &&& (forall|j: u32| j < 32 ==> !final(self).spec_arrived().spec_check(j))
                    &&& (forall|j: u32|
                        j < 32 ==> (final(k).spec_tasks().spec_ready().spec_check(j) <==> (old(
                            k,
                        ).spec_tasks().spec_ready().spec_check(j) || nth_bit(joined, j))))
                    &&& (forall|j: u32|
                        j < 32 ==> (final(k).spec_tasks().spec_sleeping().spec_check(j) <==> (old(
                            k,
                        ).spec_tasks().spec_sleeping().spec_check(j) && !nth_bit(joined, j))))
                    &&& (forall|j: u32|
                        j < 32 && (old(self).spec_arrived().spec_check(j) || j == prio)
                            ==> #[trigger] nth_bit(
                            final(k).spec_tasks().spec_ready().spec_raw(),
                            j,
                        ) && !nth_bit(final(k).spec_tasks().spec_sleeping().spec_raw(), j))
                } else {
                    &&& (forall|j: u32|
                        j < 32 ==> (final(self).spec_arrived().spec_check(j) <==> (j == prio
                            || old(self).spec_arrived().spec_check(j))))
                    &&& !final(k).spec_tasks().spec_ready().spec_check(prio as u32)
                    &&& !final(k).spec_tasks().spec_sleeping().spec_check(prio as u32)
                    &&& (forall|j: u32|
                        j < 32 && j != prio ==> TaskList::slot_unchanged(
                            old(k).spec_tasks(),
                            final(k).spec_tasks(),
                            j,
                        ))
                }
            }),
    {
        let ghost joined: u32 = old(self).spec_arrived().spec_raw() | (1u32 << prio as u32);
        self.arrived.set(prio);
        proof {
            assert(self.spec_arrived().spec_raw() == joined);
        }
        if self.arrived.superset_of(&self.mask) {
            proof {
                assert forall|j: u32|
                    j < 32 && old(self).spec_mask().spec_check(j) implies nth_bit(joined, j) by {
                    assert(self.spec_arrived().spec_check(j));
                }
            }
            let wake = BitVec::init(self.arrived.raw());
            proof {
                assert forall|j: u32|
                    j < 32 && #[trigger] wake.spec_check(j) implies old(
                    k,
                ).spec_tasks().spec_used().spec_check(j) by {
                    assert(self.spec_arrived().spec_check(j));
                    if j != prio {
                        assert(old(self).spec_arrived().spec_check(j));
                    }
                }
            }
            self.arrived.reset();
            k.wake_all(&wake, cs);
            proof {
                assert forall|j: u32|
                    j < 32 implies (#[trigger] nth_bit(
                    k.spec_tasks().spec_ready().spec_raw(),
                    j,
                ) <==> (old(k).spec_tasks().spec_ready().spec_check(j) || nth_bit(
                    joined,
                    j,
                ))) by {
                    assert(wake.spec_check(j) <==> nth_bit(joined, j));
                    assert(k.spec_tasks().spec_ready().spec_check(j) <==> (old(
                        k,
                    ).spec_tasks().spec_ready().spec_check(j) || wake.spec_check(j)));
                }
                assert forall|j: u32|
                    j < 32 implies (#[trigger] nth_bit(
                    k.spec_tasks().spec_sleeping().spec_raw(),
                    j,
                ) <==> (old(k).spec_tasks().spec_sleeping().spec_check(j) && !nth_bit(
                    joined,
                    j,
                ))) by {
                    assert(wake.spec_check(j) <==> nth_bit(joined, j));
                    assert(k.spec_tasks().spec_sleeping().spec_check(j) <==> (old(
                        k,
                    ).spec_tasks().spec_sleeping().spec_check(j) && !wake.spec_check(j)));
                }
                assert forall|j: u32|
                    j < 32 && (old(self).spec_arrived().spec_check(j) || j == prio) implies
                    nth_bit(joined, j) by {
                    crate::bitvec::lemma_set_bit(
                        old(self).spec_arrived().spec_raw(),
                        prio as u32,
                        j,
                    );
                }
            }
        } else {
            proof {
                let w = choose|j: u32|
                    j < 32 && self.spec_mask().spec_check(j) && !self.spec_arrived().spec_check(j);
                assert(old(self).spec_mask().spec_check(w) && !nth_bit(joined, w));
                assert(!(forall|j: u32|
                    j < 32 && old(self).spec_mask().spec_check(j) ==> nth_bit(joined, j)));
            }
            k.task_stop(prio, cs);
        }
    }
}

/// An ownership-guarded resource: a holder field, the guarded value, and a
/// kernel semaphore on which contenders block.  There is no priority
/// inheritance: a low-priority holder can delay higher-priority waiters.
pub struct Mutex<T> {
    locker: Option<usize>,
    resource: T,
    sem: usize,
}

impl<T> Mutex<T> {
    /// The priority holding the mutex, if any.
    pub closed spec fn spec_locker(self) -> Option<usize> {
        self.locker
    }

    /// The guarded value.
    pub closed spec fn spec_resource(self) -> T {
        self.resource
    }

    /// The kernel semaphore slot contenders block on.
    pub closed spec fn spec_sem(self) -> usize {
        self.sem
    }

    /// A free mutex over a value, blocking through the given registered
    /// kernel semaphore.
    pub fn new(value: T, sem: usize) -> (r: Mutex<T>)
        requires
            sem < 32,
        ensures
            r.spec_locker() is None,
            r.spec_resource() == value,
            r.spec_sem() == sem,
    {
        Mutex { locker: None, resource: value, sem }
    }

    /// The running task tries to take the mutex: free, it is taken at once;
    /// held, the task blocks on the mutex's semaphore and the caller retries
    /// after resumption.  Returns whether the mutex was taken.
    pub fn acquire(&mut self, k: &mut Kernel, prio: usize, cs: CritSect) -> (got: bool)
        requires
            old(k).wf(),
            old(k).spec_started(),
            prio == old(k).spec_running(),
            prio < 32,
            old(self).spec_sem() < 32,
            old(k).spec_sem_registered(old(self).spec_sem() as u32),
        ensures
            final(k).wf(),
            final(self).spec_sem() == old(self).spec_sem(),
            final(self).spec_resource() == old(self).spec_resource(),
            final(k).spec_running() == old(k).spec_running(),
            got == (old(self).spec_locker() is None),
            got ==> {
                &&& final(self).spec_locker() == Some(prio)
                &&& *final(k) == *old(k)
            },
            !got ==> {
                &&& final(self).spec_locker() == old(self).spec_locker()
                &&& !final(k).spec_tasks().spec_ready().spec_check(prio as u32)
                &&& !final(k).spec_tasks().spec_sleeping().spec_check(prio as u32)
                &&& forall|p: u32|
                    p < 32 ==> (#[trigger] Kernel::sem_waiter_of(
                        final(k).spec_sems(),
                        old(self).spec_sem() as u32,
                        p,
                    ) <==> (p == prio || Kernel::sem_waiter_of(
                        old(k).spec_sems(),
                        old(self).spec_sem() as u32,
                        p,
                    )))
            },
    {
        if self.locker.is_some() {
            k.sem_acquire(self.sem, prio, cs);
            false
        } else {
            self.locker = Some(prio);
            cs.deactivate();
            true
        }
    }

    /// Reads the guarded value.
    pub fn resource(&self) -> (r: &T)
        ensures
            *r == self.spec_resource(),
    {
        &self.resource
    }

    /// Opens the guarded value for mutation; only the holder may.
    pub fn resource_mut(&mut self, prio: usize) -> (r: &mut T)
        requires
            old(self).spec_locker() == Some(prio),
        ensures
            *r == old(self).spec_resource(),
            final(self).spec_resource() == *final(r),
            final(self).spec_locker() == old(self).spec_locker(),
            final(self).spec_sem() == old(self).spec_sem(),
    {
        &mut self.resource
    }

    /// The running task releases the mutex.  Only the recorded holder's
    /// release has effect: it clears the holder and signals one waiter.
    pub fn release(&mut self, k: &mut Kernel, prio: usize, cs: CritSect)
        requires
            old(k).wf(),
            old(k).spec_started(),
            old(self).spec_sem() < 32,
            old(k).spec_sem_registered(old(self).spec_sem() as u32),
        ensures
            final(k).wf(),
            final(self).spec_sem() == old(self).spec_sem(),
            final(self).spec_resource() == old(self).spec_resource(),
            old(self).spec_locker() != Some(prio) ==> final(self).spec_locker() == old(
                self,
            ).spec_locker() && *final(k) == *old(k),
            old(self).spec_locker() == Some(prio) ==> final(self).spec_locker() is None
                && Kernel::sem_release_effect(*old(k), *final(k), old(self).spec_sem() as u32),
    {
        let held = match self.locker {
            Some(p) => p == prio,
            None => false,
        };
        if held {
            self.locker = None;
            k.sem_release(self.sem, cs);
        } else {
            cs.deactivate();
        }
    }
}

} // verus!
