//! Data-stream primitives: the bounded `Queue` and the batch-oriented
//! `StreamBuffer`, both ring buffers of by-copy elements with blocking,
//! timed and dropping endpoints.  The blocking endpoints suspend the running
//! task through a kernel semaphore; one call performs one step and reports
//! whether the element moved or the task was suspended, and the embedding
//! retries after resumption: the blocking loop belongs to the task body.

use vstd::prelude::*;

verus! {

use crate::kernel::CritSect;
use crate::kernel::Kernel;
use crate::kernel::Semaphore;
use crate::time::ms;

/// The slot that the `i`-th element from the tail occupies in a ring of `n`
/// slots.
pub open spec fn ring_index(tail: int, i: int, n: int) -> int {
    if tail + i < n {
        tail + i
    } else {
        tail + i - n
    }
}

/// The ring position is the modular sum: the form the ring invariant is
/// usually quoted in.
pub proof fn lemma_ring_index_is_mod(tail: int, i: int, n: int)
    requires
        0 <= tail < n,
        0 <= i <= n,
    ensures
        ring_index(tail, i, n) == (tail + i) % n,
{
    if tail + i < n {
        assert((tail + i) % n == tail + i) by (nonlinear_arith)
            requires
                0 <= tail + i < n,
        ;
    } else {
        assert((tail + i) % n == tail + i - n) by (nonlinear_arith)
            requires
                n <= tail + i < 2 * n,
        ;
    }
}

/// One appended element moves the ring position one slot around: with the
/// tail fixed, the head after an append is one ring step past the head
/// before it.  Together with the well-formedness invariant and the
/// tail-unchanged clauses of the push and write operations, this gives the
/// classic reading: the element lands in the slot the old head named, and
/// the head advances modulo the capacity.
pub proof fn lemma_ring_step(tail: int, cnt: int, n: int)
    requires
        0 <= tail < n,
        0 <= cnt,
        cnt + 1 <= n,
    ensures
        ring_index(tail, cnt + 1, n) == (ring_index(tail, cnt, n) + 1) % n,
{
    let h = ring_index(tail, cnt, n);
    if h + 1 < n {
        assert((h + 1) % n == h + 1) by (nonlinear_arith)
            requires
                0 <= h + 1 < n,
        ;
    } else {
        assert(h == n - 1);
        assert(n % n == 0) by (nonlinear_arith)
            requires
                n >= 1,
        ;
    }
}

/// The ring position determines the tail: two in-range tails that place the
/// same element count at the same head are the same tail.  Together with
/// the well-formedness invariant and the head-unchanged clauses of the pop
/// and read operations, this gives the classic reading: the tail advances
/// modulo the capacity by the number of elements taken.
pub proof fn lemma_ring_position_unique(x: int, y: int, c: int, n: int)
    requires
        0 <= x < n,
        0 <= y < n,
        0 <= c <= n,
        ring_index(x, c, n) == ring_index(y, c, n),
    ensures
        x == y,
{
}

/// A bounded ring buffer of by-copy elements with a blocking, a timed and a
/// dropping endpoint on each side.  Pushers blocked on a full queue wait on
/// the push semaphore; poppers blocked on an empty one wait on the pop
/// semaphore; each successful transfer signals the opposite side.
pub struct Queue<T, const N: usize> {
    push_sem: usize,
    pop_sem: usize,
    head: usize,
    tail: usize,
    cnt: usize,
    buff: Vec<Option<T>>,
    watermark: usize,
}

impl<T: Copy, const N: usize> Queue<T, N> {
    /// The kernel semaphore blocked pushers wait on.
    pub closed spec fn spec_push_sem(self) -> usize {
        self.push_sem
    }

    /// The kernel semaphore blocked poppers wait on.
    pub closed spec fn spec_pop_sem(self) -> usize {
        self.pop_sem
    }

    /// The slot the next pushed element goes to.
    pub closed spec fn spec_head(self) -> usize {
        self.head
    }

    /// The slot the next popped element comes from.
    pub closed spec fn spec_tail(self) -> usize {
        self.tail
    }

    /// The number of queued elements.
    pub closed spec fn spec_cnt(self) -> usize {
        self.cnt
    }

    /// The highest element count ever observed.
    pub closed spec fn spec_watermark(self) -> usize {
        self.watermark
    }

    /// The ring storage.
    pub closed spec fn spec_buff(self) -> Seq<Option<T>> {
        self.buff@
    }

    /// The queued elements in arrival order.
    pub open spec fn spec_contents(self) -> Seq<T> {
        Seq::new(
            self.spec_cnt() as nat,
            |i: int| self.spec_buff()[ring_index(self.spec_tail() as int, i, N as int)]->0,
        )
    }

    /// The ring invariants: indices in range, the element count within the
    /// capacity, the head one ring-step past the queued span, and a value in
    /// every queued slot.
    pub open spec fn wf(self) -> bool {
        &&& N >= 1
        &&& self.spec_buff().len() == N
        &&& self.spec_head() < N
        &&& self.spec_tail() < N
        &&& self.spec_cnt() <= N
        &&& self.spec_head() == ring_index(self.spec_tail() as int, self.spec_cnt() as int, N as int)
        &&& (forall|i: int|
            0 <= i < self.spec_cnt() ==> self.spec_buff()[#[trigger] ring_index(
                self.spec_tail() as int,
                i,
                N as int,
            )] is Some)
        &&& self.spec_push_sem() < 32
        &&& self.spec_pop_sem() < 32
        &&& self.spec_watermark() <= N
        &&& self.spec_cnt() <= self.spec_watermark()
    }

    /// The ring position invariant in its modular form: the tail plus the
    /// element count, reduced modulo the capacity, is the head.
    pub proof fn lemma_ring_invariant(self)
        requires
            self.wf(),
        ensures
            self.spec_head() == (self.spec_tail() + self.spec_cnt()) % (N as int),
    {
        lemma_ring_index_is_mod(self.spec_tail() as int, self.spec_cnt() as int, N as int);
    }

    /// An empty queue whose endpoints block through two freshly registered
    /// kernel semaphores; refuses when the registry cannot hold two more.
    /// The registry has no removal, so a refusal after the first
    /// registration leaves that one slot taken.
    pub fn new(k: &mut Kernel) -> (r: Result<Queue<T, N>, ()>)
        requires
            old(k).wf(),
            N >= 1,
        ensures
            final(k).wf(),
            Kernel::sems_preserved(*old(k), *final(k)),
            final(k).spec_tasks() == old(k).spec_tasks(),
            final(k).spec_timers() == old(k).spec_timers(),
            final(k).spec_running() == old(k).spec_running(),
            final(k).spec_started() == old(k).spec_started(),
            final(k).spec_ticks() == old(k).spec_ticks(),
            match r {
                Ok(q) => {
                    &&& q.wf()
                    &&& q.spec_cnt() == 0
                    &&& q.spec_head() == 0
                    &&& q.spec_tail() == 0
                    &&& q.spec_watermark() == 0
                    &&& q.spec_contents() == Seq::<T>::empty()
                    &&& final(k).spec_sem_registered(q.spec_push_sem() as u32)
                    &&& final(k).spec_sem_registered(q.spec_pop_sem() as u32)
                    &&& q.spec_push_sem() != q.spec_pop_sem()
                    &&& (forall|p: u32|
                        p < 32 ==> !#[trigger] Kernel::sem_waiter_of(
                            final(k).spec_sems(),
                            q.spec_push_sem() as u32,
                            p,
                        ))
                    &&& (forall|p: u32|
                        p < 32 ==> !#[trigger] Kernel::sem_waiter_of(
                            final(k).spec_sems(),
                            q.spec_pop_sem() as u32,
                            p,
                        ))
                },
                Err(()) => true,
            },
            r is Err <==> Kernel::at_most_one_sem_free(old(k).spec_sems()),
            r is Err ==> (forall|t: u32|
                t < 32 ==> #[trigger] Kernel::sem_registered_of(final(k).spec_sems(), t)
                    == Kernel::sem_registered_of(old(k).spec_sems(), t)) && (forall|t: u32|
                t < 32 ==> #[trigger] final(k).spec_sems().spec_get(t) == old(
                    k,
                ).spec_sems().spec_get(t)),
    {
        let push_sem = match k.add_semaphore(Semaphore::new()) {
            Ok(s) => s,
            Err(_) => {
                proof {
                    assert forall|u: u32, v: u32|
                        u < 32 && v < 32 && u != v implies #[trigger] Kernel::sem_registered_of(
                        old(k).spec_sems(),
                        u,
                    ) || #[trigger] Kernel::sem_registered_of(old(k).spec_sems(), v) by {}
                }
                return Err(());
            },
        };
        let ghost mid = *k;
        let pop_sem = match k.add_semaphore(Semaphore::new()) {
            Ok(s) => s,
            Err(_) => {
                proof {
                    assert forall|u: u32, v: u32|
                        u < 32 && v < 32 && u != v implies #[trigger] Kernel::sem_registered_of(
                        old(k).spec_sems(),
                        u,
                    ) || #[trigger] Kernel::sem_registered_of(old(k).spec_sems(), v) by {
                        if u != push_sem {
                            assert(Kernel::sem_registered_of(mid.spec_sems(), u));
                            assert(Kernel::sem_registered_of(old(k).spec_sems(), u));
                        } else {
                            assert(Kernel::sem_registered_of(mid.spec_sems(), v));
                            assert(Kernel::sem_registered_of(old(k).spec_sems(), v));
                        }
                    }
                    assert forall|p: u32|
                        p < 32 implies !#[trigger] Kernel::sem_waiter_of(
                        k.spec_sems(),
                        push_sem as u32,
                        p,
                    ) by {
                        assert(!Kernel::sem_waiter_of(mid.spec_sems(), push_sem as u32, p));
                    }
                }
                let rollback = k.remove_semaphore(push_sem);
                proof {
                    assert(rollback is Ok);
                    assert(old(k).spec_sems().spec_get(push_sem as u32) is None);
                    assert forall|t: u32|
                        t < 32 implies #[trigger] k.spec_sems().spec_get(t) == old(
                        k,
                    ).spec_sems().spec_get(t) by {
                        if t != push_sem {
                            assert(mid.spec_sems().spec_get(t) == old(k).spec_sems().spec_get(
                                t,
                            ));
                        }
                    }
                    assert forall|t: u32|
                        t < 32 implies #[trigger] Kernel::sem_registered_of(k.spec_sems(), t)
                        == Kernel::sem_registered_of(old(k).spec_sems(), t) by {
                        if t != push_sem {
                            assert(Kernel::sem_registered_of(mid.spec_sems(), t)
                                == Kernel::sem_registered_of(old(k).spec_sems(), t));
                        }
                    }
                }
                return Err(());
            },
        };
        proof {
            assert(!Kernel::sem_registered_of(old(k).spec_sems(), push_sem as u32));
            assert(!Kernel::sem_registered_of(mid.spec_sems(), pop_sem as u32));
            assert(push_sem != pop_sem);
            assert(!Kernel::sem_registered_of(old(k).spec_sems(), pop_sem as u32));
            assert(!Kernel::at_most_one_sem_free(old(k).spec_sems()));
            assert forall|p: u32|
                p < 32 implies !#[trigger] Kernel::sem_waiter_of(
                k.spec_sems(),
                push_sem as u32,
                p,
            ) by {
                assert(!Kernel::sem_waiter_of(mid.spec_sems(), push_sem as u32, p));
                assert(k.spec_sems().spec_get(push_sem as u32) == mid.spec_sems().spec_get(
                    push_sem as u32,
                ));
            }
        }
        let mut buff: Vec<Option<T>> = Vec::new();
        let mut i: usize = 0;
        while i < N
            invariant
                i <= N,
                buff@.len() == i,
            decreases N - i,
        {
            buff.push(None);
            i = i + 1;
        }
        let q = Queue {
            push_sem,
            pop_sem,
            head: 0,
            tail: 0,
            cnt: 0,
            buff,
            watermark: 0,
        };
        proof {
            assert(q.spec_contents() =~= Seq::<T>::empty());
        }
        Ok(q)
    }

    /// Appends an element at the head.  The watermark keeps the highest
    /// count ever reached and never decreases.
    fn enqueue(&mut self, data: T)
        requires
            old(self).wf(),
            old(self).spec_cnt() < N,
        ensures
            final(self).wf(),
            final(self).spec_cnt() == old(self).spec_cnt() + 1,
            final(self).spec_contents() == old(self).spec_contents().push(data),
            final(self).spec_tail() == old(self).spec_tail(),
            final(self).spec_push_sem() == old(self).spec_push_sem(),
            final(self).spec_pop_sem() == old(self).spec_pop_sem(),
            final(self).spec_watermark() >= old(self).spec_watermark(),
            final(self).spec_watermark() == if old(self).spec_cnt() + 1 > old(
                self,
            ).spec_watermark() {
                old(self).spec_cnt() + 1
            } else {
                old(self).spec_watermark() as int
            },
    {
        let mut end = self.head;
        self.buff.set(end, Some(data));
        end = end + 1;
        self.cnt = self.cnt + 1;
        if self.watermark < self.cnt {
            self.watermark = self.cnt;
        }
        if end >= N {
            end = 0;
        }
        self.head = end;
        proof {
            assert forall|i: int|
                0 <= i < self.spec_cnt() implies self.spec_buff()[#[trigger] ring_index(
                self.spec_tail() as int,
                i,
                N as int,
            )] is Some by {
                if i < self.spec_cnt() - 1 {
                    assert(ring_index(self.spec_tail() as int, i, N as int) != old(
                        self,
                    ).spec_head());
                    assert(old(self).spec_buff()[ring_index(
                        self.spec_tail() as int,
                        i,
                        N as int,
                    )] is Some);
                }
            }
            assert(final(self).spec_contents() =~= old(self).spec_contents().push(data));
        }
    }

    /// Takes the oldest element from the tail.
    fn dequeue(&mut self) -> (r: T)
        requires
            old(self).wf(),
            old(self).spec_cnt() > 0,
        ensures
            final(self).wf(),
            final(self).spec_cnt() == old(self).spec_cnt() - 1,
            r == old(self).spec_contents()[0],
            final(self).spec_contents() == old(self).spec_contents().subrange(
                1,
                old(self).spec_cnt() as int,
            ),
            final(self).spec_head() == old(self).spec_head(),
            final(self).spec_push_sem() == old(self).spec_push_sem(),
            final(self).spec_pop_sem() == old(self).spec_pop_sem(),
            final(self).spec_watermark() == old(self).spec_watermark(),
    {
        let mut start = self.tail;
        let slot = self.buff[start];
        let res = match slot {
            Some(v) => v,
            None => {
                proof {
                    assert(old(self).spec_buff()[ring_index(
                        old(self).spec_tail() as int,
                        0,
                        N as int,
                    )] is Some);
                    assert(false);
                }
                return self.buff[0].unwrap();
            },
        };
        start = start + 1;
        if start >= N {
            start = 0;
        }
        self.tail = start;
        self.cnt = self.cnt - 1;
        proof {
            assert forall|i: int|
                0 <= i < self.spec_cnt() implies self.spec_buff()[#[trigger] ring_index(
                self.spec_tail() as int,
                i,
                N as int,
            )] is Some by {
                assert(ring_index(self.spec_tail() as int, i, N as int) == ring_index(
                    old(self).spec_tail() as int,
                    i + 1,
                    N as int,
                ));
            }
            assert(final(self).spec_contents() =~= old(self).spec_contents().subrange(
                1,
                old(self).spec_cnt() as int,
            ));
        }
        res
    }

    /// Adds an element, blocking when the queue is full: the element is
    /// enqueued and a blocked popper signalled, or the task suspends on the
    /// push semaphore and the embedding retries after resumption.  Returns
    /// whether the element was enqueued.
    pub fn push(&mut self, k: &mut Kernel, prio: usize, data: T, cs: CritSect) -> (pushed: bool)
        requires
            old(self).wf(),
            old(k).wf(),
            old(k).spec_started(),
            prio == old(k).spec_running(),
            prio < 32,
            old(k).spec_sem_registered(old(self).spec_push_sem() as u32),
            old(k).spec_sem_registered(old(self).spec_pop_sem() as u32),
        ensures
            final(self).wf(),
            final(k).wf(),
            final(self).spec_push_sem() == old(self).spec_push_sem(),
            final(self).spec_pop_sem() == old(self).spec_pop_sem(),
            pushed == (old(self).spec_cnt() < N),
            pushed ==> {
                &&& final(self).spec_contents() == old(self).spec_contents().push(data)
                &&& final(self).spec_tail() == old(self).spec_tail()
                &&& final(self).spec_watermark() >= old(self).spec_watermark()
                &&& Kernel::sem_release_effect(
                    *old(k),
                    *final(k),
                    old(self).spec_pop_sem() as u32,
                )
            },
            !pushed ==> {
                &&& *final(self) == *old(self)
                &&& Kernel::sem_acquire_effect(
                    *old(k),
                    *final(k),
                    old(self).spec_push_sem() as u32,
                    prio as u32,
                )
            },
    {
        if self.cnt >= N {
            k.sem_acquire(self.push_sem, prio, cs);
            false
        } else {
            self.enqueue(data);
            k.sem_release(self.pop_sem, cs);
            true
        }
    }

    /// Adds an element, waiting with a timeout when the queue is full: as
    /// `push`, but a suspended pusher wakes by itself when the timeout
    /// expires, and `sem_wait_outcome` then reports the failure.
    pub fn push_timeout(&mut self, k: &mut Kernel, prio: usize, data: T, timeout: ms, cs: CritSect) -> (pushed: bool)
        requires
            old(self).wf(),
            old(k).wf(),
            old(k).spec_started(),
            prio == old(k).spec_running(),
            prio < 32,
            old(k).spec_sem_registered(old(self).spec_push_sem() as u32),
            old(k).spec_sem_registered(old(self).spec_pop_sem() as u32),
            timeout.spec_value() >= 1,
        ensures
            final(self).wf(),
            final(k).wf(),
            final(self).spec_push_sem() == old(self).spec_push_sem(),
            final(self).spec_pop_sem() == old(self).spec_pop_sem(),
            pushed == (old(self).spec_cnt() < N),
            pushed ==> {
                &&& final(self).spec_contents() == old(self).spec_contents().push(data)
                &&& final(self).spec_tail() == old(self).spec_tail()
                &&& final(self).spec_watermark() >= old(self).spec_watermark()
                &&& Kernel::sem_release_effect(
                    *old(k),
                    *final(k),
                    old(self).spec_pop_sem() as u32,
                )
            },
            !pushed ==> {
                &&& *final(self) == *old(self)
                &&& Kernel::sem_wait_effect(
                    *old(k),
                    *final(k),
                    old(self).spec_push_sem() as u32,
                    prio as u32,
                    timeout.spec_as_ticks(),
                )
            },
    {
        if self.cnt >= N {
            k.sem_wait(self.push_sem, prio, timeout, cs);
            false
        } else {
            self.enqueue(data);
            k.sem_release(self.pop_sem, cs);
            true
        }
    }

    /// Adds an element only when space is available; full, it refuses and
    /// discards.  Safe from any context: it never suspends the caller.
    pub fn push_dropping(&mut self, k: &mut Kernel, data: T, cs: CritSect) -> (r: Result<(), ()>)
        requires
            old(self).wf(),
            old(k).wf(),
            old(k).spec_started(),
            old(k).spec_sem_registered(old(self).spec_pop_sem() as u32),
        ensures
            final(self).wf(),
            final(k).wf(),
            final(self).spec_push_sem() == old(self).spec_push_sem(),
            final(self).spec_pop_sem() == old(self).spec_pop_sem(),
            r is Ok <==> old(self).spec_cnt() < N,
            r is Ok ==> {
                &&& final(self).spec_contents() == old(self).spec_contents().push(data)
                &&& final(self).spec_tail() == old(self).spec_tail()
                &&& final(self).spec_watermark() >= old(self).spec_watermark()
                &&& Kernel::sem_release_effect(
                    *old(k),
                    *final(k),
                    old(self).spec_pop_sem() as u32,
                )
            },
            r is Err ==> *final(self) == *old(self) && *final(k) == *old(k),
    {
        if self.cnt >= N {
            cs.deactivate();
            return Err(());
        }
        self.enqueue(data);
        k.sem_release(self.pop_sem, cs);
        Ok(())
    }

    /// Takes the oldest element, blocking when the queue is empty: the
    /// element is dequeued and a blocked pusher signalled, or the task
    /// suspends on the pop semaphore and the embedding retries after
    /// resumption.
    pub fn pop(&mut self, k: &mut Kernel, prio: usize, cs: CritSect) -> (r: Option<T>)
        requires
            old(self).wf(),
            old(k).wf(),
            old(k).spec_started(),
            prio == old(k).spec_running(),
            prio < 32,
            old(k).spec_sem_registered(old(self).spec_push_sem() as u32),
            old(k).spec_sem_registered(old(self).spec_pop_sem() as u32),
        ensures
            final(self).wf(),
            final(k).wf(),
            final(self).spec_push_sem() == old(self).spec_push_sem(),
            final(self).spec_pop_sem() == old(self).spec_pop_sem(),
            r is Some <==> old(self).spec_cnt() > 0,
            r matches Some(v) ==> {
                &&& v == old(self).spec_contents()[0]
                &&& final(self).spec_contents() == old(self).spec_contents().subrange(
                    1,
                    old(self).spec_cnt() as int,
                )
                &&& final(self).spec_head() == old(self).spec_head()
                &&& final(self).spec_watermark() == old(self).spec_watermark()
                &&& Kernel::sem_release_effect(
                    *old(k),
                    *final(k),
                    old(self).spec_push_sem() as u32,
                )
            },
            r is None ==> {
                &&& *final(self) == *old(self)
                &&& Kernel::sem_acquire_effect(
                    *old(k),
                    *final(k),
                    old(self).spec_pop_sem() as u32,
                    prio as u32,
                )
            },
    {
        if self.cnt == 0 {
            k.sem_acquire(self.pop_sem, prio, cs);
            None
        } else {
            let v = self.dequeue();
            k.sem_release(self.push_sem, cs);
            Some(v)
        }
    }

    /// Takes the oldest element, waiting with a timeout when the queue is
    /// empty: as `pop`, but a suspended popper wakes by itself when the
    /// timeout expires, and `sem_wait_outcome` then reports the failure.
    pub fn pop_timeout(&mut self, k: &mut Kernel, prio: usize, timeout: ms, cs: CritSect) -> (r: Option<T>)
        requires
            old(self).wf(),
            old(k).wf(),
            old(k).spec_started(),
            prio == old(k).spec_running(),
            prio < 32,
            old(k).spec_sem_registered(old(self).spec_push_sem() as u32),
            old(k).spec_sem_registered(old(self).spec_pop_sem() as u32),
            timeout.spec_value() >= 1,
        ensures
            final(self).wf(),
            final(k).wf(),
            final(self).spec_push_sem() == old(self).spec_push_sem(),
            final(self).spec_pop_sem() == old(self).spec_pop_sem(),
            r is Some <==> old(self).spec_cnt() > 0,
            r matches Some(v) ==> {
                &&& v == old(self).spec_contents()[0]
                &&& final(self).spec_contents() == old(self).spec_contents().subrange(
                    1,
                    old(self).spec_cnt() as int,
                )
                &&& final(self).spec_head() == old(self).spec_head()
                &&& final(self).spec_watermark() == old(self).spec_watermark()
                &&& Kernel::sem_release_effect(
                    *old(k),
                    *final(k),
                    old(self).spec_push_sem() as u32,
                )
            },
            r is None ==> {
                &&& *final(self) == *old(self)
                &&& Kernel::sem_wait_effect(
                    *old(k),
                    *final(k),
                    old(self).spec_pop_sem() as u32,
                    prio as u32,
                    timeout.spec_as_ticks(),
                )
            },
    {
        if self.cnt == 0 {
            k.sem_wait(self.pop_sem, prio, timeout, cs);
            None
        } else {
            let v = self.dequeue();
            k.sem_release(self.push_sem, cs);
            Some(v)
        }
    }

    /// Takes the oldest element only when one is available; empty, it
    /// refuses.  Safe from any context: it never suspends the caller.
    pub fn pop_available(&mut self, k: &mut Kernel, cs: CritSect) -> (r: Option<T>)
        requires
            old(self).wf(),
            old(k).wf(),
            old(k).spec_started(),
            old(k).spec_sem_registered(old(self).spec_push_sem() as u32),
        ensures
            final(self).wf(),
            final(k).wf(),
            final(self).spec_push_sem() == old(self).spec_push_sem(),
            final(self).spec_pop_sem() == old(self).spec_pop_sem(),
            r is Some <==> old(self).spec_cnt() > 0,
            r matches Some(v) ==> {
                &&& v == old(self).spec_contents()[0]
                &&& final(self).spec_contents() == old(self).spec_contents().subrange(
                    1,
                    old(self).spec_cnt() as int,
                )
                &&& final(self).spec_head() == old(self).spec_head()
                &&& final(self).spec_watermark() == old(self).spec_watermark()
                &&& Kernel::sem_release_effect(
                    *old(k),
                    *final(k),
                    old(self).spec_push_sem() as u32,
                )
            },
            r is None ==> *final(self) == *old(self) && *final(k) == *old(k),
    {
        if self.cnt == 0 {
            cs.deactivate();
            return None;
        }
        let v = self.dequeue();
        k.sem_release(self.push_sem, cs);
        Some(v)
    }

    /// The number of queued elements.
    pub fn count(&self) -> (r: usize)
        ensures
            r == self.spec_cnt(),
    {
        self.cnt
    }

    /// The highest element count ever observed.
    pub fn watermark(&self) -> (r: usize)
        ensures
            r == self.spec_watermark(),
    {
        self.watermark
    }

    /// Empties the queue; the watermark keeps its record.
    pub fn clear(&mut self, cs: CritSect)
        requires
            old(self).wf(),
        ensures
            final(self).wf(),
            final(self).spec_cnt() == 0,
            final(self).spec_head() == 0,
            final(self).spec_tail() == 0,
            final(self).spec_contents() == Seq::<T>::empty(),
            final(self).spec_watermark() == old(self).spec_watermark(),
            final(self).spec_push_sem() == old(self).spec_push_sem(),
            final(self).spec_pop_sem() == old(self).spec_pop_sem(),
    {
        self.tail = 0;
        self.head = 0;
        self.cnt = 0;
        cs.deactivate();
        proof {
            assert(final(self).spec_contents() =~= Seq::<T>::empty());
        }
    }
}

/// The first-in-first-out law at the level of queue contents: an element
/// pushed onto an empty queue is exactly what the next pop returns, and the
/// queue is empty again afterwards.  The `push` and `pop` contracts carry
/// this to the operations themselves: `push` appends to the contents and
/// `pop` takes the front.
pub proof fn lemma_queue_fifo<T>(s: Seq<T>, v: T)
    requires
        s.len() == 0,
    ensures
        s.push(v)[0] == v,
        s.push(v).subrange(1, s.push(v).len() as int) =~= Seq::<T>::empty(),
{
}

/// A batch-oriented ring buffer: writers copy slices in, readers drain
/// slices out, and a trigger level `TRG` keeps a blocked reader asleep until
/// at least `TRG` elements have accumulated.  Writers blocked on a full
/// buffer wait on the write semaphore; readers wait on the read semaphore,
/// which is signalled only when the element count reaches the trigger.
pub struct StreamBuffer<T, const N: usize, const TRG: usize> {
    write_sem: usize,
    read_sem: usize,
    head: usize,
    tail: usize,
    cnt: usize,
    buff: Vec<Option<T>>,
    watermark: usize,
}

impl<T: Copy, const N: usize, const TRG: usize> StreamBuffer<T, N, TRG> {
    /// The kernel semaphore blocked writers wait on.
    pub closed spec fn spec_write_sem(self) -> usize {
        self.write_sem
    }

    /// The kernel semaphore blocked readers wait on.
    pub closed spec fn spec_read_sem(self) -> usize {
        self.read_sem
    }

    /// The slot the next written element goes to.
    pub closed spec fn spec_head(self) -> usize {
        self.head
    }

    /// The slot the next read element comes from.
    pub closed spec fn spec_tail(self) -> usize {
        self.tail
    }

    /// The number of buffered elements.
    pub closed spec fn spec_cnt(self) -> usize {
        self.cnt
    }

    /// The highest element count ever observed.
    pub closed spec fn spec_watermark(self) -> usize {
        self.watermark
    }

    /// The ring storage.
    pub closed spec fn spec_buff(self) -> Seq<Option<T>> {
        self.buff@
    }

    /// The buffered elements in arrival order.
    pub open spec fn spec_contents(self) -> Seq<T> {
        Seq::new(
            self.spec_cnt() as nat,
            |i: int| self.spec_buff()[ring_index(self.spec_tail() as int, i, N as int)]->0,
        )
    }

    /// The ring invariants, as for the queue, plus a trigger level between
    /// one and the capacity.
    pub open spec fn wf(self) -> bool {
        &&& N >= 1
        &&& 1 <= TRG <= N
        &&& self.spec_buff().len() == N
        &&& self.spec_head() < N
        &&& self.spec_tail() < N
        &&& self.spec_cnt() <= N
        &&& self.spec_head() == ring_index(self.spec_tail() as int, self.spec_cnt() as int, N as int)
        &&& (forall|i: int|
            0 <= i < self.spec_cnt() ==> self.spec_buff()[#[trigger] ring_index(
                self.spec_tail() as int,
                i,
                N as int,
            )] is Some)
        &&& self.spec_write_sem() < 32
        &&& self.spec_read_sem() < 32
        &&& self.spec_watermark() <= N
        &&& self.spec_cnt() <= self.spec_watermark()
    }

    /// An empty stream buffer over two freshly registered kernel
    /// semaphores; the trigger must lie between one and the capacity.  The
    /// registry has no removal, so a refusal after the first registration
    /// leaves that one slot taken.
    pub fn new(k: &mut Kernel) -> (r: Result<StreamBuffer<T, N, TRG>, ()>)
        requires
            old(k).wf(),
            N >= 1,
            1 <= TRG <= N,
        ensures
            final(k).wf(),
            Kernel::sems_preserved(*old(k), *final(k)),
            final(k).spec_tasks() == old(k).spec_tasks(),
            final(k).spec_timers() == old(k).spec_timers(),
            final(k).spec_running() == old(k).spec_running(),
            final(k).spec_started() == old(k).spec_started(),
            final(k).spec_ticks() == old(k).spec_ticks(),
            match r {
                Ok(q) => {
                    &&& q.wf()
                    &&& q.spec_cnt() == 0
                    &&& q.spec_head() == 0
                    &&& q.spec_tail() == 0
                    &&& q.spec_watermark() == 0
                    &&& q.spec_contents() == Seq::<T>::empty()
                    &&& final(k).spec_sem_registered(q.spec_write_sem() as u32)
                    &&& final(k).spec_sem_registered(q.spec_read_sem() as u32)
                    &&& q.spec_write_sem() != q.spec_read_sem()
                    &&& (forall|p: u32|
                        p < 32 ==> !#[trigger] Kernel::sem_waiter_of(
                            final(k).spec_sems(),
                            q.spec_write_sem() as u32,
                            p,
                        ))
                    &&& (forall|p: u32|
                        p < 32 ==> !#[trigger] Kernel::sem_waiter_of(
                            final(k).spec_sems(),
                            q.spec_read_sem() as u32,
                            p,
                        ))
                },
                Err(()) => true,
            },
            r is Err <==> Kernel::at_most_one_sem_free(old(k).spec_sems()),
            r is Err ==> (forall|t: u32|
                t < 32 ==> #[trigger] Kernel::sem_registered_of(final(k).spec_sems(), t)
                    == Kernel::sem_registered_of(old(k).spec_sems(), t)) && (forall|t: u32|
                t < 32 ==> #[trigger] final(k).spec_sems().spec_get(t) == old(
                    k,
                ).spec_sems().spec_get(t)),
    {
        let write_sem = match k.add_semaphore(Semaphore::new()) {
            Ok(s) => s,
            Err(_) => {
                proof {
                    assert forall|u: u32, v: u32|
                        u < 32 && v < 32 && u != v implies #[trigger] Kernel::sem_registered_of(
                        old(k).spec_sems(),
                        u,
                    ) || #[trigger] Kernel::sem_registered_of(old(k).spec_sems(), v) by {}
                }
                return Err(());
            },
        };
        let ghost mid = *k;
        let read_sem = match k.add_semaphore(Semaphore::new()) {
            Ok(s) => s,
            Err(_) => {
                proof {
                    assert forall|u: u32, v: u32|
                        u < 32 && v < 32 && u != v implies #[trigger] Kernel::sem_registered_of(
                        old(k).spec_sems(),
                        u,
                    ) || #[trigger] Kernel::sem_registered_of(old(k).spec_sems(), v) by {
                        if u != write_sem {
                            assert(Kernel::sem_registered_of(mid.spec_sems(), u));
                            assert(Kernel::sem_registered_of(old(k).spec_sems(), u));
                        } else {
                            assert(Kernel::sem_registered_of(mid.spec_sems(), v));
                            assert(Kernel::sem_registered_of(old(k).spec_sems(), v));
                        }
                    }
                    assert forall|p: u32|
                        p < 32 implies !#[trigger] Kernel::sem_waiter_of(
                        k.spec_sems(),
                        write_sem as u32,
                        p,
                    ) by {
                        assert(!Kernel::sem_waiter_of(mid.spec_sems(), write_sem as u32, p));
                    }
                }
                let rollback = k.remove_semaphore(write_sem);
                proof {
                    assert(rollback is Ok);
                    assert(old(k).spec_sems().spec_get(write_sem as u32) is None);
                    assert forall|t: u32|
                        t < 32 implies #[trigger] k.spec_sems().spec_get(t) == old(
                        k,
                    ).spec_sems().spec_get(t) by {
                        if t != write_sem {
                            assert(mid.spec_sems().spec_get(t) == old(k).spec_sems().spec_get(
                                t,
                            ));
                        }
                    }
                    assert forall|t: u32|
                        t < 32 implies #[trigger] Kernel::sem_registered_of(k.spec_sems(), t)
                        == Kernel::sem_registered_of(old(k).spec_sems(), t) by {
                        if t != write_sem {
                            assert(Kernel::sem_registered_of(mid.spec_sems(), t)
                                == Kernel::sem_registered_of(old(k).spec_sems(), t));
                        }
                    }
                }
                return Err(());
            },
        };
        proof {
            assert(!Kernel::sem_registered_of(old(k).spec_sems(), write_sem as u32));
            assert(!Kernel::sem_registered_of(mid.spec_sems(), read_sem as u32));
            assert(write_sem != read_sem);
            assert(!Kernel::sem_registered_of(old(k).spec_sems(), read_sem as u32));
            assert(!Kernel::at_most_one_sem_free(old(k).spec_sems()));
            assert forall|p: u32|
                p < 32 implies !#[trigger] Kernel::sem_waiter_of(
                k.spec_sems(),
                write_sem as u32,
                p,
            ) by {
                assert(!Kernel::sem_waiter_of(mid.spec_sems(), write_sem as u32, p));
                assert(k.spec_sems().spec_get(write_sem as u32) == mid.spec_sems().spec_get(
                    write_sem as u32,
                ));
            }
        }
        let mut buff: Vec<Option<T>> = Vec::new();
        let mut i: usize = 0;
        while i < N
            invariant
                i <= N,
                buff@.len() == i,
            decreases N - i,
        {
            buff.push(None);
            i = i + 1;
        }
        let q = StreamBuffer {
            write_sem,
            read_sem,
            head: 0,
            tail: 0,
            cnt: 0,
            buff,
            watermark: 0,
        };
        proof {
            assert(q.spec_contents() =~= Seq::<T>::empty());
        }
        Ok(q)
    }

    /// Appends one element at the head.
    fn put(&mut self, data: T)
        requires
            old(self).wf(),
            old(self).spec_cnt() < N,
        ensures
            final(self).wf(),
            final(self).spec_cnt() == old(self).spec_cnt() + 1,
            final(self).spec_contents() == old(self).spec_contents().push(data),
            final(self).spec_tail() == old(self).spec_tail(),
            final(self).spec_write_sem() == old(self).spec_write_sem(),
            final(self).spec_read_sem() == old(self).spec_read_sem(),
            final(self).spec_watermark() >= old(self).spec_watermark(),
    {
        let mut end = self.head;
        self.buff.set(end, Some(data));
        end = end + 1;
        self.cnt = self.cnt + 1;
        if self.watermark < self.cnt {
            self.watermark = self.cnt;
        }
        if end >= N {
            end = 0;
        }
        self.head = end;
        proof {
            assert forall|i: int|
                0 <= i < self.spec_cnt() implies self.spec_buff()[#[trigger] ring_index(
                self.spec_tail() as int,
                i,
                N as int,
            )] is Some by {
                if i < self.spec_cnt() - 1 {
                    assert(ring_index(self.spec_tail() as int, i, N as int) != old(
                        self,
                    ).spec_head());
                    assert(old(self).spec_buff()[ring_index(
                        self.spec_tail() as int,
                        i,
                        N as int,
                    )] is Some);
                }
            }
            assert(final(self).spec_contents() =~= old(self).spec_contents().push(data));
        }
    }

    /// Takes the oldest element from the tail.
    fn take(&mut self) -> (r: T)
        requires
            old(self).wf(),
            old(self).spec_cnt() > 0,
        ensures
            final(self).wf(),
            final(self).spec_cnt() == old(self).spec_cnt() - 1,
            r == old(self).spec_contents()[0],
            final(self).spec_contents() == old(self).spec_contents().subrange(
                1,
                old(self).spec_cnt() as int,
            ),
            final(self).spec_head() == old(self).spec_head(),
            final(self).spec_write_sem() == old(self).spec_write_sem(),
            final(self).spec_read_sem() == old(self).spec_read_sem(),
            final(self).spec_watermark() == old(self).spec_watermark(),
    {
        let mut start = self.tail;
        let slot = self.buff[start];
        let res = match slot {
            Some(v) => v,
            None => {
                proof {
                    assert(old(self).spec_buff()[ring_index(
                        old(self).spec_tail() as int,
                        0,
                        N as int,
                    )] is Some);
                    assert(false);
                }
                return self.buff[0].unwrap();
            },
        };
        start = start + 1;
        if start >= N {
            start = 0;
        }
        self.tail = start;
        self.cnt = self.cnt - 1;
        proof {
            assert forall|i: int|
                0 <= i < self.spec_cnt() implies self.spec_buff()[#[trigger] ring_index(
                self.spec_tail() as int,
                i,
                N as int,
            )] is Some by {
                assert(ring_index(self.spec_tail() as int, i, N as int) == ring_index(
                    old(self).spec_tail() as int,
                    i + 1,
                    N as int,
                ));
            }
            assert(final(self).spec_contents() =~= old(self).spec_contents().subrange(
                1,
                old(self).spec_cnt() as int,
            ));
        }
        res
    }

    /// Copies from `slice[from..]` into the buffer as much as fits.
    fn write_chunk(&mut self, slice: &Vec<T>, from: usize) -> (written: usize)
        requires
            old(self).wf(),
            from <= slice@.len(),
        ensures
            final(self).wf(),
            written == if slice@.len() - from <= N - old(self).spec_cnt() {
                slice@.len() - from
            } else {
                N - old(self).spec_cnt()
            },
            final(self).spec_cnt() == old(self).spec_cnt() + written,
            final(self).spec_contents() == old(self).spec_contents() + slice@.subrange(
                from as int,
                from + written,
            ),
            final(self).spec_tail() == old(self).spec_tail(),
            final(self).spec_write_sem() == old(self).spec_write_sem(),
            final(self).spec_read_sem() == old(self).spec_read_sem(),
            final(self).spec_watermark() >= old(self).spec_watermark(),
    {
        let space = N - self.cnt;
        let remaining = slice.len() - from;
        let writable = if space < remaining {
            space
        } else {
            remaining
        };
        let mut j: usize = 0;
        while j < writable
            invariant
                j <= writable,
                from + writable <= slice@.len(),
                writable <= N - old(self).spec_cnt(),
                self.wf(),
                self.spec_cnt() == old(self).spec_cnt() + j,
                self.spec_contents() == old(self).spec_contents() + slice@.subrange(
                    from as int,
                    from + j,
                ),
                self.spec_tail() == old(self).spec_tail(),
                self.spec_write_sem() == old(self).spec_write_sem(),
                self.spec_read_sem() == old(self).spec_read_sem(),
                self.spec_watermark() >= old(self).spec_watermark(),
            decreases writable - j,
        {
            self.put(slice[from + j]);
            j = j + 1;
            proof {
                assert(self.spec_contents() =~= old(self).spec_contents() + slice@.subrange(
                    from as int,
                    from + j,
                ));
            }
        }
        writable
    }

    /// Copies from the buffer into `out[from..]` as much as is available.
    fn read_chunk(&mut self, out: &mut Vec<T>, from: usize) -> (read: usize)
        requires
            old(self).wf(),
            from <= old(out)@.len(),
        ensures
            final(self).wf(),
            final(out)@.len() == old(out)@.len(),
            read == if old(out)@.len() - from <= old(self).spec_cnt() {
                old(out)@.len() - from
            } else {
                old(self).spec_cnt() as int
            },
            final(self).spec_cnt() == old(self).spec_cnt() - read,
            final(out)@.subrange(from as int, from + read) == old(self).spec_contents().subrange(
                0,
                read as int,
            ),
            forall|i: int|
                0 <= i < old(out)@.len() && !(from <= i < from + read) ==> final(out)@[i] == old(
                    out,
                )@[i],
            final(self).spec_contents() == old(self).spec_contents().subrange(
                read as int,
                old(self).spec_cnt() as int,
            ),
            final(self).spec_head() == old(self).spec_head(),
            final(self).spec_write_sem() == old(self).spec_write_sem(),
            final(self).spec_read_sem() == old(self).spec_read_sem(),
            final(self).spec_watermark() == old(self).spec_watermark(),
    {
        let want = out.len() - from;
        let readable = if want < self.cnt {
            want
        } else {
            self.cnt
        };
        let mut j: usize = 0;
        while j < readable
            invariant
                j <= readable,
                from + readable <= out@.len(),
                readable <= old(self).spec_cnt(),
                out@.len() == old(out)@.len(),
                self.wf(),
                self.spec_cnt() == old(self).spec_cnt() - j,
                self.spec_contents() == old(self).spec_contents().subrange(
                    j as int,
                    old(self).spec_cnt() as int,
                ),
                self.spec_head() == old(self).spec_head(),
                out@.subrange(from as int, from + j) == old(self).spec_contents().subrange(
                    0,
                    j as int,
                ),
                forall|i: int|
                    0 <= i < old(out)@.len() && !(from <= i < from + j) ==> out@[i] == old(
                        out,
                    )@[i],
                self.spec_write_sem() == old(self).spec_write_sem(),
                self.spec_read_sem() == old(self).spec_read_sem(),
                self.spec_watermark() == old(self).spec_watermark(),
            decreases readable - j,
        {
            let v = self.take();
            out.set(from + j, v);
            j = j + 1;
            proof {
                assert(self.spec_contents() =~= old(self).spec_contents().subrange(
                    j as int,
                    old(self).spec_cnt() as int,
                ));
                assert(out@.subrange(from as int, from + j) =~= old(
                    self,
                ).spec_contents().subrange(0, j as int));
            }
        }
        readable
    }

    /// Writes the slice from the given progress index on, blocking on a full
    /// buffer: one call copies as much as fits and signals a blocked reader
    /// only once the count reaches the trigger level; full, the task
    /// suspends on the write semaphore and the embedding retries after
    /// resumption.  Returns the new progress index.
    pub fn write(&mut self, k: &mut Kernel, prio: usize, slice: &Vec<T>, from: usize, cs: CritSect) -> (progress: usize)
        requires
            old(self).wf(),
            old(k).wf(),
            old(k).spec_started(),
            prio == old(k).spec_running(),
            prio < 32,
            old(k).spec_sem_registered(old(self).spec_write_sem() as u32),
            old(k).spec_sem_registered(old(self).spec_read_sem() as u32),
            from <= slice@.len(),
        ensures
            final(self).wf(),
            final(k).wf(),
            final(self).spec_write_sem() == old(self).spec_write_sem(),
            final(self).spec_read_sem() == old(self).spec_read_sem(),
            old(self).spec_cnt() == N ==> {
                &&& progress == from
                &&& *final(self) == *old(self)
                &&& Kernel::sem_acquire_effect(
                    *old(k),
                    *final(k),
                    old(self).spec_write_sem() as u32,
                    prio as u32,
                )
            },
            old(self).spec_cnt() < N ==> {
                &&& progress == from + (if slice@.len() - from <= N - old(self).spec_cnt() {
                    slice@.len() - from
                } else {
                    N - old(self).spec_cnt()
                })
                &&& final(self).spec_contents() == old(self).spec_contents() + slice@.subrange(
                    from as int,
                    progress as int,
                )
                &&& final(self).spec_tail() == old(self).spec_tail()
                &&& final(self).spec_watermark() >= old(self).spec_watermark()
                &&& (final(self).spec_cnt() >= TRG ==> Kernel::sem_release_effect(
                    *old(k),
                    *final(k),
                    old(self).spec_read_sem() as u32,
                ))
                &&& (final(self).spec_cnt() < TRG ==> *final(k) == *old(k))
            },
    {
        if self.cnt >= N {
            k.sem_acquire(self.write_sem, prio, cs);
            return from;
        }
        let written = self.write_chunk(slice, from);
        let total = slice.len();
        proof {
            assert(from + written <= total);
        }
        if self.cnt >= TRG {
            k.sem_release(self.read_sem, cs);
        } else {
            cs.deactivate();
        }
        from + written
    }

    /// Writes the slice from the given progress index on, waiting with a
    /// timeout on a full buffer: as `write`, but a suspended writer wakes by
    /// itself when the timeout expires, and `sem_wait_outcome` then reports
    /// the partial progress as a failure.
    pub fn write_timeout(&mut self, k: &mut Kernel, prio: usize, slice: &Vec<T>, from: usize, timeout: ms, cs: CritSect) -> (progress: usize)
        requires
            old(self).wf(),
            old(k).wf(),
            old(k).spec_started(),
            prio == old(k).spec_running(),
            prio < 32,
            old(k).spec_sem_registered(old(self).spec_write_sem() as u32),
            old(k).spec_sem_registered(old(self).spec_read_sem() as u32),
            from <= slice@.len(),
            timeout.spec_value() >= 1,
        ensures
            final(self).wf(),
            final(k).wf(),
            final(self).spec_write_sem() == old(self).spec_write_sem(),
            final(self).spec_read_sem() == old(self).spec_read_sem(),
            old(self).spec_cnt() == N ==> {
                &&& progress == from
                &&& *final(self) == *old(self)
                &&& Kernel::sem_wait_effect(
                    *old(k),
                    *final(k),
                    old(self).spec_write_sem() as u32,
                    prio as u32,
                    timeout.spec_as_ticks(),
                )
            },
            old(self).spec_cnt() < N ==> {
                &&& progress == from + (if slice@.len() - from <= N - old(self).spec_cnt() {
                    slice@.len() - from
                } else {
                    N - old(self).spec_cnt()
                })
                &&& final(self).spec_contents() == old(self).spec_contents() + slice@.subrange(
                    from as int,
                    progress as int,
                )
                &&& final(self).spec_tail() == old(self).spec_tail()
                &&& final(self).spec_watermark() >= old(self).spec_watermark()
                &&& (final(self).spec_cnt() >= TRG ==> Kernel::sem_release_effect(
                    *old(k),
                    *final(k),
                    old(self).spec_read_sem() as u32,
                ))
                &&& (final(self).spec_cnt() < TRG ==> *final(k) == *old(k))
            },
    {
        if self.cnt >= N {
            k.sem_wait(self.write_sem, prio, timeout, cs);
            return from;
        }
        let written = self.write_chunk(slice, from);
        let total = slice.len();
        proof {
            assert(from + written <= total);
        }
        if self.cnt >= TRG {
            k.sem_release(self.read_sem, cs);
        } else {
            cs.deactivate();
        }
        from + written
    }

    /// Writes only the elements that fit into the free space, discarding the
    /// rest; a blocked reader is signalled only once the count reaches the
    /// trigger level.  Safe from any context: it never suspends the caller.
    /// Returns how many elements were written: as a success when the whole
    /// slice fit, as a failure otherwise.
    pub fn write_dropping(&mut self, k: &mut Kernel, slice: &Vec<T>, cs: CritSect) -> (r: Result<usize, usize>)
        requires
            old(self).wf(),
            old(k).wf(),
            old(k).spec_started(),
            old(k).spec_sem_registered(old(self).spec_read_sem() as u32),
        ensures
            final(self).wf(),
            final(k).wf(),
            final(self).spec_write_sem() == old(self).spec_write_sem(),
            final(self).spec_read_sem() == old(self).spec_read_sem(),
            old(self).spec_cnt() == N ==> r == Result::<usize, usize>::Err(0usize) && *final(self)
                == *old(self) && *final(k) == *old(k),
            old(self).spec_cnt() < N ==> {
                let written = if slice@.len() <= N - old(self).spec_cnt() {
                    slice@.len() as int
                } else {
                    N - old(self).spec_cnt()
                };
                &&& r == if written == slice@.len() {
                    Result::<usize, usize>::Ok(written as usize)
                } else {
                    Result::<usize, usize>::Err(written as usize)
                }
                &&& final(self).spec_contents() == old(self).spec_contents() + slice@.subrange(
                    0,
                    written,
                )
                &&& final(self).spec_tail() == old(self).spec_tail()
                &&& final(self).spec_watermark() >= old(self).spec_watermark()
                &&& (final(self).spec_cnt() >= TRG ==> Kernel::sem_release_effect(
                    *old(k),
                    *final(k),
                    old(self).spec_read_sem() as u32,
                ))
                &&& (final(self).spec_cnt() < TRG ==> *final(k) == *old(k))
            },
    {
        if self.cnt >= N {
            cs.deactivate();
            return Err(0);
        }
        let written = self.write_chunk(slice, 0);
        if self.cnt >= TRG {
            k.sem_release(self.read_sem, cs);
        } else {
            cs.deactivate();
        }
        if written == slice.len() {
            Ok(written)
        } else {
            Err(written)
        }
    }

    /// Reads into `out[from..]`, blocking on an empty buffer: one call
    /// drains as much as is available and signals a blocked writer; empty,
    /// the task suspends on the read semaphore and the embedding retries
    /// after resumption.  The trigger level does not gate reads.  Returns
    /// the new progress index.
    pub fn read(&mut self, k: &mut Kernel, prio: usize, out: &mut Vec<T>, from: usize, cs: CritSect) -> (progress: usize)
        requires
            old(self).wf(),
            old(k).wf(),
            old(k).spec_started(),
            prio == old(k).spec_running(),
            prio < 32,
            old(k).spec_sem_registered(old(self).spec_write_sem() as u32),
            old(k).spec_sem_registered(old(self).spec_read_sem() as u32),
            from <= old(out)@.len(),
        ensures
            final(self).wf(),
            final(k).wf(),
            final(out)@.len() == old(out)@.len(),
            final(self).spec_write_sem() == old(self).spec_write_sem(),
            final(self).spec_read_sem() == old(self).spec_read_sem(),
            old(self).spec_cnt() == 0 ==> {
                &&& progress == from
                &&& *final(self) == *old(self)
                &&& final(out)@ == old(out)@
                &&& Kernel::sem_acquire_effect(
                    *old(k),
                    *final(k),
                    old(self).spec_read_sem() as u32,
                    prio as u32,
                )
            },
            old(self).spec_cnt() > 0 ==> {
                let read = if old(out)@.len() - from <= old(self).spec_cnt() {
                    old(out)@.len() - from
                } else {
                    old(self).spec_cnt() as int
                };
                &&& progress == from + read
                &&& final(out)@.subrange(from as int, from + read) == old(
                    self,
                ).spec_contents().subrange(0, read)
                &&& (forall|i: int|
                    0 <= i < old(out)@.len() && !(from <= i < from + read) ==> final(out)@[i]
                        == old(out)@[i])
                &&& final(self).spec_contents() == old(self).spec_contents().subrange(
                    read,
                    old(self).spec_cnt() as int,
                )
                &&& final(self).spec_head() == old(self).spec_head()
                &&& final(self).spec_watermark() == old(self).spec_watermark()
                &&& Kernel::sem_release_effect(
                    *old(k),
                    *final(k),
                    old(self).spec_write_sem() as u32,
                )
            },
    {
        if self.cnt == 0 {
            k.sem_acquire(self.read_sem, prio, cs);
            return from;
        }
        let read = self.read_chunk(out, from);
        let total = out.len();
        proof {
            assert(from + read <= total);
        }
        k.sem_release(self.write_sem, cs);
        from + read
    }

    /// Reads into `out[from..]`, waiting with a timeout on an empty buffer:
    /// as `read`, but a suspended reader wakes by itself when the timeout
    /// expires, and `sem_wait_outcome` then reports the partial progress as
    /// a failure.
    pub fn read_timeout(&mut self, k: &mut Kernel, prio: usize, out: &mut Vec<T>, from: usize, timeout: ms, cs: CritSect) -> (progress: usize)
        requires
            old(self).wf(),
            old(k).wf(),
            old(k).spec_started(),
            prio == old(k).spec_running(),
            prio < 32,
            old(k).spec_sem_registered(old(self).spec_write_sem() as u32),
            old(k).spec_sem_registered(old(self).spec_read_sem() as u32),
            from <= old(out)@.len(),
            timeout.spec_value() >= 1,
        ensures
            final(self).wf(),
            final(k).wf(),
            final(out)@.len() == old(out)@.len(),
            final(self).spec_write_sem() == old(self).spec_write_sem(),
            final(self).spec_read_sem() == old(self).spec_read_sem(),
            old(self).spec_cnt() == 0 ==> {
                &&& progress == from
                &&& *final(self) == *old(self)
                &&& final(out)@ == old(out)@
                &&& Kernel::sem_wait_effect(
                    *old(k),
                    *final(k),
                    old(self).spec_read_sem() as u32,
                    prio as u32,
                    timeout.spec_as_ticks(),
                )
            },
            old(self).spec_cnt() > 0 ==> {
                let read = if old(out)@.len() - from <= old(self).spec_cnt() {
                    old(out)@.len() - from
                } else {
                    old(self).spec_cnt() as int
                };
                &&& progress == from + read
                &&& final(out)@.subrange(from as int, from + read) == old(
                    self,
                ).spec_contents().subrange(0, read)
                &&& (forall|i: int|
                    0 <= i < old(out)@.len() && !(from <= i < from + read) ==> final(out)@[i]
                        == old(out)@[i])
                &&& final(self).spec_contents() == old(self).spec_contents().subrange(
                    read,
                    old(self).spec_cnt() as int,
                )
                &&& final(self).spec_head() == old(self).spec_head()
                &&& final(self).spec_watermark() == old(self).spec_watermark()
                &&& Kernel::sem_release_effect(
                    *old(k),
                    *final(k),
                    old(self).spec_write_sem() as u32,
                )
            },
    {
        if self.cnt == 0 {
            k.sem_wait(self.read_sem, prio, timeout, cs);
            return from;
        }
        let read = self.read_chunk(out, from);
        let total = out.len();
        proof {
            assert(from + read <= total);
        }
        k.sem_release(self.write_sem, cs);
        from + read
    }

    /// Reads whatever is available into `out`, never suspending the caller;
    /// the trigger level does not gate reads.  Returns how many elements
    /// were read.
    pub fn read_available(&mut self, k: &mut Kernel, out: &mut Vec<T>, cs: CritSect) -> (read: usize)
        requires
            old(self).wf(),
            old(k).wf(),
            old(k).spec_started(),
            old(k).spec_sem_registered(old(self).spec_write_sem() as u32),
        ensures
            final(self).wf(),
            final(k).wf(),
            final(out)@.len() == old(out)@.len(),
            final(self).spec_write_sem() == old(self).spec_write_sem(),
            final(self).spec_read_sem() == old(self).spec_read_sem(),
            old(self).spec_cnt() == 0 ==> read == 0 && *final(self) == *old(self) && *final(k)
                == *old(k) && final(out)@ == old(out)@,
            old(self).spec_cnt() > 0 ==> {
                &&& read == if old(out)@.len() <= old(self).spec_cnt() {
                    old(out)@.len() as int
                } else {
                    old(self).spec_cnt() as int
                }
                &&& final(out)@.subrange(0, read as int) == old(self).spec_contents().subrange(
                    0,
                    read as int,
                )
                &&& final(self).spec_contents() == old(self).spec_contents().subrange(
                    read as int,
                    old(self).spec_cnt() as int,
                )
                &&& final(self).spec_head() == old(self).spec_head()
                &&& final(self).spec_watermark() == old(self).spec_watermark()
                &&& Kernel::sem_release_effect(
                    *old(k),
                    *final(k),
                    old(self).spec_write_sem() as u32,
                )
            },
    {
        if self.cnt == 0 {
            cs.deactivate();
            return 0;
        }
        let read = self.read_chunk(out, 0);
        k.sem_release(self.write_sem, cs);
        read
    }

    /// The number of buffered elements.
    pub fn count(&self) -> (r: usize)
        ensures
            r == self.spec_cnt(),
    {
        self.cnt
    }

    /// The highest element count ever observed.
    pub fn watermark(&self) -> (r: usize)
        ensures
            r == self.spec_watermark(),
    {
        self.watermark
    }

    /// Empties the buffer; the watermark keeps its record.
    pub fn clear(&mut self, cs: CritSect)
        requires
            old(self).wf(),
        ensures
            final(self).wf(),
            final(self).spec_cnt() == 0,
            final(self).spec_head() == 0,
            final(self).spec_tail() == 0,
            final(self).spec_contents() == Seq::<T>::empty(),
            final(self).spec_watermark() == old(self).spec_watermark(),
            final(self).spec_write_sem() == old(self).spec_write_sem(),
            final(self).spec_read_sem() == old(self).spec_read_sem(),
    {
        self.tail = 0;
        self.head = 0;
        self.cnt = 0;
        cs.deactivate();
        proof {
            assert(final(self).spec_contents() =~= Seq::<T>::empty());
        }
    }
}

} // verus!
