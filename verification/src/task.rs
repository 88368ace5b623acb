//! Tasks and the scheduler's task table.
//!
//! A `Task` is the unit of scheduling: an entry handle, a unique priority, a
//! stack seeded with a synthetic interrupt frame, and the bookkeeping the
//! scheduler needs (saved stack pointer, stack watermark, semaphore
//! back-reference).  The `TaskList` indexes tasks by priority and keeps the
//! three state bitmaps `used`, `ready` and `sleeping`.

use vstd::prelude::*;

verus! {

use crate::bitvec::BitVec;
use crate::bitvec::nth_bit;
use crate::time::Ticks;

/// The reserved priority of the built-in idle task.  It lies outside the
/// bitmap range: the idle task never occupies a table slot.
pub const IDLE_PRIO: usize = 255;

/// Number of words of the synthetic interrupt frame seeded onto a fresh
/// stack: the eight hardware-saved registers and the eight callee-saved ones.
pub const FRAME_WORDS: usize = 16;

/// A task's stack: a word-aligned buffer donated by the application.  It must
/// hold at least 32 words, enough for the seeded frame and a margin.
pub struct Stack {
    buff: Vec<usize>,
}

impl Stack {
    /// The number of words of the stack.
    pub closed spec fn spec_len(self) -> nat {
        self.buff@.len()
    }

    /// The stack contents, word by word.
    pub closed spec fn spec_words(self) -> Seq<usize> {
        self.buff@
    }

    /// A zeroed stack of the given word count.
    pub fn new(words: usize) -> (r: Stack)
        requires
            words >= 32,
        ensures
            r.spec_len() == words,
            forall|i: int| 0 <= i < words ==> r.spec_words()[i] == 0,
    {
        let mut buff: Vec<usize> = Vec::new();
        let mut i: usize = 0;
        while i < words
            invariant
                i <= words,
                buff@.len() == i,
                forall|k: int| 0 <= k < i ==> buff@[k] == 0,
            decreases words - i,
        {
            buff.push(0);
            i = i + 1;
        }
        Stack { buff }
    }

    /// The stack as a slice of words.
    pub fn as_slice(&self) -> (r: &[usize])
        ensures
            r@ == self.spec_words(),
    {
        self.buff.as_slice()
    }

    /// The number of words of the stack.
    pub fn len(&self) -> (r: usize)
        ensures
            r == self.spec_len(),
    {
        self.buff.len()
    }
}

/// A task control block.
pub struct Task {
    sp: usize,
    stack: Stack,
    stack_start: usize,
    stack_watermark: usize,
    task: usize,
    prio: usize,
    semaphore: Option<usize>,
}

impl Task {
    /// The saved stack pointer, as a byte offset from the stack base.
    pub closed spec fn spec_sp(self) -> usize {
        self.sp
    }

    /// The task's stack.
    pub closed spec fn spec_stack(self) -> Stack {
        self.stack
    }

    /// The byte offset of the seeded frame's top word.
    pub closed spec fn spec_stack_start(self) -> usize {
        self.stack_start
    }

    /// The highest stack usage observed so far, in words.
    pub closed spec fn spec_watermark(self) -> usize {
        self.stack_watermark
    }

    /// The entry handle the task was built with.
    pub closed spec fn spec_handle(self) -> usize {
        self.task
    }

    /// The task's priority.
    pub closed spec fn spec_prio(self) -> usize {
        self.prio
    }

    /// The semaphore slot the task is blocked on, while waiting with a
    /// timeout.
    pub closed spec fn spec_semaphore(self) -> Option<usize> {
        self.semaphore
    }

    /// A priority is either a bitmap slot or the idle sentinel.
    pub open spec fn prio_ok(prio: usize) -> bool {
        prio == IDLE_PRIO || prio < 32
    }

    /// Structural soundness of a task control block.
    pub open spec fn wf(self) -> bool {
        &&& Task::prio_ok(self.spec_prio())
        &&& self.spec_stack().spec_len() >= 32
        &&& 4 * self.spec_stack().spec_len() <= usize::MAX
        &&& self.spec_sp() <= self.spec_stack_start()
        &&& self.spec_stack_start() < 4 * self.spec_stack().spec_len()
    }

    /// A new task over the given entry handle, priority and stack.  The
    /// priority must be a bitmap slot or the idle sentinel.
    pub fn new(task: usize, prio: usize, stack: Stack) -> (r: Task)
        requires
            Task::prio_ok(prio),
            stack.spec_len() >= 32,
            4 * stack.spec_len() <= usize::MAX,
        ensures
            r.wf(),
            r.spec_handle() == task,
            r.spec_prio() == prio,
            r.spec_stack() == stack,
            r.spec_sp() == 0,
            r.spec_stack_start() == 0,
            r.spec_watermark() == 0,
            r.spec_semaphore() is None,
    {
        Task { sp: 0, stack, stack_start: 0, stack_watermark: 0, task, prio, semaphore: None }
    }

    /// The entry handle.
    pub fn handle(&self) -> (r: usize)
        ensures
            r == self.spec_handle(),
    {
        self.task
    }

    /// The task's priority.
    pub fn prio(&self) -> (r: usize)
        ensures
            r == self.spec_prio(),
    {
        self.prio
    }

    /// The highest stack usage observed so far, in words.
    pub fn watermark(&self) -> (r: usize)
        ensures
            r == self.spec_watermark(),
    {
        self.stack_watermark
    }

    /// The saved stack pointer.
    pub fn sp(&self) -> (r: usize)
        ensures
            r == self.spec_sp(),
    {
        self.sp
    }

    /// What seeding a task's stack does: the task keeps its identity, and
    /// its stack carries the synthetic interrupt frame, with the saved stack
    /// pointer at the frame's base and the frame top one word below the
    /// stack's end.
    pub open spec fn setup_effect(pre: Task, post: Task) -> bool {
        &&& post.wf()
        &&& post.spec_prio() == pre.spec_prio()
        &&& post.spec_handle() == pre.spec_handle()
        &&& post.spec_watermark() == pre.spec_watermark()
        &&& post.spec_semaphore() == pre.spec_semaphore()
        &&& post.spec_stack().spec_len() == pre.spec_stack().spec_len()
        &&& post.spec_stack_start() == 4 * (pre.spec_stack().spec_len() - 1)
        &&& post.spec_sp() == 4 * (pre.spec_stack().spec_len() - FRAME_WORDS as nat)
        &&& post.spec_stack().spec_words()[pre.spec_stack().spec_len() - 1] == 1usize << 24
        &&& post.spec_stack().spec_words()[pre.spec_stack().spec_len() - 2] == pre.spec_handle()
        &&& post.spec_stack().spec_words()[pre.spec_stack().spec_len() - 3] == 0xFFFF_FFFDusize
        &&& post.spec_stack().spec_words()[pre.spec_stack().spec_len() - 8] == pre.spec_prio()
    }

    /// Seeds the stack with a synthetic interrupt frame, so that the first
    /// context restore resumes the task at its entry: a program-status word
    /// with the Thumb bit, the entry handle as return address, the
    /// return-to-thread link value, and the priority in the first argument
    /// register, standing for the control block handed to the task body.
    /// Offsets are byte offsets from the stack base, four bytes per word.
    pub fn setup(&mut self)
        requires
            old(self).wf(),
        ensures
            Task::setup_effect(*old(self), *final(self)),
    {
        let len = self.stack.len();
        self.write_stack_word(len - 1, 1usize << 24);
        self.write_stack_word(len - 2, self.task);
        self.write_stack_word(len - 3, 0xFFFF_FFFDusize);
        self.write_stack_word(len - 4, 0xC);
        self.write_stack_word(len - 5, 0x3);
        self.write_stack_word(len - 6, 0x2);
        self.write_stack_word(len - 7, 0x1);
        self.write_stack_word(len - 8, self.prio);
        self.write_stack_word(len - 9, 0xB);
        self.write_stack_word(len - 10, 0xA);
        self.write_stack_word(len - 11, 0x9);
        self.write_stack_word(len - 12, 0x8);
        self.write_stack_word(len - 13, 0x7);
        self.write_stack_word(len - 14, 0x6);
        self.write_stack_word(len - 15, 0x5);
        self.write_stack_word(len - 16, 0x4);
        self.sp = 4 * (len - 16);
        self.stack_start = 4 * (len - 1);
    }

    /// Writes one word of the task's stack.
    fn write_stack_word(&mut self, idx: usize, val: usize)
        requires
            idx < old(self).spec_stack().spec_len(),
        ensures
            final(self).spec_stack().spec_words() == old(self).spec_stack().spec_words().update(
                idx as int,
                val,
            ),
            final(self).spec_stack().spec_len() == old(self).spec_stack().spec_len(),
            final(self).spec_sp() == old(self).spec_sp(),
            final(self).spec_stack_start() == old(self).spec_stack_start(),
            final(self).spec_watermark() == old(self).spec_watermark(),
            final(self).spec_prio() == old(self).spec_prio(),
            final(self).spec_handle() == old(self).spec_handle(),
            final(self).spec_semaphore() == old(self).spec_semaphore(),
    {
        self.stack.buff.set(idx, val);
    }

    /// Records a freshly saved stack pointer and refreshes the watermark: the
    /// deepest distance from the frame top ever observed, in words.
    pub fn save_sp(&mut self, sp: usize)
        requires
            old(self).wf(),
            sp <= old(self).spec_stack_start(),
        ensures
            final(self).wf(),
            final(self).spec_sp() == sp,
            final(self).spec_watermark() >= old(self).spec_watermark(),
            final(self).spec_watermark() == if (old(self).spec_stack_start() - sp) / 4 > old(
                self,
            ).spec_watermark() {
                (old(self).spec_stack_start() - sp) as int / 4
            } else {
                old(self).spec_watermark() as int
            },
            final(self).spec_prio() == old(self).spec_prio(),
            final(self).spec_handle() == old(self).spec_handle(),
            final(self).spec_semaphore() == old(self).spec_semaphore(),
            final(self).spec_stack() == old(self).spec_stack(),
            final(self).spec_stack_start() == old(self).spec_stack_start(),
    {
        self.sp = sp;
        self.update_watermark();
    }

    /// Refreshes the watermark from the saved stack pointer.  The watermark
    /// never decreases.
    pub fn update_watermark(&mut self)
        requires
            old(self).wf(),
        ensures
            final(self).wf(),
            final(self).spec_watermark() >= old(self).spec_watermark(),
            final(self).spec_watermark() == if (old(self).spec_stack_start() - old(
                self,
            ).spec_sp()) / 4 > old(self).spec_watermark() {
                (old(self).spec_stack_start() - old(self).spec_sp()) as int / 4
            } else {
                old(self).spec_watermark() as int
            },
            final(self).spec_sp() == old(self).spec_sp(),
            final(self).spec_prio() == old(self).spec_prio(),
            final(self).spec_handle() == old(self).spec_handle(),
            final(self).spec_semaphore() == old(self).spec_semaphore(),
            final(self).spec_stack() == old(self).spec_stack(),
            final(self).spec_stack_start() == old(self).spec_stack_start(),
    {
        let words = (self.stack_start - self.sp) / 4;
        if words > self.stack_watermark {
            self.stack_watermark = words;
        }
    }

    /// Records the semaphore slot the task is blocked on.
    pub fn set_semaphore(&mut self, sem: Option<usize>)
        ensures
            final(self).spec_semaphore() == sem,
            final(self).spec_sp() == old(self).spec_sp(),
            final(self).spec_prio() == old(self).spec_prio(),
            final(self).spec_handle() == old(self).spec_handle(),
            final(self).spec_watermark() == old(self).spec_watermark(),
            final(self).spec_stack() == old(self).spec_stack(),
            final(self).spec_stack_start() == old(self).spec_stack_start(),
            final(self).wf() == old(self).wf(),
    {
        self.semaphore = sem;
    }

    /// Takes the recorded semaphore slot, leaving none.
    pub fn take_semaphore(&mut self) -> (r: Option<usize>)
        ensures
            r == old(self).spec_semaphore(),
            final(self).spec_semaphore() is None,
            final(self).spec_sp() == old(self).spec_sp(),
            final(self).spec_prio() == old(self).spec_prio(),
            final(self).spec_handle() == old(self).spec_handle(),
            final(self).spec_watermark() == old(self).spec_watermark(),
            final(self).spec_stack() == old(self).spec_stack(),
            final(self).spec_stack_start() == old(self).spec_stack_start(),
            final(self).wf() == old(self).wf(),
    {
        let r = self.semaphore;
        self.semaphore = None;
        r
    }
}

/// The scheduler's index over tasks: a slot table keyed by priority, the
/// remaining sleep ticks of each slot, and the `used`, `ready` and `sleeping`
/// bitmaps.
pub struct TaskList {
    list: Vec<Option<Task>>,
    sleep_time: Vec<Ticks>,
    used: BitVec,
    ready: BitVec,
    sleeping: BitVec,
}

impl TaskList {
    /// The registered-slot bitmap.
    pub closed spec fn spec_used(self) -> BitVec {
        self.used
    }

    /// The runnable-slot bitmap.
    pub closed spec fn spec_ready(self) -> BitVec {
        self.ready
    }

    /// The sleeping-slot bitmap.
    pub closed spec fn spec_sleeping(self) -> BitVec {
        self.sleeping
    }

    /// The remaining sleep ticks of slot `i`.
    pub closed spec fn spec_sleep_time(self, i: u32) -> Ticks {
        self.sleep_time@[i as int]
    }

    /// The task registered in slot `i`, if any.
    pub closed spec fn spec_task(self, i: u32) -> Option<Task> {
        self.list@[i as int]
    }

    /// The slot-table invariants: the three bitmaps agree with the table, a
    /// registered task carries the priority of its slot, ready and sleeping
    /// are disjoint subsets of used, and a sleeping slot always has at least
    /// one tick left.
    pub open spec fn wf(self) -> bool {
        &&& self.spec_len_ok()
        &&& forall|i: u32| i < 32 ==> #[trigger] self.slot_wf(i)
    }

    /// The two tables span exactly the 32 slots.
    pub closed spec fn spec_len_ok(self) -> bool {
        &&& self.list@.len() == 32
        &&& self.sleep_time@.len() == 32
    }

    /// The invariants of one slot.
    pub open spec fn slot_wf(self, i: u32) -> bool {
        &&& (self.spec_used().spec_check(i) <==> self.spec_task(i) is Some)
        &&& (self.spec_task(i) matches Some(t) ==> t.spec_prio() == i && t.wf())
        &&& (self.spec_ready().spec_check(i) ==> self.spec_used().spec_check(i))
        &&& (self.spec_sleeping().spec_check(i) ==> self.spec_used().spec_check(i))
        &&& !(self.spec_ready().spec_check(i) && self.spec_sleeping().spec_check(i))
        &&& (self.spec_sleeping().spec_check(i) ==> self.spec_sleep_time(i) >= 1)
    }

    /// Nothing of slot `i` differs between the two tables.
    pub open spec fn slot_unchanged(pre: TaskList, post: TaskList, i: u32) -> bool {
        &&& post.spec_used().spec_check(i) == pre.spec_used().spec_check(i)
        &&& post.spec_ready().spec_check(i) == pre.spec_ready().spec_check(i)
        &&& post.spec_sleeping().spec_check(i) == pre.spec_sleeping().spec_check(i)
        &&& post.spec_sleep_time(i) == pre.spec_sleep_time(i)
        &&& post.spec_task(i) == pre.spec_task(i)
    }

    /// An empty table.
    pub fn new() -> (r: TaskList)
        ensures
            r.wf(),
            forall|i: u32| i < 32 ==> !r.spec_used().spec_check(i),
            forall|i: u32| i < 32 ==> !r.spec_ready().spec_check(i),
            forall|i: u32| i < 32 ==> !r.spec_sleeping().spec_check(i),
    {
        let mut list: Vec<Option<Task>> = Vec::new();
        let mut sleep_time: Vec<Ticks> = Vec::new();
        let mut i: usize = 0;
        while i < 32
            invariant
                i <= 32,
                list@.len() == i,
                sleep_time@.len() == i,
                forall|k: int| 0 <= k < i ==> list@[k] is None,
            decreases 32 - i,
        {
            list.push(None);
            sleep_time.push(0);
            i = i + 1;
        }
        TaskList { list, sleep_time, used: BitVec::new(), ready: BitVec::new(), sleeping: BitVec::new() }
    }

    /// Registers a task in the slot of its priority and marks it ready, or
    /// hands the task back when the slot is taken.  The priority must be a
    /// bitmap slot: the idle task lives outside the table.
    pub fn add_task(&mut self, task: Task) -> (r: Result<(), Task>)
        requires
            old(self).wf(),
            task.wf(),
            task.spec_prio() < 32,
        ensures
            final(self).wf(),
            match r {
                Ok(()) => {
                    &&& !old(self).spec_used().spec_check(task.spec_prio() as u32)
                    &&& final(self).spec_used().spec_check(task.spec_prio() as u32)
                    &&& final(self).spec_ready().spec_check(task.spec_prio() as u32)
                    &&& !final(self).spec_sleeping().spec_check(task.spec_prio() as u32)
                    &&& final(self).spec_task(task.spec_prio() as u32) == Some(task)
                    &&& forall|j: u32|
                        j < 32 && j != task.spec_prio() ==> TaskList::slot_unchanged(
                            *old(self),
                            *final(self),
                            j,
                        )
                },
                Err(t) => {
                    &&& t == task
                    &&& old(self).spec_used().spec_check(task.spec_prio() as u32)
                    &&& *final(self) == *old(self)
                },
            },
    {
        let prio = task.prio();
        if self.used.check(prio) {
            return Err(task);
        }
        let ghost pre = *self;
        self.list.remove(prio);
        self.list.insert(prio, Some(task));
        self.used.set(prio);
        self.ready.set(prio);
        proof {
            assert(pre.slot_wf(prio as u32));
            assert(self.list@ =~= pre.list@.update(prio as int, Some(task)));
            assert forall|i: u32| i < 32 implies #[trigger] self.slot_wf(i) by {
                assert(pre.slot_wf(i));
            }
            assert forall|j: u32|
                j < 32 && j != prio implies TaskList::slot_unchanged(pre, *self, j) by {
                assert(pre.slot_wf(j));
            }
        }
        Ok(())
    }

    /// Unregisters the task of a slot and returns it; refuses a free slot.
    pub fn remove_task(&mut self, prio: usize) -> (r: Result<Task, ()>)
        requires
            old(self).wf(),
            prio < 32,
        ensures
            final(self).wf(),
            match r {
                Ok(t) => {
                    &&& old(self).spec_task(prio as u32) == Some(t)
                    &&& !final(self).spec_used().spec_check(prio as u32)
                    &&& !final(self).spec_ready().spec_check(prio as u32)
                    &&& !final(self).spec_sleeping().spec_check(prio as u32)
                    &&& final(self).spec_task(prio as u32) is None
                    &&& forall|j: u32|
                        j < 32 && j != prio ==> TaskList::slot_unchanged(
                            *old(self),
                            *final(self),
                            j,
                        )
                },
                Err(()) => {
                    &&& !old(self).spec_used().spec_check(prio as u32)
                    &&& *final(self) == *old(self)
                },
            },
    {
        if !self.used.check(prio) {
            return Err(());
        }
        let ghost pre = *self;
        let slot = self.list.remove(prio);
        self.list.insert(prio, None);
        self.used.clear(prio);
        self.ready.clear(prio);
        self.sleeping.clear(prio);
        proof {
            assert(pre.slot_wf(prio as u32));
            assert(self.list@ =~= pre.list@.update(prio as int, None));
            assert forall|i: u32| i < 32 implies #[trigger] self.slot_wf(i) by {
                assert(pre.slot_wf(i));
            }
            assert forall|j: u32|
                j < 32 && j != prio implies TaskList::slot_unchanged(pre, *self, j) by {
                assert(pre.slot_wf(j));
            }
        }
        match slot {
            Some(t) => Ok(t),
            None => Err(()),
        }
    }

    /// Reads the task of an occupied slot.
    pub fn get(&self, prio: usize) -> (r: &Task)
        requires
            self.wf(),
            prio < 32,
            self.spec_used().spec_check(prio as u32),
        ensures
            Some(*r) == self.spec_task(prio as u32),
    {
        proof {
            assert(self.slot_wf(prio as u32));
        }
        self.list[prio].as_ref().unwrap()
    }

    /// The highest-priority ready slot, or a refusal when none is ready.
    pub fn next_waiting(&self) -> (r: Result<usize, ()>)
        ensures
            match r {
                Ok(i) => i < 32 && i == self.spec_ready().spec_highest() && self.spec_ready(
                ).spec_check(i as u32) && forall|j: u32|
                    i < j < 32 ==> !self.spec_ready().spec_check(j),
                Err(()) => self.spec_ready().spec_is_empty() && self.spec_ready().spec_highest()
                    == -1,
            },
    {
        self.ready.find_highest_set()
    }

    /// Records the freshly saved stack pointer of the task in a slot and
    /// refreshes its watermark; the watermark never decreases.
    pub fn save_running_sp(&mut self, prio: usize, sp: usize)
        requires
            old(self).wf(),
            prio < 32,
            old(self).spec_used().spec_check(prio as u32),
            sp <= old(self).spec_task(prio as u32)->0.spec_stack_start(),
        ensures
            final(self).wf(),
            final(self).spec_used() == old(self).spec_used(),
            final(self).spec_ready() == old(self).spec_ready(),
            final(self).spec_sleeping() == old(self).spec_sleeping(),
            final(self).spec_sleep_time(prio as u32) == old(self).spec_sleep_time(prio as u32),
            forall|j: u32|
                j < 32 && j != prio ==> TaskList::slot_unchanged(*old(self), *final(self), j),
            final(self).spec_task(prio as u32) is Some,
            final(self).spec_task(prio as u32)->0.spec_sp() == sp,
            final(self).spec_task(prio as u32)->0.spec_watermark() >= old(self).spec_task(
                prio as u32,
            )->0.spec_watermark(),
            final(self).spec_task(prio as u32)->0.spec_prio() == old(self).spec_task(
                prio as u32,
            )->0.spec_prio(),
            final(self).spec_task(prio as u32)->0.spec_handle() == old(self).spec_task(
                prio as u32,
            )->0.spec_handle(),
            final(self).spec_task(prio as u32)->0.spec_semaphore() == old(self).spec_task(
                prio as u32,
            )->0.spec_semaphore(),
    {
        let ghost pre = *self;
        proof {
            assert(pre.slot_wf(prio as u32));
        }
        let slot = self.list.remove(prio);
        let mut task = slot.unwrap();
        task.save_sp(sp);
        self.list.insert(prio, Some(task));
        proof {
            assert(self.list@ =~= pre.list@.update(prio as int, Some(task)));
            assert forall|i: u32| i < 32 implies #[trigger] self.slot_wf(i) by {
                assert(pre.slot_wf(i));
            }
            assert forall|j: u32|
                j < 32 && j != prio implies TaskList::slot_unchanged(pre, *self, j) by {
                assert(pre.slot_wf(j));
            }
        }
    }

    /// Whether a slot is registered.
    pub fn used_check(&self, prio: usize) -> (r: bool)
        requires
            prio < 32,
        ensures
            r == self.spec_used().spec_check(prio as u32),
    {
        self.used.check(prio)
    }

    /// Whether a slot is ready.
    pub fn ready_check(&self, prio: usize) -> (r: bool)
        requires
            prio < 32,
        ensures
            r == self.spec_ready().spec_check(prio as u32),
    {
        self.ready.check(prio)
    }

    /// Whether a slot is sleeping.
    pub fn sleeping_check(&self, prio: usize) -> (r: bool)
        requires
            prio < 32,
        ensures
            r == self.spec_sleeping().spec_check(prio as u32),
    {
        self.sleeping.check(prio)
    }

    /// The remaining sleep ticks of a slot.
    pub fn sleep_left(&self, prio: usize) -> (r: Ticks)
        requires
            self.wf(),
            prio < 32,
        ensures
            r == self.spec_sleep_time(prio as u32),
    {
        self.sleep_time[prio]
    }

    /// Marks a slot runnable and not sleeping.
    pub fn idle(&mut self, prio: usize)
        requires
            old(self).wf(),
            prio < 32,
            old(self).spec_used().spec_check(prio as u32),
        ensures
            final(self).wf(),
            final(self).spec_ready().spec_check(prio as u32),
            !final(self).spec_sleeping().spec_check(prio as u32),
            final(self).spec_used() == old(self).spec_used(),
            final(self).spec_sleep_time(prio as u32) == old(self).spec_sleep_time(prio as u32),
            final(self).spec_task(prio as u32) == old(self).spec_task(prio as u32),
            forall|j: u32|
                j < 32 && j != prio ==> TaskList::slot_unchanged(*old(self), *final(self), j),
    {
        let ghost pre = *self;
        self.ready.set(prio);
        self.sleeping.clear(prio);
        proof {
            assert forall|i: u32| i < 32 implies #[trigger] self.slot_wf(i) by {
                assert(pre.slot_wf(i));
            }
        }
    }

    /// Marks a slot neither runnable nor sleeping: stopped.
    pub fn stop(&mut self, prio: usize)
        requires
            old(self).wf(),
            prio < 32,
        ensures
            final(self).wf(),
            !final(self).spec_ready().spec_check(prio as u32),
            !final(self).spec_sleeping().spec_check(prio as u32),
            final(self).spec_used() == old(self).spec_used(),
            final(self).spec_sleep_time(prio as u32) == old(self).spec_sleep_time(prio as u32),
            final(self).spec_task(prio as u32) == old(self).spec_task(prio as u32),
            forall|j: u32|
                j < 32 && j != prio ==> TaskList::slot_unchanged(*old(self), *final(self), j),
    {
        let ghost pre = *self;
        self.ready.clear(prio);
        self.sleeping.clear(prio);
        proof {
            assert forall|i: u32| i < 32 implies #[trigger] self.slot_wf(i) by {
                assert(pre.slot_wf(i));
            }
        }
    }

    /// Marks a slot sleeping for the given number of ticks.  A sleep must
    /// last at least one tick: the tick handler counts each sleeping slot
    /// down by one before testing for expiry.
    pub fn sleep(&mut self, prio: usize, ticks: Ticks)
        requires
            old(self).wf(),
            prio < 32,
            old(self).spec_used().spec_check(prio as u32),
            ticks >= 1,
        ensures
            final(self).wf(),
            !final(self).spec_ready().spec_check(prio as u32),
            final(self).spec_sleeping().spec_check(prio as u32),
            final(self).spec_sleep_time(prio as u32) == ticks,
            final(self).spec_used() == old(self).spec_used(),
            final(self).spec_task(prio as u32) == old(self).spec_task(prio as u32),
            forall|j: u32|
                j < 32 && j != prio ==> TaskList::slot_unchanged(*old(self), *final(self), j),
    {
        let ghost pre = *self;
        self.sleep_time.set(prio, ticks);
        self.ready.clear(prio);
        self.sleeping.set(prio);
        proof {
            assert forall|i: u32| i < 32 implies #[trigger] self.slot_wf(i) by {
                assert(pre.slot_wf(i));
            }
        }
    }

    /// Readies every slot of the mask at once: the mask's bits join the
    /// ready set and leave the sleeping set in one step.
    pub fn wake_mask(&mut self, mask: &BitVec)
        requires
            old(self).wf(),
            forall|j: u32|
                j < 32 && #[trigger] mask.spec_check(j) ==> old(self).spec_used().spec_check(j),
        ensures
            final(self).wf(),
            final(self).spec_used() == old(self).spec_used(),
            forall|j: u32|
                j < 32 ==> (#[trigger] nth_bit(final(self).spec_ready().spec_raw(), j) <==> (old(
                    self,
                ).spec_ready().spec_check(j) || mask.spec_check(j))),
            forall|j: u32|
                j < 32 ==> (#[trigger] nth_bit(final(self).spec_sleeping().spec_raw(), j) <==> (
                old(self).spec_sleeping().spec_check(j) && !mask.spec_check(j))),
            forall|j: u32| j < 32 ==> final(self).spec_task(j) == old(self).spec_task(j),
            forall|j: u32|
                j < 32 ==> final(self).spec_sleep_time(j) == old(self).spec_sleep_time(j),
    {
        let ghost pre = *self;
        self.ready.or(mask);
        let ghost readied = *self;
        let mut inv = *mask;
        inv.invert();
        self.sleeping.and(&inv);
        proof {
            broadcast use crate::bitvec::group_bitmap_lemmas;

            assert forall|j: u32|
                j < 32 implies (self.spec_ready().spec_check(j) <==> (pre.spec_ready().spec_check(
                j,
            ) || mask.spec_check(j))) by {
                assert(readied.spec_ready().spec_check(j) <==> (pre.spec_ready().spec_check(j)
                    || mask.spec_check(j)));
            }
            assert forall|j: u32|
                j < 32 implies (self.spec_sleeping().spec_check(j) <==> (pre.spec_sleeping(
            ).spec_check(j) && !mask.spec_check(j))) by {
                assert(inv.spec_check(j) <==> !mask.spec_check(j));
            }
            assert forall|i: u32| i < 32 implies #[trigger] self.slot_wf(i) by {
                assert(pre.slot_wf(i));
                assert(self.spec_ready().spec_check(i) <==> (pre.spec_ready().spec_check(i)
                    || mask.spec_check(i)));
                assert(self.spec_sleeping().spec_check(i) <==> (pre.spec_sleeping().spec_check(i)
                    && !mask.spec_check(i)));
            }
        }
    }

    /// Records the semaphore slot a task is blocked on.
    pub fn set_task_semaphore(&mut self, prio: usize, sem: Option<usize>)
        requires
            old(self).wf(),
            prio < 32,
            old(self).spec_used().spec_check(prio as u32),
        ensures
            final(self).wf(),
            final(self).spec_task(prio as u32) matches Some(t) && t.spec_semaphore() == sem,
            (final(self).spec_task(prio as u32), old(self).spec_task(prio as u32)) matches (
                Some(t),
                Some(p),
            ) ==> t.spec_prio() == p.spec_prio() && t.spec_watermark() == p.spec_watermark()
                && t.spec_handle() == p.spec_handle(),
            final(self).spec_used() == old(self).spec_used(),
            final(self).spec_ready() == old(self).spec_ready(),
            final(self).spec_sleeping() == old(self).spec_sleeping(),
            final(self).spec_sleep_time(prio as u32) == old(self).spec_sleep_time(prio as u32),
            forall|j: u32|
                j < 32 && j != prio ==> TaskList::slot_unchanged(*old(self), *final(self), j),
    {
        let ghost pre = *self;
        proof {
            assert(pre.slot_wf(prio as u32));
        }
        let slot = self.list.remove(prio);
        let mut task = slot.unwrap();
        task.set_semaphore(sem);
        self.list.insert(prio, Some(task));
        proof {
            assert(self.list@ =~= pre.list@.update(prio as int, Some(task)));
            assert forall|i: u32| i < 32 implies #[trigger] self.slot_wf(i) by {
                assert(pre.slot_wf(i));
            }
        }
    }

    /// What one tick does to one slot: a sleeping slot with more than one
    /// tick left counts down and stays asleep; a sleeping slot on its last
    /// tick wakes, turning ready with a cleared semaphore back-reference;
    /// every other slot is untouched.  After the tick every slot still
    /// sleeping has at least one tick left.
    pub open spec fn tick_slot_effect(pre: TaskList, post: TaskList, i: u32) -> bool {
        &&& post.spec_used().spec_check(i) == pre.spec_used().spec_check(i)
        &&& if pre.spec_sleeping().spec_check(i) {
            if pre.spec_sleep_time(i) > 1 {
                &&& post.spec_sleeping().spec_check(i)
                &&& post.spec_ready().spec_check(i) == pre.spec_ready().spec_check(i)
                &&& post.spec_sleep_time(i) == pre.spec_sleep_time(i) - 1
                &&& post.spec_task(i) == pre.spec_task(i)
            } else {
                &&& !post.spec_sleeping().spec_check(i)
                &&& post.spec_ready().spec_check(i)
                &&& post.spec_sleep_time(i) == 0
                &&& post.spec_task(i) is Some
                &&& post.spec_task(i)->0.spec_semaphore() is None
                &&& post.spec_task(i)->0.spec_prio() == pre.spec_task(i)->0.spec_prio()
                &&& post.spec_task(i)->0.spec_watermark() == pre.spec_task(
                    i,
                )->0.spec_watermark()
                &&& post.spec_task(i)->0.spec_handle() == pre.spec_task(i)->0.spec_handle()
            }
        } else {
            TaskList::slot_unchanged(pre, post, i)
        }
    }

    /// The whole-table reading of one tick.
    pub open spec fn ticked(pre: TaskList, post: TaskList) -> bool {
        forall|i: u32| i < 32 ==> #[trigger] TaskList::tick_slot_effect(pre, post, i)
    }

    /// The wait-set clearances one tick owes: the pairs of a slot whose
    /// timed wait expires this tick and the semaphore it was blocked on,
    /// in slot order.
    pub open spec fn expired_waits_below(pre: TaskList, n: nat) -> Seq<(usize, usize)>
        decreases n,
    {
        if n == 0 {
            Seq::empty()
        } else {
            let rest = TaskList::expired_waits_below(pre, (n - 1) as nat);
            let i = (n - 1) as u32;
            if pre.spec_sleeping().spec_check(i) && pre.spec_sleep_time(i) == 1 && pre.spec_task(
                i,
            ) is Some && pre.spec_task(i)->0.spec_semaphore() is Some {
                rest.push(((n - 1) as usize, pre.spec_task(i)->0.spec_semaphore()->0))
            } else {
                rest
            }
        }
    }

    /// Slot `p` holds a timed wait on semaphore `s` that expires on the next
    /// tick.
    pub open spec fn wait_expired(pre: TaskList, p: u32, s: usize) -> bool {
        &&& p < 32
        &&& pre.spec_sleeping().spec_check(p)
        &&& pre.spec_sleep_time(p) == 1
        &&& pre.spec_task(p) is Some
        &&& pre.spec_task(p)->0.spec_semaphore() == Some(s)
    }

    /// The expired-wait list holds exactly the pairs of an expiring slot and
    /// its semaphore.
    pub proof fn lemma_expired_waits_membership(pre: TaskList, n: nat, p: usize, s: usize)
        requires
            n <= 32,
        ensures
            TaskList::expired_waits_below(pre, n).contains((p, s)) <==> (p < n
                && TaskList::wait_expired(pre, p as u32, s)),
        decreases n,
    {
        if n > 0 {
            TaskList::lemma_expired_waits_membership(pre, (n - 1) as nat, p, s);
            let rest = TaskList::expired_waits_below(pre, (n - 1) as nat);
            let i = (n - 1) as u32;
            if pre.spec_sleeping().spec_check(i) && pre.spec_sleep_time(i) == 1 && pre.spec_task(
                i,
            ) is Some && pre.spec_task(i)->0.spec_semaphore() is Some {
                let e = (((n - 1) as usize), pre.spec_task(i)->0.spec_semaphore()->0);
                lemma_seq_push_contains(rest, e, (p, s));
            }
        }
    }

    /// Every entry of the expired-wait list is a sound pair.
    pub proof fn lemma_expired_waits_elements(pre: TaskList, n: nat)
        requires
            n <= 32,
        ensures
            forall|k: int|
                0 <= k < TaskList::expired_waits_below(pre, n).len()
                    ==> (#[trigger] TaskList::expired_waits_below(pre, n)[k]).0 < 32
                    && TaskList::wait_expired(
                    pre,
                    TaskList::expired_waits_below(pre, n)[k].0 as u32,
                    TaskList::expired_waits_below(pre, n)[k].1,
                ),
        decreases n,
    {
        if n > 0 {
            TaskList::lemma_expired_waits_elements(pre, (n - 1) as nat);
            let cur = TaskList::expired_waits_below(pre, n);
            let rest = TaskList::expired_waits_below(pre, (n - 1) as nat);
            assert forall|k: int|
                0 <= k < cur.len() implies (#[trigger] cur[k]).0 < 32 && TaskList::wait_expired(
                pre,
                cur[k].0 as u32,
                cur[k].1,
            ) by {
                if k < rest.len() {
                    assert(cur[k] == rest[k]);
                } else {
                    assert(cur[k] == cur.last());
                }
            }
        }
    }

    /// Counts every sleeping slot one tick down; a slot reaching zero wakes:
    /// it turns ready, leaves the sleeping set, and its semaphore
    /// back-reference is taken.  Returns the expired timed waits, each with
    /// the semaphore whose wait set the caller must clear.
    pub fn tick_sleeping(&mut self) -> (r: Vec<(usize, usize)>)
        requires
            old(self).wf(),
        ensures
            final(self).wf(),
            TaskList::ticked(*old(self), *final(self)),
            r@ == TaskList::expired_waits_below(*old(self), 32),
    {
        let ghost pre = *self;
        let mut out: Vec<(usize, usize)> = Vec::new();
        let mut i: usize = 0;
        while i < 32
            invariant
                i <= 32,
                self.wf(),
                out@ == TaskList::expired_waits_below(pre, i as nat),
                TaskList::tick_prefix(pre, *self, i as nat),
            decreases 32 - i,
        {
            let ghost at_entry = *self;
            if self.sleeping.check(i) {
                proof {
                    assert(TaskList::slot_unchanged(pre, at_entry, i as u32));
                    assert(pre.slot_wf(i as u32));
                    assert(self.slot_wf(i as u32));
                }
                let st = self.sleep_time[i];
                let nst = st - 1;
                self.sleep_time.set(i, nst);
                if nst == 0 {
                    self.ready.set(i);
                    self.sleeping.clear(i);
                    let ghost mid = *self;
                    let slot = self.list.remove(i);
                    let mut task = slot.unwrap();
                    let sem = task.take_semaphore();
                    self.list.insert(i, Some(task));
                    proof {
                        assert(self.list@ =~= mid.list@.update(i as int, Some(task)));
                    }
                    if let Some(s) = sem {
                        out.push((i, s));
                    }
                    proof {
                        assert(out@ =~= TaskList::expired_waits_below(pre, (i + 1) as nat));
                    }
                } else {
                    proof {
                        assert(out@ =~= TaskList::expired_waits_below(pre, (i + 1) as nat));
                    }
                }
            } else {
                proof {
                    assert(TaskList::slot_unchanged(pre, at_entry, i as u32));
                    assert(out@ =~= TaskList::expired_waits_below(pre, (i + 1) as nat));
                }
            }
            i = i + 1;
            proof {
                assert forall|k: u32| k < 32 implies #[trigger] self.slot_wf(k) by {
                    assert(pre.slot_wf(k));
                    assert(at_entry.slot_wf(k));
                }
                assert forall|k: u32|
                    k < i implies #[trigger] TaskList::tick_slot_effect(pre, *self, k) by {
                    if k + 1 < i {
                        assert(TaskList::tick_slot_effect(pre, at_entry, k));
                    } else {
                        assert(TaskList::slot_unchanged(pre, at_entry, k));
                    }
                }
                assert forall|k: u32|
                    i <= k < 32 implies TaskList::slot_unchanged(pre, *self, k) by {
                    assert(TaskList::slot_unchanged(pre, at_entry, k));
                }
            }
        }
        out
    }

    /// Slot `i` keeps its occupancy, bitmaps and sleep count, and its task
    /// has had its stack seeded, after a stack-seeding pass.
    pub open spec fn setup_slot_effect(pre: TaskList, post: TaskList, i: u32) -> bool {
        &&& post.spec_used().spec_check(i) == pre.spec_used().spec_check(i)
        &&& post.spec_ready().spec_check(i) == pre.spec_ready().spec_check(i)
        &&& post.spec_sleeping().spec_check(i) == pre.spec_sleeping().spec_check(i)
        &&& post.spec_sleep_time(i) == pre.spec_sleep_time(i)
        &&& (post.spec_task(i) is Some <==> pre.spec_task(i) is Some)
        &&& (post.spec_task(i) matches Some(t) ==> Task::setup_effect(pre.spec_task(i)->0, t))
    }

    /// Seeds the stack of every registered task.
    pub fn setup_all(&mut self)
        requires
            old(self).wf(),
        ensures
            final(self).wf(),
            forall|i: u32|
                i < 32 ==> #[trigger] TaskList::setup_slot_effect(*old(self), *final(self), i),
    {
        let ghost pre = *self;
        let mut i: usize = 0;
        while i < 32
            invariant
                i <= 32,
                self.wf(),
                TaskList::setup_prefix(pre, *self, i as nat),
            decreases 32 - i,
        {
            let ghost at_entry = *self;
            if self.used.check(i) {
                proof {
                    assert(TaskList::slot_unchanged(pre, at_entry, i as u32));
                    assert(pre.slot_wf(i as u32));
                    assert(self.slot_wf(i as u32));
                }
                let slot = self.list.remove(i);
                let mut task = slot.unwrap();
                task.setup();
                self.list.insert(i, Some(task));
                proof {
                    assert(self.list@ =~= at_entry.list@.update(i as int, Some(task)));
                    assert(TaskList::setup_slot_effect(pre, *self, i as u32));
                }
            } else {
                proof {
                    assert(TaskList::slot_unchanged(pre, at_entry, i as u32));
                    assert(pre.slot_wf(i as u32));
                    assert(TaskList::setup_slot_effect(pre, *self, i as u32));
                }
            }
            i = i + 1;
            proof {
                assert forall|k: u32| k < 32 implies #[trigger] self.slot_wf(k) by {
                    assert(pre.slot_wf(k));
                    assert(at_entry.slot_wf(k));
                }
                assert forall|k: u32|
                    k < i implies #[trigger] TaskList::setup_slot_effect(pre, *self, k) by {
                    if k + 1 < i {
                        assert(TaskList::setup_slot_effect(pre, at_entry, k));
                    }
                }
                assert forall|k: u32|
                    i <= k < 32 implies TaskList::slot_unchanged(pre, *self, k) by {
                    assert(TaskList::slot_unchanged(pre, at_entry, k));
                }
            }
        }
    }

    /// The first `n` slots have been seeded; the rest are untouched.
    pub open spec fn setup_prefix(pre: TaskList, post: TaskList, n: nat) -> bool {
        &&& forall|i: u32| i < n ==> #[trigger] TaskList::setup_slot_effect(pre, post, i)
        &&& forall|i: u32| n <= i < 32 ==> #[trigger] TaskList::slot_unchanged(pre, post, i)
    }

    /// The first `n` slots have taken the tick; the rest are untouched.
    pub open spec fn tick_prefix(pre: TaskList, post: TaskList, n: nat) -> bool {
        &&& forall|i: u32| i < n ==> #[trigger] TaskList::tick_slot_effect(pre, post, i)
        &&& forall|i: u32| n <= i < 32 ==> #[trigger] TaskList::slot_unchanged(pre, post, i)
    }
}

/// Appending one element to a sequence adds exactly that element to its
/// contents.
pub proof fn lemma_seq_push_contains<T>(s: Seq<T>, e: T, x: T)
    ensures
        s.push(e).contains(x) <==> (s.contains(x) || x == e),
{
    if s.push(e).contains(x) {
        let i = choose|i: int| 0 <= i < s.push(e).len() && s.push(e)[i] == x;
        if i < s.len() {
            assert(s[i] == x);
        }
    }
    if s.contains(x) {
        let i = choose|i: int| 0 <= i < s.len() && s[i] == x;
        assert(s.push(e)[i] == x);
    }
    if x == e {
        assert(s.push(e)[s.len() as int] == x);
    }
}

/// The scheduling view of one slot: its runnability and remaining sleep.
pub struct SlotState {
    pub ready: bool,
    pub sleeping: bool,
    pub remaining: Ticks,
}

/// The scheduling view of slot `i` of a table.
pub open spec fn spec_slot_state(l: TaskList, i: u32) -> SlotState {
    SlotState {
        ready: l.spec_ready().spec_check(i),
        sleeping: l.spec_sleeping().spec_check(i),
        remaining: l.spec_sleep_time(i),
    }
}

/// What one tick does to one slot's scheduling view.
pub open spec fn tick_slot_state(s: SlotState) -> SlotState {
    if s.sleeping {
        if s.remaining > 1 {
            SlotState { ready: s.ready, sleeping: true, remaining: (s.remaining - 1) as Ticks }
        } else {
            SlotState { ready: true, sleeping: false, remaining: 0 }
        }
    } else {
        s
    }
}

/// The slot's scheduling view after `n` ticks.
pub open spec fn tick_slot_state_n(s: SlotState, n: nat) -> SlotState
    decreases n,
{
    if n == 0 {
        s
    } else {
        tick_slot_state(tick_slot_state_n(s, (n - 1) as nat))
    }
}

/// One tick of the table moves each slot's scheduling view by one step of
/// `tick_slot_state`: the bridge between the table's tick and the per-slot
/// model the duration law is stated over.
pub proof fn lemma_tick_slot_state(pre: TaskList, post: TaskList, i: u32)
    requires
        i < 32,
        TaskList::ticked(pre, post),
    ensures
        spec_slot_state(post, i) == tick_slot_state(spec_slot_state(pre, i)),
{
    assert(TaskList::tick_slot_effect(pre, post, i));
}

/// While a sleep of `r` ticks runs, each of the first `r - 1` ticks leaves
/// the slot asleep with one tick less to go.
pub proof fn lemma_sleep_countdown(s: SlotState, n: nat)
    requires
        s.sleeping,
        n < s.remaining,
    ensures
        tick_slot_state_n(s, n).sleeping,
        tick_slot_state_n(s, n).remaining == s.remaining - n,
        !tick_slot_state_n(s, n).ready || s.ready,
    decreases n,
{
    if n > 0 {
        lemma_sleep_countdown(s, (n - 1) as nat);
    }
}

/// A sleep of `k` ticks blocks for at least `k` and at most `k + 1` tick
/// periods: the slot stays asleep through the first `k - 1` ticks after the
/// call and turns ready exactly at the `k`-th, while the call itself may fall
/// anywhere within the current tick period.
pub proof fn lemma_sleep_duration(s: SlotState, k: Ticks)
    requires
        s.sleeping,
        !s.ready,
        s.remaining == k,
        k >= 1,
    ensures
        forall|n: nat| n < k ==> !#[trigger] tick_slot_state_n(s, n).ready,
        forall|n: nat| n < k ==> #[trigger] tick_slot_state_n(s, n).sleeping,
        tick_slot_state_n(s, k as nat).ready,
        !tick_slot_state_n(s, k as nat).sleeping,
{
    assert forall|n: nat| n < k implies !#[trigger] tick_slot_state_n(s, n).ready
        && tick_slot_state_n(s, n).sleeping by {
        lemma_sleep_countdown(s, n);
    }
    lemma_sleep_countdown(s, (k - 1) as nat);
    assert(tick_slot_state_n(s, k as nat) == tick_slot_state(
        tick_slot_state_n(s, (k - 1) as nat),
    ));
}

/// Every registered task sits in the slot of its own priority, and each
/// used slot is in exactly one of the three runnability states: ready,
/// sleeping, or stopped -- never ready and sleeping at once, and never
/// ready or sleeping without being registered.
pub proof fn lemma_task_states_partition(l: TaskList, i: u32)
    requires
        l.wf(),
        i < 32,
    ensures
        l.spec_task(i) matches Some(t) ==> t.spec_prio() == i,
        (l.spec_task(i) is Some) == l.spec_used().spec_check(i),
        l.spec_ready().spec_check(i) ==> l.spec_used().spec_check(i),
        l.spec_sleeping().spec_check(i) ==> l.spec_used().spec_check(i),
        !(l.spec_ready().spec_check(i) && l.spec_sleeping().spec_check(i)),
{
    assert(l.slot_wf(i));
}

/// Every sleeping slot of a sound table has at least one tick to go; the
/// tick handler preserves soundness, so this holds in particular after every
/// tick.
pub proof fn lemma_sleeping_has_ticks(l: TaskList)
    requires
        l.wf(),
    ensures
        forall|i: u32|
            i < 32 && #[trigger] l.spec_sleeping().spec_check(i) ==> l.spec_sleep_time(i) >= 1,
{
    assert forall|i: u32|
        i < 32 && #[trigger] l.spec_sleeping().spec_check(i) implies l.spec_sleep_time(i)
        >= 1 by {
        assert(l.slot_wf(i));
    }
}

} // verus!
