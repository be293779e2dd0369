//! Tasks and the round robin scheduler.

pub mod elf;
pub mod sem;

use crate::io::Op;
use crate::isr::{self, desc::KERNEL_DATA_SELECTOR, Traps};
use crate::mem::{self, Region, PAGE_SIZE};
use vstd::prelude::*;

verus! {

/// Number of tasks that can exist at the same time.
pub const MAX_TASKS: usize = 2;

/// Size in bytes of one slot of a kernel stack.
pub const STACK_SLOT: usize = 4;

/// Represents the state for in-kernel context switches: the callee save CPU
/// registers, and the address at which the kernel goes on when the state is
/// restored.
///
/// A switch keeps that address in the stack slot that `esp` points to.
#[derive(Copy, Clone, Debug, PartialEq, Eq, Structural)]
pub struct KernelState {
    pub ebx: usize,
    pub esp: usize,
    pub ebp: usize,
    pub esi: usize,
    pub edi: usize,
    pub eflags: usize,
    pub resume: usize,
}

impl Default for KernelState {
    /// The state with every register zero
    fn default() -> (s: KernelState)
        ensures
            s == (KernelState { ebx: 0, esp: 0, ebp: 0, esi: 0, edi: 0, eflags: 0, resume: 0 }),
    {
        KernelState { ebx: 0, esp: 0, ebp: 0, esi: 0, edi: 0, eflags: 0, resume: 0 }
    }
}

/// The state from which a task runs for the first time: the kernel goes on at
/// `task_start` on the last slot of the kernel stack, which is the frame at
/// `kstack`, and finds there the task's entry point and the top of its user
/// stack, which is the frame at `ustack`.
pub open spec fn initial_state(
    entry: usize,
    kstack: usize,
    ustack: usize,
    task_start: usize,
) -> KernelState {
    KernelState {
        ebx: 0,
        esp: (kstack + PAGE_SIZE - STACK_SLOT) as usize,
        ebp: (kstack + PAGE_SIZE) as usize,
        esi: entry,
        edi: (ustack + PAGE_SIZE) as usize,
        eflags: 0,
        resume: task_start,
    }
}

/// Whether the frames at `a` and `b` have no byte in common.
pub open spec fn apart(a: usize, b: usize) -> bool {
    a + PAGE_SIZE <= b || b + PAGE_SIZE <= a
}

/// A tasks is an entity that can execute code and thus contains a kernel stack, a user stack, and a
/// `KernelState` to pause and resume its execution.
#[derive(Copy, Clone, Debug, PartialEq, Eq, Structural)]
pub struct Task {
    pub id: usize,
    /// Address of the frame that holds the kernel stack
    pub kstack: usize,
    /// Address of the frame that holds the user stack
    pub ustack: usize,
    pub entry: usize,
    /// The state from which the task runs for the first time
    pub kstate: KernelState,
    /// Whether the task waits to be unblocked
    pub blocked: bool,
}

impl Task {
    /// The task owns two page-aligned frames that are apart, and starts from
    /// the state that leads to its entry point.
    pub open spec fn wf(&self, task_start: usize) -> bool {
        &&& self.kstack % PAGE_SIZE == 0
        &&& self.ustack % PAGE_SIZE == 0
        &&& self.kstack + PAGE_SIZE <= usize::MAX
        &&& self.ustack + PAGE_SIZE <= usize::MAX
        &&& apart(self.kstack, self.ustack)
        &&& self.kstate == initial_state(self.entry, self.kstack, self.ustack, task_start)
    }

    /// No frame of the task has a byte in common with a frame of `other`.
    pub open spec fn apart_from(&self, other: Task) -> bool {
        &&& apart(self.kstack, other.kstack)
        &&& apart(self.kstack, other.ustack)
        &&& apart(self.ustack, other.kstack)
        &&& apart(self.ustack, other.ustack)
    }

    /// Both frames of the task end at `limit` or before it.
    pub open spec fn below(&self, limit: nat) -> bool {
        &&& self.kstack + PAGE_SIZE <= limit
        &&& self.ustack + PAGE_SIZE <= limit
    }

    /// Creates task `id` with entry point `entry`: takes two frames from
    /// `reg`, the kernel stack first, and sets up the state from which the
    /// task runs for the first time.
    fn new(id: usize, entry: usize, reg: &mut Region, task_start: usize) -> (t: Task)
        requires
            old(reg).wf(),
            old(reg).pages() >= 2,
        ensures
            t == (Task {
                id,
                kstack: old(reg).frame(0) as usize,
                ustack: old(reg).frame(1) as usize,
                entry,
                kstate: initial_state(
                    entry,
                    old(reg).frame(0) as usize,
                    old(reg).frame(1) as usize,
                    task_start,
                ),
                blocked: false,
            }),
            t.wf(task_start),
            t.below(final(reg).base()),
            old(reg).base() <= t.kstack,
            old(reg).base() <= t.ustack,
            *final(reg) == old(reg).after(2),
            final(reg).wf(),
    {
        proof {
            mem::lemma_after(*reg, 0);
            mem::lemma_after(*reg, 1);
            mem::lemma_after(*reg, 2);
            mem::lemma_frames_disjoint(*reg, 0, 1);
        }
        let mut kstate = KernelState::default();

        // init register state
        let kstack = mem::alloc_page(reg);
        let ustack = mem::alloc_page(reg);
        kstate.esp = kstack + PAGE_SIZE;
        kstate.ebp = kstate.esp;
        kstate.esi = entry;
        kstate.edi = ustack + PAGE_SIZE;

        // init stack
        let top_idx = PAGE_SIZE / STACK_SLOT - 1;
        kstate.esp = kstack + top_idx * STACK_SLOT;
        // that's the address we're going to return to in the first switch to the task
        kstate.resume = task_start;

        Task { id, kstack, ustack, entry, kstate, blocked: false }
    }

    /// Returns the id
    pub fn id(&self) -> (id: usize)
        ensures
            id == self.id,
    {
        self.id
    }

    /// Returns the entry point
    pub fn entry(&self) -> (entry: usize)
        ensures
            entry == self.entry,
    {
        self.entry
    }

    /// Returns the top end (stack grows downwards) of the kernel stack
    pub fn kstack_end(&self) -> (end: usize)
        requires
            self.kstack + PAGE_SIZE <= usize::MAX,
        ensures
            end == self.kstack + PAGE_SIZE,
    {
        self.kstack + PAGE_SIZE
    }

    /// Returns the top end (stack grows downwards) of the user stack
    pub fn ustack_end(&self) -> (end: usize)
        requires
            self.ustack + PAGE_SIZE <= usize::MAX,
        ensures
            end == self.ustack + PAGE_SIZE,
    {
        self.ustack + PAGE_SIZE
    }
}

/// Index of the first empty slot of `slots` from index `from` on, or the
/// number of slots if there is none.
pub open spec fn first_free(slots: Seq<Option<Task>>, from: int) -> int
    decreases slots.len() - from,
{
    if from >= slots.len() {
        slots.len() as int
    } else if slots[from].is_none() {
        from
    } else {
        first_free(slots, from + 1)
    }
}

/// The table of all tasks and the marker of the one that runs.
pub struct Tasks {
    slots: [Option<Task>; MAX_TASKS],
    // we assume that at least one task (id=0) is created
    cur: usize,
    task_start: usize,
}

impl View for Tasks {
    type V = Seq<Option<Task>>;

    /// The slots of the table: the task with id `i` stands in slot `i`.
    closed spec fn view(&self) -> Seq<Option<Task>> {
        self.slots@
    }
}

impl Tasks {
    /// Id of the task that runs.
    pub closed spec fn cur(&self) -> usize {
        self.cur
    }

    /// Address at which the kernel goes on when a task runs for the first
    /// time.
    pub closed spec fn task_start(&self) -> usize {
        self.task_start
    }

    /// Whether a task with id `id` exists.
    pub open spec fn has(&self, id: int) -> bool {
        0 <= id < MAX_TASKS && self@[id].is_some()
    }

    /// Number of tasks that exist.
    pub open spec fn count(&self) -> nat {
        first_free(self@, 0) as nat
    }

    /// The table has a slot for every id, and the tasks that exist are those
    /// with the ids below their number: tasks are never removed. Each task
    /// stands in the slot of its id and is well-formed, and no two tasks
    /// share a byte of their stacks. The task that runs exists, unless there
    /// is no task at all: then task 0 is the one that will run.
    pub open spec fn wf(&self) -> bool {
        &&& self@.len() == MAX_TASKS
        &&& self.count() <= MAX_TASKS
        &&& forall|i: int| 0 <= i < MAX_TASKS ==> (#[trigger] self.has(i) <==> i < self.count())
        &&& self.cur() < self.count() || self.cur() == 0
        &&& forall|i: int|
            self.has(i) ==> (#[trigger] self@[i]).unwrap().id == i && self@[i].unwrap().wf(
                self.task_start(),
            )
        &&& forall|i: int, j: int|
            self.has(i) && self.has(j) && i != j ==> (#[trigger] self@[i]).unwrap().apart_from(
                (#[trigger] self@[j]).unwrap(),
            )
    }

    /// Whether the stacks of all tasks end at `limit` or before it.
    pub open spec fn below(&self, limit: nat) -> bool {
        forall|i: int| self.has(i) ==> (#[trigger] self@[i]).unwrap().below(limit)
    }

    /// The slot that comes `k` steps behind that of the running task when
    /// the table is walked round and round.
    pub open spec fn ahead(&self, k: int) -> int {
        (self.cur() + k) % (MAX_TASKS as int)
    }

    /// The first task that is found from the slot `k` steps behind the
    /// running task on, before the walk is back at the running task.
    pub open spec fn scan(&self, k: int) -> Option<usize>
        decreases MAX_TASKS - k,
    {
        if k >= MAX_TASKS {
            None
        } else if self.has(self.ahead(k)) {
            Some(self.ahead(k) as usize)
        } else {
            self.scan(k + 1)
        }
    }

    /// The task that runs next: the first that is found when the table is
    /// walked round from the slot behind the running task to the slot
    /// before it. `None` if there is no other task.
    pub open spec fn next(&self) -> Option<usize> {
        self.scan(1)
    }

    /// A table without tasks, in which tasks will start at `task_start`.
    pub fn new(task_start: usize) -> (tasks: Tasks)
        ensures
            tasks.wf(),
            tasks.count() == 0,
            tasks.cur() == 0,
            tasks.task_start() == task_start,
    {
        Tasks { slots: [None;MAX_TASKS], cur: 0, task_start }
    }

    /// Returns the number of tasks that exist: the lowest id that no task
    /// has
    pub fn len(&self) -> (n: usize)
        ensures
            n == self.count(),
            n <= MAX_TASKS,
    {
        let mut i: usize = 0;
        while i < MAX_TASKS
            invariant
                i <= MAX_TASKS,
                self@.len() == MAX_TASKS,
                first_free(self@, 0) == first_free(self@, i as int),
            decreases MAX_TASKS - i,
        {
            if self.slots[i].is_none() {
                return i;
            }
            i = i + 1;
        }
        i
    }

    /// Returns the id of the task that runs
    pub fn current_id(&self) -> (id: usize)
        ensures
            id == self.cur(),
    {
        self.cur
    }
}

/// Returns a reference to the `Task` with given id or `None`
pub fn get(tasks: &Tasks, id: usize) -> (r: Option<&Task>)
    requires
        id < MAX_TASKS,
    ensures
        r.is_some() == tasks.has(id as int),
        r matches Some(t) ==> *t == tasks@[id as int].unwrap(),
{
    tasks.slots[id].as_ref()
}

/// Returns the current `Task`
pub fn current(tasks: &Tasks) -> (t: &Task)
    requires
        tasks.wf(),
        tasks.count() > 0,
    ensures
        *t == tasks@[tasks.cur() as int].unwrap(),
        t.id == tasks.cur(),
        t.wf(tasks.task_start()),
{
    assert(tasks.has(tasks.cur() as int));
    tasks.slots[tasks.cur].as_ref().unwrap()
}

/// Creates a new `Task` with given entry point (typically from the ELF binary).
///
/// The task gets the lowest id that no task has, and two frames from `reg`:
/// the first for its kernel stack, the second for its user stack.
pub fn create(tasks: &mut Tasks, reg: &mut Region, entry: usize) -> (id: usize)
    requires
        old(tasks).wf(),
        old(reg).wf(),
        old(tasks).below(old(reg).base()),
        old(tasks).count() < MAX_TASKS,
        old(reg).pages() >= 2,
    ensures
        id == old(tasks).count(),
        final(tasks).count() == old(tasks).count() + 1,
        final(tasks)@ == old(tasks)@.update(
            id as int,
            Some(
                Task {
                    id,
                    kstack: old(reg).frame(0) as usize,
                    ustack: old(reg).frame(1) as usize,
                    entry,
                    kstate: initial_state(
                        entry,
                        old(reg).frame(0) as usize,
                        old(reg).frame(1) as usize,
                        old(tasks).task_start(),
                    ),
                    blocked: false,
                },
            ),
        ),
        final(tasks).cur() == old(tasks).cur(),
        final(tasks).task_start() == old(tasks).task_start(),
        *final(reg) == old(reg).after(2),
        final(reg).pages() == old(reg).pages() - 2,
        final(tasks).wf(),
        final(reg).wf(),
        final(tasks).below(final(reg).base()),
{
    proof {
        mem::lemma_after(*reg, 2);
    }
    let id = tasks.len();
    assert(!old(tasks).has(id as int));
    let task = Task::new(id, entry, reg, tasks.task_start);
    tasks.slots[id] = Some(task);
    proof {
        lemma_first_free(old(tasks)@, 0);
        lemma_first_free(tasks@, 0);
        assert(tasks.count() == id + 1) by {
            assert forall|i: int| 0 <= i <= id implies tasks.has(i) by {
                if i != id {
                    assert(old(tasks).has(i));
                }
            }
            if id + 1 < MAX_TASKS {
                assert(!old(tasks).has(id + 1));
                assert(!tasks.has(id + 1));
            }
        }
        assert forall|i: int| 0 <= i < MAX_TASKS implies (#[trigger] tasks.has(i) <==> i
            < tasks.count()) by {
            if i != id {
                assert(old(tasks).has(i) <==> i < old(tasks).count());
            }
        }
        assert forall|i: int| tasks.has(i) implies (#[trigger] tasks@[i]).unwrap().below(
            reg.base(),
        ) by {
            if i != id {
                assert(old(tasks).has(i));
                assert(old(tasks)@[i].unwrap().below(old(reg).base()));
            }
        }
        assert forall|i: int, j: int| tasks.has(i) && tasks.has(j) && i != j implies (
        #[trigger] tasks@[i]).unwrap().apart_from((#[trigger] tasks@[j]).unwrap()) by {
            if i == id {
                assert(old(tasks)@[j].unwrap().below(old(reg).base()));
            } else if j == id {
                assert(old(tasks)@[i].unwrap().below(old(reg).base()));
            } else {
                assert(old(tasks).has(i) && old(tasks).has(j));
            }
        }
        assert forall|i: int| tasks.has(i) implies (#[trigger] tasks@[i]).unwrap().id == i
            && tasks@[i].unwrap().wf(tasks.task_start()) by {
            if i != id {
                assert(old(tasks).has(i));
            }
        }
    }
    id
}

/// The slots in which the task in slot `id`, if there is one, is blocked or
/// not as `blocked` says.
pub open spec fn set_blocked(slots: Seq<Option<Task>>, id: int, blocked: bool) -> Seq<
    Option<Task>,
> {
    if 0 <= id < slots.len() && slots[id].is_some() {
        slots.update(id, Some(Task { blocked, ..slots[id].unwrap() }))
    } else {
        slots
    }
}

/// Whether two tasks differ at most in being blocked.
pub open spec fn same_but_blocked(a: Task, b: Task) -> bool {
    a == (Task { blocked: a.blocked, ..b })
}

/// The first empty slot is the same in two tables that have tasks in the
/// same slots.
proof fn lemma_first_free_same(a: Seq<Option<Task>>, b: Seq<Option<Task>>, from: int)
    requires
        a.len() == b.len(),
        0 <= from,
        forall|i: int| 0 <= i < a.len() ==> a[i].is_some() == b[i].is_some(),
    ensures
        first_free(a, from) == first_free(b, from),
    decreases a.len() - from,
{
    if from < a.len() && a[from].is_some() {
        lemma_first_free_same(a, b, from + 1);
    }
}

/// A well-formed table stays so when no task comes or goes, tasks change at
/// most in being blocked, and an existing task is the one that runs.
proof fn lemma_wf_kept(a: Tasks, b: Tasks)
    requires
        a.wf(),
        b@.len() == a@.len(),
        forall|i: int| 0 <= i < MAX_TASKS ==> a@[i].is_some() == b@[i].is_some(),
        forall|i: int|
            0 <= i < MAX_TASKS && a@[i].is_some() ==> same_but_blocked(
                a@[i].unwrap(),
                b@[i].unwrap(),
            ),
        b.task_start() == a.task_start(),
        b.cur() == a.cur() || a.has(b.cur() as int),
    ensures
        b.wf(),
        b.count() == a.count(),
        forall|limit: nat| a.below(limit) ==> b.below(limit),
{
    lemma_first_free_same(a@, b@, 0);
    assert forall|i: int| 0 <= i < MAX_TASKS implies (#[trigger] b.has(i) <==> i < b.count()) by {
        assert(a.has(i) <==> i < a.count());
    }
    assert forall|i: int| b.has(i) implies (#[trigger] b@[i]).unwrap().id == i
        && b@[i].unwrap().wf(b.task_start()) by {
        assert(a.has(i));
        assert(a@[i].unwrap().id == i);
    }
    assert forall|i: int, j: int| b.has(i) && b.has(j) && i != j implies (
    #[trigger] b@[i]).unwrap().apart_from((#[trigger] b@[j]).unwrap()) by {
        assert(a.has(i) && a.has(j));
        assert(a@[i].unwrap().apart_from(a@[j].unwrap()));
    }
    assert forall|limit: nat| a.below(limit) implies b.below(limit) by {
        assert forall|i: int| b.has(i) implies (#[trigger] b@[i]).unwrap().below(limit) by {
            assert(a.has(i));
            assert(a@[i].unwrap().below(limit));
        }
    }
}

/// The first empty slot from `from` on is empty and has only tasks between
/// `from` and itself.
pub proof fn lemma_first_free(slots: Seq<Option<Task>>, from: int)
    requires
        0 <= from <= slots.len(),
    ensures
        from <= first_free(slots, from) <= slots.len(),
        first_free(slots, from) < slots.len() ==> slots[first_free(slots, from)].is_none(),
        forall|i: int| from <= i < first_free(slots, from) ==> (#[trigger] slots[i]).is_some(),
    decreases slots.len() - from,
{
    if from < slots.len() && slots[from].is_some() {
        lemma_first_free(slots, from + 1);
    }
}

/// Returns the task that runs next, or `None` if there is no other task
pub fn next_task(tasks: &Tasks) -> (r: Option<usize>)
    requires
        tasks.cur() < MAX_TASKS,
    ensures
        r == tasks.next(),
{
    // simple round robin scheduler
    let mut pos = (tasks.cur + 1) % MAX_TASKS;
    let ghost mut k: int = 1;
    while pos != tasks.cur
        invariant
            tasks.cur() < MAX_TASKS,
            1 <= k <= MAX_TASKS,
            pos == tasks.ahead(k),
            k == MAX_TASKS <==> pos == tasks.cur(),
            tasks.next() == tasks.scan(k),
        decreases MAX_TASKS - k,
    {
        // if the task exists, pick it
        if let Some(_) = get(tasks, pos) {
            return Some(pos);
        }
        pos = (pos + 1) % MAX_TASKS;
        proof {
            k = k + 1;
        }
    }
    None
}

/// What has changed once the kernel stack of task `t` is the one that the
/// next trap enters on.
pub open spec fn enters_on(before: Traps, after: Traps, t: Task) -> bool {
    &&& after.tss.esp0() == (t.kstack + PAGE_SIZE) as u32
    &&& after.tss.ss0() == KERNEL_DATA_SELECTOR
    &&& after.tss.io_bitmap() == before.tss.io_bitmap()
    &&& after.gdt == before.gdt
    &&& after.idt == before.idt
    &&& after.isrs == before.isrs
}

impl Task {
    /// Performs a context switch to the task
    ///
    /// The next trap from the task enters the kernel at the top end of the
    /// task's kernel stack.
    pub fn make_current(&self, tasks: &mut Tasks, traps: &mut Traps) -> (op: Op)
        requires
            old(tasks).wf(),
            old(tasks).has(self.id as int),
            old(tasks)@[self.id as int] == Some(*self),
        ensures
            final(tasks).wf(),
            op == (Op::Switch { prev: old(tasks).cur(), next: self.id }),
            final(tasks).cur() == self.id,
            final(tasks)@ == old(tasks)@,
            final(tasks).task_start() == old(tasks).task_start(),
            enters_on(*old(traps), *final(traps), *self),
    {
        let cur = tasks.cur;
        // set TSS::sp0 as the kernel stack pointer when we enter the kernel again
        isr::set_entry_sp(traps, self.kstack_end());
        // the task is running now
        tasks.cur = self.id;
        proof {
            lemma_wf_kept(*old(tasks), *tasks);
        }
        // save state of old task and restore state of the new one
        Op::Switch { prev: cur, next: self.id }
    }
}

/// Switches to the next task
///
/// If there is another task to run, the result is the switch to it that the
/// machine has to make; otherwise the current task goes on and nothing
/// changes.
pub fn schedule(tasks: &mut Tasks, traps: &mut Traps) -> (r: Option<Op>)
    requires
        old(tasks).wf(),
    ensures
        final(tasks).wf(),
        match old(tasks).next() {
            Some(next) => {
                &&& r == Some(Op::Switch { prev: old(tasks).cur(), next })
                &&& final(tasks).cur() == next
                &&& final(tasks)@ == old(tasks)@
                &&& final(tasks).task_start() == old(tasks).task_start()
                &&& enters_on(*old(traps), *final(traps), old(tasks)@[next as int].unwrap())
            },
            None => r.is_none() && *final(tasks) == *old(tasks) && *final(traps) == *old(traps),
        },
{
    // if there is another task to run, switch to it, otherwise continue with the current one
    if let Some(next) = next_task(tasks) {
        proof {
            tasks.lemma_next();
        }
        let task = *get(tasks, next).unwrap();
        Some(task.make_current(tasks, traps))
    } else {
        None
    }
}

/// Marks task `id` as blocked or not. Nothing happens if no such task
/// exists.
fn mark(tasks: &mut Tasks, id: usize, blocked: bool)
    requires
        old(tasks).wf(),
    ensures
        final(tasks)@ == set_blocked(old(tasks)@, id as int, blocked),
        final(tasks).cur() == old(tasks).cur(),
        final(tasks).task_start() == old(tasks).task_start(),
        final(tasks).count() == old(tasks).count(),
        final(tasks).next() == old(tasks).next(),
        final(tasks).wf(),
        forall|limit: nat| old(tasks).below(limit) ==> final(tasks).below(limit),
{
    if id < MAX_TASKS {
        if let Some(task) = tasks.slots[id] {
            let mut task = task;
            task.blocked = blocked;
            tasks.slots[id] = Some(task);
        }
    }
    proof {
        lemma_wf_kept(*old(tasks), *tasks);
        tasks.lemma_scan_same(*old(tasks), 1);
    }
}

/// Marks the running task as not runnable and invokes the scheduler
///
/// The scheduler does not look at the mark: the task runs again when its
/// turn comes. If there is another task to run, the result is the switch to
/// it that the machine has to make.
pub fn block(tasks: &mut Tasks, traps: &mut Traps) -> (r: Option<Op>)
    requires
        old(tasks).wf(),
    ensures
        final(tasks).wf(),
        final(tasks)@ == set_blocked(old(tasks)@, old(tasks).cur() as int, true),
        final(tasks).task_start() == old(tasks).task_start(),
        final(tasks).count() == old(tasks).count(),
        forall|limit: nat| old(tasks).below(limit) ==> final(tasks).below(limit),
        match old(tasks).next() {
            Some(next) => {
                &&& r == Some(Op::Switch { prev: old(tasks).cur(), next })
                &&& final(tasks).cur() == next
                &&& enters_on(*old(traps), *final(traps), old(tasks)@[next as int].unwrap())
            },
            None => {
                &&& r.is_none()
                &&& final(tasks).cur() == old(tasks).cur()
                &&& *final(traps) == *old(traps)
            },
        },
{
    let cur = tasks.cur;
    mark(tasks, cur, true);
    let ghost marked = *tasks;
    proof {
        old(tasks).lemma_next();
    }
    let r = schedule(tasks, traps);
    proof {
        lemma_wf_kept(marked, *tasks);
    }
    r
}

/// Marks task `id` as runnable again. Nothing happens if no such task exists.
pub fn unblock(tasks: &mut Tasks, id: usize)
    requires
        old(tasks).wf(),
    ensures
        final(tasks).wf(),
        final(tasks)@ == set_blocked(old(tasks)@, id as int, false),
        final(tasks).cur() == old(tasks).cur(),
        final(tasks).task_start() == old(tasks).task_start(),
        final(tasks).count() == old(tasks).count(),
        final(tasks).next() == old(tasks).next(),
        forall|limit: nat| old(tasks).below(limit) ==> final(tasks).below(limit),
{
    mark(tasks, id, false);
}

impl Tasks {
    /// A walk finds the same in a table that has tasks in the same slots and
    /// the same running task.
    proof fn lemma_scan_same(&self, other: Tasks, from: int)
        requires
            self@.len() == other@.len(),
            self.cur() == other.cur(),
            forall|i: int| 0 <= i < MAX_TASKS ==> self@[i].is_some() == other@[i].is_some(),
        ensures
            self.scan(from) == other.scan(from),
        decreases MAX_TASKS - from,
    {
        if from < MAX_TASKS {
            self.lemma_scan_same(other, from + 1);
        }
    }

    /// The task that runs next exists, is not the running one, and is the
    /// first such task in the walk round the table; there is none only if no
    /// other task exists.
    pub proof fn lemma_next(&self)
        requires
            self.cur() < MAX_TASKS,
        ensures
            self.next() matches Some(n) ==> self.has(n as int) && n != self.cur() && exists|k: int|
                1 <= k < MAX_TASKS && n == self.ahead(k) && forall|j: int|
                    1 <= j < k ==> !self.has(#[trigger] self.ahead(j)),
            self.next().is_none() ==> forall|i: int|
                0 <= i < MAX_TASKS && i != self.cur() ==> !self.has(i),
    {
        self.lemma_scan(1);
        if self.next().is_none() {
            assert forall|i: int| 0 <= i < MAX_TASKS && i != self.cur() implies !self.has(i) by {
                let k = if i > self.cur() {
                    i - self.cur()
                } else {
                    i + MAX_TASKS - self.cur()
                };
                assert(self.ahead(k) == i);
            }
        }
    }

    /// Round robin: where two tasks or more exist, the task with the next
    /// higher id runs next, and after the one with the highest id the one
    /// with the lowest. A task that is alone goes on running.
    pub proof fn lemma_round_robin(&self)
        requires
            self.wf(),
        ensures
            self.count() >= 2 ==> self.next() == Some(
                ((self.cur() + 1) % (self.count() as int)) as usize,
            ),
            self.count() <= 1 ==> self.next().is_none(),
    {
        self.lemma_next();
        let n = self.count() as int;
        let c = self.cur() as int;
        if n >= 2 {
            let want = (c + 1) % n;
            assert(self.has(want));
            match self.next() {
                Some(p) => {
                    let k = choose|k: int|
                        1 <= k < MAX_TASKS && p == self.ahead(k) && forall|j: int|
                            1 <= j < k ==> !self.has(#[trigger] self.ahead(j));
                    let kw = if c + 1 < n {
                        1
                    } else {
                        MAX_TASKS - c
                    };
                    assert(self.ahead(kw) == want);
                    if kw < k {
                        assert(!self.has(self.ahead(kw)));
                    } else if k < kw {
                        assert(self.has(self.ahead(k)));
                        assert(self.ahead(k) == c + k);
                    }
                },
                None => {
                    assert(!self.has(want));
                },
            }
        } else {
            if let Some(p) = self.next() {
                assert(self.has(p as int));
            }
        }
    }

    /// Two tasks take turns: where both exist, the one that does not run
    /// runs next, and after it the first one again.
    pub proof fn lemma_alternate(&self, after: Tasks)
        requires
            self.wf(),
            self.count() == 2,
            after.wf(),
            after@ == self@,
            self.next() == Some(after.cur()),
        ensures
            after.cur() == 1 - self.cur(),
            after.next() == Some(self.cur()),
    {
        self.lemma_round_robin();
        after.lemma_round_robin();
    }

    /// What a walk from the slot `from` steps behind the running task finds.
    proof fn lemma_scan(&self, from: int)
        requires
            self.cur() < MAX_TASKS,
            1 <= from,
        ensures
            self.scan(from) matches Some(n) ==> self.has(n as int) && n != self.cur() && exists|
                k: int,
            |
                from <= k < MAX_TASKS && n == self.ahead(k) && forall|j: int|
                    from <= j < k ==> !self.has(#[trigger] self.ahead(j)),
            self.scan(from).is_none() ==> forall|j: int|
                from <= j < MAX_TASKS ==> !self.has(#[trigger] self.ahead(j)),
        decreases MAX_TASKS - from,
    {
        if from >= MAX_TASKS {
        } else if self.has(self.ahead(from)) {
            let n = self.ahead(from);
            assert(from <= from < MAX_TASKS && n == self.ahead(from));
        } else {
            self.lemma_scan(from + 1);
            if let Some(n) = self.scan(from) {
                let k = choose|k: int|
                    from + 1 <= k < MAX_TASKS && n == self.ahead(k) && forall|j: int|
                        from + 1 <= j < k ==> !self.has(#[trigger] self.ahead(j));
                assert(from <= k < MAX_TASKS && n == self.ahead(k));
            }
        }
    }
}

} // verus!
