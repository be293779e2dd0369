//! A model of a small single-CPU kernel: physical frame allocation,
//! descriptor tables and interrupt dispatch, round-robin task scheduling
//! and a counting semaphore.
//!
//! All kernel state is owned by plain values that are handed to the
//! functions that work on it. Whatever touches the machine (port I/O,
//! loading descriptor tables, switching stacks) is returned as data for
//! the caller to perform.
//!
//! Beside the kernel the crate holds the program that the kernel's tasks
//! run ([`user`]) and a few small libraries on texts and lists: [`words`],
//! [`books`], [`people`] and [`cells`].

pub mod books;
pub mod cells;
pub mod io;
pub mod isr;
pub mod mem;
pub mod multiboot;
pub mod people;
pub mod pit;
pub mod syscalls;
pub mod task;
pub mod text;
pub mod user;
pub mod util;
pub mod words;

use crate::io::vga::{Cursor, VGA};
use crate::io::{Diag, Op};
use crate::isr::state::State;
use crate::isr::desc::ISR_COUNT;
use crate::isr::{IsrFunc, Traps, ENTRY_COUNT};
use crate::mem::Region;
use crate::multiboot::{Memory, Module};
use crate::task::sem::Semaphore;
use crate::task::{enters_on, Tasks};
use vstd::prelude::*;

verus! {

/// The vector of the timer interrupt.
pub const TIMER_VECTOR: usize = 0x20;

/// Number of timer ticks after which the scheduler runs.
pub const TICKS_PER_SLICE: u32 = 10;

/// The state of the kernel.
pub struct Kernel {
    /// The memory that frames are allocated from
    pub mem: Region,
    pub traps: Traps,
    pub tasks: Tasks,
    /// The semaphore that tasks reach by system calls
    pub sem: Semaphore,
    pub vga: VGA,
    /// Number of timer ticks since the scheduler ran last
    pub ticks: u32,
}

/// Where the parts of the kernel lie in memory.
pub struct Layout {
    /// Address behind the last byte of the kernel image
    pub kernel_end: u64,
    /// Entry points of the vectors that have one of their own
    pub entries: [usize; ENTRY_COUNT],
    /// Entry point of all other vectors
    pub null_entry: usize,
    /// Address of the global descriptor table
    pub gdt_addr: u64,
    /// Address of the interrupt descriptor table
    pub idt_addr: u64,
    /// Address of the task state segment
    pub tss_addr: usize,
    /// Address at which the kernel goes on when a task runs for the first
    /// time
    pub task_start: usize,
}

impl Kernel {
    /// The parts of the state are well-formed, the stacks of all tasks lie
    /// below the memory that is still unallocated, the vectors that the
    /// processor reserves have no gate that is present, and the scheduler
    /// runs before the ticks reach their number per slice.
    pub open spec fn wf(&self) -> bool {
        &&& self.mem.wf()
        &&& self.tasks.wf()
        &&& self.tasks.below(self.mem.base())
        &&& self.traps.idt.reserved_absent()
        &&& self.vga.wf()
        &&& self.ticks < TICKS_PER_SLICE
    }
}

/// What the machine has to do when the kernel is initialized, in this order:
/// clear the screen, set up the serial line, the interrupt controllers, the
/// descriptor tables and the timer.
pub open spec fn init_ops(layout: Layout) -> Seq<Op> {
    io::vga::init_ops() + io::serial::init_ops() + isr::init_ops(layout.gdt_addr, layout.idt_addr)
        + pit::init_ops()
}

/// Initializes the kernel
///
/// Picks the memory that frames are allocated from, fills the descriptor
/// tables and registers the routines for the timer and the system calls.
/// Returns the state of a kernel without tasks, and what the machine has to
/// do. `None` is returned if no memory can be picked.
pub fn init(mmap: &[Memory], mods: &[Module], layout: &Layout) -> (r: Option<(Kernel, Vec<Op>)>)
    ensures
        r.is_some() <==> mem::pickable(mmap@, mods@, layout.kernel_end),
        r matches Some((k, ops)) ==> {
            &&& k.wf()
            &&& mem::picked(mmap@, mods@, layout.kernel_end, k.mem)
            &&& isr::initialized(k.traps, layout.entries@, layout.null_entry, layout.tss_addr)
            &&& k.traps.gdt.inner.null.bits() == 0
            &&& k.traps.tss.esp0() == 0
            &&& k.traps.tss.ss0() == 0
            &&& k.traps.tss.io_bitmap() == isr::desc::NO_IO_BITMAP
            &&& forall|v: int|
                0 <= v < ISR_COUNT ==> #[trigger] k.traps.isrs[v] == (if v == TIMER_VECTOR {
                    IsrFunc::Timer
                } else if v == syscalls::VECTOR {
                    IsrFunc::Syscall
                } else {
                    IsrFunc::Unexpected
                })
            &&& k.tasks.count() == 0
            &&& k.tasks.cur() == 0
            &&& k.tasks.task_start() == layout.task_start
            &&& k.sem.count() == 1
            &&& k.sem.waiter().is_none()
            &&& k.vga@ == (Cursor { col: 0, row: 0 })
            &&& k.ticks == 0
            &&& ops@ == init_ops(*layout)
        },
{
    let mut ops = io::vga::init();
    let mut serial = io::serial::init();
    ops.append(&mut serial);
    let reg = match mem::init(mmap, mods, layout.kernel_end) {
        Some(reg) => reg,
        None => {
            return None;
        },
    };
    let mut traps = Traps::new();
    syscalls::init(&mut traps);

    // init interrupt handling
    let mut tables = isr::init(
        &mut traps,
        &layout.entries,
        layout.null_entry,
        layout.gdt_addr,
        layout.idt_addr,
        layout.tss_addr,
    );
    ops.append(&mut tables);
    let mut timer = pit::init();
    ops.append(&mut timer);
    isr::set_isr(&mut traps, TIMER_VECTOR, IsrFunc::Timer);

    let k = Kernel {
        mem: reg,
        traps,
        tasks: Tasks::new(layout.task_start),
        sem: Semaphore::new(1),
        vga: VGA::new(),
        ticks: 0,
    };
    Some((k, ops))
}

/// Creates the task that runs the boot module `bmod`, whose code begins at
/// `entry`. Returns the id of the task and the message that reports it.
pub fn load(k: &mut Kernel, bmod: &Module, entry: usize) -> (r: (usize, Op))
    requires
        old(k).wf(),
        old(k).tasks.count() < task::MAX_TASKS,
        old(k).mem.pages() >= 2,
        bmod.start_addr <= bmod.end_addr,
    ensures
        final(k).wf(),
        r.0 == old(k).tasks.count(),
        r.1 == report(r.0, *bmod),
        final(k).tasks.count() == old(k).tasks.count() + 1,
        final(k).tasks@ == old(k).tasks@.update(
            r.0 as int,
            Some(
                task::Task {
                    id: r.0,
                    kstack: old(k).mem.frame(0) as usize,
                    ustack: old(k).mem.frame(1) as usize,
                    entry,
                    kstate: task::initial_state(
                        entry,
                        old(k).mem.frame(0) as usize,
                        old(k).mem.frame(1) as usize,
                        old(k).tasks.task_start(),
                    ),
                    blocked: false,
                },
            ),
        ),
        final(k).tasks.cur() == old(k).tasks.cur(),
        final(k).tasks.task_start() == old(k).tasks.task_start(),
        final(k).mem == old(k).mem.after(2),
        *final(k) == (Kernel { tasks: final(k).tasks, mem: final(k).mem, ..*old(k) }),
{
    let tid = task::create(&mut k.tasks, &mut k.mem, entry);
    let id = task::get(&k.tasks, tid).unwrap().id();
    let op = Op::Log(
        Diag::Loaded { task: id, cmdline: bmod.cmdline, addr: bmod.start_addr, size: bmod.size() },
    );
    (tid, op)
}

/// The task that the `i`-th of the boot modules which are loaded into `k`
/// one after the other runs, if its code begins at `entry`: it gets the
/// `i`-th id that is free and the next two frames.
pub open spec fn loaded(k: Kernel, i: nat, entry: usize) -> task::Task {
    task::Task {
        id: (k.tasks.count() + i) as usize,
        kstack: k.mem.frame(2 * i) as usize,
        ustack: k.mem.frame(2 * i + 1) as usize,
        entry,
        kstate: task::initial_state(
            entry,
            k.mem.frame(2 * i) as usize,
            k.mem.frame(2 * i + 1) as usize,
            k.tasks.task_start(),
        ),
        blocked: false,
    }
}

/// The message that reports that task `id` runs the boot module `bmod`.
pub open spec fn report(id: usize, bmod: Module) -> Op {
    Op::Log(
        Diag::Loaded {
            task: id,
            cmdline: bmod.cmdline,
            addr: bmod.start_addr,
            size: (bmod.end_addr - bmod.start_addr) as usize,
        },
    )
}

/// Creates a task for each of the boot modules `mods`, in their order: the
/// code of module `i` begins at `entries[i]`. The tasks get the free ids in
/// rising order. Returns the messages that report the tasks, in the order of
/// the modules.
pub fn load_all(k: &mut Kernel, mods: &[Module], entries: &[usize]) -> (ops: Vec<Op>)
    requires
        old(k).wf(),
        mods.len() == entries.len(),
        old(k).tasks.count() + mods.len() <= task::MAX_TASKS,
        old(k).mem.pages() >= 2 * mods.len(),
        forall|i: int| 0 <= i < mods.len() ==> (#[trigger] mods[i]).start_addr <= mods[i].end_addr,
    ensures
        final(k).wf(),
        final(k).tasks.count() == old(k).tasks.count() + mods.len(),
        forall|i: int|
            0 <= i < mods.len() ==> #[trigger] final(k).tasks@[old(k).tasks.count() + i] == Some(
                loaded(*old(k), i as nat, entries[i]),
            ),
        forall|j: int| 0 <= j < old(k).tasks.count() ==> final(k).tasks@[j] == old(k).tasks@[j],
        final(k).tasks.cur() == old(k).tasks.cur(),
        final(k).tasks.task_start() == old(k).tasks.task_start(),
        final(k).mem == old(k).mem.after(2 * mods.len() as nat),
        *final(k) == (Kernel { tasks: final(k).tasks, mem: final(k).mem, ..*old(k) }),
        ops@.len() == mods.len(),
        forall|i: int|
            0 <= i < mods.len() ==> #[trigger] ops@[i] == report(
                (old(k).tasks.count() + i) as usize,
                mods[i],
            ),
{
    let ghost first = old(k).tasks.count();
    let mut ops: Vec<Op> = Vec::new();
    let mut n: usize = 0;
    proof {
        mem::lemma_after(k.mem, 0);
    }
    while n < mods.len()
        invariant
            n <= mods.len(),
            mods.len() == entries.len(),
            old(k).wf(),
            first == old(k).tasks.count(),
            first + mods.len() <= task::MAX_TASKS,
            old(k).mem.pages() >= 2 * mods.len(),
            forall|i: int|
                0 <= i < mods.len() ==> (#[trigger] mods[i]).start_addr <= mods[i].end_addr,
            k.wf(),
            k.tasks.count() == first + n,
            forall|i: int|
                0 <= i < n ==> #[trigger] k.tasks@[first + i] == Some(
                    loaded(*old(k), i as nat, entries[i]),
                ),
            forall|j: int| 0 <= j < first ==> k.tasks@[j] == old(k).tasks@[j],
            k.tasks.cur() == old(k).tasks.cur(),
            k.tasks.task_start() == old(k).tasks.task_start(),
            k.mem == old(k).mem.after(2 * n as nat),
            *k == (Kernel { tasks: k.tasks, mem: k.mem, ..*old(k) }),
            ops@.len() == n,
            forall|i: int| 0 <= i < n ==> #[trigger] ops@[i] == report((first + i) as usize, mods[i]),
        decreases mods.len() - n,
    {
        let ghost before = *k;
        proof {
            mem::lemma_after(old(k).mem, 2 * n as nat);
            mem::lemma_after_after(old(k).mem, 2 * n as nat, 0);
            mem::lemma_after_after(old(k).mem, 2 * n as nat, 1);
            mem::lemma_after_after(old(k).mem, 2 * n as nat, 2);
        }
        let (id, op) = load(k, &mods[n], entries[n]);
        ops.push(op);
        proof {
            assert(k.tasks@[first + n] == Some(loaded(*old(k), n as nat, entries[n as int])));
            assert forall|i: int| 0 <= i < n + 1 implies #[trigger] k.tasks@[first + i] == Some(
                loaded(*old(k), i as nat, entries[i]),
            ) by {
                if i < n {
                    assert(before.tasks@[first + i] == Some(loaded(*old(k), i as nat, entries[i])));
                }
            }
        }
        n = n + 1;
    }
    ops
}

/// Prepares the execution of the first task: the next trap enters the kernel
/// on the kernel stack of the running task. Stores the top end of the task's
/// user stack in `ustack` and returns the task's entry point.
pub fn start(k: &mut Kernel, ustack: &mut usize) -> (entry: usize)
    requires
        old(k).wf(),
        old(k).tasks.count() > 0,
    ensures
        final(k).wf(),
        entry == old(k).tasks@[old(k).tasks.cur() as int].unwrap().entry,
        *final(ustack) == old(k).tasks@[old(k).tasks.cur() as int].unwrap().ustack
            + mem::PAGE_SIZE,
        enters_on(
            old(k).traps,
            final(k).traps,
            old(k).tasks@[old(k).tasks.cur() as int].unwrap(),
        ),
        *final(k) == (Kernel { traps: final(k).traps, ..*old(k) }),
{
    let first = *task::current(&k.tasks);
    *ustack = first.ustack_end();
    isr::set_entry_sp(&mut k.traps, first.kstack_end());

    // return entry point
    first.entry()
}

/// Whether `after` and `ops` are what a tick of the timer on vector `irq`
/// makes of `before`: the end of the interrupt is reported, and with every
/// tick that fills a slice the scheduler runs.
pub open spec fn ticked(before: Kernel, irq: usize, after: Kernel, ops: Seq<Op>) -> bool {
    &&& after.ticks == (before.ticks + 1) % (TICKS_PER_SLICE as int)
    &&& after == (Kernel {
        ticks: after.ticks,
        tasks: after.tasks,
        traps: after.traps,
        ..before
    })
    &&& after.tasks@ == before.tasks@
    &&& after.tasks.task_start() == before.tasks.task_start()
    &&& match (if after.ticks == 0 {
        before.tasks.next()
    } else {
        None
    }) {
        Some(next) => {
            &&& ops =~= isr::pic::eoi_ops(irq) + seq![
                Op::Switch { prev: before.tasks.cur(), next },
            ]
            &&& after.tasks.cur() == next
            &&& enters_on(before.traps, after.traps, before.tasks@[next as int].unwrap())
        },
        None => {
            &&& ops =~= isr::pic::eoi_ops(irq)
            &&& after.tasks == before.tasks
            &&& after.traps == before.traps
        },
    }
}

/// Serves a tick of the timer
pub fn timer_irq(k: &mut Kernel, state: &State) -> (ops: Vec<Op>)
    requires
        old(k).wf(),
    ensures
        final(k).wf(),
        ticked(*old(k), state.irq, *final(k), ops@),
{
    k.ticks = (k.ticks + 1) % TICKS_PER_SLICE;

    // report EOI before scheduling
    let mut ops = isr::eoi(state.irq);
    if k.ticks == 0 {
        if let Some(op) = task::schedule(&mut k.tasks, &mut k.traps) {
            ops.push(op);
        }
    }
    ops
}

} // verus!
