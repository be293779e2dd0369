//! Descriptor tables, the interrupt vector table and the table of trap
//! handlers.

pub mod desc;
pub mod pic;
pub mod state;

use crate::io::{Diag, Op};
use crate::isr::desc::{
    is_flat, is_gate, is_segment, Desc, DescTable, DescType, Granularity, Segment, DESC_SIZE, DPL,
    GDT, IDT, ISR_COUNT, TSS, TSS_SIZE,
};
use crate::isr::state::{name_of, vec_name, State};
use crate::syscalls::{self, served};
use crate::{ticked, timer_irq, Kernel};
use vstd::prelude::*;

verus! {

/// Number of vectors that have an entry point of their own: the exceptions
/// of the processor, the interrupt lines and the system call.
pub const ENTRY_COUNT: usize = 49;

/// The vector by which tasks call the kernel.
pub const SYSCALL_VECTOR: usize = 48;

/// Size in bytes of the global descriptor table in memory.
pub const GDT_SIZE: usize = 48;

/// A routine that serves a trap.
#[derive(Copy, Clone, Debug, PartialEq, Eq, Structural)]
pub enum IsrFunc {
    /// Reports the trap and acknowledges it. This serves every vector for
    /// which nothing else is registered.
    Unexpected,
    /// Counts a tick of the timer and lets the scheduler run in time.
    Timer,
    /// Serves the system call that a task asked for.
    Syscall,
}

/// The tables of the trap subsystem.
///
/// The processor reads `gdt`, `idt` and `tss` in memory; the caller keeps
/// what lies there equal to these values.
pub struct Traps {
    pub gdt: GDT,
    pub idt: IDT,
    pub tss: TSS,
    /// The routine that serves each vector.
    pub isrs: [IsrFunc; ISR_COUNT],
}

/// Address of the entry point that vector `no` leads to: the
/// vector's own where it has one, else the one that all others share.
pub open spec fn entry_of(entries: Seq<usize>, null_entry: usize, no: int) -> usize {
    if no < ENTRY_COUNT {
        entries[no]
    } else {
        null_entry
    }
}

/// The privilege level from which vector `no` can be raised by an
/// instruction: tasks can raise the system call and nothing else.
pub open spec fn gate_dpl(no: int) -> DPL {
    if no == SYSCALL_VECTOR {
        DPL::USER
    } else {
        DPL::KERNEL
    }
}

impl Traps {
    /// Empty descriptor tables, a task state segment without a kernel stack,
    /// and no routine registered for any vector.
    pub fn new() -> (t: Traps)
        ensures
            t.gdt.inner.null.bits() == 0,
            t.gdt.inner.kcode.bits() == 0,
            t.gdt.inner.kdata.bits() == 0,
            t.gdt.inner.ucode.bits() == 0,
            t.gdt.inner.udata.bits() == 0,
            t.gdt.inner.tss.bits() == 0,
            t.idt@.len() == ISR_COUNT,
            t.idt.reserved_absent(),
            forall|v: int| 0 <= v < ISR_COUNT ==> (#[trigger] t.idt@[v]).bits() == 0,
            forall|v: int| 0 <= v < ISR_COUNT ==> #[trigger] t.isrs[v] == IsrFunc::Unexpected,
            t.tss.esp0() == 0,
            t.tss.ss0() == 0,
            t.tss.io_bitmap() == desc::NO_IO_BITMAP,
    {
        Traps {
            gdt: GDT::default(),
            idt: IDT::default(),
            tss: TSS::new(0, 0),
            isrs: [IsrFunc::Unexpected;ISR_COUNT],
        }
    }
}

/// Whether the descriptor tables of `after` are initialized: the global
/// descriptor table holds flat code and data segments for kernel and tasks
/// and the task state segment at `tss_addr`, and the interrupt descriptor
/// table holds a gate for every vector, to the vector's entry point and for
/// its privilege level.
pub open spec fn initialized(
    after: Traps,
    entries: Seq<usize>,
    null_entry: usize,
    tss_addr: usize,
) -> bool {
    &&& is_flat(after.gdt.inner.kcode, Granularity::PAGES, DescType::CODE_XR, DPL::KERNEL)
    &&& is_flat(after.gdt.inner.kdata, Granularity::PAGES, DescType::DATA_RW, DPL::KERNEL)
    &&& is_flat(after.gdt.inner.ucode, Granularity::PAGES, DescType::CODE_XR, DPL::USER)
    &&& is_flat(after.gdt.inner.udata, Granularity::PAGES, DescType::DATA_RW, DPL::USER)
    &&& is_segment(
        after.gdt.inner.tss,
        tss_addr,
        (TSS_SIZE - 1) as usize,
        Granularity::BYTES,
        DescType::SYS_TSS,
        DPL::KERNEL,
    )
    &&& after.idt@.len() == ISR_COUNT
    &&& forall|v: int|
        0 <= v < ISR_COUNT ==> is_gate(
            #[trigger] after.idt@[v],
            v as usize,
            entry_of(entries, null_entry, v),
            gate_dpl(v),
        )
}

/// What the machine has to do when interrupt handling is initialized, in
/// this order: set up the interrupt controllers, load the global descriptor
/// table, which lies at `gdt_addr`, and the task state segment, and load the
/// interrupt descriptor table, which lies at `idt_addr`.
pub open spec fn init_ops(gdt_addr: u64, idt_addr: u64) -> Seq<Op> {
    pic::init_ops() + seq![
        Op::LoadGdt(DescTable { size: (GDT_SIZE - 1) as u16, offset: gdt_addr }),
        Op::LoadTss((Segment::TSS.value() * DESC_SIZE) as usize),
        Op::LoadIdt(DescTable { size: (ISR_COUNT * DESC_SIZE - 1) as u16, offset: idt_addr }),
    ]
}

/// Initializes interrupt handling
///
/// Fills the global descriptor table and the interrupt descriptor table, the
/// latter with a gate for every vector: to `entries[v]` for the vectors that
/// have an entry point of their own, to `null_entry` for the rest. Returns
/// what the machine has to do.
pub fn init(
    traps: &mut Traps,
    entries: &[usize; ENTRY_COUNT],
    null_entry: usize,
    gdt_addr: u64,
    idt_addr: u64,
    tss_addr: usize,
) -> (ops: Vec<Op>)
    ensures
        initialized(*final(traps), entries@, null_entry, tss_addr),
        final(traps).idt.reserved_absent(),
        final(traps).gdt.inner.null == old(traps).gdt.inner.null,
        final(traps).tss == old(traps).tss,
        final(traps).isrs == old(traps).isrs,
        ops@ == init_ops(gdt_addr, idt_addr),
{
    let mut ops = pic::init();
    proof {
        traps.idt.lemma_len();
    }

    // initialize GDT
    traps.gdt.inner.kcode = Desc::new_flat(Granularity::PAGES, DescType::CODE_XR, DPL::KERNEL);
    traps.gdt.inner.kdata = Desc::new_flat(Granularity::PAGES, DescType::DATA_RW, DPL::KERNEL);
    traps.gdt.inner.ucode = Desc::new_flat(Granularity::PAGES, DescType::CODE_XR, DPL::USER);
    traps.gdt.inner.udata = Desc::new_flat(Granularity::PAGES, DescType::DATA_RW, DPL::USER);
    traps.gdt.inner.tss = Desc::new_tss(tss_addr, TSS_SIZE - 1, Granularity::BYTES, DPL::KERNEL);

    // load GDT and TSS
    let gdt_tbl = DescTable::new(GDT_SIZE, gdt_addr);
    let tss_off = Segment::TSS.int_value() as usize * DESC_SIZE;
    ops.push(Op::LoadGdt(gdt_tbl));
    ops.push(Op::LoadTss(tss_off));

    // setup the idt
    let ghost filled = *traps;
    let mut i: usize = 0;
    while i < ENTRY_COUNT
        invariant
            i <= ENTRY_COUNT,
            traps.gdt == filled.gdt,
            traps.tss == filled.tss,
            traps.isrs == filled.isrs,
            traps.idt@.len() == ISR_COUNT,
            forall|v: int|
                0 <= v < i ==> is_gate(
                    #[trigger] traps.idt@[v],
                    v as usize,
                    entry_of(entries@, null_entry, v),
                    gate_dpl(v),
                ),
        decreases ENTRY_COUNT - i,
    {
        let dpl = if i == SYSCALL_VECTOR {
            DPL::USER
        } else {
            DPL::KERNEL
        };
        traps.idt.set(i, entries[i], dpl);
        i = i + 1;
    }

    // all other interrupts
    while i < ISR_COUNT
        invariant
            ENTRY_COUNT <= i <= ISR_COUNT,
            traps.gdt == filled.gdt,
            traps.tss == filled.tss,
            traps.isrs == filled.isrs,
            traps.idt@.len() == ISR_COUNT,
            forall|v: int|
                0 <= v < i ==> is_gate(
                    #[trigger] traps.idt@[v],
                    v as usize,
                    entry_of(entries@, null_entry, v),
                    gate_dpl(v),
                ),
        decreases ISR_COUNT - i,
    {
        traps.idt.set(i, null_entry, DPL::KERNEL);
        i = i + 1;
    }

    // now we can use our idt
    let idt_tbl = DescTable::new(ISR_COUNT * DESC_SIZE, idt_addr);
    ops.push(Op::LoadIdt(idt_tbl));
    proof {
        lemma_reserved_absent(traps.idt@[2], 2, entry_of(entries@, null_entry, 2), gate_dpl(2));
        lemma_reserved_absent(traps.idt@[15], 15, entry_of(entries@, null_entry, 15), gate_dpl(15));
    }
    ops
}

/// Register `func` as the interrupt service routine for vector `idx`
///
/// From now on `func` serves the traps on vector `idx`; all other vectors
/// keep their routines.
pub fn set_isr(traps: &mut Traps, idx: usize, func: IsrFunc)
    requires
        idx < ISR_COUNT,
    ensures
        final(traps).isrs@ == old(traps).isrs@.update(idx as int, func),
        final(traps).isrs[idx as int] == func,
        forall|v: int|
            0 <= v < ISR_COUNT && v != idx ==> #[trigger] final(traps).isrs[v] == old(traps).isrs[v],
        final(traps).gdt == old(traps).gdt,
        final(traps).idt == old(traps).idt,
        final(traps).tss == old(traps).tss,
{
    traps.isrs[idx] = func;
}

/// A gate for vector 2 or vector 15 is not present, wherever it leads: the
/// processor never takes these vectors to a handler.
pub proof fn lemma_reserved_absent(d: Desc, no: usize, handler: usize, dpl: DPL)
    requires
        no == 2 || no == 15,
        is_gate(d, no, handler, dpl),
    ensures
        !d.present(),
{
    desc::lemma_access(d, 0, dpl, DescType::SYS_INTR_GATE);
}

/// Set the kernel stack pointer for the next kernel entry
pub fn set_entry_sp(traps: &mut Traps, sp: usize)
    ensures
        final(traps).tss.esp0() == sp as u32,
        final(traps).tss.ss0() == desc::KERNEL_DATA_SELECTOR,
        final(traps).tss.io_bitmap() == old(traps).tss.io_bitmap(),
        final(traps).gdt == old(traps).gdt,
        final(traps).idt == old(traps).idt,
        final(traps).isrs == old(traps).isrs,
{
    traps.tss.set_entry_sp(sp);
}

/// Report end of interrupt to the hardware
pub fn eoi(irq: usize) -> (ops: Vec<Op>)
    ensures
        ops@ == pic::eoi_ops(irq),
{
    pic::eoi(irq)
}

/// What is done about a trap on vector `irq` for which no routine is
/// registered: the operator is told the vector and its name, and the
/// interrupt controllers are told that the interrupt has ended.
pub open spec fn unexpected_ops(irq: usize) -> Seq<Op> {
    seq![Op::Log(Diag::UnexpectedIrq { vec: irq, name: name_of(irq) })] + pic::eoi_ops(irq)
}

/// Serves a trap for which no routine is registered
pub fn unexpected_irq(state: &State) -> (ops: Vec<Op>)
    ensures
        ops@ == unexpected_ops(state.irq),
{
    let mut ops: Vec<Op> = Vec::new();
    ops.push(Op::Log(Diag::UnexpectedIrq { vec: state.irq, name: vec_name(state.irq) }));
    let mut ack = eoi(state.irq);
    ops.append(&mut ack);
    ops
}

/// Whether `after`, `state_after` and `ops` are what the trap that `state`
/// was saved for makes of `before`: what the routine makes of it that is
/// registered for the vector of the trap.
pub open spec fn handled(
    before: Kernel,
    state: State,
    after: Kernel,
    state_after: State,
    ops: Seq<Op>,
) -> bool {
    match before.traps.isrs[state.irq as int] {
        IsrFunc::Unexpected => {
            &&& ops =~= unexpected_ops(state.irq)
            &&& after == before
            &&& state_after == state
        },
        IsrFunc::Timer => {
            &&& ticked(before, state.irq, after, ops)
            &&& state_after == state
        },
        IsrFunc::Syscall => served(before, state, after, state_after, ops),
    }
}

/// Serves the trap that `state` was saved for, by the routine that is
/// registered for its vector
pub fn isr_handler(k: &mut Kernel, state: &mut State) -> (ops: Vec<Op>)
    requires
        old(k).wf(),
        old(state).irq < ISR_COUNT,
        old(k).traps.isrs[old(state).irq as int] == IsrFunc::Syscall && syscalls::asks_task(
            *old(k),
            old(state).eax,
        ) ==> old(k).tasks.count() > 0,
    ensures
        final(k).wf(),
        final(k).tasks.count() == old(k).tasks.count(),
        handled(*old(k), *old(state), *final(k), *final(state), ops@),
{
    match k.traps.isrs[state.irq] {
        IsrFunc::Unexpected => unexpected_irq(state),
        IsrFunc::Timer => timer_irq(k, state),
        IsrFunc::Syscall => syscalls::syscall(k, state),
    }
}

/// A trap on a vector for which nothing is registered is served by the
/// default routine, once: the operator is told the vector and its name, the
/// end of the interrupt is reported as for every vector, and neither the
/// kernel nor the saved state changes. This holds of every vector of a
/// kernel in which nothing has been registered yet.
pub proof fn lemma_unregistered(
    before: Kernel,
    state: State,
    after: Kernel,
    state_after: State,
    ops: Seq<Op>,
)
    requires
        state.irq < ISR_COUNT,
        before.traps.isrs[state.irq as int] == IsrFunc::Unexpected,
        handled(before, state, after, state_after, ops),
    ensures
        ops == seq![Op::Log(Diag::UnexpectedIrq { vec: state.irq, name: name_of(state.irq) })]
            + pic::eoi_ops(state.irq),
        forall|i: int| 1 <= i < ops.len() ==> ops[i] is Out,
        after == before,
        state_after == state,
{
}

/// Once a routine is registered for a vector, a trap on that vector is
/// served by that routine and no longer by the default routine, and traps
/// on all other vectors are served as before.
pub proof fn lemma_registered(
    traps: Traps,
    registered: Traps,
    idx: usize,
    func: IsrFunc,
    k: Kernel,
    state: State,
    after: Kernel,
    state_after: State,
    ops: Seq<Op>,
)
    requires
        idx < ISR_COUNT,
        state.irq < ISR_COUNT,
        registered.isrs@ == traps.isrs@.update(idx as int, func),
        k.traps == registered,
    ensures
        state.irq == idx ==> (handled(k, state, after, state_after, ops) <==> match func {
            IsrFunc::Unexpected => ops == unexpected_ops(idx) && after == k && state_after == state,
            IsrFunc::Timer => ticked(k, idx, after, ops) && state_after == state,
            IsrFunc::Syscall => served(k, state, after, state_after, ops),
        }),
        state.irq != idx ==> k.traps.isrs[state.irq as int] == traps.isrs[state.irq as int],
{
    assert(registered.isrs@[idx as int] == func);
    assert(registered.isrs@[state.irq as int] == registered.isrs[state.irq as int]);
}

} // verus!
