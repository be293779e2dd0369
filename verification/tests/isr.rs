use kernel::io::{Diag, Op};
use kernel::isr::desc::{DescTable, DPL};
use kernel::isr::pic;
use kernel::isr::state::{vec_name, State};
use kernel::isr::{
    eoi, init, isr_handler, set_entry_sp, set_isr, unexpected_irq, IsrFunc, Traps, ENTRY_COUNT,
    GDT_SIZE, SYSCALL_VECTOR,
};
use kernel::multiboot::Memory;
use kernel::{Kernel, Layout};

fn out(port: u16, val: u8) -> Op {
    Op::Out { port, val }
}

fn layout() -> Layout {
    let mut entries = [0usize; ENTRY_COUNT];
    for v in 0..ENTRY_COUNT {
        entries[v] = 0x10_0000 + 0x10 * v;
    }
    Layout {
        kernel_end: 0x20_0000,
        entries,
        null_entry: 0x10_0400,
        gdt_addr: 0x11_0000,
        idt_addr: 0x11_1000,
        tss_addr: 0x11_2000,
        task_start: 0x10_0800,
    }
}

fn kernel() -> Kernel {
    let mmap = [Memory { size: 20, addr: 0x40_0000, len: 0x10_0000, ty: 1 }];
    kernel::init(&mmap, &[], &layout()).unwrap().0
}

fn trap(irq: usize) -> State {
    State { irq, eip: 0x80_0000, esp: 0x90_0000, ..State::default() }
}

#[test]
fn vec_name_names_the_exceptions() {
    let names = [
        "Divide by zero",
        "Single step",
        "Non maskable",
        "Breakpoint",
        "Overflow",
        "Bounds check",
        "Invalid opcode",
        "Co-proc. n/a",
        "Double fault",
        "Co-proc seg. overrun",
        "Invalid TSS",
        "Segment not present",
        "Stack exception",
        "Gen. prot. fault",
        "Page fault",
        "<unknown>",
        "Co-processor error",
    ];
    for vec in 0..names.len() {
        assert_eq!(vec_name(vec), names[vec]);
    }
    for vec in names.len()..1000 {
        assert_eq!(vec_name(vec), "<unknown>");
    }
    assert_eq!(vec_name(usize::MAX), "<unknown>");
}

#[test]
fn state_default_is_all_zero() {
    let s = State::default();
    assert_eq!(
        [s.edi, s.esi, s.ebp, s.kesp, s.ebx, s.edx, s.ecx, s.eax, s.irq, s.error],
        [0; 10]
    );
    assert_eq!([s.eip, s.cs, s.eflags, s.esp, s.ss], [0; 5]);
}

#[test]
fn pic_init_remaps_and_unmasks() {
    assert_eq!(
        pic::init(),
        vec![
            out(0x20, 0x11),
            out(0xA0, 0x11),
            out(0x21, 0x20),
            out(0xA1, 0x28),
            out(0x21, 4),
            out(0xA1, 2),
            out(0x21, 1),
            out(0xA1, 1),
            out(0x21, 0),
            out(0xA1, 0),
        ]
    );
}

#[test]
fn eoi_goes_to_the_controllers_of_the_line() {
    for irq in 0..0x20 {
        assert_eq!(eoi(irq), vec![]);
    }
    for irq in 0x20..0x28 {
        assert_eq!(eoi(irq), vec![out(0x20, 0x20)]);
    }
    for irq in 0x28..=0x30 {
        assert_eq!(eoi(irq), vec![out(0xA0, 0x20), out(0x20, 0x20)]);
    }
    for irq in 0x31..0x100 {
        assert_eq!(eoi(irq), vec![]);
    }
    assert_eq!(pic::eoi(0x27), vec![out(0x20, 0x20)]);
    assert_eq!(pic::eoi(0x28), vec![out(0xA0, 0x20), out(0x20, 0x20)]);
}

#[test]
fn eoi_looks_at_the_low_byte_of_the_vector() {
    assert_eq!(eoi(0x120), vec![out(0x20, 0x20)]);
    assert_eq!(eoi(0x12f), vec![out(0xA0, 0x20), out(0x20, 0x20)]);
    assert_eq!(eoi(0x100), vec![]);
}

#[test]
fn traps_start_empty() {
    let traps = Traps::new();
    assert_eq!(traps.gdt.inner.null.raw(), 0);
    assert_eq!(traps.gdt.inner.kcode.raw(), 0);
    assert_eq!(traps.tss.entry_sp(), 0);
    assert_eq!(traps.tss.entry_ss(), 0);
    for v in 0..256 {
        assert_eq!(traps.idt.get(v).raw(), 0);
        assert_eq!(traps.isrs[v], IsrFunc::Unexpected);
    }
}

#[test]
fn init_fills_the_descriptor_tables() {
    let mut traps = Traps::new();
    let l = layout();
    let ops = init(&mut traps, &l.entries, l.null_entry, l.gdt_addr, l.idt_addr, l.tss_addr);

    assert_eq!(traps.gdt.inner.null.raw(), 0);
    assert_eq!(traps.gdt.inner.kcode.raw(), 0x00CF_9A00_0000_FFFF);
    assert_eq!(traps.gdt.inner.kdata.raw(), 0x00CF_9200_0000_FFFF);
    assert_eq!(traps.gdt.inner.ucode.raw(), 0x00CF_FA00_0000_FFFF);
    assert_eq!(traps.gdt.inner.udata.raw(), 0x00CF_F200_0000_FFFF);
    assert_eq!(traps.gdt.inner.tss.raw(), 0x0040_8911_2000_003B);

    for v in 0..256usize {
        let handler = if v < 49 { 0x10_0000 + 0x10 * v } else { 0x10_0400 };
        let access: u64 = match v {
            2 | 15 => 0x0E,
            48 => 0xEE,
            _ => 0x8E,
        };
        let want = (handler as u64 >> 16) << 48 | access << 40 | 0x8 << 16 | (handler as u64 & 0xFFFF);
        assert_eq!(traps.idt.get(v).raw(), want);
    }
    assert_eq!(SYSCALL_VECTOR, 48);
    assert_eq!(GDT_SIZE, 48);

    let mut want = pic::init();
    want.push(Op::LoadGdt(DescTable { size: 47, offset: 0x11_0000 }));
    want.push(Op::LoadTss(40));
    want.push(Op::LoadIdt(DescTable { size: 0x7FF, offset: 0x11_1000 }));
    assert_eq!(ops, want);

    // the task state segment and the registered routines stay as they were
    assert_eq!(traps.tss.entry_sp(), 0);
    for v in 0..256 {
        assert_eq!(traps.isrs[v], IsrFunc::Unexpected);
    }
}

#[test]
fn init_controllers_come_before_the_tables() {
    let mut traps = Traps::new();
    let l = layout();
    let ops = init(&mut traps, &l.entries, l.null_entry, l.gdt_addr, l.idt_addr, l.tss_addr);
    let last_out = ops.iter().rposition(|op| matches!(op, Op::Out { .. })).unwrap();
    let gdt = ops.iter().position(|op| matches!(op, Op::LoadGdt(_))).unwrap();
    let tss = ops.iter().position(|op| matches!(op, Op::LoadTss(_))).unwrap();
    let idt = ops.iter().position(|op| matches!(op, Op::LoadIdt(_))).unwrap();
    assert!(last_out < gdt);
    assert!(gdt < tss);
    assert!(tss < idt);
    assert_eq!(idt, ops.len() - 1);
}

#[test]
fn set_isr_registers_for_one_vector() {
    let mut traps = Traps::new();
    set_isr(&mut traps, 0x20, IsrFunc::Timer);
    set_isr(&mut traps, 255, IsrFunc::Syscall);
    for v in 0..256 {
        let want = match v {
            0x20 => IsrFunc::Timer,
            255 => IsrFunc::Syscall,
            _ => IsrFunc::Unexpected,
        };
        assert_eq!(traps.isrs[v], want);
    }
    set_isr(&mut traps, 0x20, IsrFunc::Unexpected);
    assert_eq!(traps.isrs[0x20], IsrFunc::Unexpected);
    assert_eq!(traps.idt.get(0x20).raw(), 0);
}

#[test]
fn set_entry_sp_updates_the_task_state_segment() {
    let mut traps = Traps::new();
    set_entry_sp(&mut traps, 0x40_2000);
    assert_eq!(traps.tss.entry_sp(), 0x40_2000);
    assert_eq!(traps.tss.entry_ss(), 0x10);
    assert_eq!(traps.tss.io_bitmap_offset(), 120);
    assert_eq!(traps.isrs[0], IsrFunc::Unexpected);
}

#[test]
fn unexpected_irq_reports_and_acknowledges() {
    assert_eq!(
        unexpected_irq(&trap(0)),
        vec![Op::Log(Diag::UnexpectedIrq { vec: 0, name: "Divide by zero" })]
    );
    assert_eq!(
        unexpected_irq(&trap(0x21)),
        vec![Op::Log(Diag::UnexpectedIrq { vec: 0x21, name: "<unknown>" }), out(0x20, 0x20)]
    );
    assert_eq!(
        unexpected_irq(&trap(0x2c)),
        vec![
            Op::Log(Diag::UnexpectedIrq { vec: 0x2c, name: "<unknown>" }),
            out(0xA0, 0x20),
            out(0x20, 0x20)
        ]
    );
}

#[test]
fn every_vector_goes_to_the_default_handler_before_registration() {
    for v in 0..256 {
        let mut k = kernel();
        set_isr(&mut k.traps, 0x20, IsrFunc::Unexpected);
        set_isr(&mut k.traps, 0x30, IsrFunc::Unexpected);
        let mut state = trap(v);
        let ops = isr_handler(&mut k, &mut state);
        let logs = ops.iter().filter(|op| matches!(op, Op::Log(_))).count();
        assert_eq!(logs, 1);
        assert_eq!(ops[0], Op::Log(Diag::UnexpectedIrq { vec: v, name: vec_name(v) }));
        assert_eq!(ops[1..].to_vec(), eoi(v));
        assert_eq!(state.irq, v);
        assert_eq!(state.eax, 0);
        assert_eq!(k.ticks, 0);
    }
}

#[test]
fn registered_handler_replaces_the_default_handler() {
    for v in 0..256 {
        let mut k = kernel();
        set_isr(&mut k.traps, 0x20, IsrFunc::Unexpected);
        set_isr(&mut k.traps, 0x30, IsrFunc::Unexpected);
        set_isr(&mut k.traps, v, IsrFunc::Timer);
        let ops = isr_handler(&mut k, &mut trap(v));
        // the timer counts a tick and acknowledges; it reports nothing
        assert_eq!(k.ticks, 1);
        assert_eq!(ops, eoi(v));
        // all other vectors are served as before
        let other = (v + 1) % 256;
        let ops = isr_handler(&mut k, &mut trap(other));
        assert_eq!(ops[0], Op::Log(Diag::UnexpectedIrq { vec: other, name: vec_name(other) }));
        assert_eq!(k.ticks, 1);
    }
}

#[test]
fn page_fault_without_handler_is_named_and_not_acknowledged() {
    let mut k = kernel();
    let mut state = trap(14);
    state.error = 0x6;
    let ops = isr_handler(&mut k, &mut state);
    assert_eq!(ops, vec![Op::Log(Diag::UnexpectedIrq { vec: 14, name: "Page fault" })]);
    // no interrupt line is told that an interrupt has ended
    assert!(ops.iter().all(|op| !matches!(op, Op::Out { .. })));
    assert_eq!(state.error, 0x6);
    assert_eq!(state.eip, 0x80_0000);
}

#[test]
fn unexpected_interrupt_is_acknowledged_once() {
    let mut k = kernel();
    let ops = isr_handler(&mut k, &mut trap(0x23));
    let acks = ops.iter().filter(|op| **op == out(0x20, 0x20)).count();
    assert_eq!(acks, 1);
    assert_eq!(ops.len(), 2);
    let ops = isr_handler(&mut k, &mut trap(0x2b));
    assert_eq!(ops.iter().filter(|op| **op == out(0x20, 0x20)).count(), 1);
    assert_eq!(ops.iter().filter(|op| **op == out(0xA0, 0x20)).count(), 1);
    assert_eq!(ops.len(), 3);
}

#[test]
fn gate_privilege_lets_tasks_raise_only_the_system_call() {
    let mut traps = Traps::new();
    let l = layout();
    init(&mut traps, &l.entries, l.null_entry, l.gdt_addr, l.idt_addr, l.tss_addr);
    for v in 0..256 {
        let dpl = traps.idt.get(v).raw() >> 45 & 3;
        let want = if v == 48 { DPL::USER } else { DPL::KERNEL };
        assert_eq!(dpl as u8, want.int_value());
    }
}
