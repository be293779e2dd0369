use kernel::io::{Diag, Op};
use kernel::isr::desc::DescTable;
use kernel::isr::state::State;
use kernel::isr::{isr_handler, IsrFunc, ENTRY_COUNT};
use kernel::multiboot::{Memory, Module};
use kernel::task::get;
use kernel::{
    init, load, load_all, start, timer_irq, Kernel, Layout, TICKS_PER_SLICE, TIMER_VECTOR,
};

fn layout() -> Layout {
    Layout {
        kernel_end: 0x20_0000,
        entries: [0x10_0000; ENTRY_COUNT],
        null_entry: 0x10_0400,
        gdt_addr: 0x11_0000,
        idt_addr: 0x11_1000,
        tss_addr: 0x11_2000,
        task_start: 0x10_0800,
    }
}

fn boot(pages: u64) -> Kernel {
    let mmap = [Memory { size: 20, addr: 0x40_0000, len: pages * 4096, ty: 1 }];
    init(&mmap, &[], &layout()).unwrap().0
}

fn module(start_addr: u32, end_addr: u32) -> Module {
    Module { start_addr, end_addr, cmdline: 0x9000, reserved: 0 }
}

fn tick() -> State {
    State { irq: TIMER_VECTOR, ..State::default() }
}

#[test]
fn init_sets_up_an_empty_kernel() {
    let mmap = [
        Memory { size: 20, addr: 0, len: 0x9_fc00, ty: 1 },
        Memory { size: 20, addr: 0x10_0000, len: 0x70_0000, ty: 1 },
        Memory { size: 20, addr: 0xfffc_0000, len: 0x4_0000, ty: 2 },
    ];
    let mods = [module(0x28_0000, 0x28_4321)];
    let (k, ops) = init(&mmap, &mods, &layout()).unwrap();
    // the memory behind the kernel and the module, from the next page on
    assert_eq!(k.mem.addr(), 0x28_5000);
    assert_eq!(k.mem.size(), 0x80_0000 - 0x28_5000);
    assert_eq!(k.tasks.len(), 0);
    assert_eq!(k.tasks.current_id(), 0);
    assert_eq!(k.sem.counter(), 1);
    assert_eq!(k.sem.waiting_task(), None);
    assert_eq!((k.vga.col(), k.vga.row()), (0, 0));
    assert_eq!(k.ticks, 0);
    for v in 0..256 {
        let want = match v {
            0x20 => IsrFunc::Timer,
            0x30 => IsrFunc::Syscall,
            _ => IsrFunc::Unexpected,
        };
        assert_eq!(k.traps.isrs[v], want);
    }
    assert_eq!(k.traps.gdt.inner.kcode.raw(), 0x00CF_9A00_0000_FFFF);
    assert_eq!(k.traps.idt.get(0).raw(), 0x0010_8E00_0008_0000);
    assert_eq!(k.traps.idt.get(200).raw(), 0x0010_8E00_0008_0400);

    let mut want = kernel::io::vga::init();
    want.append(&mut kernel::io::serial::init());
    want.append(&mut kernel::isr::pic::init());
    want.push(Op::LoadGdt(DescTable { size: 47, offset: 0x11_0000 }));
    want.push(Op::LoadTss(40));
    want.push(Op::LoadIdt(DescTable { size: 0x7FF, offset: 0x11_1000 }));
    want.append(&mut kernel::pit::init());
    assert_eq!(ops, want);
    assert_eq!(ops.len(), 1 + 7 + 10 + 3 + 3);
}

#[test]
fn init_fails_without_usable_memory() {
    assert!(init(&[], &[], &layout()).is_none());
    let mmap = [Memory { size: 20, addr: 0x10_0000, len: 0x1000, ty: 2 }];
    assert!(init(&mmap, &[], &layout()).is_none());
    // the kernel fills the only free range
    let mmap = [Memory { size: 20, addr: 0x10_0000, len: 0x10_0000, ty: 1 }];
    let mods = [module(0x10_0000, 0x30_0000)];
    assert!(init(&mmap, &mods, &layout()).is_none());
}

#[test]
fn load_creates_a_task_and_reports_it() {
    let mut k = boot(8);
    let (id, op) = load(&mut k, &module(0x30_0000, 0x30_2345), 0x80_0000);
    assert_eq!(id, 0);
    assert_eq!(
        op,
        Op::Log(Diag::Loaded { task: 0, cmdline: 0x9000, addr: 0x30_0000, size: 0x2345 })
    );
    assert_eq!(k.tasks.len(), 1);
    assert_eq!(get(&k.tasks, 0).unwrap().entry(), 0x80_0000);
    assert_eq!(k.mem.free_pages(), 6);

    let (id, op) = load(&mut k, &module(0x31_0000, 0x31_0010), 0x90_0000);
    assert_eq!(id, 1);
    assert_eq!(op, Op::Log(Diag::Loaded { task: 1, cmdline: 0x9000, addr: 0x31_0000, size: 16 }));
    assert_eq!(k.mem.free_pages(), 4);
}

#[test]
fn boot_with_three_pages_has_room_for_one_task() {
    let mut k = boot(3);
    assert_eq!(k.mem.free_pages(), 3);
    load(&mut k, &module(0x30_0000, 0x30_1000), 0x80_0000);
    // kernel stack and user stack: exactly two pages
    assert_eq!(k.mem.free_pages(), 1);
    assert_eq!(k.mem.addr(), 0x40_2000);
    assert_eq!(get(&k.tasks, 0).unwrap().kstack, 0x40_0000);
    assert_eq!(get(&k.tasks, 0).unwrap().ustack, 0x40_1000);
    // a second task would need two pages: one page is not enough
    assert!(k.mem.free_pages() < 2);
}

#[test]
fn boot_with_four_pages_has_room_for_two_tasks() {
    let mut k = boot(4);
    load(&mut k, &module(0x30_0000, 0x30_1000), 0x80_0000);
    assert_eq!(k.mem.free_pages(), 2);
    load(&mut k, &module(0x31_0000, 0x31_1000), 0x90_0000);
    assert_eq!(k.mem.free_pages(), 0);
    assert_eq!(k.mem.size(), 0);
    assert_eq!(k.tasks.len(), 2);
    assert_eq!(get(&k.tasks, 1).unwrap().kstack, 0x40_2000);
    assert_eq!(get(&k.tasks, 1).unwrap().ustack, 0x40_3000);
}

#[test]
fn start_prepares_the_first_task() {
    let mut k = boot(8);
    load(&mut k, &module(0x30_0000, 0x30_1000), 0x80_0000);
    load(&mut k, &module(0x31_0000, 0x31_1000), 0x90_0000);
    let mut ustack = 0;
    let entry = start(&mut k, &mut ustack);
    assert_eq!(entry, 0x80_0000);
    assert_eq!(ustack, 0x40_2000);
    assert_eq!(k.traps.tss.entry_sp(), 0x40_1000);
    assert_eq!(k.traps.tss.entry_ss(), 0x10);
    assert_eq!(k.tasks.current_id(), 0);
}

#[test]
fn timer_schedules_every_tenth_tick() {
    let mut k = boot(8);
    load(&mut k, &module(0x30_0000, 0x30_1000), 0x80_0000);
    load(&mut k, &module(0x31_0000, 0x31_1000), 0x90_0000);
    assert_eq!(TICKS_PER_SLICE, 10);
    let ack = Op::Out { port: 0x20, val: 0x20 };
    let mut cur = 0;
    for n in 1..=45 {
        let ops = timer_irq(&mut k, &tick());
        if n % 10 == 0 {
            assert_eq!(ops, vec![ack, Op::Switch { prev: cur, next: 1 - cur }]);
            cur = 1 - cur;
        } else {
            assert_eq!(ops, vec![ack]);
        }
        assert_eq!(k.tasks.current_id(), cur);
        assert_eq!(k.ticks, n % 10);
    }
}

#[test]
fn timer_with_one_task_only_acknowledges() {
    let mut k = boot(8);
    load(&mut k, &module(0x30_0000, 0x30_1000), 0x80_0000);
    for _ in 0..30 {
        assert_eq!(timer_irq(&mut k, &tick()), vec![Op::Out { port: 0x20, val: 0x20 }]);
        assert_eq!(k.tasks.current_id(), 0);
    }
}

#[test]
fn timer_acknowledges_the_vector_it_came_on() {
    let mut k = boot(8);
    let state = State { irq: 0x2a, ..State::default() };
    assert_eq!(
        timer_irq(&mut k, &state),
        vec![Op::Out { port: 0xA0, val: 0x20 }, Op::Out { port: 0x20, val: 0x20 }]
    );
    let state = State { irq: 5, ..State::default() };
    assert_eq!(timer_irq(&mut k, &state), vec![]);
    assert_eq!(k.ticks, 2);
}

#[test]
fn timer_interrupt_arrives_through_its_vector() {
    let mut k = boot(8);
    load(&mut k, &module(0x30_0000, 0x30_1000), 0x80_0000);
    load(&mut k, &module(0x31_0000, 0x31_1000), 0x90_0000);
    let mut switches = 0;
    for _ in 0..100 {
        let ops = isr_handler(&mut k, &mut tick());
        assert_eq!(ops[0], Op::Out { port: 0x20, val: 0x20 });
        switches += ops.iter().filter(|op| matches!(op, Op::Switch { .. })).count();
    }
    assert_eq!(switches, 10);
}

#[test]
fn load_all_gives_the_modules_rising_ids_in_their_order() {
    let mut k = boot(8);
    let mods = [module(0x30_0000, 0x30_2345), module(0x31_0000, 0x31_0010)];
    let ops = load_all(&mut k, &mods, &[0x80_0000, 0x90_0000]);
    assert_eq!(
        ops,
        vec![
            Op::Log(Diag::Loaded { task: 0, cmdline: 0x9000, addr: 0x30_0000, size: 0x2345 }),
            Op::Log(Diag::Loaded { task: 1, cmdline: 0x9000, addr: 0x31_0000, size: 16 }),
        ]
    );
    assert_eq!(k.tasks.len(), 2);
    for id in 0..2 {
        let task = get(&k.tasks, id).unwrap();
        assert_eq!(task.id(), id);
        assert_eq!(task.entry(), 0x80_0000 + 0x10_0000 * id);
        assert_eq!(task.kstack, 0x40_0000 + 0x2000 * id);
        assert_eq!(task.ustack, 0x40_1000 + 0x2000 * id);
    }
    assert_eq!(k.mem.addr(), 0x40_4000);
    assert_eq!(k.mem.free_pages(), 4);
    assert_eq!(k.tasks.current_id(), 0);
}

#[test]
fn load_all_goes_on_behind_the_tasks_that_exist() {
    let mut k = boot(4);
    load(&mut k, &module(0x30_0000, 0x30_1000), 0x80_0000);
    let ops = load_all(&mut k, &[module(0x31_0000, 0x31_1000)], &[0x90_0000]);
    assert_eq!(
        ops,
        vec![Op::Log(Diag::Loaded { task: 1, cmdline: 0x9000, addr: 0x31_0000, size: 0x1000 })]
    );
    assert_eq!(get(&k.tasks, 0).unwrap().entry(), 0x80_0000);
    assert_eq!(get(&k.tasks, 1).unwrap().entry(), 0x90_0000);
    assert_eq!(get(&k.tasks, 1).unwrap().kstack, 0x40_2000);
    assert_eq!(k.mem.free_pages(), 0);
}

#[test]
fn load_all_of_no_module_changes_nothing() {
    let mut k = boot(4);
    assert_eq!(load_all(&mut k, &[], &[]), vec![]);
    assert_eq!(k.tasks.len(), 0);
    assert_eq!(k.mem.free_pages(), 4);
}
