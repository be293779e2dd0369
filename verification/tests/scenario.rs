use kernel::io::Op;
use kernel::isr::state::State;
use kernel::isr::{isr_handler, ENTRY_COUNT};
use kernel::multiboot::{Memory, Module};
use kernel::syscalls::{retry, SYS_DOWN, SYS_PUTC, SYS_UP, VECTOR};
use kernel::user::{Call, Hello};
use kernel::{init, load, start, Kernel, Layout, TIMER_VECTOR};

/// A task that runs the example program.
struct Program {
    hello: Hello,
    /// The call that the task is making, from the time it is made until it is over
    call: Option<Call>,
    /// The state of a system call that is not over
    pending: Option<State>,
}

impl Program {
    fn new() -> Program {
        Program { hello: Hello::new(), call: None, pending: None }
    }
}

fn boot() -> Kernel {
    let layout = Layout {
        kernel_end: 0x20_0000,
        entries: [0x10_0000; ENTRY_COUNT],
        null_entry: 0x10_0400,
        gdt_addr: 0x11_0000,
        idt_addr: 0x11_1000,
        tss_addr: 0x11_2000,
        task_start: 0x10_0800,
    };
    let mmap = [Memory { size: 20, addr: 0x40_0000, len: 0x10_0000, ty: 1 }];
    let mut k = init(&mmap, &[], &layout).unwrap().0;
    for i in 0..2 {
        let bmod = Module { start_addr: 0x30_0000, end_addr: 0x30_1000, cmdline: 0, reserved: 0 };
        load(&mut k, &bmod, 0x80_0000 + 0x10_0000 * i);
    }
    let mut ustack = 0;
    start(&mut k, &mut ustack);
    k
}

/// Runs two tasks for `steps` steps with a timer interrupt before every
/// `period`-th step. Returns the bytes that were sent over the serial line,
/// each with the task that had it printed.
fn run(steps: usize, period: usize) -> Vec<(usize, u8)> {
    let mut k = boot();
    let mut programs = [Program::new(), Program::new()];
    let mut holder: Option<usize> = None;
    let mut sent = Vec::new();
    for n in 0..steps {
        if n % period == period - 1 {
            let mut state = State { irq: TIMER_VECTOR, ..State::default() };
            isr_handler(&mut k, &mut state);
        }
        let cur = k.tasks.current_id();
        let program = &mut programs[cur];
        let (mut state, ops) = match program.pending.take() {
            Some(mut state) => {
                let ops = retry(&mut k, &mut state);
                (state, ops)
            },
            None => {
                let call = program.hello.next();
                program.call = Some(call);
                let mut state = State { irq: VECTOR, eax: call.no, ecx: call.arg, ..State::default() };
                let ops = isr_handler(&mut k, &mut state);
                (state, ops)
            },
        };
        let call = program.call.unwrap();
        if ops.contains(&Op::Retry) {
            // the task waits for the semaphore: somebody else holds it
            assert_eq!(call.no, SYS_DOWN);
            assert_ne!(holder, None);
            assert_ne!(holder, Some(cur));
            assert_eq!(state.eax, SYS_DOWN);
            state.irq = VECTOR;
            program.pending = Some(state);
            continue;
        }
        assert_eq!(state.eax, 0);
        if call.no == SYS_DOWN {
            // the semaphore was free
            assert_eq!(holder, None);
            holder = Some(cur);
        } else if call.no == SYS_PUTC {
            assert_eq!(holder, Some(cur));
            for op in &ops {
                if let Op::Out { port: 0x3F8, val } = op {
                    sent.push((cur, *val));
                }
            }
        } else {
            assert_eq!(call.no, SYS_UP);
            assert_eq!(holder, Some(cur));
            holder = None;
        }
        program.call = None;
    }
    sent
}

/// Splits what was sent into lines and checks that each line came from one
/// task in one piece. Returns the lines of each task.
fn lines_by_task(sent: &[(usize, u8)]) -> [Vec<String>; 2] {
    let mut lines = [Vec::new(), Vec::new()];
    let mut line = String::new();
    let mut owner = None;
    for (task, byte) in sent {
        if owner.is_none() {
            owner = Some(*task);
        }
        // no byte of another task comes between the bytes of a line
        assert_eq!(owner, Some(*task));
        if *byte == b'\r' {
            continue;
        }
        if *byte == b'\n' {
            lines[*task].push(line.clone());
            line.clear();
            owner = None;
        } else {
            line.push(*byte as char);
        }
    }
    lines
}

#[test]
fn two_tasks_never_mix_their_lines() {
    for period in [1, 2, 3, 5, 7, 11, 13, 64] {
        let sent = run(4000, period);
        let lines = lines_by_task(&sent);
        for task in 0..2 {
            for (i, line) in lines[task].iter().enumerate() {
                assert_eq!(*line, format!("Hello World {}!", i + 1));
            }
        }
        // both tasks get their turn
        assert!(lines[0].len() + lines[1].len() > 10);
        if period < 64 {
            assert!(lines[0].len() > 0);
            assert!(lines[1].len() > 0);
        }
    }
}

#[test]
fn two_tasks_without_timer_run_one_after_the_other() {
    let sent = run(2000, usize::MAX);
    let lines = lines_by_task(&sent);
    // nothing takes the processor from task 0, which never waits
    assert!(lines[0].len() > 50);
    assert_eq!(lines[1].len(), 0);
    assert_eq!(lines[0][0], "Hello World 1!");
    assert_eq!(lines[0][1], "Hello World 2!");
}

#[test]
fn waiting_task_gets_the_semaphore_after_up() {
    let mut k = boot();
    let down = || State { irq: VECTOR, eax: SYS_DOWN, ..State::default() };
    let up = || State { irq: VECTOR, eax: SYS_UP, ..State::default() };
    // task 0 takes the semaphore and is preempted
    assert_eq!(isr_handler(&mut k, &mut down()), vec![]);
    for _ in 0..10 {
        isr_handler(&mut k, &mut State { irq: TIMER_VECTOR, ..State::default() });
    }
    assert_eq!(k.tasks.current_id(), 1);
    // task 1 finds it taken and parks itself
    let mut waiting = down();
    let ops = isr_handler(&mut k, &mut waiting);
    assert_eq!(ops, vec![Op::Switch { prev: 1, next: 0 }, Op::Retry]);
    assert_eq!(k.tasks.current_id(), 0);
    // task 0 lets go and is preempted again
    assert_eq!(isr_handler(&mut k, &mut up()), vec![]);
    for _ in 0..10 {
        isr_handler(&mut k, &mut State { irq: TIMER_VECTOR, ..State::default() });
    }
    assert_eq!(k.tasks.current_id(), 1);
    // task 1 goes on and gets the semaphore
    assert_eq!(retry(&mut k, &mut waiting), vec![]);
    assert_eq!(waiting.eax, 0);
    assert_eq!(k.sem.counter(), 0);
}
