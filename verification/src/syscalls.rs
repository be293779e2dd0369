//! The system calls: what a task can ask of the kernel through the system
//! call vector.
//!
//! The number of the call is passed in `eax` and its argument in `ecx`; a
//! call that is over leaves its result in `eax`.

use crate::io::{self, Diag, Op};
use crate::isr::state::State;
use crate::isr::{self, IsrFunc, Traps};
use crate::task::sem::Down;
use crate::task::{self, enters_on, set_blocked};
use crate::Kernel;
use vstd::prelude::*;

verus! {

/// The vector of the system calls.
pub const VECTOR: usize = 0x30;

/// Number of the system call that puts out the byte in `ecx`.
pub const SYS_PUTC: usize = 0;

/// Number of the system call that raises the semaphore.
pub const SYS_UP: usize = 1;

/// Number of the system call that takes the semaphore.
pub const SYS_DOWN: usize = 2;

/// Whether `after`, `state_after` and `ops` are what the system call
/// `SYS_PUTC` makes of `before` and `state`: the low byte of `ecx` has been
/// put out on the screen and on the serial line, and the result is 0.
pub open spec fn putc_served(
    before: Kernel,
    state: State,
    after: Kernel,
    state_after: State,
    ops: Seq<Op>,
) -> bool {
    &&& (after.vga@, ops) == io::put(before.vga@, state.ecx as u8)
    &&& after == (Kernel { vga: after.vga, ..before })
    &&& state_after == (State { eax: 0, ..state })
}

/// Whether `after`, `state_after` and `ops` are what the system call
/// `SYS_UP` makes of `before` and `state`: the semaphore has been raised,
/// unless its counter has reached the greatest number that it can hold, and
/// the result is 0.
pub open spec fn up_served(
    before: Kernel,
    state: State,
    after: Kernel,
    state_after: State,
    ops: Seq<Op>,
) -> bool {
    &&& ops =~= Seq::<Op>::empty()
    &&& state_after == (State { eax: 0, ..state })
    &&& after == (Kernel { sem: after.sem, tasks: after.tasks, ..before })
    &&& after.tasks.cur() == before.tasks.cur()
    &&& after.tasks.task_start() == before.tasks.task_start()
    &&& if before.sem.count() < u32::MAX {
        &&& after.sem.count() == before.sem.count() + 1
        &&& after.sem.waiter().is_none()
        &&& after.tasks@ == match before.sem.waiter() {
            Some(waiting) => set_blocked(before.tasks@, waiting as int, false),
            None => before.tasks@,
        }
    } else {
        &&& after.sem.count() == before.sem.count()
        &&& after.sem.waiter() == before.sem.waiter()
        &&& after.tasks@ == before.tasks@
    }
}

/// Whether `after`, `state_after` and `ops` are what the system call
/// `SYS_DOWN` makes of `before` and `state`.
///
/// Where the counter of the semaphore is above zero, it has been lowered by
/// one and the result is 0. Where it is zero, the call is not over: the
/// running task is recorded as waiting and blocked, the scheduler has picked
/// the task that runs next, and the call is to be served anew once the
/// waiting task runs again.
pub open spec fn down_served(
    before: Kernel,
    state: State,
    after: Kernel,
    state_after: State,
    ops: Seq<Op>,
) -> bool {
    &&& after == (Kernel { sem: after.sem, tasks: after.tasks, traps: after.traps, ..before })
    &&& after.tasks.task_start() == before.tasks.task_start()
    &&& if before.sem.count() > 0 {
        &&& ops =~= Seq::<Op>::empty()
        &&& state_after == (State { eax: 0, ..state })
        &&& after.sem.count() == before.sem.count() - 1
        &&& after.sem.waiter() == before.sem.waiter()
        &&& after.tasks@ == before.tasks@
        &&& after.tasks.cur() == before.tasks.cur()
        &&& after.traps == before.traps
    } else {
        &&& state_after == state
        &&& after.sem.count() == 0
        &&& after.sem.waiter() == Some(before.tasks.cur())
        &&& after.tasks@ == set_blocked(before.tasks@, before.tasks.cur() as int, true)
        &&& match before.tasks.next() {
            Some(next) => {
                &&& ops =~= seq![Op::Switch { prev: before.tasks.cur(), next }, Op::Retry]
                &&& after.tasks.cur() == next
                &&& enters_on(before.traps, after.traps, before.tasks@[next as int].unwrap())
            },
            None => {
                &&& ops =~= seq![Op::Retry]
                &&& after.tasks.cur() == before.tasks.cur()
                &&& after.traps == before.traps
            },
        }
    }
}

/// Whether `after`, `state_after` and `ops` are what the system call that
/// `state` asks for makes of `before`. A call with a number that stands for
/// no system call is reported to the operator and changes nothing.
pub open spec fn served(
    before: Kernel,
    state: State,
    after: Kernel,
    state_after: State,
    ops: Seq<Op>,
) -> bool {
    if state.eax == SYS_PUTC {
        putc_served(before, state, after, state_after, ops)
    } else if state.eax == SYS_UP {
        up_served(before, state, after, state_after, ops)
    } else if state.eax == SYS_DOWN {
        down_served(before, state, after, state_after, ops)
    } else {
        &&& ops =~= seq![
            Op::Log(Diag::UnknownSyscall { no: state.eax, task: before.tasks.cur() }),
        ]
        &&& after == before
        &&& state_after == state
    }
}

/// Whether the system call with the number `no` looks at the running task of
/// `k`: a take of the semaphore does where it has to park the task, and a
/// call that does not exist does to report who made it.
pub open spec fn asks_task(k: Kernel, no: usize) -> bool {
    (no == SYS_DOWN && k.sem.count() == 0) || (no != SYS_PUTC && no != SYS_UP && no != SYS_DOWN)
}

/// Returns whether the system call with the number `no` looks at the running
/// task of `k`
pub fn needs_task(k: &Kernel, no: usize) -> (b: bool)
    ensures
        b == asks_task(*k, no),
{
    (no == SYS_DOWN && k.sem.counter() == 0) || (no != SYS_PUTC && no != SYS_UP && no != SYS_DOWN)
}

/// Serves the system call that `state` asks for
pub fn syscall(k: &mut Kernel, state: &mut State) -> (ops: Vec<Op>)
    requires
        old(k).wf(),
        asks_task(*old(k), old(state).eax) ==> old(k).tasks.count() > 0,
    ensures
        final(k).wf(),
        final(k).tasks.count() == old(k).tasks.count(),
        served(*old(k), *old(state), *final(k), *final(state), ops@),
{
    if state.eax == SYS_PUTC {
        sys_putc(k, state)
    } else if state.eax == SYS_UP {
        sys_up(k, state)
    } else if state.eax == SYS_DOWN {
        sys_down(k, state)
    } else {
        let mut ops: Vec<Op> = Vec::new();
        ops.push(
            Op::Log(Diag::UnknownSyscall { no: state.eax, task: task::current(&k.tasks).id() }),
        );
        ops
    }
}

/// Serves a system call anew that was not over: the task that made it has
/// waited for the semaphore and runs again.
pub fn retry(k: &mut Kernel, state: &mut State) -> (ops: Vec<Op>)
    requires
        old(k).wf(),
        asks_task(*old(k), old(state).eax) ==> old(k).tasks.count() > 0,
    ensures
        final(k).wf(),
        final(k).tasks.count() == old(k).tasks.count(),
        exists|woken: Kernel|
            {
                &&& woken == (Kernel { sem: woken.sem, ..*old(k) })
                &&& woken.sem.count() == old(k).sem.count()
                &&& woken.sem.waiter().is_none()
                &&& served(woken, *old(state), *final(k), *final(state), ops@)
            },
{
    k.sem.resume();
    let ghost woken = *k;
    syscall(k, state)
}

/// Registers the system calls for their vector
pub fn init(traps: &mut Traps)
    ensures
        final(traps).isrs@ == old(traps).isrs@.update(VECTOR as int, IsrFunc::Syscall),
        final(traps).gdt == old(traps).gdt,
        final(traps).idt == old(traps).idt,
        final(traps).tss == old(traps).tss,
{
    isr::set_isr(traps, VECTOR, IsrFunc::Syscall);
}

fn sys_putc(k: &mut Kernel, state: &mut State) -> (ops: Vec<Op>)
    requires
        old(k).wf(),
    ensures
        final(k).wf(),
        putc_served(*old(k), *old(state), *final(k), *final(state), ops@),
{
    let b = #[verifier::truncate] (state.ecx as u8);
    // write the byte to the screen and the serial line
    let ops = io::putc(&mut k.vga, b);
    state.eax = 0;
    ops
}

fn sys_up(k: &mut Kernel, state: &mut State) -> (ops: Vec<Op>)
    requires
        old(k).wf(),
    ensures
        final(k).wf(),
        final(k).tasks.count() == old(k).tasks.count(),
        up_served(*old(k), *old(state), *final(k), *final(state), ops@),
{
    if k.sem.counter() < u32::MAX {
        k.sem.up(&mut k.tasks);
    }
    state.eax = 0;
    Vec::new()
}

fn sys_down(k: &mut Kernel, state: &mut State) -> (ops: Vec<Op>)
    requires
        old(k).wf(),
        old(k).sem.count() == 0 ==> old(k).tasks.count() > 0,
    ensures
        final(k).wf(),
        final(k).tasks.count() == old(k).tasks.count(),
        down_served(*old(k), *old(state), *final(k), *final(state), ops@),
{
    let mut ops: Vec<Op> = Vec::new();
    match k.sem.down(&mut k.tasks, &mut k.traps) {
        Down::Acquired => {
            state.eax = 0;
        },
        Down::Parked(switch) => {
            if let Some(op) = switch {
                ops.push(op);
            }
            ops.push(Op::Retry);
        },
    }
    ops
}

} // verus!
