//! The kernel's interface to the machine.
//!
//! Nothing in this crate touches hardware. Whatever has to happen there is
//! described by a list of [`Op`]s, which the caller carries out in order.

pub mod ports;
pub mod serial;
pub mod vga;

use crate::io::ports::Port;
use crate::io::vga::{written, Cursor, VGA};
use crate::isr::desc::DescTable;
use vstd::prelude::*;
use vstd::string::StringSliceAdditionalSpecFns;

verus! {

/// A message of the kernel for its operator.
#[derive(Clone, Copy, Debug, PartialEq, Eq)]
pub enum Diag {
    /// A trap arrived on vector `vec`, for which no handler is registered.
    UnexpectedIrq { vec: usize, name: &'static str },
    /// Task `task` asked for system call `no`, which does not exist.
    UnknownSyscall { no: usize, task: usize },
    /// Task `task` runs the boot module of `size` bytes at address `addr`,
    /// whose command line is the NUL-terminated string at address `cmdline`.
    Loaded { task: usize, cmdline: u32, addr: u32, size: usize },
}

/// One step for the machine to take.
#[derive(Clone, Copy, Debug, PartialEq, Eq)]
pub enum Op {
    /// Write the byte `val` to the I/O port `port`.
    Out { port: Port, val: u8 },
    /// Read bytes from the I/O port `port` until one has a bit of `mask` set.
    WaitIn { port: Port, mask: u8 },
    /// Set the `len` bytes at address `dst` to `byte`.
    Fill { dst: usize, byte: u8, len: usize },
    /// Copy `len` bytes from address `src` to address `dst`; the two ranges
    /// do not overlap.
    Copy { dst: usize, src: usize, len: usize },
    /// Copy `len` bytes from address `src` to address `dst`; the two ranges
    /// may overlap.
    Move { dst: usize, src: usize, len: usize },
    /// Store `byte` at address `addr`.
    Store8 { addr: usize, byte: u8 },
    /// Make the processor use the global descriptor table described by the
    /// argument.
    LoadGdt(DescTable),
    /// Make the processor use the task state segment whose descriptor lies
    /// at this offset in the global descriptor table.
    LoadTss(usize),
    /// Make the processor use the interrupt descriptor table described by
    /// the argument.
    LoadIdt(DescTable),
    /// Save the registers of the running task in the state of task `prev`
    /// and go on with task `next` where its state was saved.
    Switch { prev: usize, next: usize },
    /// Tell the operator.
    Log(Diag),
    /// The system call that is being served is not over: the task that made
    /// it waits. Once that task runs again, the call is to be served anew,
    /// by [`crate::syscalls::retry`].
    Retry,
}

/// Where the cursor of the screen stands once the byte `b` has been put out
/// with the cursor at `at`, and what puts it out: what shows it on the
/// screen, then what writes it to the serial line.
pub open spec fn put(at: Cursor, b: u8) -> (Cursor, Seq<Op>) {
    let (to, shown) = written(at, b);
    (to, shown + serial::write_ops(b))
}

/// Where the cursor of the screen stands once `bytes` have been put out one
/// after the other with the cursor at `at`, and what puts them out.
pub open spec fn printed(at: Cursor, bytes: Seq<u8>) -> (Cursor, Seq<Op>)
    decreases bytes.len(),
{
    if bytes.len() == 0 {
        (at, Seq::<Op>::empty())
    } else {
        let (mid, before) = printed(at, bytes.drop_last());
        let (to, last) = put(mid, bytes.last());
        (to, before + last)
    }
}

/// Puts the byte `b` out on the screen and on the serial line
pub fn putc(vga: &mut VGA, b: u8) -> (ops: Vec<Op>)
    requires
        old(vga).wf(),
    ensures
        final(vga).wf(),
        (final(vga)@, ops@) == put(old(vga)@, b),
{
    let mut ops = vga.write_char(b);
    let mut sent = serial::write_char(b);
    ops.append(&mut sent);
    ops
}

/// Writes text to the screen and the serial line
pub struct Printer {}

impl Printer {
    /// Puts the bytes of `s` out on the screen and on the serial line
    pub fn write_str(&mut self, vga: &mut VGA, s: &str) -> (ops: Vec<Op>)
        requires
            old(vga).wf(),
        ensures
            final(vga).wf(),
            (final(vga)@, ops@) == printed(old(vga)@, s.spec_bytes()),
    {
        let bytes = s.as_bytes();
        let mut ops: Vec<Op> = Vec::new();
        let mut i: usize = 0;
        while i < bytes.len()
            invariant
                i <= bytes.len(),
                vga.wf(),
                (vga@, ops@) == printed(old(vga)@, bytes@.take(i as int)),
            decreases bytes.len() - i,
        {
            assert(bytes@.take(i + 1).drop_last() == bytes@.take(i as int));
            let mut out = putc(vga, bytes[i]);
            ops.append(&mut out);
            i = i + 1;
        }
        assert(bytes@.take(i as int) == bytes@);
        ops
    }
}

} // verus!
