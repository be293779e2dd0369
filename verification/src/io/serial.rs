//! The serial line.

use crate::io::ports::Port;
use crate::io::vga::{NEWLINE, RETURN};
use crate::io::Op;
use vstd::prelude::*;

verus! {

/// First port of the first serial line.
pub const COM1: Port = 0x3F8;

/// divisor latch, low byte
pub const DLR_LO: Port = 0;

/// divisor latch, high byte
pub const DLR_HI: Port = 1;

/// interrupt enable register
pub const IER: Port = 1;

/// FIFO control register
pub const FCR: Port = 2;

/// line control register
pub const LCR: Port = 3;

/// modem control register
pub const MCR: Port = 4;

/// line status register
pub const LSR: Port = 5;

/// Bit of the line status register: the line can take the next byte.
pub const LSR_READY: u8 = 0x20;

/// The port writes that set the line up: 115200 baud, 8 bits, no parity,
/// one stop bit, no interrupts.
pub open spec fn init_ops() -> Seq<Op> {
    seq![
        Op::Out { port: (COM1 + LCR) as u16, val: 0x80 },
        Op::Out { port: (COM1 + DLR_LO) as u16, val: 0x01 },
        Op::Out { port: (COM1 + DLR_HI) as u16, val: 0x00 },
        Op::Out { port: (COM1 + LCR) as u16, val: 0x03 },
        Op::Out { port: (COM1 + IER) as u16, val: 0 },
        Op::Out { port: (COM1 + FCR) as u16, val: 7 },
        Op::Out { port: (COM1 + MCR) as u16, val: 3 },
    ]
}

/// What sends the byte `c`: wait until the line is ready, then write the
/// byte.
pub open spec fn send_ops(c: u8) -> Seq<Op> {
    seq![
        Op::WaitIn { port: (COM1 + LSR) as u16, mask: LSR_READY },
        Op::Out { port: COM1, val: c },
    ]
}

/// What writes the character `c` to the line: nothing for the NUL
/// character, a carriage return before a newline, else the character alone.
pub open spec fn write_ops(c: u8) -> Seq<Op> {
    if c == 0 {
        seq![]
    } else if c == NEWLINE {
        send_ops(RETURN) + send_ops(NEWLINE)
    } else {
        send_ops(c)
    }
}

/// Inits the serial line
pub fn init() -> (ops: Vec<Op>)
    ensures
        ops@ == init_ops(),
{
    let mut ops: Vec<Op> = Vec::new();
    ops.push(Op::Out { port: COM1 + LCR, val: 0x80 });  // Enable DLAB (set baud rate divisor)
    ops.push(Op::Out { port: COM1 + DLR_LO, val: 0x01 });  // Set divisor to 1 (lo byte) 115200 baud
    ops.push(Op::Out { port: COM1 + DLR_HI, val: 0x00 });  //                  (hi byte)
    ops.push(Op::Out { port: COM1 + LCR, val: 0x03 });  // 8 bits, no parity, one stop bit
    ops.push(Op::Out { port: COM1 + IER, val: 0 });  // disable interrupts
    ops.push(Op::Out { port: COM1 + FCR, val: 7 });
    ops.push(Op::Out { port: COM1 + MCR, val: 3 });
    ops
}

/// Writes the given character to the serial line
pub fn write_char(c: u8) -> (ops: Vec<Op>)
    ensures
        ops@ == write_ops(c),
    decreases
            (if c == NEWLINE {
                1nat
            } else {
                0nat
            }),
{
    let mut ops: Vec<Op> = Vec::new();
    if c == 0 {
        return ops;
    }
    if c == NEWLINE {
        let mut cr = write_char(RETURN);
        ops.append(&mut cr);
    }
    ops.push(Op::WaitIn { port: COM1 + LSR, mask: LSR_READY });
    ops.push(Op::Out { port: COM1, val: c });
    ops
}

} // verus!
