//! Programmable Interrupt Controller

use crate::io::ports::Port;
use crate::io::Op;
use vstd::prelude::*;

verus! {

/// First port of the master controller.
pub const MASTER: Port = 0x20;

/// First port of the slave controller.
pub const SLAVE: Port = 0xA0;

/// Command port of the master controller.
pub const MASTER_CMD: Port = MASTER;

/// Data port of the master controller.
pub const MASTER_DATA: Port = MASTER + 1;

/// Command port of the slave controller.
pub const SLAVE_CMD: Port = SLAVE;

/// Data port of the slave controller.
pub const SLAVE_DATA: Port = SLAVE + 1;

/// The command that reports the end of an interrupt.
pub const EOI: u8 = 0x20;

/// Bit of the first initialization word: a fourth word follows.
pub const ICW1_NEED_ICW4: u8 = 0x01;

/// Bit of the first initialization word: the initialization begins.
pub const ICW1_INIT: u8 = 0x10;

/// Bit of the fourth initialization word: 8086 mode.
pub const ICW4_8086: u8 = 0x01;

/// First vector of the interrupt lines of the master controller.
pub const REMAP_MASTER: u8 = 0x20;

/// First vector of the interrupt lines of the slave controller.
pub const REMAP_SLAVE: u8 = 0x28;

/// The port writes that set up both controllers: start the initialization,
/// move the interrupt lines to the vectors from `REMAP_MASTER` and
/// `REMAP_SLAVE` on, wire master and slave together, choose 8086 mode and
/// unmask all lines.
pub open spec fn init_ops() -> Seq<Op> {
    seq![
        Op::Out { port: MASTER_CMD, val: 0x11 },
        Op::Out { port: SLAVE_CMD, val: 0x11 },
        Op::Out { port: MASTER_DATA, val: REMAP_MASTER },
        Op::Out { port: SLAVE_DATA, val: REMAP_SLAVE },
        Op::Out { port: MASTER_DATA, val: 4 },
        Op::Out { port: SLAVE_DATA, val: 2 },
        Op::Out { port: MASTER_DATA, val: ICW4_8086 },
        Op::Out { port: SLAVE_DATA, val: ICW4_8086 },
        Op::Out { port: MASTER_DATA, val: 0x00 },
        Op::Out { port: SLAVE_DATA, val: 0x00 },
    ]
}

/// Whether the end of an interrupt on vector `irq` is reported to the
/// controllers: the low byte of the vector is one of the seventeen from
/// `REMAP_MASTER` on. These are the sixteen vectors of the interrupt lines
/// and the one behind them, 0x30.
pub open spec fn is_irq(irq: usize) -> bool {
    REMAP_MASTER <= irq as u8 <= REMAP_MASTER + 16
}

/// Whether the end of an interrupt on vector `irq` is reported to the slave
/// controller as well: the vector is reported and lies at `REMAP_SLAVE` or
/// behind it.
pub open spec fn is_slave_irq(irq: usize) -> bool {
    is_irq(irq) && irq as u8 >= REMAP_SLAVE
}

/// The port writes that report the end of interrupt `irq`: none for a vector
/// that is not reported, else one to the master, after one to the slave
/// where the slave is told as well.
pub open spec fn eoi_ops(irq: usize) -> Seq<Op> {
    if is_slave_irq(irq) {
        seq![Op::Out { port: SLAVE_CMD, val: EOI }, Op::Out { port: MASTER_CMD, val: EOI }]
    } else if is_irq(irq) {
        seq![Op::Out { port: MASTER_CMD, val: EOI }]
    } else {
        seq![]
    }
}

/// Initializes the PIC
pub fn init() -> (ops: Vec<Op>)
    ensures
        ops@ == init_ops(),
{
    let mut ops: Vec<Op> = Vec::new();
    // starts the initialization. we want to send a ICW4
    ops.push(Op::Out { port: MASTER_CMD, val: ICW1_INIT | ICW1_NEED_ICW4 });
    ops.push(Op::Out { port: SLAVE_CMD, val: ICW1_INIT | ICW1_NEED_ICW4 });
    // remap the irqs to 0x20 and 0x28
    ops.push(Op::Out { port: MASTER_DATA, val: REMAP_MASTER });
    ops.push(Op::Out { port: SLAVE_DATA, val: REMAP_SLAVE });
    // continue
    ops.push(Op::Out { port: MASTER_DATA, val: 4 });
    ops.push(Op::Out { port: SLAVE_DATA, val: 2 });
    // we want to use 8086 mode
    ops.push(Op::Out { port: MASTER_DATA, val: ICW4_8086 });
    ops.push(Op::Out { port: SLAVE_DATA, val: ICW4_8086 });
    // enable all interrupts (set masks to 0)
    ops.push(Op::Out { port: MASTER_DATA, val: 0x00 });
    ops.push(Op::Out { port: SLAVE_DATA, val: 0x00 });
    assert(ICW1_INIT | ICW1_NEED_ICW4 == 0x11) by (bit_vector);
    ops
}

/// Report end of interrupt to the PIC
pub fn eoi(irq: usize) -> (ops: Vec<Op>)
    ensures
        ops@ == eoi_ops(irq),
{
    let mut ops: Vec<Op> = Vec::new();
    // do we have to send EOI?
    if irq as u8 >= REMAP_MASTER && irq as u8 <= REMAP_MASTER + 16 {
        if irq as u8 >= REMAP_SLAVE {
            // notify the slave
            ops.push(Op::Out { port: SLAVE_CMD, val: EOI });
        }
        // notify the master
        ops.push(Op::Out { port: MASTER_CMD, val: EOI });
    }
    ops
}

} // verus!
