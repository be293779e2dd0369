//! Programmable Interval Timer

use crate::io::ports::Port;
use crate::io::Op;
use vstd::prelude::*;

verus! {

/// Frequency of the timer's oscillator in Hz.
pub const FREQ: u32 = 1193182;

/// Number of ticks that the timer is to give per second.
pub const TICKS_PER_SECOND: u32 = 200;

/// Control port of the timer.
pub const CTRL: Port = 0x43;

/// Port of the divisor of channel 0.
pub const CHAN0DIV: Port = 0x40;

/// Control bits: channel 0.
pub const CTRL_CHAN0: u8 = 0x0;

/// Control bits: the divisor comes low byte first, then high byte.
pub const CTRL_RWLOHI: u8 = 0x30;

/// Control bits: periodic mode.
pub const CTRL_MODE2: u8 = 0x4;

/// Control bits: binary counter of 16 bits.
pub const CTRL_CNTBIN16: u8 = 0x0;

/// The number by which the timer divides the frequency of its oscillator.
pub open spec fn divisor() -> int {
    FREQ as int / TICKS_PER_SECOND as int
}

/// The port writes that make channel 0 of the timer give its ticks: the
/// mode (periodic, binary counter, low byte then high byte), then the two
/// bytes of the divisor.
pub open spec fn init_ops() -> Seq<Op> {
    seq![
        Op::Out { port: CTRL, val: 0x34 },
        Op::Out { port: CHAN0DIV, val: (divisor() % 256) as u8 },
        Op::Out { port: CHAN0DIV, val: (divisor() / 256) as u8 },
    ]
}

/// Sets the timer up
pub fn init() -> (ops: Vec<Op>)
    ensures
        ops@ == init_ops(),
{
    // change timer divisor and enable periodic mode
    let freq: u32 = FREQ / TICKS_PER_SECOND;
    let mut ops: Vec<Op> = Vec::new();
    ops.push(Op::Out { port: CTRL, val: CTRL_CHAN0 | CTRL_RWLOHI | CTRL_MODE2 | CTRL_CNTBIN16 });
    ops.push(Op::Out { port: CHAN0DIV, val: (freq & 0xFF) as u8 });
    ops.push(Op::Out { port: CHAN0DIV, val: (freq >> 8) as u8 });
    assert(CTRL_CHAN0 | CTRL_RWLOHI | CTRL_MODE2 | CTRL_CNTBIN16 == 0x34) by (bit_vector);
    assert((freq & 0xFF) as u8 == (freq % 256) as u8 && (freq >> 8) as u8 == (freq / 256) as u8)
        by (bit_vector)
        requires
            freq < 0x1_0000,
    ;
    ops
}

} // verus!
