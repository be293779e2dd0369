//! The register state that trap entry saves, and the names of the vectors
//! that the processor raises itself.

use vstd::prelude::*;

verus! {

/// The register state that is saved at kernel entry
pub struct State {
    // general purpose registers
    pub edi: usize,
    pub esi: usize,
    pub ebp: usize,
    /// kernel mode sp
    pub kesp: usize,
    pub ebx: usize,
    pub edx: usize,
    pub ecx: usize,
    pub eax: usize,
    /// interrupt-number
    pub irq: usize,
    /// error-code (for exceptions); default = 0
    pub error: usize,
    // pushed by the CPU
    pub eip: usize,
    pub cs: usize,
    pub eflags: usize,
    pub esp: usize,
    pub ss: usize,
}

impl Default for State {
    /// The state with every register zero
    fn default() -> (s: State)
        ensures
            s == (State {
                edi: 0,
                esi: 0,
                ebp: 0,
                kesp: 0,
                ebx: 0,
                edx: 0,
                ecx: 0,
                eax: 0,
                irq: 0,
                error: 0,
                eip: 0,
                cs: 0,
                eflags: 0,
                esp: 0,
                ss: 0,
            }),
    {
        State {
            edi: 0,
            esi: 0,
            ebp: 0,
            kesp: 0,
            ebx: 0,
            edx: 0,
            ecx: 0,
            eax: 0,
            irq: 0,
            error: 0,
            eip: 0,
            cs: 0,
            eflags: 0,
            esp: 0,
            ss: 0,
        }
    }
}

/// The name of vector `vec`: that of the exception which the processor raises
/// under this number, and `"<unknown>"` for the others.
pub open spec fn name_of(vec: usize) -> &'static str {
    match vec {
        0x00 => "Divide by zero",
        0x01 => "Single step",
        0x02 => "Non maskable",
        0x03 => "Breakpoint",
        0x04 => "Overflow",
        0x05 => "Bounds check",
        0x06 => "Invalid opcode",
        0x07 => "Co-proc. n/a",
        0x08 => "Double fault",
        0x09 => "Co-proc seg. overrun",
        0x0A => "Invalid TSS",
        0x0B => "Segment not present",
        0x0C => "Stack exception",
        0x0D => "Gen. prot. fault",
        0x0E => "Page fault",
        0x10 => "Co-processor error",
        _ => "<unknown>",
    }
}

/// Returns the name of vector `vec`
pub fn vec_name(vec: usize) -> (name: &'static str)
    ensures
        name == name_of(vec),
{
    match vec {
        0x00 => "Divide by zero",
        0x01 => "Single step",
        0x02 => "Non maskable",
        0x03 => "Breakpoint",
        0x04 => "Overflow",
        0x05 => "Bounds check",
        0x06 => "Invalid opcode",
        0x07 => "Co-proc. n/a",
        0x08 => "Double fault",
        0x09 => "Co-proc seg. overrun",
        0x0A => "Invalid TSS",
        0x0B => "Segment not present",
        0x0C => "Stack exception",
        0x0D => "Gen. prot. fault",
        0x0E => "Page fault",
        0x10 => "Co-processor error",
        _ => "<unknown>",
    }
}

} // verus!
