//! Segment descriptors, interrupt gates and the tables that hold them.

use crate::mem::PAGE_BITS;
use vstd::prelude::*;

verus! {

/// Number of interrupt vectors.
pub const ISR_COUNT: usize = 256;

/// Size in bytes of one descriptor in memory.
pub const DESC_SIZE: usize = 8;

/// Size in bytes of the task state segment in memory.
pub const TSS_SIZE: usize = 60;

/// Descriptor privilege level
#[derive(Copy, Clone, Debug, PartialEq, Eq, Structural)]
pub enum DPL {
    KERNEL,
    USER,
}

impl DPL {
    /// The number that stands for the level in a descriptor.
    pub open spec fn value(self) -> u8 {
        match self {
            DPL::KERNEL => 0x0,
            DPL::USER => 0x3,
        }
    }

    /// Returns the integer value of the enum.
    pub fn int_value(self) -> (v: u8)
        ensures
            v == self.value(),
    {
        match self {
            DPL::KERNEL => 0x0,
            DPL::USER => 0x3,
        }
    }
}

/// Segment numbers
#[derive(Copy, Clone, Debug, PartialEq, Eq, Structural)]
pub enum Segment {
    KCODE,
    KDATA,
    UCODE,
    UDATA,
    TSS,
}

impl Segment {
    /// Index of the segment's descriptor in the global descriptor table.
    pub open spec fn value(self) -> u8 {
        match self {
            Segment::KCODE => 1,
            Segment::KDATA => 2,
            Segment::UCODE => 3,
            Segment::UDATA => 4,
            Segment::TSS => 5,
        }
    }

    /// Returns the integer value of the enum.
    pub fn int_value(self) -> (v: u8)
        ensures
            v == self.value(),
    {
        match self {
            Segment::KCODE => 1,
            Segment::KDATA => 2,
            Segment::UCODE => 3,
            Segment::UDATA => 4,
            Segment::TSS => 5,
        }
    }
}

/// Descriptor type
#[derive(Copy, Clone, Debug, PartialEq, Eq, Structural)]
#[allow(non_camel_case_types)]
pub enum DescType {
    NULL,
    SYS_TASK_GATE,
    SYS_TSS,
    SYS_INTR_GATE,
    DATA_RO,
    DATA_RW,
    CODE_X,
    CODE_XR,
}

impl DescType {
    /// The number that stands for the type in a descriptor.
    pub open spec fn value(self) -> u8 {
        match self {
            DescType::NULL => 0x00,
            DescType::SYS_TASK_GATE => 0x05,
            DescType::SYS_TSS => 0x09,
            DescType::SYS_INTR_GATE => 0x0E,
            DescType::DATA_RO => 0x10,
            DescType::DATA_RW => 0x12,
            DescType::CODE_X => 0x18,
            DescType::CODE_XR => 0x1A,
        }
    }

    /// Returns the integer value of the enum.
    pub fn int_value(self) -> (v: u8)
        ensures
            v == self.value(),
    {
        match self {
            DescType::NULL => 0x00,
            DescType::SYS_TASK_GATE => 0x05,
            DescType::SYS_TSS => 0x09,
            DescType::SYS_INTR_GATE => 0x0E,
            DescType::DATA_RO => 0x10,
            DescType::DATA_RW => 0x12,
            DescType::CODE_X => 0x18,
            DescType::CODE_XR => 0x1A,
        }
    }
}

/// Granularity as used in segment descriptors
#[derive(Copy, Clone, Debug, PartialEq, Eq, Structural)]
pub enum Granularity {
    BYTES,
    PAGES,
}

impl Granularity {
    /// The flag that stands for the granularity in a descriptor.
    pub open spec fn value(self) -> u8 {
        match self {
            Granularity::BYTES => 0x00,
            Granularity::PAGES => 0x80,
        }
    }

    /// Returns the integer value of the enum.
    pub fn int_value(self) -> (v: u8)
        ensures
            v == self.value(),
    {
        match self {
            Granularity::BYTES => 0x00,
            Granularity::PAGES => 0x80,
        }
    }
}

/// Flag of a segment descriptor: the segment holds 32 bit code or data.
pub const FLAG_32BIT: u8 = 0x40;

/// Bit of a descriptor's access byte: the descriptor is present.
pub const ACCESS_PRESENT: u8 = 0x80;

/// Descriptor table
#[derive(Clone, Copy, Debug, PartialEq, Eq)]
pub struct DescTable {
    /// the size of the table -1 (size=0 is not allowed)
    pub size: u16,
    /// the address of the table
    pub offset: u64,
}

impl DescTable {
    /// Create a new descriptor table with given size and offset
    ///
    /// Of the size less one the table holds the low 16 bits.
    pub fn new(size: usize, offset: u64) -> (t: DescTable)
        requires
            1 <= size,
        ensures
            t == (DescTable { size: ((size - 1) % 0x1_0000) as u16, offset }),
    {
        let last: usize = size - 1;
        let low = #[verifier::truncate] (last as u16);
        assert(low == last % 0x1_0000) by (bit_vector)
            requires
                low == last as u16,
        ;
        DescTable { size: low, offset }
    }
}

/// Generic descriptor
#[derive(Copy, Clone)]
pub struct Desc {
    // limit[0..15]
    limit_low: u16,
    // address[0..15]
    addr_low: u16,
    // address[16..23]
    addr_middle: u8,
    // type + DPL + present
    ty: u8,
    // address[24..31] and other fields, depending on the type of descriptor
    addr_high: u16,
}

impl Desc {
    /// The eight bytes of the descriptor as the processor reads them, the
    /// first byte in the lowest bits.
    pub closed spec fn bits(&self) -> u64 {
        (self.limit_low as u64) | (self.addr_low as u64) << 16 | (self.addr_middle as u64) << 32 | (
        self.ty as u64) << 40 | (self.addr_high as u64) << 48
    }

    /// Start address of the segment that the descriptor describes.
    pub open spec fn base(&self) -> u32 {
        ((self.bits() >> 16) & 0xFF_FFFF | (self.bits() >> 56) << 24) as u32
    }

    /// Limit of the segment that the descriptor describes, in units of its
    /// granularity.
    pub open spec fn limit(&self) -> u32 {
        (self.bits() & 0xFFFF | ((self.bits() >> 48) & 0xF) << 16) as u32
    }

    /// The flags of a segment descriptor: granularity and operand size.
    pub open spec fn flags(&self) -> u8 {
        ((self.bits() >> 48) & 0xF0) as u8
    }

    /// The access byte of the descriptor: presence, privilege level and type.
    pub open spec fn access(&self) -> u8 {
        ((self.bits() >> 40) & 0xFF) as u8
    }

    /// Whether the descriptor is marked present.
    pub open spec fn present(&self) -> bool {
        self.access() & ACCESS_PRESENT != 0
    }

    /// The privilege level that the descriptor asks for, as a number.
    pub open spec fn dpl(&self) -> u8 {
        (self.access() >> 5) & 0x3
    }

    /// The type of the descriptor, as a number.
    pub open spec fn kind(&self) -> u8 {
        self.access() & 0x1F
    }

    /// Code segment selector of an interrupt gate.
    pub open spec fn selector(&self) -> u16 {
        ((self.bits() >> 16) & 0xFFFF) as u16
    }

    /// Address of the entry point of an interrupt gate.
    pub open spec fn entry(&self) -> u32 {
        (self.bits() & 0xFFFF | (self.bits() >> 48) << 16) as u32
    }

    /// The byte of an interrupt gate that the processor reserves.
    pub open spec fn gate_reserved(&self) -> u8 {
        ((self.bits() >> 32) & 0xFF) as u8
    }

    /// Returns the eight bytes of the descriptor as the processor reads them,
    /// the first byte in the lowest bits
    pub fn raw(&self) -> (r: u64)
        ensures
            r == self.bits(),
    {
        (self.limit_low as u64) | (self.addr_low as u64) << 16 | (self.addr_middle as u64) << 32 | (
        self.ty as u64) << 40 | (self.addr_high as u64) << 48
    }

    /// Create a new descriptor with all fields set to 0
    pub fn default() -> (d: Desc)
        ensures
            d.bits() == 0,
    {
        let d = Desc { addr_low: 0, addr_middle: 0, addr_high: 0, limit_low: 0, ty: 0 };
        assert(0u64 | 0u64 << 16 | 0u64 << 32 | 0u64 << 40 | 0u64 << 48 == 0) by (bit_vector);
        d
    }

    /// Create a flat descriptor (start address 0, limit = 4G)
    pub fn new_flat(granu: Granularity, ty: DescType, dpl: DPL) -> (d: Desc)
        ensures
            is_flat(d, granu, ty, dpl),
    {
        let limit: usize = !0usize >> PAGE_BITS;
        assert(limit & 0xF_FFFF == 0xF_FFFF && 0usize as u32 == 0) by (bit_vector)
            requires
                limit == !0usize >> 12,
        ;
        Self::new(0, limit, granu, ty, dpl)
    }

    /// Create a task state segment descriptor
    pub fn new_tss(addr: usize, limit: usize, granu: Granularity, dpl: DPL) -> (d: Desc)
        ensures
            is_segment(d, addr, limit, granu, DescType::SYS_TSS, dpl),
    {
        Self::new(addr, limit, granu, DescType::SYS_TSS, dpl)
    }

    /// Create an interrupt descriptor table descriptor
    ///
    /// Vector `no` gets a gate that leads to the entry point at address `handler`
    /// in the kernel's code segment. The vectors 2 and 15 are reserved by
    /// the processor: their gates are marked not present.
    pub fn new_idt(no: usize, handler: usize, dpl: DPL) -> (d: Desc)
        ensures
            is_gate(d, no, handler, dpl),
    {
        let func_addr = handler;
        let present: u8 = if no != 2 && no != 15 {
            1
        } else {
            0
        };  // reserved by intel
        let d = Desc {
            addr_low: (Segment::KCODE.int_value() as u16) << 3,
            addr_middle: 0,
            addr_high: (func_addr >> 16) as u16,
            limit_low: (func_addr & 0xFFFF) as u16,
            ty: (present << 7) | (dpl.int_value() << 5) | DescType::SYS_INTR_GATE.int_value(),
        };
        proof {
            let (ll, al, am, ty, ah) = (d.limit_low, d.addr_low, d.addr_middle, d.ty, d.addr_high);
            let bits = (ll as u64) | (al as u64) << 16 | (am as u64) << 32 | (ty as u64) << 40 | (
            ah as u64) << 48;
            assert(bits == d.bits());
            assert(present << 7 == gate_present(no)) by (bit_vector)
                requires
                    present == 1 && gate_present(no) == 0x80 || present == 0 && gate_present(no)
                        == 0,
            ;
            assert({
                &&& (bits & 0xFFFF | (bits >> 48) << 16) as u32 == func_addr as u32
                &&& ((bits >> 16) & 0xFFFF) as u16 == al
                &&& ((bits >> 32) & 0xFF) as u8 == 0
                &&& ((bits >> 40) & 0xFF) as u8 == ty
            }) by (bit_vector)
                requires
                    bits == (ll as u64) | (al as u64) << 16 | (am as u64) << 32 | (ty as u64) << 40
                        | (ah as u64) << 48,
                    am == 0,
                    ah == (func_addr >> 16) as u16,
                    ll == (func_addr & 0xFFFF) as u16,
            ;
        }
        d
    }

    fn new(addr: usize, limit: usize, granu: Granularity, ty: DescType, dpl: DPL) -> (d: Desc)
        ensures
            is_segment(d, addr, limit, granu, ty, dpl),
    {
        let misc: u16 = (Bits::B32.int_value() | Size::S32.int_value() | granu.int_value()) as u16;
        let d = Desc {
            addr_low: addr as u16,
            addr_middle: (addr >> 16) as u8,
            addr_high: ((addr & 0xFF00_0000) >> 16) as u16 | ((limit >> 16) & 0xF) as u16 | misc,
            limit_low: (limit & 0xFFFF) as u16,
            ty: (1 << 7)  /* present */
             | (dpl.int_value() << 5) | ty.int_value(),
        };
        proof {
            let (ll, al, am, tb, ah) = (d.limit_low, d.addr_low, d.addr_middle, d.ty, d.addr_high);
            let bits = (ll as u64) | (al as u64) << 16 | (am as u64) << 32 | (tb as u64) << 40 | (
            ah as u64) << 48;
            let g = granu.value();
            assert(bits == d.bits());
            assert(misc == (FLAG_32BIT | g) as u16) by (bit_vector)
                requires
                    misc == (0x00u8 | 0x40u8 | g) as u16,
                    FLAG_32BIT == 0x40,
            ;
            assert({
                &&& ((bits >> 16) & 0xFF_FFFF | (bits >> 56) << 24) as u32 == addr as u32
                &&& (bits & 0xFFFF | ((bits >> 48) & 0xF) << 16) as u32 == limit & 0xF_FFFF
                &&& ((bits >> 48) & 0xF0) as u8 == 0x40u8 | g
                &&& ((bits >> 40) & 0xFF) as u8 == tb
            }) by (bit_vector)
                requires
                    bits == (ll as u64) | (al as u64) << 16 | (am as u64) << 32 | (tb as u64) << 40
                        | (ah as u64) << 48,
                    al == addr as u16,
                    am == (addr >> 16) as u8,
                    ah == ((addr & 0xFF00_0000) >> 16) as u16 | ((limit >> 16) & 0xF) as u16 | (
                    0x40u8 | g) as u16,
                    ll == (limit & 0xFFFF) as u16,
                    g == 0 || g == 0x80,
            ;
            assert(1u8 << 7 == 0x80) by (bit_vector);
        }
        d
    }
}

/// Whether `d` describes a present 32 bit segment of type `ty` for privilege
/// level `dpl` that begins at `base` and has the limit `limit`, of which the
/// low 20 bits count, in units of `granu`.
pub open spec fn is_segment(
    d: Desc,
    base: usize,
    limit: usize,
    granu: Granularity,
    ty: DescType,
    dpl: DPL,
) -> bool {
    &&& d.base() == base as u32
    &&& d.limit() == limit & 0xF_FFFF
    &&& d.flags() == FLAG_32BIT | granu.value()
    &&& d.access() == ACCESS_PRESENT | dpl.value() << 5 | ty.value()
}

/// Whether `d` describes a present 32 bit segment of type `ty` for privilege
/// level `dpl` that spans the whole address space: it begins at 0 and has
/// the greatest limit.
pub open spec fn is_flat(d: Desc, granu: Granularity, ty: DescType, dpl: DPL) -> bool {
    &&& d.base() == 0
    &&& d.limit() == 0xF_FFFF
    &&& d.flags() == FLAG_32BIT | granu.value()
    &&& d.access() == ACCESS_PRESENT | dpl.value() << 5 | ty.value()
}

/// The presence bit of vector `no`'s gate: the vectors 2 and 15 are
/// reserved by the processor and never present.
pub open spec fn gate_present(no: usize) -> u8 {
    if no != 2 && no != 15 {
        ACCESS_PRESENT
    } else {
        0
    }
}

/// What the access byte of a descriptor says: whether the descriptor is
/// present, for which privilege level, and of which type.
pub proof fn lemma_access(d: Desc, present: u8, dpl: DPL, ty: DescType)
    requires
        present == 0 || present == ACCESS_PRESENT,
        d.access() == present | dpl.value() << 5 | ty.value(),
    ensures
        d.present() <==> present == ACCESS_PRESENT,
        d.dpl() == dpl.value(),
        d.kind() == ty.value(),
{
    let (a, v, t) = (d.access(), dpl.value(), ty.value());
    assert((a & 0x80 != 0 <==> present == 0x80) && (a >> 5) & 0x3 == v && a & 0x1F == t)
        by (bit_vector)
        requires
            present == 0 || present == 0x80,
            v == 0 || v == 3,
            t < 0x20,
            a == present | v << 5 | t,
    ;
}

/// The selector of the kernel's data segment.
pub const KERNEL_DATA_SELECTOR: u16 = 0x10;

/// Offset of the I/O bitmap in a task state segment that has none: an offset
/// beyond the segment.
pub const NO_IO_BITMAP: u16 = 104 + 16;

/// Inner type for the Task State Segment: the fields of the segment that the
/// kernel sets. All others are zero.
pub struct TSSInner {
    esp0: u32,
    ss0: u16,
    io_bitmap: u16,
}

/// Public type for the Task State Segment.
pub struct TSS {
    inner: TSSInner,
}

impl TSS {
    /// Stack pointer that the processor loads when a trap enters ring 0.
    pub closed spec fn esp0(&self) -> u32 {
        self.inner.esp0
    }

    /// Stack segment that the processor loads when a trap enters ring 0.
    pub closed spec fn ss0(&self) -> u16 {
        self.inner.ss0
    }

    /// Offset of the I/O bitmap in the segment.
    pub closed spec fn io_bitmap(&self) -> u16 {
        self.inner.io_bitmap
    }

    /// Create a new TSS with given stack pointer and stack selector for ring 0
    pub fn new(esp0: usize, ss0: u16) -> (t: TSS)
        ensures
            t.esp0() == esp0 as u32,
            t.ss0() == ss0,
            t.io_bitmap() == NO_IO_BITMAP,
    {
        TSS {
            inner: TSSInner {
                esp0: #[verifier::truncate] (esp0 as u32),
                ss0,
                // an invalid offset for the io-bitmap => not loaded yet
                io_bitmap: NO_IO_BITMAP,
            },
        }
    }

    /// Set the stack pointer for ring 0
    pub fn set_entry_sp(&mut self, sp: usize)
        ensures
            final(self).esp0() == sp as u32,
            final(self).ss0() == KERNEL_DATA_SELECTOR,
            final(self).io_bitmap() == old(self).io_bitmap(),
    {
        self.inner.esp0 = #[verifier::truncate] (sp as u32);
        self.inner.ss0 = (Segment::KDATA.int_value() << 3 | DPL::KERNEL.int_value()) as u16;
        assert(2u8 << 3 | 0u8 == 0x10) by (bit_vector);
    }

    /// Returns the stack pointer for ring 0
    pub fn entry_sp(&self) -> (sp: u32)
        ensures
            sp == self.esp0(),
    {
        self.inner.esp0
    }

    /// Returns the stack segment for ring 0
    pub fn entry_ss(&self) -> (ss: u16)
        ensures
            ss == self.ss0(),
    {
        self.inner.ss0
    }

    /// Returns the offset of the I/O bitmap
    pub fn io_bitmap_offset(&self) -> (off: u16)
        ensures
            off == self.io_bitmap(),
    {
        self.inner.io_bitmap
    }
}

/// Inner type for the Global Descriptor Table
pub struct GDTInner {
    pub null: Desc,
    pub kcode: Desc,
    pub kdata: Desc,
    pub ucode: Desc,
    pub udata: Desc,
    pub tss: Desc,
}

/// Public type for the Global Descriptor Table
pub struct GDT {
    pub inner: GDTInner,
}

impl GDT {
    /// Create a new GDT with default settings
    pub fn default() -> (t: GDT)
        ensures
            t.inner.null.bits() == 0,
            t.inner.kcode.bits() == 0,
            t.inner.kdata.bits() == 0,
            t.inner.ucode.bits() == 0,
            t.inner.udata.bits() == 0,
            t.inner.tss.bits() == 0,
    {
        GDT {
            inner: GDTInner {
                null: Desc::default(),
                kcode: Desc::default(),
                kdata: Desc::default(),
                ucode: Desc::default(),
                udata: Desc::default(),
                tss: Desc::default(),
            },
        }
    }
}

/// Whether `d` is a gate for vector `no` that leads to the entry point at
/// `handler` and can be raised from privilege level `dpl`.
pub open spec fn is_gate(d: Desc, no: usize, handler: usize, dpl: DPL) -> bool {
    &&& d.entry() == handler as u32
    &&& d.selector() == (Segment::KCODE.value() as u16) << 3
    &&& d.gate_reserved() == 0
    &&& d.access() == gate_present(no) | dpl.value() << 5 | DescType::SYS_INTR_GATE.value()
}

/// Interrupt Descriptor Table
pub struct IDT {
    entries: [Desc; ISR_COUNT],
}

impl View for IDT {
    type V = Seq<Desc>;

    /// The gates of the table by vector.
    closed spec fn view(&self) -> Seq<Desc> {
        self.entries@
    }
}

impl IDT {
    /// The table has a gate for every vector.
    pub proof fn lemma_len(&self)
        ensures
            self@.len() == ISR_COUNT,
    {
    }

    /// The gates of the vectors 2 and 15, which the processor reserves, are
    /// not present.
    pub open spec fn reserved_absent(&self) -> bool {
        !self@[2].present() && !self@[15].present()
    }

    /// Create a new IDT with invalid descriptors
    pub fn default() -> (t: IDT)
        ensures
            t@.len() == ISR_COUNT,
            forall|i: int| 0 <= i < ISR_COUNT ==> (#[trigger] t@[i]).bits() == 0,
            t.reserved_absent(),
    {
        let t = IDT { entries: [Desc::default();ISR_COUNT] };
        proof {
            let (a, b) = (t@[2].bits(), t@[15].bits());
            assert(((a >> 40) & 0xFF) as u8 & 0x80 == 0 && ((b >> 40) & 0xFF) as u8 & 0x80 == 0)
                by (bit_vector)
                requires
                    a == 0 && b == 0,
            ;
        }
        t
    }

    /// Sets entry `idx` for the given handler function and privileged level
    pub fn set(&mut self, idx: usize, handler: usize, dpl: DPL)
        requires
            idx < ISR_COUNT,
        ensures
            final(self)@.len() == old(self)@.len(),
            is_gate(final(self)@[idx as int], idx, handler, dpl),
            forall|i: int|
                0 <= i < ISR_COUNT && i != idx ==> #[trigger] final(self)@[i] == old(self)@[i],
            old(self).reserved_absent() ==> final(self).reserved_absent(),
    {
        let gate = Desc::new_idt(idx, handler, dpl);
        proof {
            lemma_access(gate, gate_present(idx), dpl, DescType::SYS_INTR_GATE);
        }
        self.entries[idx] = gate;
    }

    /// Returns entry `idx`
    pub fn get(&self, idx: usize) -> (d: Desc)
        requires
            idx < ISR_COUNT,
        ensures
            d == self@[idx as int],
    {
        self.entries[idx]
    }
}

#[derive(Copy, Clone, Debug, PartialEq, Eq, Structural)]
enum Bits {
    B32,
    B64,
}

impl Bits {
    spec fn value(self) -> u8 {
        match self {
            Bits::B32 => 0x00,
            Bits::B64 => 0x20,
        }
    }

    fn int_value(self) -> (v: u8)
        ensures
            v == self.value(),
    {
        match self {
            Bits::B32 => 0x00,
            Bits::B64 => 0x20,
        }
    }
}

#[derive(Copy, Clone, Debug, PartialEq, Eq, Structural)]
enum Size {
    S16,  // 16 bit protected mode
    S32,  // 32 bit protected mode
}

impl Size {
    spec fn value(self) -> u8 {
        match self {
            Size::S16 => 0x00,
            Size::S32 => 0x40,
        }
    }

    fn int_value(self) -> (v: u8)
        ensures
            v == self.value(),
    {
        match self {
            Size::S16 => 0x00,
            Size::S32 => 0x40,
        }
    }
}

} // verus!
