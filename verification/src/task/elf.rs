//! Loading of executable images in the ELF format for 32 bit machines.
//!
//! An image is looked at as the bytes it consists of. Loading it yields the
//! steps that bring its segments to their places in memory, and its entry
//! point.

use crate::io::Op;
use vstd::prelude::*;

verus! {

/// The first four bytes of every image, as a little endian number.
pub const MAGIC: u32 = 0x464C457F;

/// Type of a program header whose segment is to be loaded.
pub const PH_LOAD: u32 = 1;

/// Size in bytes of the header of an image.
pub const HEADER_SIZE: usize = 52;

/// Size in bytes of a program header.
pub const PH_SIZE: usize = 32;

/// Offset of the entry point in the header.
pub const OFF_ENTRY: usize = 24;

/// Offset in the header of the offset of the first program header.
pub const OFF_PH_OFFSET: usize = 28;

/// Offset of the number of program headers in the header.
pub const OFF_PH_COUNT: usize = 44;

/// Offset of the type in a program header.
pub const PH_OFF_TYPE: usize = 0;

/// Offset in a program header of the offset of the segment in the image.
pub const PH_OFF_OFFSET: usize = 4;

/// Offset of the physical address of the segment in a program header.
pub const PH_OFF_PADDR: usize = 12;

/// Offset of the size of the segment in the image in a program header.
pub const PH_OFF_FSIZE: usize = 16;

/// Offset of the size of the segment in memory in a program header.
pub const PH_OFF_MSIZE: usize = 20;

/// Why an image cannot be loaded.
#[derive(Clone, Copy, Debug, PartialEq, Eq, Structural)]
pub enum ElfError {
    /// The image ends before its header, one of its program headers or one
    /// of its segments does.
    Truncated,
    /// The image does not begin with the magic number.
    BadMagic,
    /// A segment that is to be loaded is larger in the image than in memory,
    /// or lies at addresses that the machine does not have.
    BadSegment,
}

/// The number that the two bytes of `bytes` from index `at` on stand for,
/// the low byte first.
pub open spec fn le16(bytes: Seq<u8>, at: int) -> int {
    bytes[at] + bytes[at + 1] * 0x100
}

/// The number that the four bytes of `bytes` from index `at` on stand for,
/// the lowest byte first.
pub open spec fn le32(bytes: Seq<u8>, at: int) -> int {
    bytes[at] + bytes[at + 1] * 0x100 + bytes[at + 2] * 0x1_0000 + bytes[at + 3] * 0x100_0000
}

/// Number of program headers of `image`.
pub open spec fn ph_count(image: Seq<u8>) -> int {
    le16(image, OFF_PH_COUNT as int)
}

/// Offset of program header `i` in `image`.
pub open spec fn ph_at(image: Seq<u8>, i: int) -> int {
    le32(image, OFF_PH_OFFSET as int) + i * PH_SIZE
}

/// The field at offset `field` of program header `i` of `image`.
pub open spec fn ph_field(image: Seq<u8>, i: int, field: usize) -> int {
    le32(image, ph_at(image, i) + field)
}

/// What is wrong with program header `i` of `image`, which lies at address
/// `addr`, or with its segment, if they are looked at in this order: the
/// header lies inside the image; if the segment is to be loaded, it is not
/// larger in the image than in memory, neither its place in the image nor
/// its place in memory reaches beyond the addresses of the machine, and the
/// image holds all of it.
#[verifier::opaque]
pub open spec fn segment_error(image: Seq<u8>, addr: usize, i: int) -> Option<ElfError> {
    if ph_at(image, i) + PH_SIZE > image.len() {
        Some(ElfError::Truncated)
    } else if ph_field(image, i, PH_OFF_TYPE) != PH_LOAD {
        None
    } else if ph_field(image, i, PH_OFF_FSIZE) > ph_field(image, i, PH_OFF_MSIZE) {
        Some(ElfError::BadSegment)
    } else if ph_field(image, i, PH_OFF_PADDR) + ph_field(image, i, PH_OFF_MSIZE) > usize::MAX
        || addr + ph_field(image, i, PH_OFF_OFFSET) + ph_field(image, i, PH_OFF_FSIZE)
        > usize::MAX {
        Some(ElfError::BadSegment)
    } else if ph_field(image, i, PH_OFF_OFFSET) + ph_field(image, i, PH_OFF_FSIZE) > image.len() {
        Some(ElfError::Truncated)
    } else {
        None
    }
}

/// What is wrong with the first of the first `n` program headers of `image`
/// with which something is wrong.
pub open spec fn segments_error(image: Seq<u8>, addr: usize, n: int) -> Option<ElfError>
    decreases n,
{
    if n <= 0 {
        None
    } else {
        match segments_error(image, addr, n - 1) {
            Some(e) => Some(e),
            None => segment_error(image, addr, n - 1),
        }
    }
}

/// What is wrong with `image`, which lies at address `addr`: it is too short
/// for its header, it does not begin with the magic number, or something is
/// wrong with one of its segments.
pub open spec fn image_error(image: Seq<u8>, addr: usize) -> Option<ElfError> {
    if image.len() < HEADER_SIZE {
        Some(ElfError::Truncated)
    } else if le32(image, 0) != MAGIC {
        Some(ElfError::BadMagic)
    } else {
        segments_error(image, addr, ph_count(image))
    }
}

/// What brings the segment of program header `i` of `image`, which lies at
/// address `addr`, to its place: nothing if the segment is not to be loaded;
/// else its bytes are copied from the image, and what it has more in memory
/// is set to zero.
#[verifier::opaque]
pub open spec fn segment_ops(image: Seq<u8>, addr: usize, i: int) -> Seq<Op> {
    if ph_field(image, i, PH_OFF_TYPE) != PH_LOAD {
        seq![]
    } else {
        seq![
            Op::Copy {
                dst: ph_field(image, i, PH_OFF_PADDR) as usize,
                src: (addr + ph_field(image, i, PH_OFF_OFFSET)) as usize,
                len: ph_field(image, i, PH_OFF_FSIZE) as usize,
            },
            Op::Fill {
                dst: (ph_field(image, i, PH_OFF_PADDR) + ph_field(image, i, PH_OFF_FSIZE)) as usize,
                byte: 0,
                len: (ph_field(image, i, PH_OFF_MSIZE) - ph_field(image, i, PH_OFF_FSIZE)) as usize,
            },
        ]
    }
}

/// What brings the segments of the first `n` program headers of `image` to
/// their places, one after the other.
pub open spec fn segments_ops(image: Seq<u8>, addr: usize, n: int) -> Seq<Op>
    decreases n,
{
    if n <= 0 {
        seq![]
    } else {
        segments_ops(image, addr, n - 1) + segment_ops(image, addr, n - 1)
    }
}

/// Returns the number that the two bytes of `bytes` from `at` on stand for
fn read_u16(bytes: &[u8], at: usize) -> (x: u16)
    requires
        at + 2 <= bytes.len(),
    ensures
        x == le16(bytes@, at as int),
{
    let (b0, b1) = (bytes[at], bytes[at + 1]);
    let x = (b0 as u16) | (b1 as u16) << 8;
    assert(x == b0 + b1 * 0x100) by (bit_vector)
        requires
            x == (b0 as u16) | (b1 as u16) << 8,
    ;
    x
}

/// Returns the number that the four bytes of `bytes` from `at` on stand for
fn read_u32(bytes: &[u8], at: usize) -> (x: u32)
    requires
        at + 4 <= bytes.len(),
    ensures
        x == le32(bytes@, at as int),
{
    let (b0, b1, b2, b3) = (bytes[at], bytes[at + 1], bytes[at + 2], bytes[at + 3]);
    let x = (b0 as u32) | (b1 as u32) << 8 | (b2 as u32) << 16 | (b3 as u32) << 24;
    assert(x == b0 + b1 * 0x100 + b2 * 0x1_0000 + b3 * 0x100_0000) by (bit_vector)
        requires
            x == (b0 as u32) | (b1 as u32) << 8 | (b2 as u32) << 16 | (b3 as u32) << 24,
    ;
    x
}

/// Looks at program header `i` of `image`. If nothing is wrong with it, what
/// brings its segment to its place is added to `ops`.
fn load_segment(image: &[u8], addr: usize, ph_offset: u32, i: u16, ops: &mut Vec<Op>) -> (r: Result<
    (),
    ElfError,
>)
    requires
        image.len() >= HEADER_SIZE,
        ph_offset == le32(image@, OFF_PH_OFFSET as int),
    ensures
        match segment_error(image@, addr, i as int) {
            Some(e) => r == Err::<(), ElfError>(e) && final(ops)@ == old(ops)@,
            None => r.is_ok() && final(ops)@ == old(ops)@ + segment_ops(image@, addr, i as int),
        },
{
    reveal(segment_error);
    reveal(segment_ops);
    let ph = ph_offset as u64 + i as u64 * PH_SIZE as u64;
    assert(ph == ph_at(image@, i as int));
    if ph + PH_SIZE as u64 > image.len() as u64 {
        return Err(ElfError::Truncated);
    }
    let ph = ph as usize;
    // we are only interested in load segments
    let ty = read_u32(image, ph + PH_OFF_TYPE);
    assert(ty == ph_field(image@, i as int, PH_OFF_TYPE));
    if ty != PH_LOAD {
        assert(ops@ == old(ops)@ + segment_ops(image@, addr, i as int));
        return Ok(());
    }
    let f_offs = read_u32(image, ph + PH_OFF_OFFSET);
    let p_addr = read_u32(image, ph + PH_OFF_PADDR);
    let f_size = read_u32(image, ph + PH_OFF_FSIZE);
    let m_size = read_u32(image, ph + PH_OFF_MSIZE);
    proof {
        assert(f_offs == ph_field(image@, i as int, PH_OFF_OFFSET));
        assert(p_addr == ph_field(image@, i as int, PH_OFF_PADDR));
        assert(f_size == ph_field(image@, i as int, PH_OFF_FSIZE));
        assert(m_size == ph_field(image@, i as int, PH_OFF_MSIZE));
    }
    if f_size > m_size {
        return Err(ElfError::BadSegment);
    }
    if p_addr as u64 + m_size as u64 > usize::MAX as u64 || addr as u128 + f_offs as u128
        + f_size as u128 > usize::MAX as u128 {
        return Err(ElfError::BadSegment);
    }
    if f_offs as u64 + f_size as u64 > image.len() as u64 {
        return Err(ElfError::Truncated);
    }
    // copy from file
    ops.push(Op::Copy { dst: p_addr as usize, src: addr + f_offs as usize, len: f_size as usize });
    // zero the rest
    ops.push(
        Op::Fill {
            dst: p_addr as usize + f_size as usize,
            byte: 0,
            len: m_size as usize - f_size as usize,
        },
    );
    assert(ops@ == old(ops)@ + segment_ops(image@, addr, i as int));
    Ok(())
}

/// Loads the image that lies at address `addr` and consists of the bytes
/// `image`. Returns the entry point of the image, and what the machine has
/// to do to bring the segments to their places.
pub fn load(image: &[u8], addr: usize) -> (r: Result<(usize, Vec<Op>), ElfError>)
    ensures
        match image_error(image@, addr) {
            Some(e) => r == Err::<(usize, Vec<Op>), ElfError>(e),
            None => r matches Ok((entry, ops)) && entry == le32(image@, OFF_ENTRY as int) && ops@
                == segments_ops(image@, addr, ph_count(image@)),
        },
{
    if image.len() < HEADER_SIZE {
        return Err(ElfError::Truncated);
    }
    if read_u32(image, 0) != MAGIC {
        return Err(ElfError::BadMagic);
    }
    let entry = read_u32(image, OFF_ENTRY);
    let ph_offset = read_u32(image, OFF_PH_OFFSET);
    let count = read_u16(image, OFF_PH_COUNT);
    let mut ops: Vec<Op> = Vec::new();
    let mut i: u16 = 0;
    while i < count
        invariant
            i <= count,
            image.len() >= HEADER_SIZE,
            count == ph_count(image@),
            le32(image@, 0) == MAGIC,
            entry == le32(image@, OFF_ENTRY as int),
            ph_offset == le32(image@, OFF_PH_OFFSET as int),
            segments_error(image@, addr, i as int).is_none(),
            ops@ == segments_ops(image@, addr, i as int),
        decreases count - i,
    {
        match load_segment(image, addr, ph_offset, i, &mut ops) {
            Ok(()) => {},
            Err(e) => {
                proof {
                    lemma_segments_error(image@, addr, i as int, count as int);
                }
                return Err(e);
            },
        }
        i = i + 1;
    }
    Ok((entry as usize, ops))
}

/// What is wrong with the first program header with which something is
/// wrong is what is wrong with the image, however many headers come after
/// it.
proof fn lemma_segments_error(image: Seq<u8>, addr: usize, i: int, n: int)
    requires
        0 <= i < n,
        segments_error(image, addr, i).is_none(),
        segment_error(image, addr, i).is_some(),
    ensures
        segments_error(image, addr, n) == segment_error(image, addr, i),
    decreases n - i,
{
    if i + 1 < n {
        lemma_segments_error(image, addr, i, n - 1);
    }
}

} // verus!
