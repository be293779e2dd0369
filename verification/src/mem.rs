//! Physical memory: a bump allocator of page frames over one contiguous region.

use crate::multiboot::{Memory, Module};
use vstd::prelude::*;

verus! {

/// Number of address bits inside one page.
pub const PAGE_BITS: usize = 12;

/// Size of one page frame in bytes.
pub const PAGE_SIZE: usize = 4096;

/// The unallocated tail of the physical range that frames are taken from.
pub struct Region {
    addr: u64,
    size: u64,
}

impl Region {
    /// Address of the next frame that will be handed out.
    pub closed spec fn base(&self) -> nat {
        self.addr as nat
    }

    /// Number of bytes that are still unallocated.
    pub closed spec fn len(&self) -> nat {
        self.size as nat
    }

    /// The base is page-aligned and the whole region is addressable.
    pub open spec fn wf(&self) -> bool {
        &&& self.base() % (PAGE_SIZE as nat) == 0
        &&& self.base() + self.len() <= usize::MAX
    }

    /// Number of whole frames that can still be allocated.
    pub open spec fn pages(&self) -> nat {
        self.len() / (PAGE_SIZE as nat)
    }

    /// Address of the `i`-th frame that will be handed out from now on.
    pub open spec fn frame(&self, i: nat) -> nat {
        self.base() + i * (PAGE_SIZE as nat)
    }

    /// The region that is left after `n` frames have been handed out.
    pub closed spec fn after(&self, n: nat) -> Region {
        Region {
            addr: (self.addr + n * PAGE_SIZE) as u64,
            size: (self.size - n * PAGE_SIZE) as u64,
        }
    }

    /// Returns the address of the next frame that will be handed out.
    pub fn addr(&self) -> (a: u64)
        ensures
            a == self.base(),
    {
        self.addr
    }

    /// Returns the number of bytes that are still unallocated.
    pub fn size(&self) -> (s: u64)
        ensures
            s == self.len(),
    {
        self.size
    }

    /// Returns the number of whole frames that can still be allocated.
    pub fn free_pages(&self) -> (n: u64)
        ensures
            n == self.pages(),
    {
        self.size / (PAGE_SIZE as u64)
    }
}

/// Whether entry `i` of the memory map is the free range that memory is
/// taken from: the largest free one, and of several equally large ones the
/// last.
pub open spec fn is_largest_free(mmap: Seq<Memory>, i: int) -> bool {
    &&& 0 <= i < mmap.len()
    &&& mmap[i].free()
    &&& forall|j: int| 0 <= j < i && (#[trigger] mmap[j]).free() ==> mmap[j].len <= mmap[i].len
    &&& forall|j: int|
        i < j < mmap.len() && (#[trigger] mmap[j]).free() ==> mmap[j].len < mmap[i].len
}

/// Whether the boot module `m` has a byte in the range `begin..end`.
pub open spec fn occupies(m: Module, begin: int, end: int) -> bool {
    m.start_addr < m.end_addr && m.start_addr < end && begin < m.end_addr
}

/// Where usable memory begins in the range `begin..end` behind the boot
/// modules `mods`: at `begin`, or at the end of the module that ends last of
/// those that have a byte in the range, if that lies behind `begin`. The
/// order of the modules does not matter.
pub open spec fn behind_modules(begin: int, end: int, mods: Seq<Module>) -> int
    decreases mods.len(),
{
    if mods.len() == 0 {
        begin
    } else {
        let b = behind_modules(begin, end, mods.drop_last());
        let m = mods.last();
        if occupies(m, begin, end) && b < m.end_addr {
            m.end_addr as int
        } else {
            b
        }
    }
}

/// Where usable memory begins in the range `begin..end` behind the kernel
/// image, which ends at `kernel_end`, if usable memory begins at `moved`
/// behind everything else: at the end of the image if that lies in the range
/// and behind `moved`, else at `moved`.
pub open spec fn behind_kernel(moved: int, begin: int, end: int, kernel_end: int) -> int {
    if begin <= kernel_end < end && moved < kernel_end {
        kernel_end
    } else {
        moved
    }
}

/// Usable memory begins behind every boot module that has a byte in the
/// range: at the beginning of the range or at the end of one of these
/// modules, and before the end of none of them.
pub proof fn lemma_behind_modules(begin: int, end: int, mods: Seq<Module>)
    ensures
        begin <= behind_modules(begin, end, mods),
        forall|j: int|
            0 <= j < mods.len() && occupies(#[trigger] mods[j], begin, end) ==> mods[j].end_addr
                <= behind_modules(begin, end, mods),
        behind_modules(begin, end, mods) == begin || exists|j: int|
            0 <= j < mods.len() && occupies(#[trigger] mods[j], begin, end) && mods[j].end_addr
                == behind_modules(begin, end, mods),
    decreases mods.len(),
{
    if mods.len() > 0 {
        let rest = mods.drop_last();
        let last = mods.len() - 1;
        lemma_behind_modules(begin, end, rest);
        let b = behind_modules(begin, end, rest);
        let r = behind_modules(begin, end, mods);
        assert forall|j: int| 0 <= j < mods.len() && occupies(#[trigger] mods[j], begin, end)
        implies mods[j].end_addr <= r by {
            if j < last {
                assert(rest[j] == mods[j]);
            }
        }
        if r != begin {
            if r == b {
                let j = choose|j: int|
                    0 <= j < rest.len() && occupies(#[trigger] rest[j], begin, end)
                        && rest[j].end_addr == b;
                assert(mods[j] == rest[j]);
            } else {
                assert(occupies(mods[last], begin, end) && mods[last].end_addr == r);
            }
        }
    }
}

/// The lowest page boundary that is not below `addr`.
pub open spec fn page_align(addr: int) -> int {
    (addr + PAGE_SIZE - 1) / (PAGE_SIZE as int) * PAGE_SIZE
}

/// First address of the memory that can be handed out when entry `i` of the
/// memory map is built on.
pub open spec fn usable_begin(mmap: Seq<Memory>, mods: Seq<Module>, kernel_end: u64, i: int) -> int {
    let begin = mmap[i].addr as int;
    let end = usable_end(mmap, i);
    page_align(behind_kernel(behind_modules(begin, end, mods), begin, end, kernel_end as int))
}

/// End of the memory that can be handed out when entry `i` of the memory map
/// is built on.
pub open spec fn usable_end(mmap: Seq<Memory>, i: int) -> int {
    mmap[i].addr + mmap[i].len
}

/// Whether the memory left of entry `i` of the memory map is a range of
/// addresses that this machine can represent.
pub open spec fn usable(mmap: Seq<Memory>, mods: Seq<Module>, kernel_end: u64, i: int) -> bool {
    &&& usable_end(mmap, i) <= usize::MAX
    &&& usable_begin(mmap, mods, kernel_end, i) <= usable_end(mmap, i)
}

/// Whether no byte of `reg` belongs to a boot module or to the kernel image,
/// where `reg` is taken from entry `i` of the memory map: `reg` begins
/// behind every module that has a byte in the entry's range, and behind the
/// kernel image if that ends in the range.
pub open spec fn clear(
    mmap: Seq<Memory>,
    mods: Seq<Module>,
    kernel_end: u64,
    i: int,
    reg: Region,
) -> bool {
    &&& forall|j: int|
        0 <= j < mods.len() && occupies(#[trigger] mods[j], mmap[i].addr as int, usable_end(mmap, i))
            ==> mods[j].end_addr <= reg.base()
    &&& mmap[i].addr <= kernel_end < usable_end(mmap, i) ==> kernel_end <= reg.base()
}

/// Whether `reg` is the memory that is picked for `mmap`, `mods` and
/// `kernel_end`: what is left of the largest free range of the map once the
/// boot modules and the kernel image are left out. It begins at the first
/// page boundary behind them and ends where the range ends.
pub open spec fn picked(mmap: Seq<Memory>, mods: Seq<Module>, kernel_end: u64, reg: Region) -> bool {
    forall|i: int|
        is_largest_free(mmap, i) ==> {
            &&& reg.base() == usable_begin(mmap, mods, kernel_end, i)
            &&& reg.base() + reg.len() == usable_end(mmap, i)
            &&& clear(mmap, mods, kernel_end, i, reg)
        }
}

/// Whether memory can be picked for `mmap`, `mods` and `kernel_end`: the map
/// has a free range, and what is left of the largest is usable.
pub open spec fn pickable(mmap: Seq<Memory>, mods: Seq<Module>, kernel_end: u64) -> bool {
    exists|i: int| is_largest_free(mmap, i) && usable(mmap, mods, kernel_end, i)
}

/// At most one entry of a memory map is its largest free range.
pub proof fn lemma_largest_free_unique(mmap: Seq<Memory>, i: int, j: int)
    requires
        is_largest_free(mmap, i),
        is_largest_free(mmap, j),
    ensures
        i == j,
{
    if i < j {
        assert(mmap[j].free());
        assert(mmap[i].free());
    } else if j < i {
        assert(mmap[i].free());
        assert(mmap[j].free());
    }
}

/// Returns the index of the largest free entry of the memory map, of several
/// equally large ones the last.
fn largest_free(mmap: &[Memory]) -> (r: Option<usize>)
    ensures
        r matches Some(i) ==> is_largest_free(mmap@, i as int),
        r.is_none() ==> forall|j: int| 0 <= j < mmap.len() ==> !(#[trigger] mmap[j]).free(),
{
    let mut best: Option<usize> = None;
    let mut k: usize = 0;
    while k < mmap.len()
        invariant
            k <= mmap.len(),
            best matches Some(i) ==> i < k && is_largest_free(mmap@.take(k as int), i as int),
            best.is_none() ==> forall|j: int| 0 <= j < k ==> !(#[trigger] mmap[j]).free(),
        decreases mmap.len() - k,
    {
        let ghost before = mmap@.take(k as int);
        let ghost now = mmap@.take(k + 1);
        assert(forall|j: int| 0 <= j < k ==> before[j] == #[trigger] now[j]);
        if mmap[k].is_free() {
            let better = match best {
                Some(i) => mmap[k].len >= mmap[i].len,
                None => true,
            };
            if better {
                assert(is_largest_free(now, k as int)) by {
                    assert forall|j: int| 0 <= j < k && (#[trigger] now[j]).free() implies now[j].len
                        <= now[k as int].len by {
                        assert(before[j].free());
                    }
                }
                best = Some(k);
            } else {
                assert(is_largest_free(now, best.unwrap() as int));
            }
        } else {
            assert(best matches Some(i) ==> is_largest_free(now, i as int));
        }
        k = k + 1;
    }
    assert(mmap@.take(k as int) =~= mmap@);
    best
}

/// Returns where usable memory begins in `begin..end` behind the boot
/// modules
fn skip_modules(begin: u64, end: u64, mods: &[Module]) -> (b: u64)
    ensures
        b == behind_modules(begin as int, end as int, mods@),
{
    let mut b: u64 = begin;
    let mut k: usize = 0;
    while k < mods.len()
        invariant
            k <= mods.len(),
            b == behind_modules(begin as int, end as int, mods@.take(k as int)),
        decreases mods.len() - k,
    {
        assert(mods@.take(k + 1).drop_last() =~= mods@.take(k as int));
        let m = &mods[k];
        let occupies = m.start_addr < m.end_addr && (m.start_addr as u64) < end && begin
            < m.end_addr as u64;
        if occupies && b < m.end_addr as u64 {
            b = m.end_addr as u64;
        }
        k = k + 1;
    }
    assert(mods@.take(k as int) =~= mods@);
    b
}

/// Picks the physical memory that frames are allocated from.
///
/// Of the free ranges of the memory map `mmap` the largest is taken. What
/// is picked of it begins behind every boot module of `mods` that has a
/// byte in the range and behind the kernel image, which ends at
/// `kernel_end`, if that ends in the range: at the first page boundary
/// there. `None` is returned if the map has no free range, or if what is
/// left of the largest is no range of addresses of this machine.
pub fn init(mmap: &[Memory], mods: &[Module], kernel_end: u64) -> (r: Option<Region>)
    ensures
        r.is_some() <==> pickable(mmap@, mods@, kernel_end),
        r matches Some(reg) ==> reg.wf() && picked(mmap@, mods@, kernel_end, reg),
{
    let i = match largest_free(mmap) {
        Some(i) => i,
        None => {
            return None;
        },
    };
    proof {
        assert forall|j: int| is_largest_free(mmap@, j) implies j == i by {
            lemma_largest_free_unique(mmap@, i as int, j);
        }
    }
    let mem = &mmap[i];
    let end = match mem.addr.checked_add(mem.len) {
        Some(end) => end,
        None => {
            return None;
        },
    };
    if end > usize::MAX as u64 {
        return None;
    }
    let mut begin = skip_modules(mem.addr, end, mods);
    if kernel_end >= mem.addr && kernel_end < end && begin < kernel_end {
        begin = kernel_end;
    }
    let padded = match begin.checked_add(PAGE_SIZE as u64 - 1) {
        Some(p) => p,
        None => {
            assert(page_align(begin as int) > end) by {
                lemma_page_align(begin as int);
            }
            return None;
        },
    };
    let aligned = padded & !(PAGE_SIZE as u64 - 1);
    assert(aligned == page_align(begin as int)) by {
        assert(padded & !4095u64 == padded / 4096 * 4096) by (bit_vector);
    }
    if aligned > end {
        return None;
    }
    let reg = Region { addr: aligned, size: end - aligned };
    proof {
        lemma_page_align(begin as int);
        lemma_behind_modules(mem.addr as int, end as int, mods@);
        assert(clear(mmap@, mods@, kernel_end, i as int, reg));
    }
    Some(reg)
}

/// `page_align` rounds up to a page boundary, by less than a page.
pub proof fn lemma_page_align(addr: int)
    requires
        0 <= addr,
    ensures
        page_align(addr) % (PAGE_SIZE as int) == 0,
        addr <= page_align(addr) < addr + PAGE_SIZE,
{
}

/// Allocates a single frame and returns its physical address.
///
/// The frame is the lowest one of the region; the region shrinks by one page
/// from below.
pub fn alloc_page(reg: &mut Region) -> (frame: usize)
    requires
        old(reg).wf(),
        old(reg).pages() >= 1,
    ensures
        frame == old(reg).frame(0),
        *final(reg) == old(reg).after(1),
        final(reg).wf(),
{
    let frame: u64 = reg.addr;
    reg.addr = reg.addr + PAGE_SIZE as u64;
    reg.size = reg.size - PAGE_SIZE as u64;
    frame as usize
}

/// Allocates a single frame if the region has one left, and returns its
/// physical address. A region without a whole frame yields `None` and stays
/// as it is, however often it is asked.
pub fn try_alloc_page(reg: &mut Region) -> (r: Option<usize>)
    requires
        old(reg).wf(),
    ensures
        final(reg).wf(),
        old(reg).pages() >= 1 ==> r == Some(old(reg).frame(0) as usize) && *final(reg) == old(reg)
            .after(1),
        old(reg).pages() == 0 ==> r.is_none() && *final(reg) == *old(reg),
{
    if reg.free_pages() >= 1 {
        Some(alloc_page(reg))
    } else {
        None
    }
}

/// Handing out `m` frames from what is left after `n` frames leaves what is
/// left after `n + m` frames, and the frames that are handed out are those
/// from `n` on.
pub proof fn lemma_after_after(reg: Region, n: nat, m: nat)
    requires
        reg.wf(),
        n + m <= reg.pages(),
    ensures
        reg.after(n).after(m) == reg.after(n + m),
        reg.after(n).frame(m) == reg.frame(n + m),
{
    let p = PAGE_SIZE as nat;
    let (base, len) = (reg.base(), reg.len());
    assert(n * p + m * p == (n + m) * p && (n + m) * p <= len && n * p <= len) by (nonlinear_arith)
        requires
            n + m <= len / p,
            p == 4096,
    ;
}

/// What is left of a region after `n` of its frames have been handed out:
/// it begins at frame `n`, which is the frame that is handed out next, and
/// is `n` pages shorter; handing out one frame more leaves what is left
/// after `n + 1` frames.
pub proof fn lemma_after(reg: Region, n: nat)
    requires
        reg.wf(),
        n <= reg.pages(),
    ensures
        reg.after(0) == reg,
        reg.after(n).wf(),
        reg.after(n).base() == reg.frame(n),
        reg.after(n).frame(0) == reg.frame(n),
        reg.after(n).len() == reg.len() - n * PAGE_SIZE,
        reg.after(n).pages() == reg.pages() - n,
        n < reg.pages() ==> reg.after(n).after(1) == reg.after(n + 1),
{
    let p = PAGE_SIZE as nat;
    let (base, len) = (reg.base(), reg.len());
    assert(n * p <= len && (len - n * p) / (p as int) == len / p - n && (base + n * p) % p == 0)
        by (nonlinear_arith)
        requires
            n <= len / p,
            base % p == 0,
            p == 4096,
    ;
}

/// Frames that are handed out from one region have page-aligned addresses
/// that grow from one allocation to the next, and no two of them overlap: a
/// later frame begins where an earlier one has ended, or behind that.
pub proof fn lemma_frames_disjoint(reg: Region, i: nat, j: nat)
    requires
        reg.wf(),
        i < j,
    ensures
        reg.frame(i) % (PAGE_SIZE as nat) == 0,
        reg.frame(j) % (PAGE_SIZE as nat) == 0,
        reg.frame(i) < reg.frame(j),
        reg.frame(i) + PAGE_SIZE <= reg.frame(j),
{
    let p = PAGE_SIZE as nat;
    let base = reg.base();
    assert((base + i * p) % p == 0 && (base + j * p) % p == 0 && i * p + p <= j * p)
        by (nonlinear_arith)
        requires
            i < j,
            base % p == 0,
            p == 4096,
    ;
}

/// Every frame that a region can still hand out lies inside the region, and
/// once all of them are handed out no further frame can be allocated.
pub proof fn lemma_frames_within(reg: Region, i: nat)
    requires
        reg.wf(),
        i < reg.pages(),
    ensures
        reg.base() <= reg.frame(i),
        reg.frame(i) + PAGE_SIZE <= reg.base() + reg.len(),
        reg.after(reg.pages()).pages() == 0,
{
    let p = PAGE_SIZE as nat;
    let len = reg.len();
    lemma_after(reg, reg.pages());
    assert(i * p + p <= len) by (nonlinear_arith)
        requires
            i < len / p,
            p == 4096,
    ;
}

} // verus!
