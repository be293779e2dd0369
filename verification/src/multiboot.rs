//! The boot record that the boot loader hands over: flags, the list of boot
//! modules and the memory map.
//!
//! The records are plain values. Reading them out of physical memory is left
//! to the caller; the cursors in this module only say at which addresses the
//! records lie.

use vstd::prelude::*;

verus! {

/// Flag bit of [`Header::flags`]: the module list is valid.
pub const FL_MODULES: u32 = 0b00001000;

/// Flag bit of [`Header::flags`]: the memory map is valid.
pub const FL_MEMMAP: u32 = 0b01000000;

/// Size in bytes of one module record in memory.
pub const MODULE_SIZE: usize = 16;

/// Type of a memory map entry that is available for use.
pub const MEM_AVAILABLE: u32 = 1;

/// MultiBoot header, provided by the boot loader
pub struct Header {
    pub flags: u32,
    pub mem_lower: u32,
    pub mem_upper: u32,
    pub boot_device: u32,
    pub cmdline: u32,
    pub mods_count: u32,
    pub mods_addr: u32,
    pub syms: [u32; 4],
    pub mmap_len: u32,
    pub mmap_addr: u32,
    pub drives_len: u32,
    pub drives_addr: u32,
    pub config_table: u32,
    pub loader_name: u32,
}

/// A boot module
pub struct Module {
    /// The modules (physical) start address
    pub start_addr: u32,
    /// The modules (physical) end address
    pub end_addr: u32,
    /// Address of the module's NUL-terminated command line
    pub cmdline: u32,
    pub reserved: u32,
}

impl Module {
    /// The size of the module in bytes
    pub fn size(&self) -> (n: usize)
        requires
            self.start_addr <= self.end_addr,
        ensures
            n == self.end_addr - self.start_addr,
    {
        self.end_addr as usize - self.start_addr as usize
    }
}

/// An entry of the memory map
pub struct Memory {
    /// Size of the entry in memory, not counting this field itself
    pub size: u32,
    pub addr: u64,
    pub len: u64,
    pub ty: u32,
}

impl Memory {
    /// Whether the range is available for use.
    pub open spec fn free(&self) -> bool {
        self.ty == MEM_AVAILABLE
    }

    /// Returns free if this memory region is available for use
    pub fn is_free(&self) -> (b: bool)
        ensures
            b == self.free(),
    {
        self.ty == MEM_AVAILABLE
    }
}

impl Header {
    /// Whether one of the flag bits of `mask` is set in the header's flags.
    pub open spec fn flag_set(&self, mask: u32) -> bool {
        (self.flags & mask) != 0
    }

    /// Returns true if modules are available
    pub fn have_modules(&self) -> (b: bool)
        ensures
            b == self.flag_set(FL_MODULES),
    {
        (self.flags & FL_MODULES) != 0
    }

    /// Returns true if the memory map is available
    pub fn have_mmap(&self) -> (b: bool)
        ensures
            b == self.flag_set(FL_MEMMAP),
    {
        (self.flags & FL_MEMMAP) != 0
    }

    /// Returns a cursor over the addresses of all boot module records
    pub fn mods(&self) -> (it: ModIterator)
        requires
            self.flag_set(FL_MODULES),
            self.mods_addr + MODULE_SIZE * self.mods_count <= usize::MAX,
        ensures
            it.wf(),
            it@ == Seq::new(
                self.mods_count as nat,
                |i: int| (self.mods_addr + MODULE_SIZE * i) as nat,
            ),
    {
        let it = ModIterator {
            addr: self.mods_addr as usize,
            end: self.mods_addr as usize + MODULE_SIZE * self.mods_count as usize,
        };
        assert(it@.len() == self.mods_count) by {
            assert((MODULE_SIZE * self.mods_count) / (MODULE_SIZE as int) == self.mods_count);
        }
        it
    }

    /// Returns a cursor over the entries of the memory map
    pub fn mmap(&self) -> (it: MmapIterator)
        requires
            self.flag_set(FL_MEMMAP),
            self.mmap_addr + self.mmap_len <= usize::MAX,
        ensures
            it.pos() == self.mmap_addr,
            it.limit() == self.mmap_addr + self.mmap_len,
    {
        MmapIterator {
            addr: self.mmap_addr as usize,
            end: self.mmap_addr as usize + self.mmap_len as usize,
        }
    }
}

/// The cursor over boot module records
pub struct ModIterator {
    addr: usize,
    end: usize,
}

impl View for ModIterator {
    type V = Seq<nat>;

    /// The addresses of the records that are still to come, in order.
    closed spec fn view(&self) -> Seq<nat> {
        Seq::new(
            ((self.end - self.addr) / (MODULE_SIZE as int)) as nat,
            |i: int| (self.addr + MODULE_SIZE * i) as nat,
        )
    }
}

impl ModIterator {
    /// The cursor lies a whole number of records before its end.
    pub closed spec fn wf(&self) -> bool {
        &&& self.addr <= self.end
        &&& (self.end - self.addr) % (MODULE_SIZE as int) == 0
    }

    /// Returns the address of the next module record and steps behind it, or
    /// returns `None` at the end of the list.
    pub fn next(&mut self) -> (r: Option<usize>)
        requires
            old(self).wf(),
        ensures
            final(self).wf(),
            old(self)@.len() == 0 ==> r.is_none() && final(self)@ == old(self)@,
            old(self)@.len() > 0 ==> r == Some(old(self)@[0] as usize) && final(self)@ == old(self)@
                .drop_first(),
    {
        if self.addr < self.end {
            let addr = self.addr;
            self.addr = self.addr + MODULE_SIZE;
            assert(self@ =~= old(self)@.drop_first());
            Some(addr)
        } else {
            None
        }
    }
}

/// The cursor over memory map entries
pub struct MmapIterator {
    addr: usize,
    end: usize,
}

impl MmapIterator {
    /// Address of the entry that the cursor stands at.
    pub closed spec fn pos(&self) -> nat {
        self.addr as nat
    }

    /// Address at which the memory map ends.
    pub closed spec fn limit(&self) -> nat {
        self.end as nat
    }

    /// Where the cursor stands after an entry whose size field holds `size`:
    /// behind the entry, or at the end of the map where that address cannot
    /// be represented.
    pub open spec fn behind(&self, size: u32) -> nat {
        if self.pos() + size + 4 <= usize::MAX {
            self.pos() + size as nat + 4
        } else {
            self.limit()
        }
    }

    /// Returns the address of the entry that the cursor stands at, or `None`
    /// at the end of the map.
    pub fn current(&self) -> (r: Option<usize>)
        ensures
            r == if self.pos() < self.limit() {
                Some(self.pos() as usize)
            } else {
                None
            },
    {
        if self.addr < self.end {
            Some(self.addr)
        } else {
            None
        }
    }

    /// Steps behind `entry`, which was read at the address that the cursor
    /// stands at.
    pub fn advance(&mut self, entry: &Memory)
        ensures
            final(self).pos() == old(self).behind(entry.size),
            final(self).limit() == old(self).limit(),
    {
        let step: Option<usize> = (entry.size as usize).checked_add(4);
        let next: Option<usize> = match step {
            Some(s) => self.addr.checked_add(s),
            None => None,
        };
        match next {
            Some(a) => {
                self.addr = a;
            },
            None => {
                self.addr = self.end;
            },
        }
    }
}

} // verus!
