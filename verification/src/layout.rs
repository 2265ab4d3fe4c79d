//! The linker's layout contract: memory regions, section boundary symbols,
//! the stack base and the heap-start marker.

use vstd::prelude::*;

verus! {

/// Number of bytes in one machine word of the core.
pub const WORD_BYTES: u32 = 4;

/// `addr` is a multiple of the word size.
pub open spec fn is_word_aligned(addr: int) -> bool {
    addr % 4 == 0
}

/// The least multiple of the word size that is not below `addr`.
pub open spec fn align_up_spec(addr: int) -> int {
    ((addr + 3) / 4) * 4
}

/// Rounds `addr` up to the next word boundary.
///
/// Returns `None` when that boundary lies past the 32-bit address space.
pub fn align_up(addr: u32) -> (aligned: Option<u32>)
    ensures
        aligned == (if align_up_spec(addr as int) <= u32::MAX {
            Some(align_up_spec(addr as int) as u32)
        } else {
            None::<u32>
        }),
{
    let rem: u32 = addr % WORD_BYTES;
    if rem == 0 {
        Some(addr)
    } else {
        let pad: u32 = WORD_BYTES - rem;
        if addr > u32::MAX - pad {
            None
        } else {
            Some(addr + pad)
        }
    }
}

/// `align_up_spec` yields a word boundary at or after `addr`, less than one
/// word away from it, and no other word boundary lies in between.
pub proof fn lemma_align_up_is_least(addr: int)
    ensures
        is_word_aligned(align_up_spec(addr)),
        addr <= align_up_spec(addr) < addr + 4,
        forall|other: int| is_word_aligned(other) && addr <= other ==> align_up_spec(addr) <= other,
{
    assert forall|other: int| is_word_aligned(other) && addr <= other implies align_up_spec(addr)
        <= other by {
        if other < align_up_spec(addr) {
            assert(other / 4 < (addr + 3) / 4);
        }
    }
}

/// A named span of the address space, given by its first address and its
/// length in bytes.
#[derive(Clone, Copy, Debug, PartialEq, Eq, Structural)]
pub struct MemoryRegion {
    /// First address of the region.
    pub origin: u32,
    /// Length of the region in bytes.
    pub length: u32,
}

impl MemoryRegion {
    /// First address past the region.
    pub open spec fn end(&self) -> int {
        self.origin + self.length
    }

    /// The region does not reach past the end of the 32-bit address space.
    pub open spec fn fits(&self) -> bool {
        self.end() <= 0x1_0000_0000
    }

    /// The byte range `[start, end)` lies inside the region.
    pub open spec fn covers(&self, start: int, end: int) -> bool {
        self.origin <= start <= end <= self.end()
    }

    /// The two regions have no byte in common.
    pub open spec fn disjoint(&self, other: &MemoryRegion) -> bool {
        self.end() <= other.origin || other.end() <= self.origin
    }

    /// The address one past the last byte of the region, modulo the size of
    /// the address space: where a stack that fills the region from the top
    /// starts.
    pub fn top(&self) -> (top: u32)
        ensures
            top == self.origin.wrapping_add(self.length),
            self.end() < 0x1_0000_0000 ==> top == self.end(),
    {
        self.origin.wrapping_add(self.length)
    }

    /// Tells whether the byte range `[start, end)` lies inside the region.
    pub fn contains_range(&self, start: u32, end: u32) -> (inside: bool)
        ensures
            inside == self.covers(start as int, end as int),
    {
        self.origin <= start && start <= end && end as u64 <= self.origin as u64
            + self.length as u64
    }
}

/// The bounds of a section in RAM: the address of its first byte and the
/// address one past its last.
#[derive(Clone, Copy, Debug, PartialEq, Eq, Structural)]
pub struct Section {
    /// Address of the first byte.
    pub start: u32,
    /// Address one past the last byte.
    pub end: u32,
}

impl Section {
    /// A section starts and ends on a word boundary and does not end before
    /// it starts.
    pub open spec fn wf(&self) -> bool {
        &&& is_word_aligned(self.start as int)
        &&& is_word_aligned(self.end as int)
        &&& self.start <= self.end
    }

    /// The two sections have no byte in common.
    pub open spec fn disjoint(&self, other: &Section) -> bool {
        self.end <= other.start || other.end <= self.start
    }

    /// `addr` is the address of a word of the section.
    pub open spec fn holds_word(&self, addr: int) -> bool {
        is_word_aligned(addr) && self.start <= addr < self.end
    }
}

/// What the linker hands to the boot sequencer: the two memory regions, the
/// bounds of the zero-initialised and the shadow-initialised section, where
/// the shadow lies, where the stack starts and how large the heap is.
#[derive(Clone, Copy, Debug, PartialEq, Eq, Structural)]
pub struct LinkerLayout {
    /// The region that holds code and read-only initialisers.
    pub flash: MemoryRegion,
    /// The region that holds mutable state and the stack.
    pub ram: MemoryRegion,
    /// The zero-initialised section (`_sbss` to `_ebss`).
    pub bss: Section,
    /// The shadow-initialised section (`_sdata` to `_edata`).
    pub data: Section,
    /// Address in FLASH of the shadow of the data section (`_sidata`).
    pub data_shadow: u32,
    /// Base of the descending stack (`_stack_start`).
    pub stack_start: u32,
    /// Size of the heap in bytes (`_heap_size`).
    pub heap_size: u32,
}

impl LinkerLayout {
    /// The layout is one that the boot sequencer can work on: both regions
    /// lie in the address space and apart from each other, both sections
    /// are well-formed, lie in RAM and apart from each other, and the shadow
    /// of the data section is word-aligned and lies in FLASH.
    pub open spec fn wf(&self) -> bool {
        &&& self.flash.fits()
        &&& self.ram.fits()
        &&& self.flash.disjoint(&self.ram)
        &&& self.bss.wf()
        &&& self.data.wf()
        &&& self.bss.disjoint(&self.data)
        &&& self.ram.covers(self.bss.start as int, self.bss.end as int)
        &&& self.ram.covers(self.data.start as int, self.data.end as int)
        &&& is_word_aligned(self.data_shadow as int)
        &&& self.flash.covers(self.data_shadow as int, self.shadow_end())
    }

    /// First address past the shadow of the data section.
    pub open spec fn shadow_end(&self) -> int {
        self.data_shadow + (self.data.end - self.data.start)
    }

    /// Address in FLASH of the shadow of the word of the data section at
    /// `addr`.
    pub open spec fn shadow_of(&self, addr: int) -> int {
        self.data_shadow + (addr - self.data.start)
    }

    /// Puts a layout together.  Where `stack_start` is `None` the stack
    /// starts at the top of RAM; where `heap_size` is `None` the heap is
    /// empty.
    pub fn new(
        flash: MemoryRegion,
        ram: MemoryRegion,
        bss: Section,
        data: Section,
        data_shadow: u32,
        stack_start: Option<u32>,
        heap_size: Option<u32>,
    ) -> (layout: LinkerLayout)
        ensures
            layout.flash == flash,
            layout.ram == ram,
            layout.bss == bss,
            layout.data == data,
            layout.data_shadow == data_shadow,
            layout.stack_start == (match stack_start {
                Some(addr) => addr,
                None => ram.origin.wrapping_add(ram.length),
            }),
            layout.heap_size == (match heap_size {
                Some(size) => size,
                None => 0u32,
            }),
    {
        let stack_start: u32 = match stack_start {
            Some(addr) => addr,
            None => ram.top(),
        };
        let heap_size: u32 = match heap_size {
            Some(size) => size,
            None => 0,
        };
        LinkerLayout { flash, ram, bss, data, data_shadow, stack_start, heap_size }
    }

    /// Tells whether the layout is well-formed.
    pub fn is_well_formed(&self) -> (ok: bool)
        ensures
            ok == self.wf(),
    {
        let flash_end: u64 = self.flash.origin as u64 + self.flash.length as u64;
        let ram_end: u64 = self.ram.origin as u64 + self.ram.length as u64;
        let regions: bool = flash_end <= 0x1_0000_0000 && ram_end <= 0x1_0000_0000 && (flash_end
            <= self.ram.origin as u64 || ram_end <= self.flash.origin as u64);
        let bss: bool = self.bss.start % 4 == 0 && self.bss.end % 4 == 0 && self.bss.start
            <= self.bss.end;
        let data: bool = self.data.start % 4 == 0 && self.data.end % 4 == 0 && self.data.start
            <= self.data.end;
        if !(regions && bss && data) {
            return false;
        }
        let apart: bool = self.bss.end <= self.data.start || self.data.end <= self.bss.start;
        let in_ram: bool = self.ram.contains_range(self.bss.start, self.bss.end)
            && self.ram.contains_range(self.data.start, self.data.end);
        let shadow_end: u64 = self.data_shadow as u64 + (self.data.end - self.data.start) as u64;
        let shadow: bool = self.data_shadow % 4 == 0 && self.flash.origin <= self.data_shadow
            && shadow_end <= flash_end;
        apart && in_ram && shadow
    }

    /// Where the heap starts: the end of the data section, rounded up to a
    /// word boundary.
    pub open spec fn heap_start_spec(&self) -> int {
        align_up_spec(self.data.end as int)
    }

    /// The heap starts at the first word boundary at or after the end of
    /// the data section, whatever the size of the heap: at a word boundary
    /// that is not below that end, with no other such boundary before it.
    pub proof fn lemma_heap_start_placement(&self)
        ensures
            is_word_aligned(self.heap_start_spec()),
            self.data.end <= self.heap_start_spec() < self.data.end + 4,
            forall|addr: int|
                is_word_aligned(addr) && self.data.end <= addr ==> self.heap_start_spec() <= addr,
            is_word_aligned(self.data.end as int) ==> self.heap_start_spec() == self.data.end,
    {
        lemma_align_up_is_least(self.data.end as int);
    }

    /// The heap-start marker (`_sheap`): the first word boundary at or after
    /// the end of the data section.
    ///
    /// Returns `None` where no such boundary lies in the address space.
    pub fn heap_start(&self) -> (start: Option<u32>)
        ensures
            start == (if self.heap_start_spec() <= u32::MAX {
                Some(self.heap_start_spec() as u32)
            } else {
                None::<u32>
            }),
            self.wf() ==> start == Some(self.data.end),
    {
        align_up(self.data.end)
    }

    /// The address one past the heap: the heap-start marker plus the heap
    /// size.
    ///
    /// Returns `None` where the heap has no start or would reach past the
    /// address space.
    pub fn heap_end(&self) -> (end: Option<u32>)
        ensures
            end == (if self.heap_start_spec() + self.heap_size <= u32::MAX {
                Some((self.heap_start_spec() + self.heap_size) as u32)
            } else {
                None::<u32>
            }),
    {
        proof {
            lemma_align_up_is_least(self.data.end as int);
        }
        match align_up(self.data.end) {
            Some(start) => start.checked_add(self.heap_size),
            None => None,
        }
    }
}

} // verus!
