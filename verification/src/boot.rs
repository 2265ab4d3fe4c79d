//! The boot sequencer: what runs between reset and `main`.
//!
//! The reset vector sets up the stack; then the sequencer calls the
//! pre-init hook, zeroes the zero-initialised section, copies the
//! shadow-initialised section from its shadow in FLASH and tells its caller
//! whether interrupts are to be unmasked before `main` is entered.

use vstd::prelude::*;
use crate::config::TrapVariant;
use crate::cpu::Cpu;
use crate::layout::{is_word_aligned, LinkerLayout, Section};
use crate::memory::Memory;

verus! {

/// Architectural number of the stack pointer `sp`.
pub const STACK_POINTER: usize = 2;

/// Architectural number of the frame pointer `s0`.
pub const FRAME_POINTER: usize = 8;

/// Reset entry point: the first step after reset, which nothing has
/// prepared the registers for.  Makes the stack pointer and the frame
/// pointer the stack base of `layout` and leaves every other register of
/// the model as it is.
pub fn start(cpu: &mut Cpu, layout: &LinkerLayout)
    ensures
        final(cpu).x@ == old(cpu).x@.update(2, layout.stack_start).update(8, layout.stack_start),
        final(cpu).q@ == old(cpu).q@,
{
    cpu.x[STACK_POINTER] = layout.stack_start;
    cpu.x[FRAME_POINTER] = layout.stack_start;
}

/// Zeroes every word of the section `bss` in `ram` and leaves every other
/// word of `ram` as it was.
pub fn zero_bss(ram: &mut Memory, bss: Section)
    requires
        bss.wf(),
        old(ram).covers(bss.start as int, bss.end as int),
    ensures
        final(ram).base() == old(ram).base(),
        final(ram)@.len() == old(ram)@.len(),
        forall|addr: int| bss.holds_word(addr) ==> #[trigger] final(ram).word_at(addr) == 0,
        forall|addr: int|
            old(ram).holds_word(addr) && !bss.holds_word(addr) ==> #[trigger] final(ram).word_at(
                addr,
            ) == old(ram).word_at(addr),
{
    proof {
        use_type_invariant(&*ram);
        ram.lemma_placement();
    }
    let mut addr: u32 = bss.start;
    while addr < bss.end
        invariant
            bss.wf(),
            bss.start <= addr <= bss.end,
            is_word_aligned(addr as int),
            is_word_aligned(ram.base()),
            ram.base() == old(ram).base(),
            ram@.len() == old(ram)@.len(),
            old(ram).covers(bss.start as int, bss.end as int),
            forall|a: int|
                is_word_aligned(a) && bss.start <= a < addr ==> #[trigger] ram.word_at(a) == 0,
            forall|a: int|
                old(ram).holds_word(a) && !(bss.start <= a < addr) ==> #[trigger] ram.word_at(a)
                    == old(ram).word_at(a),
        decreases bss.end - addr,
    {
        let ghost before = *ram;
        let written = ram.write_word(addr, 0);
        assert(written is Ok);
        proof {
            assert forall|a: int|
                is_word_aligned(a) && bss.start <= a < addr + 4 implies #[trigger] ram.word_at(a)
                == 0 by {
                if a != addr {
                    assert(before.word_at(a) == 0);
                    assert(ram.index_of(a) != ram.index_of(addr as int));
                }
            }
            assert forall|a: int|
                old(ram).holds_word(a) && !(bss.start <= a < addr + 4) implies #[trigger] ram.word_at(
                a,
            ) == old(ram).word_at(a) by {
                assert(before.word_at(a) == old(ram).word_at(a));
                assert(ram.index_of(a) != ram.index_of(addr as int));
            }
        }
        addr = addr + 4;
    }
}

/// Copies every word of the section `data` in `ram` from its shadow, which
/// starts at the address `shadow` in `flash`, and leaves every other word
/// of `ram` as it was.
pub fn init_data(ram: &mut Memory, flash: &Memory, data: Section, shadow: u32)
    requires
        data.wf(),
        old(ram).covers(data.start as int, data.end as int),
        is_word_aligned(shadow as int),
        flash.covers(shadow as int, shadow + (data.end - data.start)),
    ensures
        final(ram).base() == old(ram).base(),
        final(ram)@.len() == old(ram)@.len(),
        forall|addr: int|
            data.holds_word(addr) ==> #[trigger] final(ram).word_at(addr) == flash.word_at(
                shadow + (addr - data.start),
            ),
        forall|addr: int|
            old(ram).holds_word(addr) && !data.holds_word(addr) ==> #[trigger] final(ram).word_at(
                addr,
            ) == old(ram).word_at(addr),
{
    proof {
        use_type_invariant(&*ram);
        use_type_invariant(flash);
        ram.lemma_placement();
        flash.lemma_placement();
    }
    let mut addr: u32 = data.start;
    while addr < data.end
        invariant
            data.wf(),
            data.start <= addr <= data.end,
            is_word_aligned(addr as int),
            is_word_aligned(shadow as int),
            is_word_aligned(ram.base()),
            is_word_aligned(flash.base()),
            flash.end() <= 0x1_0000_0000,
            ram.base() == old(ram).base(),
            ram@.len() == old(ram)@.len(),
            old(ram).covers(data.start as int, data.end as int),
            flash.covers(shadow as int, shadow + (data.end - data.start)),
            forall|a: int|
                is_word_aligned(a) && data.start <= a < addr ==> #[trigger] ram.word_at(a)
                    == flash.word_at(shadow + (a - data.start)),
            forall|a: int|
                old(ram).holds_word(a) && !(data.start <= a < addr) ==> #[trigger] ram.word_at(a)
                    == old(ram).word_at(a),
        decreases data.end - addr,
    {
        let source: u32 = shadow + (addr - data.start);
        let ghost before = *ram;
        match flash.read_word(source) {
            Ok(word) => {
                let written = ram.write_word(addr, word);
                assert(written is Ok);
            },
            Err(_) => {
                assert(false);
            },
        }
        proof {
            assert forall|a: int|
                is_word_aligned(a) && data.start <= a < addr + 4 implies #[trigger] ram.word_at(a)
                == flash.word_at(shadow + (a - data.start)) by {
                if a != addr {
                    assert(before.word_at(a) == flash.word_at(shadow + (a - data.start)));
                    assert(ram.index_of(a) != ram.index_of(addr as int));
                }
            }
            assert forall|a: int|
                old(ram).holds_word(a) && !(data.start <= a < addr + 4) implies #[trigger] ram.word_at(
                a,
            ) == old(ram).word_at(a) by {
                assert(before.word_at(a) == old(ram).word_at(a));
                assert(ram.index_of(a) != ram.index_of(addr as int));
            }
        }
        addr = addr + 4;
    }
}

/// The pre-init hook that is used where the program binds none: it does
/// nothing.
pub fn default_pre_init() {
}

/// The layout is well-formed and the two images hold what it speaks of:
/// `ram` both sections, `flash` the shadow of the data section.
pub open spec fn bootable(layout: &LinkerLayout, flash: &Memory, ram: &Memory) -> bool {
    &&& layout.wf()
    &&& ram.covers(layout.bss.start as int, layout.bss.end as int)
    &&& ram.covers(layout.data.start as int, layout.data.end as int)
    &&& flash.covers(layout.data_shadow as int, layout.shadow_end())
}

/// Tells whether `start_rust` may be called on these arguments.
pub fn is_bootable(layout: &LinkerLayout, flash: &Memory, ram: &Memory) -> (ok: bool)
    ensures
        ok == bootable(layout, flash, ram),
{
    if !layout.is_well_formed() {
        return false;
    }
    let ram_origin: u64 = ram.origin() as u64;
    let ram_end: u64 = ram_origin + 4 * (ram.len() as u64);
    let flash_origin: u64 = flash.origin() as u64;
    let flash_end: u64 = flash_origin + 4 * (flash.len() as u64);
    let shadow_end: u64 = layout.data_shadow as u64 + (layout.data.end - layout.data.start) as u64;
    ram_origin <= layout.bss.start as u64 && layout.bss.end as u64 <= ram_end && ram_origin
        <= layout.data.start as u64 && layout.data.end as u64 <= ram_end && flash_origin
        <= layout.data_shadow as u64 && shadow_end <= flash_end
}

/// Where RAM agrees word for word with the shadow of the data section, it
/// agrees with it byte for byte.
pub proof fn lemma_data_is_byte_identical(layout: &LinkerLayout, flash: &Memory, ram: &Memory)
    requires
        bootable(layout, flash, ram),
        is_word_aligned(ram.base()),
        is_word_aligned(flash.base()),
        forall|addr: int|
            layout.data.holds_word(addr) ==> #[trigger] ram.word_at(addr) == flash.word_at(
                layout.shadow_of(addr),
            ),
    ensures
        forall|addr: int|
            layout.data.start <= addr < layout.data.end ==> #[trigger] ram.byte_at(addr)
                == flash.byte_at(layout.shadow_of(addr)),
{
    assert forall|addr: int| layout.data.start <= addr < layout.data.end implies #[trigger] ram.byte_at(
        addr,
    ) == flash.byte_at(layout.shadow_of(addr)) by {
        let word = addr - addr % 4;
        let shift = layout.data_shadow - layout.data.start;
        lemma_word_of_byte(ram.base(), addr);
        lemma_word_of_byte(flash.base(), addr + shift);
        lemma_lane_unmoved(addr, shift);
        assert(layout.data.holds_word(word));
        assert(ram.word_at(word) == flash.word_at(layout.shadow_of(word)));
    }
}

/// The byte at `addr` lies in the word at `addr - addr % 4`, which has the
/// same index in an image with a word-aligned base.
proof fn lemma_word_of_byte(base: int, addr: int)
    requires
        base % 4 == 0,
    ensures
        (addr - addr % 4) % 4 == 0,
        (addr - base) / 4 == ((addr - addr % 4) - base) / 4,
{
}

/// Moving an address by a whole number of words leaves its place in the
/// word unchanged.
proof fn lemma_lane_unmoved(addr: int, shift: int)
    requires
        shift % 4 == 0,
    ensures
        (addr + shift) % 4 == addr % 4,
        (addr + shift) - (addr + shift) % 4 == (addr - addr % 4) + shift,
{
}

/// Rust entry point: runs the boot sequence up to the point where `main`
/// is entered.
///
/// In order: calls `pre_init`, which gets no access to RAM and has run to
/// its end before RAM is touched; zeroes the zero-initialised section;
/// copies the shadow-initialised section from FLASH.  The result tells the caller whether to unmask interrupts at the
/// core before it enters `main`, which is the case exactly where `variant`
/// is one with interrupt support.
///
/// After the call every word of the zero-initialised section reads zero,
/// the shadow-initialised section is identical to its shadow, word for word
/// and byte for byte, and no other word of RAM has changed.
pub fn start_rust<P: FnOnce()>(
    layout: &LinkerLayout,
    flash: &Memory,
    ram: &mut Memory,
    variant: TrapVariant,
    pre_init: P,
) -> (unmask: bool)
    requires
        bootable(layout, flash, old(ram)),
        call_requires(pre_init, ()),
    ensures
        unmask == (variant != TrapVariant::Bare),
        call_ensures(pre_init, (), ()),
        final(ram).base() == old(ram).base(),
        final(ram)@.len() == old(ram)@.len(),
        forall|addr: int|
            layout.bss.holds_word(addr) ==> #[trigger] final(ram).word_at(addr) == 0,
        forall|addr: int|
            layout.data.holds_word(addr) ==> #[trigger] final(ram).word_at(addr) == flash.word_at(
                layout.shadow_of(addr),
            ),
        forall|addr: int|
            layout.data.start <= addr < layout.data.end ==> #[trigger] final(ram).byte_at(addr)
                == flash.byte_at(layout.shadow_of(addr)),
        forall|addr: int|
            old(ram).holds_word(addr) && !layout.bss.holds_word(addr) && !layout.data.holds_word(
                addr,
            ) ==> #[trigger] final(ram).word_at(addr) == old(ram).word_at(addr),
{
    proof {
        use_type_invariant(&*ram);
        use_type_invariant(flash);
        ram.lemma_placement();
        flash.lemma_placement();
    }
    pre_init();
    zero_bss(ram, layout.bss);
    let ghost zeroed = *ram;
    init_data(ram, flash, layout.data, layout.data_shadow);
    proof {
        assert forall|addr: int| layout.bss.holds_word(addr) implies #[trigger] ram.word_at(addr)
            == 0 by {
            assert(zeroed.word_at(addr) == 0);
        }
        assert forall|addr: int|
            old(ram).holds_word(addr) && !layout.bss.holds_word(addr) && !layout.data.holds_word(
                addr,
            ) implies #[trigger] ram.word_at(addr) == old(ram).word_at(addr) by {
            assert(zeroed.word_at(addr) == old(ram).word_at(addr));
        }
        lemma_data_is_byte_identical(layout, flash, ram);
    }
    variant.interrupts_configured()
}

} // verus!
