//! The register context that a trap saves, in its two physical layouts.
//!
//! A trap saves eighteen registers: `ra` (x1), `sp` (x2), `gp` (x3), the
//! temporaries `t0`-`t2` (x5-x7), the argument registers `a0`-`a7`
//! (x10-x17) and the temporaries `t3`-`t6` (x28-x31).  Under the full layout
//! all of them lie on the trap's stack frame.  Under the compact layout `ra`
//! and `sp` stay in the scratch registers `q2` and `q3` while the trap runs
//! and only the other sixteen lie on the stack.

use vstd::prelude::*;

verus! {

/// Words on the stack frame of a trap under the full layout.
pub const FULL_FRAME_WORDS: usize = 18;

/// Words on the stack frame of a trap under the compact layout.
pub const COMPACT_FRAME_WORDS: usize = 16;

/// Where a trap keeps the registers it saves.
#[derive(Clone, Copy, Debug, PartialEq, Eq, Structural)]
pub enum FrameLayout {
    /// Every saved register lies on the stack frame.
    Full,
    /// `ra` and `sp` are held in scratch registers, the rest on the stack.
    Compact,
}

/// `n` is the architectural number of a register that a trap saves.
pub open spec fn is_saved_register(n: int) -> bool {
    n == 1 || n == 2 || n == 3 || 5 <= n <= 7 || 10 <= n <= 17 || 28 <= n <= 31
}

/// Position of saved register `n` in the fixed order
/// `gp, ra, sp, t0-t2, a0-a7, t3-t6`, which is the order of a full frame.
pub open spec fn frame_slot(n: int) -> int
    recommends
        is_saved_register(n),
{
    if n == 3 {
        0
    } else if n == 1 {
        1
    } else if n == 2 {
        2
    } else if n <= 7 {
        n - 2
    } else if n <= 17 {
        n - 4
    } else {
        n - 14
    }
}

/// Architectural number of the register at position `slot` of the frame
/// order: the inverse of `frame_slot`.
pub open spec fn frame_register(slot: int) -> int
    recommends
        0 <= slot < 18,
{
    if slot == 0 {
        3
    } else if slot <= 2 {
        slot
    } else if slot <= 5 {
        slot + 2
    } else if slot <= 13 {
        slot + 4
    } else {
        slot + 14
    }
}

/// `frame_slot` and `frame_register` are inverse to each other between the
/// saved registers and the positions 0 to 17.
pub proof fn lemma_frame_order()
    ensures
        forall|n: int|
            is_saved_register(n) ==> 0 <= #[trigger] frame_slot(n) < 18 && frame_register(
                frame_slot(n),
            ) == n,
        forall|slot: int|
            0 <= slot < 18 ==> is_saved_register(#[trigger] frame_register(slot)) && frame_slot(
                frame_register(slot),
            ) == slot,
{
}

/// The eighteen saved values in frame order, given the sixteen words of a
/// compact frame and the contents of the two scratch registers.
pub open spec fn expand_compact(stack: Seq<u32>, ra: u32, sp: u32) -> Seq<u32>
    recommends
        stack.len() == 16,
{
    seq![stack[0], ra, sp] + stack.subrange(1, 16)
}

/// The sixteen stack words of a compact frame, given the eighteen saved
/// values in frame order.
pub open spec fn compact_words(values: Seq<u32>) -> Seq<u32>
    recommends
        values.len() == 18,
{
    seq![values[0]] + values.subrange(3, 18)
}

enum SavedBlock {
    Full { frame: [u32; 18] },
    Compact { stack: [u32; 16], ra: u32, sp: u32 },
}

impl Clone for SavedBlock {
    fn clone(&self) -> (copy: Self)
        ensures
            copy == *self,
    {
        *self
    }
}

impl Copy for SavedBlock {

}

/// A block of registers saved for the duration of handling an interrupt.
///
/// The value is a snapshot: under the compact layout it holds the contents
/// that the two scratch registers had when it was taken, so it stays
/// readable after the trap that produced it has returned.
pub struct PicoRV32StoredRegisters {
    block: SavedBlock,
}

impl Clone for PicoRV32StoredRegisters {
    fn clone(&self) -> (copy: Self)
        ensures
            copy == *self,
    {
        *self
    }
}

impl Copy for PicoRV32StoredRegisters {

}

impl View for PicoRV32StoredRegisters {
    type V = Seq<u32>;

    /// The eighteen saved values in frame order.
    closed spec fn view(&self) -> Seq<u32> {
        match self.block {
            SavedBlock::Full { frame } => frame@,
            SavedBlock::Compact { stack, ra, sp } => expand_compact(stack@, ra, sp),
        }
    }
}

impl PicoRV32StoredRegisters {
    /// The physical layout that this context was saved in.
    pub closed spec fn layout(&self) -> FrameLayout {
        match self.block {
            SavedBlock::Full { .. } => FrameLayout::Full,
            SavedBlock::Compact { .. } => FrameLayout::Compact,
        }
    }

    /// The saved value of register `n`.
    pub open spec fn value(&self, n: int) -> u32
        recommends
            is_saved_register(n),
    {
        self@[frame_slot(n)]
    }

    /// A context always holds eighteen values.
    pub proof fn lemma_len(&self)
        ensures
            self@.len() == 18,
    {
    }

    /// Reads a context from the eighteen words of a full stack frame.
    pub fn from_full_frame(stack: [u32; 18]) -> (regs: Self)
        ensures
            regs.layout() == FrameLayout::Full,
            regs@ == stack@,
    {
        PicoRV32StoredRegisters { block: SavedBlock::Full { frame: stack } }
    }

    /// Reads a context from the sixteen words of a compact stack frame and
    /// the contents of the scratch registers `q2` (holding `ra`) and `q3`
    /// (holding `sp`).
    pub fn from_compact_frame(stack: [u32; 16], q2: u32, q3: u32) -> (regs: Self)
        ensures
            regs.layout() == FrameLayout::Compact,
            regs@ == expand_compact(stack@, q2, q3),
    {
        PicoRV32StoredRegisters { block: SavedBlock::Compact { stack, ra: q2, sp: q3 } }
    }

    /// The physical layout that this context was saved in.
    pub fn frame_layout(&self) -> (layout: FrameLayout)
        ensures
            layout == self.layout(),
    {
        match &self.block {
            SavedBlock::Full { .. } => FrameLayout::Full,
            SavedBlock::Compact { .. } => FrameLayout::Compact,
        }
    }

    /// The words that the context has on the stack, from the lowest address
    /// upwards: all eighteen values under the full layout, all but `ra` and
    /// `sp` under the compact layout.
    pub open spec fn stack_words_spec(&self) -> Seq<u32> {
        match self.layout() {
            FrameLayout::Full => self@,
            FrameLayout::Compact => compact_words(self@),
        }
    }

    /// The words that the context has on the stack, from the lowest address
    /// upwards.
    pub fn stack_words(&self) -> (words: Vec<u32>)
        ensures
            words@ == self.stack_words_spec(),
    {
        let mut words: Vec<u32> = Vec::new();
        match &self.block {
            SavedBlock::Full { frame } => {
                let mut i: usize = 0;
                while i < 18
                    invariant
                        i <= 18,
                        words@ == frame@.subrange(0, i as int),
                    decreases 18 - i,
                {
                    words.push(frame[i]);
                    i = i + 1;
                }
            },
            SavedBlock::Compact { stack, .. } => {
                let mut i: usize = 0;
                while i < 16
                    invariant
                        i <= 16,
                        words@ == stack@.subrange(0, i as int),
                    decreases 16 - i,
                {
                    words.push(stack[i]);
                    i = i + 1;
                }
            },
        }
        words
    }

    /// `x1`/`ra` (return address, saved by caller)
    pub fn x1(&self) -> (value: u32)
        ensures
            value == self.value(1),
    {
        match &self.block {
            SavedBlock::Full { frame } => frame[1],
            SavedBlock::Compact { ra, .. } => *ra,
        }
    }

    /// `x2`/`sp` (stack pointer, saved by callee)
    pub fn x2(&self) -> (value: u32)
        ensures
            value == self.value(2),
    {
        match &self.block {
            SavedBlock::Full { frame } => frame[2],
            SavedBlock::Compact { sp, .. } => *sp,
        }
    }

    /// `x3`/`gp` (global pointer)
    pub fn x3(&self) -> (value: u32)
        ensures
            value == self.value(3),
    {
        match &self.block {
            SavedBlock::Full { frame } => frame[0],
            SavedBlock::Compact { stack, .. } => stack[0],
        }
    }

    /// `x5`/`t0` (t0, saved by caller)
    pub fn x5(&self) -> (value: u32)
        ensures
            value == self.value(5),
    {
        match &self.block {
            SavedBlock::Full { frame } => frame[3],
            SavedBlock::Compact { stack, .. } => stack[1],
        }
    }

    /// `x6`/`t1` (t1, saved by caller)
    pub fn x6(&self) -> (value: u32)
        ensures
            value == self.value(6),
    {
        match &self.block {
            SavedBlock::Full { frame } => frame[4],
            SavedBlock::Compact { stack, .. } => stack[2],
        }
    }

    /// `x7`/`t2` (t2, saved by caller)
    pub fn x7(&self) -> (value: u32)
        ensures
            value == self.value(7),
    {
        match &self.block {
            SavedBlock::Full { frame } => frame[5],
            SavedBlock::Compact { stack, .. } => stack[3],
        }
    }

    /// `x10`/`a0` (a0, saved by caller)
    pub fn x10(&self) -> (value: u32)
        ensures
            value == self.value(10),
    {
        match &self.block {
            SavedBlock::Full { frame } => frame[6],
            SavedBlock::Compact { stack, .. } => stack[4],
        }
    }

    /// `x11`/`a1` (a1, saved by caller)
    pub fn x11(&self) -> (value: u32)
        ensures
            value == self.value(11),
    {
        match &self.block {
            SavedBlock::Full { frame } => frame[7],
            SavedBlock::Compact { stack, .. } => stack[5],
        }
    }

    /// `x12`/`a2` (a2, saved by caller)
    pub fn x12(&self) -> (value: u32)
        ensures
            value == self.value(12),
    {
        match &self.block {
            SavedBlock::Full { frame } => frame[8],
            SavedBlock::Compact { stack, .. } => stack[6],
        }
    }

    /// `x13`/`a3` (a3, saved by caller)
    pub fn x13(&self) -> (value: u32)
        ensures
            value == self.value(13),
    {
        match &self.block {
            SavedBlock::Full { frame } => frame[9],
            SavedBlock::Compact { stack, .. } => stack[7],
        }
    }

    /// `x14`/`a4` (a4, saved by caller)
    pub fn x14(&self) -> (value: u32)
        ensures
            value == self.value(14),
    {
        match &self.block {
            SavedBlock::Full { frame } => frame[10],
            SavedBlock::Compact { stack, .. } => stack[8],
        }
    }

    /// `x15`/`a5` (a5, saved by caller)
    pub fn x15(&self) -> (value: u32)
        ensures
            value == self.value(15),
    {
        match &self.block {
            SavedBlock::Full { frame } => frame[11],
            SavedBlock::Compact { stack, .. } => stack[9],
        }
    }

    /// `x16`/`a6` (a6, saved by caller)
    pub fn x16(&self) -> (value: u32)
        ensures
            value == self.value(16),
    {
        match &self.block {
            SavedBlock::Full { frame } => frame[12],
            SavedBlock::Compact { stack, .. } => stack[10],
        }
    }

    /// `x17`/`a7` (a7, saved by caller)
    pub fn x17(&self) -> (value: u32)
        ensures
            value == self.value(17),
    {
        match &self.block {
            SavedBlock::Full { frame } => frame[13],
            SavedBlock::Compact { stack, .. } => stack[11],
        }
    }

    /// `x28`/`t3` (t3, saved by caller)
    pub fn x28(&self) -> (value: u32)
        ensures
            value == self.value(28),
    {
        match &self.block {
            SavedBlock::Full { frame } => frame[14],
            SavedBlock::Compact { stack, .. } => stack[12],
        }
    }

    /// `x29`/`t4` (t4, saved by caller)
    pub fn x29(&self) -> (value: u32)
        ensures
            value == self.value(29),
    {
        match &self.block {
            SavedBlock::Full { frame } => frame[15],
            SavedBlock::Compact { stack, .. } => stack[13],
        }
    }

    /// `x30`/`t5` (t5, saved by caller)
    pub fn x30(&self) -> (value: u32)
        ensures
            value == self.value(30),
    {
        match &self.block {
            SavedBlock::Full { frame } => frame[16],
            SavedBlock::Compact { stack, .. } => stack[14],
        }
    }

    /// `x31`/`t6` (t6, saved by caller)
    pub fn x31(&self) -> (value: u32)
        ensures
            value == self.value(31),
    {
        match &self.block {
            SavedBlock::Full { frame } => frame[17],
            SavedBlock::Compact { stack, .. } => stack[15],
        }
    }
}

/// All stored registers: a copy of a register context that lies wholly in
/// ordinary memory, whatever layout the context was saved in.
pub struct PicoRV32AllStoredRegisters {
    x3: u32,
    x1: u32,
    x2: u32,
    x5: u32,
    x6: u32,
    x7: u32,
    x10: u32,
    x11: u32,
    x12: u32,
    x13: u32,
    x14: u32,
    x15: u32,
    x16: u32,
    x17: u32,
    x28: u32,
    x29: u32,
    x30: u32,
    x31: u32,
}

impl Clone for PicoRV32AllStoredRegisters {
    fn clone(&self) -> (copy: Self)
        ensures
            copy == *self,
    {
        *self
    }
}

impl Copy for PicoRV32AllStoredRegisters {

}

impl View for PicoRV32AllStoredRegisters {
    type V = Seq<u32>;

    /// The eighteen values in frame order.
    closed spec fn view(&self) -> Seq<u32> {
        seq![
            self.x3,
            self.x1,
            self.x2,
            self.x5,
            self.x6,
            self.x7,
            self.x10,
            self.x11,
            self.x12,
            self.x13,
            self.x14,
            self.x15,
            self.x16,
            self.x17,
            self.x28,
            self.x29,
            self.x30,
            self.x31,
        ]
    }
}

impl PicoRV32AllStoredRegisters {
    /// The eighteen values in frame order, as the words of a full frame.
    pub fn words(&self) -> (words: [u32; 18])
        ensures
            words@ == self@,
    {
        [self.x3, self.x1, self.x2, self.x5, self.x6, self.x7, self.x10, self.x11, self.x12, self.x13, self.x14, self.x15, self.x16, self.x17, self.x28, self.x29, self.x30, self.x31]
    }

    /// The copy that `from` makes of `regs` holds the values of `regs`.
    pub proof fn lemma_from_spec_view(regs: PicoRV32StoredRegisters)
        ensures
            <Self as vstd::std_specs::convert::FromSpec<PicoRV32StoredRegisters>>::from_spec(regs)@
                == regs@,
    {
        regs.lemma_len();
    }
}

impl vstd::std_specs::convert::FromSpecImpl<PicoRV32StoredRegisters> for PicoRV32AllStoredRegisters {
    open spec fn obeys_from_spec() -> bool {
        true
    }

    closed spec fn from_spec(regs: PicoRV32StoredRegisters) -> Self {
        PicoRV32AllStoredRegisters {
            x3: regs.value(3),
            x1: regs.value(1),
            x2: regs.value(2),
            x5: regs.value(5),
            x6: regs.value(6),
            x7: regs.value(7),
            x10: regs.value(10),
            x11: regs.value(11),
            x12: regs.value(12),
            x13: regs.value(13),
            x14: regs.value(14),
            x15: regs.value(15),
            x16: regs.value(16),
            x17: regs.value(17),
            x28: regs.value(28),
            x29: regs.value(29),
            x30: regs.value(30),
            x31: regs.value(31),
        }
    }
}

impl From<PicoRV32StoredRegisters> for PicoRV32AllStoredRegisters {
    /// Copies every saved register out of `regs`.  Under the compact layout
    /// `ra` and `sp` come from the scratch-register contents that `regs`
    /// holds, so that the copy no longer depends on them.
    fn from(regs: PicoRV32StoredRegisters) -> (all: Self)
        ensures
            all@ == regs@,
    {
        proof {
            regs.lemma_len();
        }
        PicoRV32AllStoredRegisters {
            x3: regs.x3(),
            x1: regs.x1(),
            x2: regs.x2(),
            x5: regs.x5(),
            x6: regs.x6(),
            x7: regs.x7(),
            x10: regs.x10(),
            x11: regs.x11(),
            x12: regs.x12(),
            x13: regs.x13(),
            x14: regs.x14(),
            x15: regs.x15(),
            x16: regs.x16(),
            x17: regs.x17(),
            x28: regs.x28(),
            x29: regs.x29(),
            x30: regs.x30(),
            x31: regs.x31(),
        }
    }
}

} // verus!
