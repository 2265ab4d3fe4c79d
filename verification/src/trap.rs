//! The trap sequencer: what the core's trap vector does around the
//! interrupt dispatcher, as steps on a model of the register file.

use vstd::prelude::*;
use crate::config::TrapVariant;
use crate::cpu::Cpu;
use crate::dispatch::{trap_handler, HandlerTable};
use crate::registers::{
    frame_register, frame_slot, is_saved_register, lemma_frame_order, FrameLayout,
    PicoRV32StoredRegisters,
};

verus! {

/// Bytes that a trap reserves on the stack under the full layout.
pub const FULL_FRAME_BYTES: u32 = 72;

/// Bytes that a trap reserves on the stack under the compact layout.
pub const COMPACT_FRAME_BYTES: u32 = 64;

/// Bytes that a trap reserves on the stack in the given layout.
pub open spec fn frame_bytes_spec(layout: FrameLayout) -> u32 {
    match layout {
        FrameLayout::Full => 72u32,
        FrameLayout::Compact => 64u32,
    }
}

/// Bytes that a trap reserves on the stack in the given layout.
pub fn frame_bytes(layout: FrameLayout) -> (bytes: u32)
    ensures
        bytes == frame_bytes_spec(layout),
{
    match layout {
        FrameLayout::Full => FULL_FRAME_BYTES,
        FrameLayout::Compact => COMPACT_FRAME_BYTES,
    }
}

/// The stack pointer after a trap has reserved its frame below `sp`.  The
/// subtraction wraps, as the core's does.
pub open spec fn frame_pointer(sp: u32, layout: FrameLayout) -> u32 {
    sp.wrapping_sub(frame_bytes_spec(layout))
}

/// The eighteen values that a trap saves, in frame order, where `x` holds
/// the general registers at the time of the trap.  The value saved for `sp`
/// is the stack pointer after the frame has been reserved; every other
/// value is the register's own.
pub open spec fn saved_values(x: Seq<u32>, layout: FrameLayout) -> Seq<u32> {
    Seq::new(
        18,
        |slot: int|
            if slot == 2 {
                frame_pointer(x[2], layout)
            } else {
                x[frame_register(slot)]
            },
    )
}

/// Where the core leaves the bitmask of pending interrupts for the trap
/// vector: in `tp` (x4) under the full layout, in `q1` under the compact.
pub open spec fn pending_bitmask(cpu: Cpu, layout: FrameLayout) -> u32 {
    match layout {
        FrameLayout::Full => cpu.x@[4],
        FrameLayout::Compact => cpu.q@[1],
    }
}

/// What the trap vector does once it has been entered.
pub enum TrapEntry {
    /// No interrupt support is configured: the system restarts through the
    /// reset path, and nothing has been saved.
    Restart,
    /// The registers have been saved; the dispatcher is to be called with
    /// the saved context and the bitmask of pending interrupts.
    Dispatch { regs: PicoRV32StoredRegisters, irqs: u32 },
}

/// Trap entry: saves the registers and prepares the call of the dispatcher.
///
/// Where no interrupt support is configured nothing is saved and the
/// result asks for a restart.  Otherwise the frame is reserved by lowering
/// `sp`, the eighteen registers are saved in the variant's layout (under
/// the compact layout `ra` goes to `q2` and the lowered `sp` to `q3`), `a0`
/// is set to the address of the frame and `a1` to the bitmask of pending
/// interrupts.  No other register changes.
pub fn trap_enter(cpu: &mut Cpu, variant: TrapVariant) -> (entry: TrapEntry)
    ensures
        variant == TrapVariant::Bare ==> entry is Restart && *final(cpu) == *old(cpu),
        variant.layout_spec() matches Some(layout) ==> {
            let fp = frame_pointer(old(cpu).x@[2], layout);
            &&& entry matches TrapEntry::Dispatch { regs, irqs }
            &&& regs.layout() == layout
            &&& regs@ == saved_values(old(cpu).x@, layout)
            &&& irqs == pending_bitmask(*old(cpu), layout)
            &&& final(cpu).x@ == old(cpu).x@.update(2, fp).update(10, fp).update(11, irqs)
            &&& final(cpu).q@ == (match layout {
                FrameLayout::Full => old(cpu).q@,
                FrameLayout::Compact => old(cpu).q@.update(2, old(cpu).x@[1]).update(3, fp),
            })
        },
{
    let x: [u32; 32] = cpu.x;
    match variant {
        TrapVariant::Bare => TrapEntry::Restart,
        TrapVariant::Full => {
            let fp: u32 = x[2].wrapping_sub(FULL_FRAME_BYTES);
            let irqs: u32 = x[4];
            let frame: [u32; 18] = [
                x[3],
                x[1],
                fp,
                x[5],
                x[6],
                x[7],
                x[10],
                x[11],
                x[12],
                x[13],
                x[14],
                x[15],
                x[16],
                x[17],
                x[28],
                x[29],
                x[30],
                x[31],
            ];
            cpu.x[2] = fp;
            cpu.x[10] = fp;
            cpu.x[11] = irqs;
            let regs = PicoRV32StoredRegisters::from_full_frame(frame);
            assert(regs@ =~= saved_values(old(cpu).x@, FrameLayout::Full));
            TrapEntry::Dispatch { regs, irqs }
        },
        TrapVariant::Compact => {
            let fp: u32 = x[2].wrapping_sub(COMPACT_FRAME_BYTES);
            let irqs: u32 = cpu.q[1];
            let stack: [u32; 16] = [
                x[3],
                x[5],
                x[6],
                x[7],
                x[10],
                x[11],
                x[12],
                x[13],
                x[14],
                x[15],
                x[16],
                x[17],
                x[28],
                x[29],
                x[30],
                x[31],
            ];
            cpu.q[2] = x[1];
            cpu.q[3] = fp;
            cpu.x[2] = fp;
            cpu.x[10] = fp;
            cpu.x[11] = irqs;
            let regs = PicoRV32StoredRegisters::from_compact_frame(stack, x[1], fp);
            assert(regs@ =~= saved_values(old(cpu).x@, FrameLayout::Compact));
            TrapEntry::Dispatch { regs, irqs }
        },
    }
}

/// The general registers after a trap has returned, where `x` and `q` hold
/// the general and the scratch registers just before the exit and `regs`
/// is the context that the entry saved.
///
/// A register that a trap does not save keeps the value it has.  A saved
/// register gets its value from the stack words of `regs`, with two
/// exceptions: under the compact layout `ra` and `sp` come from the scratch
/// registers `q2` and `q3` as they are at the exit, and in either layout
/// the frame is released by raising the reloaded `sp` by the frame's size.
pub open spec fn restored_registers(x: Seq<u32>, q: Seq<u32>, regs: PicoRV32StoredRegisters) -> Seq<
    u32,
> {
    Seq::new(
        32,
        |n: int|
            if !is_saved_register(n) {
                x[n]
            } else if n == 1 {
                match regs.layout() {
                    FrameLayout::Full => regs.value(1),
                    FrameLayout::Compact => q[2],
                }
            } else if n == 2 {
                (match regs.layout() {
                    FrameLayout::Full => regs.value(2),
                    FrameLayout::Compact => q[3],
                }).wrapping_add(frame_bytes_spec(regs.layout()))
            } else {
                regs.value(n)
            },
    )
}

/// Trap exit: reloads the saved registers, releases the frame and leaves
/// the scratch registers as they are.
pub fn trap_exit(cpu: &mut Cpu, regs: &PicoRV32StoredRegisters)
    ensures
        final(cpu).x@ == restored_registers(old(cpu).x@, old(cpu).q@, *regs),
        final(cpu).q@ == old(cpu).q@,
{
    match regs.frame_layout() {
        FrameLayout::Full => {
            cpu.x[1] = regs.x1();
            cpu.x[2] = regs.x2().wrapping_add(FULL_FRAME_BYTES);
        },
        FrameLayout::Compact => {
            cpu.x[1] = cpu.q[2];
            cpu.x[2] = cpu.q[3].wrapping_add(COMPACT_FRAME_BYTES);
        },
    }
    cpu.x[3] = regs.x3();
    cpu.x[5] = regs.x5();
    cpu.x[6] = regs.x6();
    cpu.x[7] = regs.x7();
    cpu.x[10] = regs.x10();
    cpu.x[11] = regs.x11();
    cpu.x[12] = regs.x12();
    cpu.x[13] = regs.x13();
    cpu.x[14] = regs.x14();
    cpu.x[15] = regs.x15();
    cpu.x[16] = regs.x16();
    cpu.x[17] = regs.x17();
    cpu.x[28] = regs.x28();
    cpu.x[29] = regs.x29();
    cpu.x[30] = regs.x30();
    cpu.x[31] = regs.x31();
    assert(cpu.x@ =~= restored_registers(old(cpu).x@, old(cpu).q@, *regs));
}

/// A trap gives every register back: whatever the general registers held
/// when the trap was entered, and whatever the code between entry and exit
/// did to them, after the exit every saved register holds the value it had
/// at the entry, and every other register the value it had just before the
/// exit.
///
/// `x0` holds the general registers at the entry, `regs` is the context
/// that the entry saved in `layout`, and `x_mid` and `q_mid` hold the
/// general and the scratch registers just before the exit.  Under the
/// compact layout the law needs `q2` and `q3` to be at the exit what the
/// entry put there: a nested trap, which overwrites them, is not covered.
pub proof fn lemma_trap_round_trip(
    x0: Seq<u32>,
    layout: FrameLayout,
    regs: PicoRV32StoredRegisters,
    x_mid: Seq<u32>,
    q_mid: Seq<u32>,
)
    requires
        x0.len() == 32,
        x_mid.len() == 32,
        q_mid.len() == 4,
        regs.layout() == layout,
        regs@ == saved_values(x0, layout),
        layout == FrameLayout::Compact ==> q_mid[2] == x0[1] && q_mid[3] == frame_pointer(
            x0[2],
            layout,
        ),
    ensures
        forall|n: int|
            is_saved_register(n) ==> #[trigger] restored_registers(x_mid, q_mid, regs)[n] == x0[n],
        forall|n: int|
            0 <= n < 32 && !is_saved_register(n) ==> #[trigger] restored_registers(
                x_mid,
                q_mid,
                regs,
            )[n] == x_mid[n],
{
    lemma_frame_order();
    assert forall|n: int| is_saved_register(n) implies #[trigger] restored_registers(
        x_mid,
        q_mid,
        regs,
    )[n] == x0[n] by {
        assert(0 <= frame_slot(n) < 18);
        assert(regs.value(n) == saved_values(x0, layout)[frame_slot(n)]);
    }
}

/// Trap entry point on the Rust side: hands the saved context and the
/// bitmask of pending interrupts to the dispatcher.  The result lists the
/// interrupts whose handler was called, in the order of the calls.
pub fn start_trap_rust<H: Fn(&PicoRV32StoredRegisters)>(
    table: &HandlerTable<H>,
    regs: &PicoRV32StoredRegisters,
    irqs: u32,
) -> (serviced: Vec<u8>)
    requires
        forall|irq: int| table.is_bound(irq) ==> call_requires(table.handler(irq), (regs,)),
    ensures
        serviced@ == table.order(irqs),
        forall|k: int|
            0 <= k < serviced@.len() ==> call_ensures(
                table.handler(#[trigger] serviced@[k] as int),
                (regs,),
                (),
            ),
{
    trap_handler(table, regs, irqs)
}

/// How a trap ended.
pub enum TrapOutcome {
    /// No interrupt support is configured: the system restarts through the
    /// reset path.
    Restart,
    /// The interrupted code resumes.  `serviced` lists the interrupts whose
    /// handler was called, in the order of the calls.
    Resumed { serviced: Vec<u8> },
}

/// One whole trap: entry, dispatch and exit.
///
/// Where no interrupt support is configured the registers stay as they are
/// and the result asks for a restart.  Otherwise the handlers of the
/// pending interrupts are called in ascending order, each with the context
/// that the entry saved, and after the exit every general register holds what it held before the
/// trap: the frame has been released on the one path there is.  Of the
/// scratch registers, the compact layout has overwritten `q2` and `q3`.
pub fn start_trap<H: Fn(&PicoRV32StoredRegisters)>(
    cpu: &mut Cpu,
    variant: TrapVariant,
    table: &HandlerTable<H>,
) -> (outcome: TrapOutcome)
    requires
        forall|irq: int, regs: PicoRV32StoredRegisters|
            table.is_bound(irq) ==> #[trigger] call_requires(table.handler(irq), (&regs,)),
    ensures
        final(cpu).x@ == old(cpu).x@,
        variant == TrapVariant::Bare ==> outcome is Restart && final(cpu).q@ == old(cpu).q@,
        variant.layout_spec() matches Some(layout) ==> {
            &&& outcome matches TrapOutcome::Resumed { serviced }
            &&& serviced@ == table.order(pending_bitmask(*old(cpu), layout))
            &&& exists|regs: PicoRV32StoredRegisters|
                {
                    &&& #[trigger] regs.layout() == layout
                    &&& regs@ == saved_values(old(cpu).x@, layout)
                    &&& forall|k: int|
                        0 <= k < serviced@.len() ==> call_ensures(
                            table.handler(#[trigger] serviced@[k] as int),
                            (&regs,),
                            (),
                        )
                }
            &&& final(cpu).q@ == (match layout {
                FrameLayout::Full => old(cpu).q@,
                FrameLayout::Compact => old(cpu).q@.update(2, old(cpu).x@[1]).update(
                    3,
                    frame_pointer(old(cpu).x@[2], layout),
                ),
            })
        },
{
    match trap_enter(cpu, variant) {
        TrapEntry::Restart => TrapOutcome::Restart,
        TrapEntry::Dispatch { regs, irqs } => {
            let serviced: Vec<u8> = start_trap_rust(table, &regs, irqs);
            let ghost x_mid = cpu.x@;
            let ghost q_mid = cpu.q@;
            trap_exit(cpu, &regs);
            proof {
                lemma_trap_round_trip(old(cpu).x@, regs.layout(), regs, x_mid, q_mid);
                assert forall|n: int| 0 <= n < 32 implies cpu.x@[n] == old(cpu).x@[n] by {
                    if !is_saved_register(n) {
                        assert(restored_registers(x_mid, q_mid, regs)[n] == x_mid[n]);
                    } else {
                        assert(restored_registers(x_mid, q_mid, regs)[n] == old(cpu).x@[n]);
                    }
                }
                assert(cpu.x@ =~= old(cpu).x@);
            }
            TrapOutcome::Resumed { serviced }
        },
    }
}

} // verus!
