use picorv32_rt::dispatch::HandlerTable;
use picorv32_rt::registers::{FrameLayout, PicoRV32StoredRegisters};
use picorv32_rt::config::TrapVariant;
use picorv32_rt::cpu::Cpu;
use picorv32_rt::trap::{
    frame_bytes, start_trap, start_trap_rust, trap_enter, trap_exit, TrapEntry, TrapOutcome,
    COMPACT_FRAME_BYTES, FULL_FRAME_BYTES,
};
use std::cell::RefCell;

type Handler<'a> = Box<dyn Fn(&PicoRV32StoredRegisters) + 'a>;

const SAVED: [usize; 18] = [1, 2, 3, 5, 6, 7, 10, 11, 12, 13, 14, 15, 16, 17, 28, 29, 30, 31];

fn cpu_with(seed: u32) -> Cpu {
    let mut x = [0u32; 32];
    for (n, r) in x.iter_mut().enumerate() {
        *r = seed.wrapping_mul(2654435761).rotate_left(n as u32) ^ (0x0101_0101 * n as u32);
    }
    let q = [seed ^ 0x1111, seed.rotate_left(7), seed ^ 0x2222, seed ^ 0x3333];
    Cpu { x, q }
}

fn dispatched(entry: TrapEntry) -> (PicoRV32StoredRegisters, u32) {
    match entry {
        TrapEntry::Dispatch { regs, irqs } => (regs, irqs),
        TrapEntry::Restart => panic!("the trap asked for a restart"),
    }
}

fn clobber_caller_saved(cpu: &mut Cpu) {
    for n in [1usize, 5, 6, 7, 10, 11, 12, 13, 14, 15, 16, 17, 28, 29, 30, 31] {
        cpu.x[n] = !cpu.x[n] ^ 0x5a5a_0000;
    }
}

#[test]
fn frame_sizes_in_bytes() {
    assert_eq!(FULL_FRAME_BYTES, 72);
    assert_eq!(COMPACT_FRAME_BYTES, 64);
    assert_eq!(frame_bytes(FrameLayout::Full), 72);
    assert_eq!(frame_bytes(FrameLayout::Compact), 64);
}

#[test]
fn variant_follows_the_build_switches() {
    assert_eq!(TrapVariant::select(false, false), Some(TrapVariant::Bare));
    assert_eq!(TrapVariant::select(true, false), Some(TrapVariant::Full));
    assert_eq!(TrapVariant::select(true, true), Some(TrapVariant::Compact));
}

#[test]
fn compact_layout_without_interrupts_is_no_variant() {
    assert_eq!(TrapVariant::select(false, true), None);
}

#[test]
fn variant_layouts() {
    assert_eq!(TrapVariant::Bare.layout(), None);
    assert_eq!(TrapVariant::Full.layout(), Some(FrameLayout::Full));
    assert_eq!(TrapVariant::Compact.layout(), Some(FrameLayout::Compact));
}

#[test]
fn only_the_bare_variant_has_no_interrupts() {
    assert!(!TrapVariant::Bare.interrupts_configured());
    assert!(TrapVariant::Full.interrupts_configured());
    assert!(TrapVariant::Compact.interrupts_configured());
}

#[test]
fn bare_trap_restarts_and_saves_nothing() {
    let mut cpu = cpu_with(7);
    let before = cpu;
    assert!(matches!(trap_enter(&mut cpu, TrapVariant::Bare), TrapEntry::Restart));
    assert_eq!(cpu.x, before.x);
    assert_eq!(cpu.q, before.q);
}

#[test]
fn full_entry_saves_registers_in_frame_order() {
    let mut cpu = cpu_with(11);
    cpu.x[2] = 0x0000_3800;
    cpu.x[4] = 0b10_1001;
    let before = cpu;
    let (regs, irqs) = dispatched(trap_enter(&mut cpu, TrapVariant::Full));
    assert_eq!(irqs, 0b10_1001);
    assert_eq!(regs.frame_layout(), FrameLayout::Full);
    let words = regs.stack_words();
    assert_eq!(words.len(), 18);
    assert_eq!(words[0], before.x[3]);
    assert_eq!(words[1], before.x[1]);
    assert_eq!(words[2], 0x0000_3800 - 72);
    let rest: [usize; 15] = [5, 6, 7, 10, 11, 12, 13, 14, 15, 16, 17, 28, 29, 30, 31];
    for (i, n) in rest.iter().enumerate() {
        assert_eq!(words[3 + i], before.x[*n]);
    }
    assert_eq!(regs.x1(), before.x[1]);
    assert_eq!(regs.x2(), 0x0000_3800 - 72);
    assert_eq!(regs.x10(), before.x[10]);
    assert_eq!(regs.x11(), before.x[11]);
}

#[test]
fn full_entry_prepares_the_dispatcher_call() {
    let mut cpu = cpu_with(13);
    cpu.x[2] = 0x0000_3800;
    cpu.x[4] = 0x0000_0021;
    let before = cpu;
    trap_enter(&mut cpu, TrapVariant::Full);
    assert_eq!(cpu.x[2], 0x0000_37b8);
    assert_eq!(cpu.x[10], 0x0000_37b8);
    assert_eq!(cpu.x[11], 0x0000_0021);
    for n in 0..32 {
        if n != 2 && n != 10 && n != 11 {
            assert_eq!(cpu.x[n], before.x[n]);
        }
    }
    assert_eq!(cpu.q, before.q);
}

#[test]
fn compact_entry_keeps_ra_and_sp_in_scratch_registers() {
    let mut cpu = cpu_with(17);
    cpu.x[2] = 0x0000_3800;
    cpu.q[1] = 0x0000_0009;
    cpu.x[4] = 0xffff_ffff;
    let before = cpu;
    let (regs, irqs) = dispatched(trap_enter(&mut cpu, TrapVariant::Compact));
    assert_eq!(irqs, 0x0000_0009);
    assert_eq!(regs.frame_layout(), FrameLayout::Compact);
    assert_eq!(cpu.q[0], before.q[0]);
    assert_eq!(cpu.q[1], before.q[1]);
    assert_eq!(cpu.q[2], before.x[1]);
    assert_eq!(cpu.q[3], 0x0000_3800 - 64);
    assert_eq!(cpu.x[2], 0x0000_37c0);
    assert_eq!(cpu.x[10], 0x0000_37c0);
    assert_eq!(cpu.x[11], 0x0000_0009);
    for n in 0..32 {
        if n != 2 && n != 10 && n != 11 {
            assert_eq!(cpu.x[n], before.x[n]);
        }
    }
    let words = regs.stack_words();
    assert_eq!(words.len(), 16);
    assert_eq!(words[0], before.x[3]);
    let rest: [usize; 15] = [5, 6, 7, 10, 11, 12, 13, 14, 15, 16, 17, 28, 29, 30, 31];
    for (i, n) in rest.iter().enumerate() {
        assert_eq!(words[1 + i], before.x[*n]);
    }
    assert_eq!(regs.x1(), before.x[1]);
    assert_eq!(regs.x2(), 0x0000_37c0);
}

#[test]
fn frame_pointer_wraps_below_zero() {
    let mut cpu = cpu_with(19);
    cpu.x[2] = 8;
    let (regs, _) = dispatched(trap_enter(&mut cpu, TrapVariant::Full));
    assert_eq!(cpu.x[2], 0xffff_ffc0);
    assert_eq!(regs.x2(), 0xffff_ffc0);
    trap_exit(&mut cpu, &regs);
    assert_eq!(cpu.x[2], 8);
    let mut cpu = cpu_with(19);
    cpu.x[2] = 0;
    let (regs, _) = dispatched(trap_enter(&mut cpu, TrapVariant::Compact));
    assert_eq!(cpu.x[2], 0xffff_ffc0);
    trap_exit(&mut cpu, &regs);
    assert_eq!(cpu.x[2], 0);
}

#[test]
fn round_trip_restores_every_register_under_full_layout() {
    for seed in [0u32, 1, 0xffff_ffff, 0x8000_0000, 0x1234_5678, 0xdead_beef] {
        let mut cpu = cpu_with(seed);
        let before = cpu;
        let (regs, _) = dispatched(trap_enter(&mut cpu, TrapVariant::Full));
        clobber_caller_saved(&mut cpu);
        trap_exit(&mut cpu, &regs);
        assert_eq!(cpu.x, before.x);
        assert_eq!(cpu.q, before.q);
    }
}

#[test]
fn round_trip_restores_every_register_under_compact_layout() {
    for seed in [0u32, 1, 0xffff_ffff, 0x8000_0000, 0x1234_5678, 0xdead_beef] {
        let mut cpu = cpu_with(seed);
        let before = cpu;
        let (regs, _) = dispatched(trap_enter(&mut cpu, TrapVariant::Compact));
        clobber_caller_saved(&mut cpu);
        cpu.x[2] = cpu.x[2].wrapping_sub(128);
        trap_exit(&mut cpu, &regs);
        assert_eq!(cpu.x, before.x);
        assert_eq!(cpu.q[0], before.q[0]);
        assert_eq!(cpu.q[1], before.q[1]);
    }
}

#[test]
fn round_trip_with_extreme_register_values() {
    for variant in [TrapVariant::Full, TrapVariant::Compact] {
        for value in [0u32, 0xffff_ffff, 0x7fff_ffff, 0x8000_0000] {
            let mut cpu = Cpu { x: [value; 32], q: [value; 4] };
            let (regs, _) = dispatched(trap_enter(&mut cpu, variant));
            clobber_caller_saved(&mut cpu);
            trap_exit(&mut cpu, &regs);
            assert_eq!(cpu.x, [value; 32]);
        }
    }
}

#[test]
fn exit_leaves_unsaved_registers_as_they_are() {
    let mut cpu = cpu_with(23);
    let (regs, _) = dispatched(trap_enter(&mut cpu, TrapVariant::Full));
    for n in 0..32 {
        if !SAVED.contains(&n) {
            cpu.x[n] = 0xc0de_0000 + n as u32;
        }
    }
    trap_exit(&mut cpu, &regs);
    for n in 0..32 {
        if !SAVED.contains(&n) {
            assert_eq!(cpu.x[n], 0xc0de_0000 + n as u32);
        }
    }
}

#[test]
fn nested_trap_breaks_the_compact_round_trip() {
    let mut cpu = cpu_with(29);
    let before = cpu;
    let (outer, _) = dispatched(trap_enter(&mut cpu, TrapVariant::Compact));
    cpu.x[1] = 0x0bad_0bad;
    let (inner, _) = dispatched(trap_enter(&mut cpu, TrapVariant::Compact));
    trap_exit(&mut cpu, &inner);
    trap_exit(&mut cpu, &outer);
    assert_eq!(cpu.x[1], 0x0bad_0bad);
    assert_ne!(cpu.x[1], before.x[1]);
}

#[test]
fn exit_of_a_full_context_restores_from_the_frame() {
    let mut frame = [0u32; 18];
    for (i, w) in frame.iter_mut().enumerate() {
        *w = 0x100 + i as u32;
    }
    let regs = PicoRV32StoredRegisters::from_full_frame(frame);
    let mut cpu = Cpu { x: [0xeeee_eeee; 32], q: [1, 2, 3, 4] };
    trap_exit(&mut cpu, &regs);
    assert_eq!(cpu.x[3], 0x100);
    assert_eq!(cpu.x[1], 0x101);
    assert_eq!(cpu.x[2], 0x102 + 72);
    assert_eq!(cpu.x[5], 0x103);
    assert_eq!(cpu.x[17], 0x10d);
    assert_eq!(cpu.x[28], 0x10e);
    assert_eq!(cpu.x[31], 0x111);
    assert_eq!(cpu.x[0], 0xeeee_eeee);
    assert_eq!(cpu.x[4], 0xeeee_eeee);
    assert_eq!(cpu.x[8], 0xeeee_eeee);
    assert_eq!(cpu.x[27], 0xeeee_eeee);
    assert_eq!(cpu.q, [1, 2, 3, 4]);
}

#[test]
fn exit_of_a_compact_context_restores_ra_and_sp_from_live_scratch() {
    let mut stack = [0u32; 16];
    for (i, w) in stack.iter_mut().enumerate() {
        *w = 0x200 + i as u32;
    }
    let regs = PicoRV32StoredRegisters::from_compact_frame(stack, 0xaaaa, 0xbbbb);
    let mut cpu = Cpu { x: [0; 32], q: [1, 2, 0x3000, 0x4000] };
    trap_exit(&mut cpu, &regs);
    assert_eq!(cpu.x[1], 0x3000);
    assert_eq!(cpu.x[2], 0x4000 + 64);
    assert_eq!(cpu.x[3], 0x200);
    assert_eq!(cpu.x[5], 0x201);
    assert_eq!(cpu.x[31], 0x20f);
    assert_eq!(cpu.q, [1, 2, 0x3000, 0x4000]);
}

#[test]
fn start_trap_rust_dispatches_in_order() {
    let log = RefCell::new(Vec::new());
    let mut table: HandlerTable<Handler> = HandlerTable::new();
    assert!(table.bind(5, Box::new(|_| log.borrow_mut().push(5u8))));
    assert!(table.bind(0, Box::new(|_| log.borrow_mut().push(0u8))));
    let regs = PicoRV32StoredRegisters::from_full_frame([0; 18]);
    assert_eq!(start_trap_rust(&table, &regs, 0b10_1001), vec![0, 5]);
    assert_eq!(*log.borrow(), vec![0, 5]);
}

#[test]
fn whole_trap_services_and_restores_under_full_layout() {
    let log = RefCell::new(Vec::new());
    let mut table: HandlerTable<Handler> = HandlerTable::new();
    assert!(table.bind(0, Box::new(|r| log.borrow_mut().push((0u8, r.x1(), r.x2())))));
    assert!(table.bind(5, Box::new(|r| log.borrow_mut().push((5u8, r.x1(), r.x2())))));
    let mut cpu = cpu_with(31);
    cpu.x[2] = 0x0000_3000;
    cpu.x[4] = 0b10_1001;
    let before = cpu;
    match start_trap(&mut cpu, TrapVariant::Full, &table) {
        TrapOutcome::Resumed { serviced } => assert_eq!(serviced, vec![0, 5]),
        TrapOutcome::Restart => panic!("the trap asked for a restart"),
    }
    assert_eq!(cpu.x, before.x);
    assert_eq!(cpu.q, before.q);
    assert_eq!(
        *log.borrow(),
        vec![(0, before.x[1], 0x0000_3000 - 72), (5, before.x[1], 0x0000_3000 - 72)]
    );
}

#[test]
fn whole_trap_services_and_restores_under_compact_layout() {
    let log = RefCell::new(Vec::new());
    let mut table: HandlerTable<Handler> = HandlerTable::new();
    assert!(table.bind(3, Box::new(|r| log.borrow_mut().push((3u8, r.x1(), r.x2())))));
    let mut cpu = cpu_with(37);
    cpu.x[2] = 0x0000_3000;
    cpu.x[4] = 0;
    cpu.q[1] = 0b1000;
    let before = cpu;
    match start_trap(&mut cpu, TrapVariant::Compact, &table) {
        TrapOutcome::Resumed { serviced } => assert_eq!(serviced, vec![3]),
        TrapOutcome::Restart => panic!("the trap asked for a restart"),
    }
    assert_eq!(cpu.x, before.x);
    assert_eq!(cpu.q, [before.q[0], before.q[1], before.x[1], 0x0000_3000 - 64]);
    assert_eq!(*log.borrow(), vec![(3, before.x[1], 0x0000_3000 - 64)]);
}

#[test]
fn whole_trap_without_interrupt_support_restarts() {
    let log = RefCell::new(Vec::new());
    let mut table: HandlerTable<Handler> = HandlerTable::new();
    assert!(table.bind(0, Box::new(|_| log.borrow_mut().push(0u8))));
    let mut cpu = cpu_with(41);
    cpu.x[4] = 1;
    cpu.q[1] = 1;
    let before = cpu;
    assert!(matches!(start_trap(&mut cpu, TrapVariant::Bare, &table), TrapOutcome::Restart));
    assert_eq!(cpu.x, before.x);
    assert_eq!(cpu.q, before.q);
    assert!(log.borrow().is_empty());
}

#[test]
fn whole_trap_with_nothing_to_service() {
    let table: HandlerTable<Handler> = HandlerTable::new();
    let mut cpu = cpu_with(43);
    cpu.x[4] = 0xffff_ffff;
    let before = cpu;
    match start_trap(&mut cpu, TrapVariant::Full, &table) {
        TrapOutcome::Resumed { serviced } => assert!(serviced.is_empty()),
        TrapOutcome::Restart => panic!("the trap asked for a restart"),
    }
    assert_eq!(cpu.x, before.x);
}
