use krankulator_core::frame_counter::{FrameCounter, FrameStep};
use krankulator_core::savestate::{SavestateReader, SavestateWriter};


#[test]
fn test_frame_counter_new() {
    let fc = FrameCounter::new();
    assert_eq!(fc.mode, 0);
    assert_eq!(fc.step, 0);
    assert_eq!(fc.cycles, 10);
    assert!(!fc.irq_inhibit);
}

#[test]
fn test_frame_counter_write() {
    let mut fc = FrameCounter::new();

    fc.write(0x00, 0);
    assert_eq!(fc.mode, 0);
    assert!(!fc.irq_inhibit);
    assert_eq!(fc.reset_delay, 3);

    fc.write(0x40, 0);
    assert_eq!(fc.mode, 0);
    assert!(fc.irq_inhibit);

    fc.write(0xC0, 1);
    assert_eq!(fc.reset_delay, 4);
    assert!(fc.irq_inhibit);
}

#[test]
fn test_mode_0_quarter_frame_at_7457() {
    let mut fc = FrameCounter::new();
    fc.write(0x00, 0);
    // Consume the 3-cycle reset delay
    for _ in 0..3 {
        assert_eq!(fc.cycle(), FrameStep::NoEvent);
    }
    // 7456 cycles of nothing
    for _ in 0..7456 {
        assert_eq!(fc.cycle(), FrameStep::NoEvent);
    }
    // Cycle 7457: quarter frame
    assert_eq!(fc.cycle(), FrameStep::QuarterFrame);
}

#[test]
fn test_mode_0_half_frame_at_14913() {
    let mut fc = FrameCounter::new();
    fc.write(0x00, 0);
    for _ in 0..3 {
        fc.cycle();
    }
    for _ in 0..14912 {
        fc.cycle();
    }
    assert_eq!(fc.cycle(), FrameStep::HalfFrame);
}

#[test]
fn test_mode_0_irq_window() {
    let mut fc = FrameCounter::new();
    fc.write(0x00, 0);
    for _ in 0..3 {
        fc.cycle();
    }
    // Advance to just before the IRQ window
    for _ in 0..29827 {
        fc.cycle();
    }
    // Cycle 29828: first IRQ
    assert_eq!(fc.cycle(), FrameStep::Irq);
    // Cycle 29829: IRQ + half frame
    assert_eq!(fc.cycle(), FrameStep::IrqHalfFrame);
    // Cycle 29830: final IRQ, then reset
    assert_eq!(fc.cycle(), FrameStep::Irq);
    // Should now be back at start
    assert_eq!(fc.step, 0);
    assert_eq!(fc.cycles, 0);
}

#[test]
fn test_mode_0_irq_inhibited() {
    let mut fc = FrameCounter::new();
    fc.write(0x40, 0); // IRQ inhibit set
    for _ in 0..3 {
        fc.cycle();
    }
    for _ in 0..29827 {
        fc.cycle();
    }
    // IRQ events still fire (APU decides whether to act on them)
    assert_eq!(fc.cycle(), FrameStep::Irq);
    assert_eq!(fc.cycle(), FrameStep::IrqHalfFrame);
    assert_eq!(fc.cycle(), FrameStep::Irq);
}

#[test]
fn test_mode_0_full_cycle() {
    let mut fc = FrameCounter::new();
    fc.write(0x00, 0);
    for _ in 0..3 {
        fc.cycle();
    }
    // Full sequence: 29830 cycles
    let mut events = Vec::new();
    for _ in 0..29830 {
        let step = fc.cycle();
        if step != FrameStep::NoEvent {
            events.push(step);
        }
    }
    assert_eq!(events.len(), 6);
    assert_eq!(events[0], FrameStep::QuarterFrame); // 7457
    assert_eq!(events[1], FrameStep::HalfFrame); // 14913
    assert_eq!(events[2], FrameStep::QuarterFrame); // 22371
    assert_eq!(events[3], FrameStep::Irq); // 29828
    assert_eq!(events[4], FrameStep::IrqHalfFrame); // 29829
    assert_eq!(events[5], FrameStep::Irq); // 29830
}

#[test]
fn test_mode_1_immediate_clock() {
    let mut fc = FrameCounter::new();
    fc.write(0x80, 0);
    for _ in 0..2 {
        assert_eq!(fc.cycle(), FrameStep::NoEvent);
    }
    assert_eq!(
        fc.cycle(),
        FrameStep::Deferred4017Apply {
            immediate_clock: true
        }
    );
}

#[test]
fn test_mode_1_full_cycle() {
    let mut fc = FrameCounter::new();
    fc.write(0x80, 0);
    for _ in 0..3 {
        fc.cycle();
    }
    let mut events = Vec::new();
    for _ in 0..37282 {
        let step = fc.cycle();
        if step != FrameStep::NoEvent {
            events.push(step);
        }
    }
    assert_eq!(events.len(), 4);
    assert_eq!(events[0], FrameStep::QuarterFrame); // 7457
    assert_eq!(events[1], FrameStep::HalfFrame); // 14913
    assert_eq!(events[2], FrameStep::QuarterFrame); // 22371
    assert_eq!(events[3], FrameStep::HalfFrame); // 37281
    assert_eq!(fc.step, 0);
}

#[test]
fn test_mode_0_wraps_correctly() {
    let mut fc = FrameCounter::new();
    fc.write(0x00, 0);
    for _ in 0..3 {
        fc.cycle();
    }
    // Run through 2 full sequences
    for _ in 0..29830 * 2 {
        fc.cycle();
    }
    assert_eq!(fc.step, 0);
    assert_eq!(fc.cycles, 0);
}

#[test]
fn test_odd_cycle_write_delay() {
    let mut fc = FrameCounter::new();
    fc.write(0x00, 1); // Odd cycle → 4-cycle delay
    for _ in 0..3 {
        assert_eq!(fc.cycle(), FrameStep::NoEvent);
    }
    // 4th cycle: delay expires
    assert_eq!(fc.cycle(), FrameStep::NoEvent);
    // Now counting from 0
    assert_eq!(fc.mode, 0);
    assert_eq!(fc.step, 0);
}

#[test]
fn test_get_mode() {
    let mut fc = FrameCounter::new();
    assert_eq!(fc.get_mode(), 0);

    fc.write(0x80, 0);
    assert_eq!(fc.get_mode(), 0);
    for _ in 0..3 {
        fc.cycle();
    }
    assert_eq!(fc.get_mode(), 1);

    fc.write(0x00, 0);
    for _ in 0..3 {
        fc.cycle();
    }
    assert_eq!(fc.get_mode(), 0);
}


#[test]
fn frame_counter_savestate_roundtrip() {
    let mut fc = FrameCounter::new();
    fc.write(0x80, 1);
    for _ in 0..100 {
        fc.cycle();
    }
    let mut w = SavestateWriter::new();
    fc.save_state(&mut w);
    let data = w.finish();
    let mut r = SavestateReader::new(&data).unwrap();
    let mut fc2 = FrameCounter::new();
    fc2.load_state(&mut r).unwrap();
    assert_eq!(fc2, fc);
    assert_eq!(fc2.get_mode(), 1);
}

#[test]
fn frame_counter_restores_any_saved_mode() {
    let mut w = SavestateWriter::new();
    w.write_u8(2); // a mode the sequencer never enters
    w.write_u8(0);
    w.write_u32(0);
    w.write_bool(false);
    w.write_u8(0);
    w.write_u8(0);
    w.write_u8(0);
    let data = w.finish();
    let mut r = SavestateReader::new(&data).unwrap();
    let mut fc2 = FrameCounter::new();
    assert!(fc2.load_state(&mut r).is_ok());
    assert_eq!(fc2.get_mode(), 2);
    for _ in 0..40000 {
        assert_eq!(fc2.cycle(), FrameStep::NoEvent);
    }
}

#[test]
fn frame_counter_reset_with_value() {
    let mut fc = FrameCounter::new();
    fc.write(0x00, 0);
    fc.reset_with_value(0xC0);
    assert_eq!(fc.get_mode(), 1);
    assert!(fc.irq_inhibit());
    assert_eq!(fc.get_step(), 0);
    assert_eq!(fc.cycles, 10);
    assert_eq!(fc.reset_delay, 0);
}

#[test]
fn frame_counter_mode1_blocks_first_ticks() {
    let mut fc = FrameCounter::new();
    fc.write(0x80, 0);
    for _ in 0..3 {
        fc.cycle();
    }
    assert_eq!(fc.block_tick, 2);
    fc.cycle();
    assert_eq!(fc.block_tick, 1);
}

#[test]
fn frame_counter_cut_short_state_restores_fields_read_before_cut() {
    let mut w = SavestateWriter::new();
    w.write_u8(1);
    w.write_u8(3);
    w.write_u32(1234);
    let data = w.finish();
    let mut r = SavestateReader::new(&data).unwrap();
    let mut fc = FrameCounter::new();
    fc.write(0x40, 0);
    assert!(fc.load_state(&mut r).is_err());
    assert_eq!(fc.mode, 1);
    assert_eq!(fc.step, 3);
    assert_eq!(fc.cycles, 1234);
    assert!(fc.irq_inhibit);
    assert_eq!(fc.reset_delay, 3);
    assert_eq!(fc.pending_write, 0x40);
}

#[test]
fn frame_counter_pending_write_ignores_cycle_count() {
    let mut fc = FrameCounter::new();
    fc.cycles = u32::MAX;
    fc.write(0x00, 0);
    assert_eq!(fc.cycle(), FrameStep::NoEvent);
    assert_eq!(fc.cycle(), FrameStep::NoEvent);
    assert_eq!(fc.cycle(), FrameStep::NoEvent);
    assert_eq!(fc.cycles, 0);
    assert_eq!(fc.step, 0);
}

#[test]
fn frame_counter_inhibit_flag_never_changes_events() {
    let mut a = FrameCounter::new();
    let mut b = FrameCounter::new();
    a.reset_with_value(0x40);
    b.reset_with_value(0x00);
    a.write(0x40, 5);
    b.write(0x00, 5);
    for _ in 0..60000 {
        assert_eq!(a.cycle(), b.cycle());
    }
    assert!(a.irq_inhibit());
    assert!(!b.irq_inhibit());
}
