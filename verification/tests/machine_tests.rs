use chip8_core::Machine;
use chip8_core::VmError;

fn load(rom: Vec<u8>) -> Machine {
    Machine::load_rom(&rom).expect("ROM should load")
}

#[test]
fn two_register_sets_advance_pc_by_four() {
    // 6A02: set register A to 2; 600C: set register 0 to 12.
    let mut m = load(vec![0x6A, 0x02, 0x60, 0x0C]);
    assert!(m.step().is_ok());
    assert!(m.step().is_ok());
    assert_eq!(m.register(0xA), 2);
    assert_eq!(m.register(0x0), 12);
    assert_eq!(m.pc(), 0x204);
    assert_eq!(m.halted(), None);
}

#[test]
fn fresh_machine_layout() {
    let m = load(vec![0x12, 0x00]);
    assert_eq!(m.pc(), 0x200);
    for x in 0..16 {
        assert_eq!(m.register(x), 0);
    }
    assert_eq!(m.index(), 0);
    assert_eq!(m.delay_timer(), 0);
    assert_eq!(m.sound_timer(), 0);
    assert_eq!(m.stack_depth(), 0);
    // The font starts at 0x50: the glyph for 0 begins with 0xF0.
    assert_eq!(m.mem_byte(0x50), 0xF0);
    // The last font byte (glyph F) is 0x80.
    assert_eq!(m.mem_byte(0x9F), 0x80);
    // The ROM sits at 0x200; everything else is zero.
    assert_eq!(m.mem_byte(0x200), 0x12);
    assert_eq!(m.mem_byte(0x201), 0x00);
    assert_eq!(m.mem_byte(0x000), 0);
    assert_eq!(m.mem_byte(0x1FF), 0);
    assert_eq!(m.mem_byte(0xFFF), 0);
}

#[test]
fn rom_too_large_is_rejected() {
    let big = vec![0u8; 3585];
    assert_eq!(Machine::load_rom(&big).err(), Some(VmError::RomTooLarge));
    let just_fits = vec![0u8; 3584];
    assert!(Machine::load_rom(&just_fits).is_ok());
}

#[test]
fn exactly_sixteen_calls_succeed_then_overflow() {
    // Instruction at 0x200 + 2i is a call to 0x202 + 2i: a chain of calls.
    let mut rom: Vec<u8> = Vec::new();
    for i in 0..17u16 {
        let word = 0x2000 | (0x202 + 2 * i);
        rom.push((word >> 8) as u8);
        rom.push((word & 0xFF) as u8);
    }
    let mut m = load(rom);
    for i in 0..16 {
        assert!(m.step().is_ok(), "call {} should succeed", i);
        assert_eq!(m.stack_depth(), i + 1);
    }
    assert_eq!(m.step(), Err(VmError::StackOverflow));
    assert_eq!(m.halted(), Some(VmError::StackOverflow));
    assert_eq!(m.stack_depth(), 16);
    // The machine stays halted with the same error.
    assert_eq!(m.step(), Err(VmError::StackOverflow));
}

#[test]
fn return_with_empty_stack_underflows() {
    let mut m = load(vec![0x00, 0xEE]);
    assert_eq!(m.step(), Err(VmError::StackUnderflow));
    assert_eq!(m.halted(), Some(VmError::StackUnderflow));
}

#[test]
fn call_and_return_round_trip() {
    // 2204: call 0x204; at 0x204: 00EE returns to 0x202.
    let mut m = load(vec![0x22, 0x04, 0x00, 0x00, 0x00, 0xEE]);
    assert!(m.step().is_ok());
    assert_eq!(m.pc(), 0x204);
    assert_eq!(m.stack_depth(), 1);
    assert!(m.step().is_ok());
    assert_eq!(m.pc(), 0x202);
    assert_eq!(m.stack_depth(), 0);
}

#[test]
fn unknown_opcode_halts_and_carries_the_word() {
    let mut m = load(vec![0xFF, 0xFF]);
    assert_eq!(m.step(), Err(VmError::UnknownOpcode(0xFFFF)));
    assert_eq!(m.halted(), Some(VmError::UnknownOpcode(0xFFFF)));
    let pc = m.pc();
    // A halted machine does not advance.
    assert_eq!(m.step(), Err(VmError::UnknownOpcode(0xFFFF)));
    assert_eq!(m.pc(), pc);
}

#[test]
fn timers_tick_toward_zero_and_stop() {
    // 6A03: v[A] = 3; FA15: delay = v[A]; FA18: sound = v[A].
    let mut m = load(vec![0x6A, 0x03, 0xFA, 0x15, 0xFA, 0x18]);
    for _ in 0..3 {
        assert!(m.step().is_ok());
    }
    assert_eq!(m.delay_timer(), 3);
    assert_eq!(m.sound_timer(), 3);
    m.tick_timers();
    assert_eq!(m.delay_timer(), 2);
    assert_eq!(m.sound_timer(), 2);
    m.tick_timers();
    m.tick_timers();
    assert_eq!(m.delay_timer(), 0);
    assert_eq!(m.sound_timer(), 0);
    // A timer at zero stays at zero.
    m.tick_timers();
    assert_eq!(m.delay_timer(), 0);
    assert_eq!(m.sound_timer(), 0);
}

#[test]
fn read_delay_into_register() {
    // 6A05: v[A] = 5; FA15: delay = 5; F107: v[1] = delay.
    let mut m = load(vec![0x6A, 0x05, 0xFA, 0x15, 0xF1, 0x07]);
    for _ in 0..3 {
        assert!(m.step().is_ok());
    }
    assert_eq!(m.register(1), 5);
}

#[test]
fn arithmetic_flags() {
    // 60FF: v0 = 255; 6101: v1 = 1; 8014: v0 += v1 -> 0 carry 1.
    let mut m = load(vec![0x60, 0xFF, 0x61, 0x01, 0x80, 0x14]);
    for _ in 0..3 {
        assert!(m.step().is_ok());
    }
    assert_eq!(m.register(0), 0);
    assert_eq!(m.register(0xF), 1);

    // 6005: v0 = 5; 6107: v1 = 7; 8015: v0 -= v1 -> 254, borrow (flag 0).
    let mut m = load(vec![0x60, 0x05, 0x61, 0x07, 0x80, 0x15]);
    for _ in 0..3 {
        assert!(m.step().is_ok());
    }
    assert_eq!(m.register(0), 254);
    assert_eq!(m.register(0xF), 0);

    // 6007: v0 = 7; 6105: v1 = 5; 8017: v0 = v1 - v0 -> 254, flag 0.
    let mut m = load(vec![0x60, 0x07, 0x61, 0x05, 0x80, 0x17]);
    for _ in 0..3 {
        assert!(m.step().is_ok());
    }
    assert_eq!(m.register(0), 254);
    assert_eq!(m.register(0xF), 0);

    // 6005: v0 = 5 (0b101); 8006: v0 >>= 1 -> 2, flag = 1.
    let mut m = load(vec![0x60, 0x05, 0x80, 0x06]);
    for _ in 0..2 {
        assert!(m.step().is_ok());
    }
    assert_eq!(m.register(0), 2);
    assert_eq!(m.register(0xF), 1);

    // 60C1: v0 = 0xC1; 800E: v0 <<= 1 -> 0x82, flag = 1.
    let mut m = load(vec![0x60, 0xC1, 0x80, 0x0E]);
    for _ in 0..2 {
        assert!(m.step().is_ok());
    }
    assert_eq!(m.register(0), 0x82);
    assert_eq!(m.register(0xF), 1);
}

#[test]
fn wrapping_add_immediate_sets_no_flag() {
    // 60FE: v0 = 254; 7003: v0 += 3 wraps to 1, flag untouched.
    let mut m = load(vec![0x60, 0xFE, 0x70, 0x03]);
    for _ in 0..2 {
        assert!(m.step().is_ok());
    }
    assert_eq!(m.register(0), 1);
    assert_eq!(m.register(0xF), 0);
}

#[test]
fn skips_take_both_branches() {
    // 6005: v0 = 5; 3005 skips the next instruction; 6101 is skipped;
    // 6202 executes.
    let mut m = load(vec![0x60, 0x05, 0x30, 0x05, 0x61, 0x01, 0x62, 0x02]);
    for _ in 0..3 {
        assert!(m.step().is_ok());
    }
    assert_eq!(m.register(1), 0);
    assert_eq!(m.register(2), 2);

    // 6005: v0 = 5; 3006 does not skip; 6101 executes.
    let mut m = load(vec![0x60, 0x05, 0x30, 0x06, 0x61, 0x01]);
    for _ in 0..3 {
        assert!(m.step().is_ok());
    }
    assert_eq!(m.register(1), 1);
}

#[test]
fn jump_and_jump_with_offset() {
    // 1208: jump to 0x208; there 6107: v1 = 7.
    let mut m = load(vec![
        0x12, 0x08, 0x00, 0x00, 0x00, 0x00, 0x00, 0x00, 0x61, 0x07,
    ]);
    assert!(m.step().is_ok());
    assert_eq!(m.pc(), 0x208);
    assert!(m.step().is_ok());
    assert_eq!(m.register(1), 7);

    // 6004: v0 = 4; B204: jump to 0x204 + 4 = 0x208; there 6209: v2 = 9.
    let mut m = load(vec![
        0x60, 0x04, 0xB2, 0x04, 0x00, 0x00, 0x00, 0x00, 0x62, 0x09,
    ]);
    assert!(m.step().is_ok());
    assert!(m.step().is_ok());
    assert_eq!(m.pc(), 0x208);
    assert!(m.step().is_ok());
    assert_eq!(m.register(2), 9);
}

#[test]
fn random_byte_is_masked() {
    // C000: v0 = random & 0x00, so v0 must be zero.
    let mut m = load(vec![0xC0, 0x00]);
    assert!(m.step().is_ok());
    assert_eq!(m.register(0), 0);

    // C10F: v1 = random & 0x0F, so the high nibble must be clear.
    let mut m = load(vec![0xC1, 0x0F]);
    assert!(m.step().is_ok());
    assert!(m.register(1) < 16);
}

#[test]
fn masked_random_uses_the_supplied_byte() {
    // C1F0: v1 = byte & 0xF0; with byte 0xA5 that is 0xA0.
    let mut m = load(vec![0xC1, 0xF0]);
    assert!(m.step_with_random(0xA5).is_ok());
    assert_eq!(m.register(1), 0xA0);
}

#[test]
fn register_copies_and_logic_ops() {
    // 60C3: v0 = 0xC3; 6155: v1 = 0x55; 8201: v2 = v0 (via copy then or).
    let mut m = load(vec![0x60, 0xC3, 0x61, 0x55, 0x82, 0x00, 0x82, 0x11]);
    for _ in 0..4 {
        assert!(m.step().is_ok());
    }
    // v2 = (v0) | v1 = 0xC3 | 0x55 = 0xD7.
    assert_eq!(m.register(2), 0xD7);

    let mut m = load(vec![0x60, 0xC3, 0x61, 0x55, 0x82, 0x00, 0x82, 0x12]);
    for _ in 0..4 {
        assert!(m.step().is_ok());
    }
    // v2 = 0xC3 & 0x55 = 0x41.
    assert_eq!(m.register(2), 0x41);

    let mut m = load(vec![0x60, 0xC3, 0x61, 0x55, 0x82, 0x00, 0x82, 0x13]);
    for _ in 0..4 {
        assert!(m.step().is_ok());
    }
    // v2 = 0xC3 ^ 0x55 = 0x96.
    assert_eq!(m.register(2), 0x96);
}

#[test]
fn register_compare_skips() {
    // 6007, 6107: equal registers; 5010 skips; 6201 skipped; 6302 runs.
    let mut m = load(vec![0x60, 0x07, 0x61, 0x07, 0x50, 0x10, 0x62, 0x01, 0x63, 0x02]);
    for _ in 0..4 {
        assert!(m.step().is_ok());
    }
    assert_eq!(m.register(2), 0);
    assert_eq!(m.register(3), 2);

    // 6007, 6108: unequal registers; 9010 skips.
    let mut m = load(vec![0x60, 0x07, 0x61, 0x08, 0x90, 0x10, 0x62, 0x01, 0x63, 0x02]);
    for _ in 0..4 {
        assert!(m.step().is_ok());
    }
    assert_eq!(m.register(2), 0);
    assert_eq!(m.register(3), 2);
}

#[test]
fn draw_sets_cells_and_collision_flag() {
    // 6000, 6100: draw at (0, 0); A20A: i = 0x20A (the 0xFF data byte);
    // D011 twice: draw one row, then redraw it.
    let mut m = load(vec![
        0x60, 0x00, 0x61, 0x00, 0xA2, 0x0A, 0xD0, 0x11, 0xD0, 0x11, 0xFF,
    ]);
    for _ in 0..4 {
        assert!(m.step().is_ok());
    }
    for x in 0..8 {
        assert!(m.display().get(x, 0));
    }
    assert_eq!(m.register(0xF), 0);
    assert!(m.step().is_ok());
    for x in 0..8 {
        assert!(!m.display().get(x, 0));
    }
    assert_eq!(m.register(0xF), 1);
}

#[test]
fn clear_screen_blanks_the_display() {
    // Draw a row, then 00E0.
    let mut m = load(vec![
        0x60, 0x00, 0x61, 0x00, 0xA2, 0x0A, 0xD0, 0x11, 0x00, 0xE0, 0xFF,
    ]);
    for _ in 0..5 {
        assert!(m.step().is_ok());
    }
    for y in 0..32 {
        for x in 0..64 {
            assert!(!m.display().get(x, y));
        }
    }
}

#[test]
fn draw_past_memory_end_is_out_of_bounds() {
    // AFFF: i = 0xFFF; D012: a two-row sprite would read past 0x1000.
    let mut m = load(vec![0xAF, 0xFF, 0xD0, 0x12]);
    assert!(m.step().is_ok());
    assert_eq!(m.step(), Err(VmError::OutOfBoundsMemoryAccess));
    assert_eq!(m.halted(), Some(VmError::OutOfBoundsMemoryAccess));
}

#[test]
fn fetch_past_memory_end_is_out_of_bounds() {
    // 1FFF: jump to 0xFFF, where no whole word fits.
    let mut m = load(vec![0x1F, 0xFF]);
    assert!(m.step().is_ok());
    assert_eq!(m.step(), Err(VmError::OutOfBoundsMemoryAccess));
}

#[test]
fn store_to_reserved_region_is_out_of_bounds() {
    // A100: i = 0x100 lies in the reserved region; F055 must fail.
    let mut m = load(vec![0xA1, 0x00, 0xF0, 0x55]);
    assert!(m.step().is_ok());
    assert_eq!(m.step(), Err(VmError::OutOfBoundsMemoryAccess));
}

#[test]
fn bcd_of_123() {
    // 6A7B: v[A] = 123; A300: i = 0x300; FA33: store digits 1, 2, 3.
    let mut m = load(vec![0x6A, 0x7B, 0xA3, 0x00, 0xFA, 0x33]);
    for _ in 0..3 {
        assert!(m.step().is_ok());
    }
    assert_eq!(m.mem_byte(0x300), 1);
    assert_eq!(m.mem_byte(0x301), 2);
    assert_eq!(m.mem_byte(0x302), 3);
}

#[test]
fn store_and_load_registers_round_trip() {
    // 6001, 6102: v0 = 1, v1 = 2; A300: i = 0x300; F155: store v0..v1;
    // 6000, 6100: wipe them; F165: load v0..v1 back.
    let mut m = load(vec![
        0x60, 0x01, 0x61, 0x02, 0xA3, 0x00, 0xF1, 0x55, 0x60, 0x00, 0x61, 0x00, 0xF1, 0x65,
    ]);
    for _ in 0..7 {
        assert!(m.step().is_ok());
    }
    assert_eq!(m.register(0), 1);
    assert_eq!(m.register(1), 2);
    assert_eq!(m.mem_byte(0x300), 1);
    assert_eq!(m.mem_byte(0x301), 2);
}

#[test]
fn add_index_stays_in_twelve_bits() {
    // 60FF: v0 = 255; AFFF: i = 0xFFF; F01E: i = (0xFFF + 255) & 0xFFF.
    let mut m = load(vec![0x60, 0xFF, 0xAF, 0xFF, 0xF0, 0x1E]);
    for _ in 0..3 {
        assert!(m.step().is_ok());
    }
    assert_eq!(m.index(), (0xFFF + 255) & 0xFFF);
}

#[test]
fn font_char_points_at_glyph() {
    // 6A0B: v[A] = 0xB; FA29: i = 0x50 + 0xB * 5.
    let mut m = load(vec![0x6A, 0x0B, 0xFA, 0x29]);
    for _ in 0..2 {
        assert!(m.step().is_ok());
    }
    assert_eq!(m.index(), 0x50 + 0xB * 5);
    // The glyph for B starts with 0xE0.
    assert_eq!(m.mem_byte(m.index() as usize), 0xE0);
}

#[test]
fn key_skip_honours_the_latch() {
    // 6A05: v[A] = 5; EA9E skips when key 5 is pressed; 6101 skipped;
    // 6202 executes.
    let mut m = load(vec![0x6A, 0x05, 0xEA, 0x9E, 0x61, 0x01, 0x62, 0x02]);
    m.set_key(5, true);
    for _ in 0..3 {
        assert!(m.step().is_ok());
    }
    assert_eq!(m.register(1), 0);
    assert_eq!(m.register(2), 2);

    // Released key: EA9E does not skip, EAA1 does.
    let mut m = load(vec![0x6A, 0x05, 0xEA, 0xA1, 0x61, 0x01, 0x62, 0x02]);
    for _ in 0..3 {
        assert!(m.step().is_ok());
    }
    assert_eq!(m.register(1), 0);
    assert_eq!(m.register(2), 2);
}

#[test]
fn wait_key_spins_until_a_key_arrives() {
    // F50A: wait for a key into v5.
    let mut m = load(vec![0xF5, 0x0A]);
    assert!(m.step().is_ok());
    assert_eq!(m.pc(), 0x200);
    assert!(m.step().is_ok());
    assert_eq!(m.pc(), 0x200);
    m.set_key(0xC, true);
    m.set_key(0x3, true);
    assert!(m.step().is_ok());
    // The smallest pressed key is reported.
    assert_eq!(m.register(5), 3);
    assert_eq!(m.pc(), 0x202);
}
