use chip_core::decode::ChipError;
use chip_core::Emulator;
use chip_core::SCREEN_HEIGHT;
use chip_core::SCREEN_WIDTH;

/// Loads a program and leaves the machine otherwise fresh.
fn boot(program: &[u8]) -> Emulator {
    let mut emu = Emulator::new();
    emu.load_game(program);
    emu
}

#[test]
fn load_then_step_sets_register() {
    // 6A07: VA = 7
    let mut emu = boot(&[0x6A, 0x07]);
    assert_eq!(emu.program_counter, 0x200);
    emu.tick().unwrap();
    assert_eq!(emu.registers[0xA], 7);
    assert_eq!(emu.program_counter, 0x202);
}

#[test]
fn add_imm_wraps_modulo_256() {
    // 63FA: V3 = 250; 730A: V3 += 10 -> 4 (wraps), VF untouched
    let mut emu = boot(&[0x63, 0xFA, 0x73, 0x0A]);
    emu.tick().unwrap();
    emu.tick().unwrap();
    assert_eq!(emu.registers[3], 4);
    assert_eq!(emu.registers[0xF], 0);
}

#[test]
fn add_imm_no_wrap() {
    let mut emu = boot(&[0x63, 0x14, 0x73, 0x0A]);
    emu.tick().unwrap();
    emu.tick().unwrap();
    assert_eq!(emu.registers[3], 30);
}

#[test]
fn add_reg_sets_carry() {
    // V0 = 200, V1 = 100, V0 += V1 -> 44 carry 1
    let mut emu = boot(&[0x60, 0xC8, 0x61, 0x64, 0x80, 0x14]);
    emu.tick().unwrap();
    emu.tick().unwrap();
    emu.tick().unwrap();
    assert_eq!(emu.registers[0], 44);
    assert_eq!(emu.registers[0xF], 1);
}

#[test]
fn add_reg_clears_carry() {
    // V0 = 20, V1 = 30, V0 += V1 -> 50 carry 0
    let mut emu = boot(&[0x60, 0x14, 0x61, 0x1E, 0x80, 0x14]);
    emu.tick().unwrap();
    emu.tick().unwrap();
    emu.tick().unwrap();
    assert_eq!(emu.registers[0], 50);
    assert_eq!(emu.registers[0xF], 0);
}

#[test]
fn sub_reg_borrow_clears_flag() {
    // V0 = 5, V1 = 10, V0 -= V1 -> 251, VF = 0 (borrow)
    let mut emu = boot(&[0x60, 0x05, 0x61, 0x0A, 0x80, 0x15]);
    emu.tick().unwrap();
    emu.tick().unwrap();
    emu.tick().unwrap();
    assert_eq!(emu.registers[0], 251);
    assert_eq!(emu.registers[0xF], 0);
}

#[test]
fn sub_reg_no_borrow_sets_flag() {
    // V0 = 10, V1 = 5, V0 -= V1 -> 5, VF = 1 (no borrow)
    let mut emu = boot(&[0x60, 0x0A, 0x61, 0x05, 0x80, 0x15]);
    emu.tick().unwrap();
    emu.tick().unwrap();
    emu.tick().unwrap();
    assert_eq!(emu.registers[0], 5);
    assert_eq!(emu.registers[0xF], 1);
}

#[test]
fn sub_from_reg() {
    // V0 = 3, V1 = 10, V0 = V1 - V0 -> 7, VF = 1 (no borrow)
    let mut emu = boot(&[0x60, 0x03, 0x61, 0x0A, 0x80, 0x17]);
    emu.tick().unwrap();
    emu.tick().unwrap();
    emu.tick().unwrap();
    assert_eq!(emu.registers[0], 7);
    assert_eq!(emu.registers[0xF], 1);
}

#[test]
fn clear_screen_blanks_display() {
    // draw the glyph for 0 at (0, 0), then 00E0
    let mut emu = boot(&[0xA0, 0x00, 0xD0, 0x05, 0x00, 0xE0]);
    emu.tick().unwrap();
    emu.tick().unwrap();
    assert!(emu.get_display().iter().any(|&p| p));
    emu.tick().unwrap();
    let display = emu.get_display();
    assert_eq!(display.len(), 2048);
    assert!(display.iter().all(|&p| !p));
}

#[test]
fn draw_twice_restores_display_and_reports_collision() {
    // I = 0 (glyph for 0), draw 5 rows at (3, 5) twice
    let mut emu = boot(&[0xA0, 0x00, 0xD0, 0x15, 0xD0, 0x15]);
    emu.registers[0] = 3;
    emu.registers[1] = 5;
    let before: Vec<bool> = emu.get_display().to_vec();
    emu.tick().unwrap();
    emu.tick().unwrap();
    assert_eq!(emu.registers[0xF], 0, "blank screen: first draw collides with nothing");
    emu.tick().unwrap();
    assert_eq!(emu.registers[0xF], 1, "second draw undoes pixels the first lit");
    let after: Vec<bool> = emu.get_display().to_vec();
    assert_eq!(before, after);
}

#[test]
fn draw_wraps_columns_modulo_64() {
    // one 0xFF sprite row drawn at x = 60, y = 5 wraps into columns 0..4
    let mut emu = Emulator::new();
    emu.ram[0x300] = 0xFF;
    emu.load_game(&[0xA3, 0x00, 0xDA, 0xB1]);
    emu.registers[0xA] = 60;
    emu.registers[0xB] = 5;
    emu.tick().unwrap();
    emu.tick().unwrap();
    let display = emu.get_display();
    for x in 0..SCREEN_WIDTH {
        let lit = display[x + SCREEN_WIDTH * 5];
        let expected = (60..64).contains(&x) || x < 4;
        assert_eq!(lit, expected, "column {}", x);
    }
    for y in 0..SCREEN_HEIGHT {
        if y != 5 {
            for x in 0..SCREEN_WIDTH {
                assert!(!display[x + SCREEN_WIDTH * y]);
            }
        }
    }
}

#[test]
fn draw_wraps_rows_modulo_32() {
    // two rows drawn at y = 31 land on rows 31 and 0
    let mut emu = Emulator::new();
    emu.ram[0x300] = 0x80;
    emu.ram[0x301] = 0x80;
    emu.load_game(&[0xA3, 0x00, 0xDA, 0xB2]);
    emu.registers[0xA] = 0;
    emu.registers[0xB] = 31;
    emu.tick().unwrap();
    emu.tick().unwrap();
    let display = emu.get_display();
    assert!(display[0 + SCREEN_WIDTH * 31]);
    assert!(display[0 + SCREEN_WIDTH * 0]);
    assert!(!display[0 + SCREEN_WIDTH * 1]);
}

#[test]
fn call_then_return_resumes_after_call() {
    // 2208: call 0x208; at 0x208: 00EE return
    let mut emu = Emulator::new();
    emu.load_game(&[0x22, 0x08]);
    emu.ram[0x208] = 0x00;
    emu.ram[0x209] = 0xEE;
    emu.tick().unwrap();
    assert_eq!(emu.program_counter, 0x208);
    assert_eq!(emu.stack_pointer, 1);
    emu.tick().unwrap();
    assert_eq!(emu.program_counter, 0x202);
    assert_eq!(emu.stack_pointer, 0);
}

#[test]
fn wait_key_stalls_until_pressed() {
    // F50A: wait for a key into V5
    let mut emu = boot(&[0xF5, 0x0A]);
    emu.tick().unwrap();
    assert_eq!(emu.program_counter, 0x200, "no key: same instruction re-fetched");
    emu.tick().unwrap();
    assert_eq!(emu.program_counter, 0x200);
    emu.key_pressed(7, true);
    emu.tick().unwrap();
    assert_eq!(emu.registers[5], 7);
    assert_eq!(emu.program_counter, 0x202);
}

#[test]
fn wait_key_lowest_index_wins() {
    let mut emu = boot(&[0xF5, 0x0A]);
    emu.key_pressed(9, true);
    emu.key_pressed(4, true);
    emu.tick().unwrap();
    assert_eq!(emu.registers[5], 4);
}

#[test]
fn timers_floor_at_zero() {
    // V0 = 3, delay = V0, sound = V0; five external ticks end at 0
    let mut emu = boot(&[0x60, 0x03, 0xF0, 0x15, 0xF0, 0x18]);
    emu.tick().unwrap();
    emu.tick().unwrap();
    emu.tick().unwrap();
    assert_eq!(emu.delay_timer, 3);
    assert_eq!(emu.sound_timer, 3);
    for _ in 0..5 {
        emu.tick_timers();
    }
    assert_eq!(emu.delay_timer, 0);
    assert_eq!(emu.sound_timer, 0);
}

#[test]
fn timers_stay_zero_when_zero() {
    let mut emu = Emulator::new();
    emu.tick_timers();
    assert_eq!(emu.delay_timer, 0);
    assert_eq!(emu.sound_timer, 0);
}

#[test]
fn read_delay_timer() {
    // delay = 9 via V0, then V4 = delay
    let mut emu = boot(&[0x60, 0x09, 0xF0, 0x15, 0xF4, 0x07]);
    emu.tick().unwrap();
    emu.tick().unwrap();
    emu.tick().unwrap();
    assert_eq!(emu.registers[4], 9);
}

#[test]
fn unknown_opcode_is_fatal_and_leaves_state() {
    // 5xy1 matches no pattern
    let mut emu = boot(&[0x51, 0x21]);
    let r = emu.tick();
    assert_eq!(r, Err(ChipError::UnknownOpcode(0x5121)));
    assert_eq!(emu.program_counter, 0x200);
}

#[test]
fn stack_underflow_is_fatal() {
    let mut emu = boot(&[0x00, 0xEE]);
    assert_eq!(emu.tick(), Err(ChipError::StackUnderflow));
    assert_eq!(emu.program_counter, 0x200);
}

#[test]
fn stack_overflow_is_fatal() {
    // 2200 at 0x200 calls itself: sixteen pushes fit, the next is fatal
    let mut emu = boot(&[0x22, 0x00]);
    for i in 0..16 {
        assert_eq!(emu.tick(), Ok(()), "call {}", i);
    }
    assert_eq!(emu.stack_pointer, 16);
    assert_eq!(emu.tick(), Err(ChipError::StackOverflow));
    assert_eq!(emu.stack_pointer, 16);
    assert_eq!(emu.program_counter, 0x200);
}

#[test]
fn draw_out_of_ram_is_fatal() {
    // I = 0xFFF, draw 2 rows reads past RAM
    let mut emu = boot(&[0xAF, 0xFF, 0xD0, 0x12]);
    emu.tick().unwrap();
    assert_eq!(emu.tick(), Err(ChipError::MemoryOutOfBounds));
}

#[test]
fn store_digits_out_of_ram_is_fatal() {
    let mut emu = boot(&[0xAF, 0xFF, 0xF0, 0x33]);
    emu.tick().unwrap();
    assert_eq!(emu.tick(), Err(ChipError::MemoryOutOfBounds));
}

#[test]
fn random_masked_to_zero_is_zero() {
    // C500: V5 = random & 0x00 == 0
    let mut emu = boot(&[0xC5, 0x00]);
    emu.registers[5] = 0xAA;
    emu.tick().unwrap();
    assert_eq!(emu.registers[5], 0);
}

#[test]
fn random_respects_mask() {
    // C50F: whatever was drawn, the high nibble is masked off
    let mut emu = boot(&[0xC5, 0x0F]);
    emu.tick().unwrap();
    assert!(emu.registers[5] <= 0x0F);
}

#[test]
fn reset_restores_construction_state() {
    let mut emu = boot(&[0x6A, 0x07, 0xA3, 0x00]);
    emu.tick().unwrap();
    emu.tick().unwrap();
    emu.key_pressed(3, true);
    emu.reset();
    let fresh = Emulator::new();
    assert_eq!(emu.program_counter, fresh.program_counter);
    assert_eq!(emu.registers, fresh.registers);
    assert_eq!(emu.ram, fresh.ram);
    assert_eq!(emu.i_register, 0);
    assert_eq!(emu.pressed_keys, fresh.pressed_keys);
    assert_eq!(emu.get_display(), fresh.get_display());
}

#[test]
fn font_region_holds_glyphs() {
    let emu = Emulator::new();
    assert_eq!(&emu.ram[0..5], &[0xF0, 0x90, 0x90, 0x90, 0xF0]);
    assert_eq!(&emu.ram[75..80], &[0xF0, 0x80, 0xF0, 0x80, 0x80]);
    assert!(emu.ram[80..].iter().all(|&b| b == 0));
}

#[test]
fn load_does_not_clear_memory() {
    let mut emu = Emulator::new();
    emu.load_game(&[0x11, 0x22, 0x33]);
    emu.load_game(&[0xAA]);
    assert_eq!(emu.ram[0x200], 0xAA);
    assert_eq!(emu.ram[0x201], 0x22);
    assert_eq!(emu.ram[0x202], 0x33);
    assert_eq!(&emu.ram[0..5], &[0xF0, 0x90, 0x90, 0x90, 0xF0]);
}

#[test]
fn key_index_out_of_range_is_ignored() {
    let mut emu = Emulator::new();
    emu.key_pressed(20, true);
    assert!(emu.pressed_keys.iter().all(|&k| !k));
    emu.key_pressed(15, true);
    assert!(emu.pressed_keys[15]);
    emu.key_pressed(15, false);
    assert!(!emu.pressed_keys[15]);
}

#[test]
fn skip_if_equal_immediate() {
    // V0 = 5; 3005 skips the next instruction
    let mut emu = boot(&[0x60, 0x05, 0x30, 0x05, 0x6A, 0xFF]);
    emu.tick().unwrap();
    emu.tick().unwrap();
    assert_eq!(emu.program_counter, 0x206);
    assert_eq!(emu.registers[0xA], 0);
}

#[test]
fn skip_if_not_equal_immediate() {
    let mut emu = boot(&[0x60, 0x05, 0x40, 0x06, 0x6A, 0xFF]);
    emu.tick().unwrap();
    emu.tick().unwrap();
    assert_eq!(emu.program_counter, 0x206);
}

#[test]
fn skip_on_register_compare() {
    // V0 = 5, V1 = 5: 5010 skips; then 9010 does not
    let mut emu = boot(&[0x60, 0x05, 0x61, 0x05, 0x50, 0x10]);
    emu.tick().unwrap();
    emu.tick().unwrap();
    emu.tick().unwrap();
    assert_eq!(emu.program_counter, 0x208);
    let mut emu2 = boot(&[0x60, 0x05, 0x61, 0x06, 0x90, 0x10]);
    emu2.tick().unwrap();
    emu2.tick().unwrap();
    emu2.tick().unwrap();
    assert_eq!(emu2.program_counter, 0x208);
}

#[test]
fn logic_ops() {
    // V0 = 0b1100, V1 = 0b1010: OR, AND, XOR in sequence with reloads
    let mut emu = boot(&[0x60, 0x0C, 0x61, 0x0A, 0x80, 0x11]);
    emu.tick().unwrap();
    emu.tick().unwrap();
    emu.tick().unwrap();
    assert_eq!(emu.registers[0], 0x0E);
    let mut emu2 = boot(&[0x60, 0x0C, 0x61, 0x0A, 0x80, 0x12]);
    emu2.tick().unwrap();
    emu2.tick().unwrap();
    emu2.tick().unwrap();
    assert_eq!(emu2.registers[0], 0x08);
    let mut emu3 = boot(&[0x60, 0x0C, 0x61, 0x0A, 0x80, 0x13]);
    emu3.tick().unwrap();
    emu3.tick().unwrap();
    emu3.tick().unwrap();
    assert_eq!(emu3.registers[0], 0x06);
}

#[test]
fn copy_register() {
    let mut emu = boot(&[0x61, 0x2A, 0x80, 0x10]);
    emu.tick().unwrap();
    emu.tick().unwrap();
    assert_eq!(emu.registers[0], 0x2A);
}

#[test]
fn shift_right_keeps_low_bit() {
    // V0 = 5: 8006 -> V0 = 2, VF = 1
    let mut emu = boot(&[0x60, 0x05, 0x80, 0x06]);
    emu.tick().unwrap();
    emu.tick().unwrap();
    assert_eq!(emu.registers[0], 2);
    assert_eq!(emu.registers[0xF], 1);
}

#[test]
fn shift_left_keeps_high_bit() {
    // V0 = 0x81: 800E -> V0 = 0x02, VF = 1
    let mut emu = boot(&[0x60, 0x81, 0x80, 0x0E]);
    emu.tick().unwrap();
    emu.tick().unwrap();
    assert_eq!(emu.registers[0], 0x02);
    assert_eq!(emu.registers[0xF], 1);
}

#[test]
fn jump_sets_program_counter() {
    let mut emu = boot(&[0x13, 0x45]);
    emu.tick().unwrap();
    assert_eq!(emu.program_counter, 0x345);
}

#[test]
fn jump_plus_v0() {
    // V0 = 4: B300 jumps to 0x304
    let mut emu = boot(&[0x60, 0x04, 0xB3, 0x00]);
    emu.tick().unwrap();
    emu.tick().unwrap();
    assert_eq!(emu.program_counter, 0x304);
}

#[test]
fn index_register_ops() {
    // A123: I = 0x123; V0 = 0x10; F01E: I += V0
    let mut emu = boot(&[0xA1, 0x23, 0x60, 0x10, 0xF0, 0x1E]);
    emu.tick().unwrap();
    assert_eq!(emu.i_register, 0x123);
    emu.tick().unwrap();
    emu.tick().unwrap();
    assert_eq!(emu.i_register, 0x133);
}

#[test]
fn font_index_is_five_times_digit() {
    // V0 = 4: F029 -> I = 20
    let mut emu = boot(&[0x60, 0x04, 0xF0, 0x29]);
    emu.tick().unwrap();
    emu.tick().unwrap();
    assert_eq!(emu.i_register, 20);
}

#[test]
fn store_binary_coded_decimal() {
    // V0 = 123, I = 0x300: F033 -> 1, 2, 3
    let mut emu = boot(&[0x60, 0x7B, 0xA3, 0x00, 0xF0, 0x33]);
    emu.tick().unwrap();
    emu.tick().unwrap();
    emu.tick().unwrap();
    assert_eq!(&emu.ram[0x300..0x303], &[1, 2, 3]);
}

#[test]
fn store_and_load_registers() {
    // store V0..V2 at I, clear them, load them back
    let mut emu = boot(&[
        0x60, 0x11, 0x61, 0x22, 0x62, 0x33, // V0..V2
        0xA3, 0x20, 0xF2, 0x55, // I = 0x320, store
        0x60, 0x00, 0x61, 0x00, 0x62, 0x00, // clear
        0xF2, 0x65, // load back
    ]);
    for _ in 0..9 {
        emu.tick().unwrap();
    }
    assert_eq!(&emu.ram[0x320..0x323], &[0x11, 0x22, 0x33]);
    assert_eq!(emu.registers[0], 0x11);
    assert_eq!(emu.registers[1], 0x22);
    assert_eq!(emu.registers[2], 0x33);
    assert_eq!(emu.ram[0x323], 0);
}

#[test]
fn skip_on_key_state() {
    // V0 = 7; E09E skips when key 7 pressed, EOA1 when not pressed
    let mut emu = boot(&[0x60, 0x07, 0xE0, 0x9E]);
    emu.tick().unwrap();
    emu.tick().unwrap();
    assert_eq!(emu.program_counter, 0x204, "not pressed: no skip");
    let mut emu2 = boot(&[0x60, 0x07, 0xE0, 0x9E]);
    emu2.key_pressed(7, true);
    emu2.tick().unwrap();
    emu2.tick().unwrap();
    assert_eq!(emu2.program_counter, 0x206, "pressed: skip");
    let mut emu3 = boot(&[0x60, 0x07, 0xE0, 0xA1]);
    emu3.tick().unwrap();
    emu3.tick().unwrap();
    assert_eq!(emu3.program_counter, 0x206, "not pressed: skip");
}

#[test]
fn nop_advances_only_program_counter() {
    let mut emu = boot(&[0x00, 0x00]);
    emu.tick().unwrap();
    assert_eq!(emu.program_counter, 0x202);
    assert!(emu.registers.iter().all(|&r| r == 0));
}

#[test]
fn sound_timer_set_and_counted_down() {
    let mut emu = boot(&[0x60, 0x02, 0xF0, 0x18]);
    emu.tick().unwrap();
    emu.tick().unwrap();
    assert_eq!(emu.sound_timer, 2);
    emu.tick_timers();
    assert_eq!(emu.sound_timer, 1);
    emu.tick_timers();
    assert_eq!(emu.sound_timer, 0);
}

#[test]
fn key_skip_masks_register_to_low_nibble() {
    // V0 = 0x17: the key index is masked to 7
    let mut emu = boot(&[0x60, 0x17, 0xE0, 0x9E]);
    emu.key_pressed(7, true);
    emu.tick().unwrap();
    emu.tick().unwrap();
    assert_eq!(emu.program_counter, 0x206, "key 7 pressed: skip");
}
