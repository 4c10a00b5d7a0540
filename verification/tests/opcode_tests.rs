use chip8::Chip8;

fn boot(rom: Vec<u8>) -> Chip8 {
    let mut vm = Chip8::new();
    vm.load(&rom).unwrap();
    vm
}

fn run(rom: Vec<u8>, steps: usize) -> Chip8 {
    let mut vm = boot(rom);
    for _ in 0..steps {
        vm.step().unwrap();
    }
    vm
}

#[test]
fn add_sets_carry_flag() {
    // 250 + 10 = 260: result 4 modulo 256, carry flag 1.
    let emu = run(
        vec![
            0x60, 0xFA, // V0 = 250
            0x61, 0x0A, // V1 = 10
            0x80, 0x14, // V0 = V0 + V1
        ],
        3,
    );
    assert_eq!(emu.get_register(0), 4);
    assert_eq!(emu.get_register(0xf), 1);
}

#[test]
fn add_without_carry_clears_flag() {
    // 10 + 5 = 15: no carry, flag 0.
    let emu = run(
        vec![
            0x60, 0x0A, // V0 = 10
            0x61, 0x05, // V1 = 5
            0x80, 0x14, // V0 = V0 + V1
        ],
        3,
    );
    assert_eq!(emu.get_register(0), 15);
    assert_eq!(emu.get_register(0xf), 0);
}

#[test]
fn subtract_with_borrow_clears_flag() {
    // 5 - 10 borrows: result 251 modulo 256, flag 0.
    let emu = run(
        vec![
            0x60, 0x05, // V0 = 5
            0x61, 0x0A, // V1 = 10
            0x80, 0x15, // V0 = V0 - V1
        ],
        3,
    );
    assert_eq!(emu.get_register(0), 251);
    assert_eq!(emu.get_register(0xf), 0);
}

#[test]
fn subtract_without_borrow_sets_flag() {
    // 10 - 5: no borrow, flag 1.
    let emu = run(
        vec![
            0x60, 0x0A, // V0 = 10
            0x61, 0x05, // V1 = 5
            0x80, 0x15, // V0 = V0 - V1
        ],
        3,
    );
    assert_eq!(emu.get_register(0), 5);
    assert_eq!(emu.get_register(0xf), 1);
}

#[test]
fn subtract_reversed_operands() {
    // 8XY7: V0 = V1 - V0; 10 - 5 leaves 5 with no borrow.
    let emu = run(
        vec![
            0x60, 0x05, // V0 = 5
            0x61, 0x0A, // V1 = 10
            0x80, 0x17, // V0 = V1 - V0
        ],
        3,
    );
    assert_eq!(emu.get_register(0), 5);
    assert_eq!(emu.get_register(0xf), 1);
}

#[test]
fn immediate_add_wraps() {
    // 7XNN wraps modulo 256 and leaves the flag alone.
    let emu = run(
        vec![
            0x60, 0xF0, // V0 = 240
            0x70, 0x20, // V0 += 32
        ],
        2,
    );
    assert_eq!(emu.get_register(0), 16);
    assert_eq!(emu.get_register(0xf), 0);
}

#[test]
fn bitwise_register_ops() {
    let emu = run(
        vec![
            0x60, 0b1100, // V0
            0x61, 0b1010, // V1
            0x80, 0x11, // V0 |= V1
            0x62, 0b1100, // V2
            0x63, 0b1010, // V3
            0x82, 0x32, // V2 &= V3
            0x64, 0b1100, // V4
            0x65, 0b1010, // V5
            0x84, 0x53, // V4 ^= V5
            0x86, 0x00, // V6 = V0
        ],
        10,
    );
    assert_eq!(emu.get_register(0), 0b1110);
    assert_eq!(emu.get_register(2), 0b1000);
    assert_eq!(emu.get_register(4), 0b0110);
    assert_eq!(emu.get_register(6), 0b1110);
}

#[test]
fn shifts_report_shifted_out_bit() {
    let emu = run(
        vec![
            0x60, 0x05, // V0 = 0b101
            0x80, 0x06, // V0 >>= 1, flag = low bit
        ],
        2,
    );
    assert_eq!(emu.get_register(0), 2);
    assert_eq!(emu.get_register(0xf), 1);

    let emu = run(
        vec![
            0x60, 0x81, // V0 = 0b1000_0001
            0x80, 0x0E, // V0 <<= 1, flag = high bit
        ],
        2,
    );
    assert_eq!(emu.get_register(0), 2);
    assert_eq!(emu.get_register(0xf), 1);

    let emu = run(
        vec![
            0x60, 0x44, // V0 = 0b0100_0100
            0x80, 0x06, // V0 >>= 1
        ],
        2,
    );
    assert_eq!(emu.get_register(0), 0x22);
    assert_eq!(emu.get_register(0xf), 0);
}

#[test]
fn skip_conditionals() {
    // 3XNN skips when equal: V0 == 7 skips the jump-to-self trap.
    let emu = run(
        vec![
            0x60, 0x07, // V0 = 7
            0x30, 0x07, // skip next if V0 == 7
            0x12, 0x04, // (skipped) jump trap
            0x61, 0x01, // V1 = 1
        ],
        3,
    );
    assert_eq!(emu.get_register(1), 1);
    assert_eq!(emu.get_program_counter(), 0x208);

    // 4XNN skips when different; V0 == 7 does not skip.
    let emu = run(
        vec![
            0x60, 0x07, // V0 = 7
            0x40, 0x07, // skip next if V0 != 7
            0x61, 0x02, // V1 = 2 (not skipped)
        ],
        3,
    );
    assert_eq!(emu.get_register(1), 2);

    // 5XY0 and 9XY0 compare two registers.
    let emu = run(
        vec![
            0x60, 0x03, // V0 = 3
            0x61, 0x03, // V1 = 3
            0x50, 0x10, // skip next if V0 == V1
            0x62, 0x09, // (skipped)
            0x90, 0x10, // skip next if V0 != V1 (they are equal: no skip)
            0x63, 0x08, // V3 = 8
        ],
        5,
    );
    assert_eq!(emu.get_register(2), 0);
    assert_eq!(emu.get_register(3), 8);
}

#[test]
fn call_and_return_round_trip() {
    // Call a subroutine at 0x208 whose only instruction is a return;
    // execution resumes right after the call site.
    let mut emu = boot(vec![
        0x22, 0x08, // call 0x208
        0x60, 0x55, // V0 = 0x55 (runs after the return)
        0x00, 0x00, // padding
        0x00, 0x00, // padding
        0x00, 0xEE, // the subroutine: return
    ]);
    emu.step().unwrap();
    assert_eq!(emu.get_program_counter(), 0x208);
    emu.step().unwrap();
    assert_eq!(emu.get_program_counter(), 0x202);
    emu.step().unwrap();
    assert_eq!(emu.get_register(0), 0x55);
}

#[test]
fn jump_with_offset() {
    // BNNN jumps to NNN + V0.
    let emu = run(
        vec![
            0x60, 0x05, // V0 = 5
            0xB3, 0x00, // jump to 0x300 + V0
        ],
        2,
    );
    assert_eq!(emu.get_program_counter(), 0x305);
}

#[test]
fn set_index_register() {
    let emu = run(vec![0xA1, 0x23], 1);
    assert_eq!(emu.get_index_register(), 0x123);
}

#[test]
fn add_to_index_register() {
    let emu = run(
        vec![
            0xA1, 0x00, // I = 0x100
            0x60, 0x22, // V0 = 0x22
            0xF0, 0x1E, // I += V0
        ],
        3,
    );
    assert_eq!(emu.get_index_register(), 0x122);
}

#[test]
fn font_index_uses_low_nibble() {
    // FX29 points the index register at the glyph for the low nibble of the
    // register: glyph addresses are 0x50 + digit * 5.
    let emu = run(
        vec![
            0x60, 0x0A, // V0 = 0xA
            0xF0, 0x29, // I = glyph for V0
        ],
        2,
    );
    assert_eq!(emu.get_index_register(), 0x50 + 0xA * 5);

    // The high nibble of the register value is ignored.
    let emu = run(
        vec![
            0x60, 0xAF, // V0 = 0xAF: digit F
            0xF0, 0x29, // I = glyph for low nibble of V0
        ],
        2,
    );
    assert_eq!(emu.get_index_register(), 0x50 + 0xF * 5);
}

#[test]
fn binary_coded_decimal() {
    let emu = run(
        vec![
            0x60, 0xFE, // V0 = 254
            0xA3, 0x00, // I = 0x300
            0xF0, 0x33, // memory[I..I+3] = digits of V0
        ],
        3,
    );
    assert_eq!(emu.get_memory()[0x300], 2);
    assert_eq!(emu.get_memory()[0x301], 5);
    assert_eq!(emu.get_memory()[0x302], 4);
}

#[test]
fn read_delay_timer_into_register() {
    let emu = run(
        vec![
            0x60, 0x09, // V0 = 9
            0xF0, 0x15, // delay timer = V0
            0xF1, 0x07, // V1 = delay timer
        ],
        3,
    );
    assert_eq!(emu.get_register(1), 9);
}

#[test]
fn random_masked_with_zero_is_zero() {
    // CX00 masks the random byte with 0, so the result is always 0.
    let emu = run(
        vec![
            0x60, 0x77, // V0 = 0x77
            0xC0, 0x00, // V0 = random & 0x00
        ],
        2,
    );
    assert_eq!(emu.get_register(0), 0);
}

#[test]
fn random_stays_within_mask() {
    let mut emu = boot(vec![
        0xC0, 0x0F, // V0 = random & 0x0F
        0x12, 0x00, // jump back to 0x200
    ]);
    for _ in 0..20 {
        emu.step().unwrap();
        assert!(emu.get_register(0) <= 0x0F);
        emu.step().unwrap();
    }
}

#[test]
fn skip_if_key_pressed() {
    let mut emu = boot(vec![
        0x60, 0x05, // V0 = 5
        0xE0, 0x9E, // skip next if key V0 pressed
        0x61, 0x01, // V1 = 1 (runs only when not skipped)
    ]);
    emu.press_key(5);
    emu.step().unwrap();
    emu.step().unwrap();
    assert_eq!(emu.get_program_counter(), 0x206);
    assert_eq!(emu.get_register(1), 0);

    let mut emu = boot(vec![
        0x60, 0x05, // V0 = 5
        0xE0, 0x9E, // skip next if key V0 pressed
        0x61, 0x01, // V1 = 1
    ]);
    emu.step().unwrap();
    emu.step().unwrap();
    emu.step().unwrap();
    assert_eq!(emu.get_register(1), 1);
}

#[test]
fn skip_if_key_not_pressed() {
    let mut emu = boot(vec![
        0x60, 0x05, // V0 = 5
        0xE0, 0xA1, // skip next if key V0 not pressed
        0x61, 0x01, // V1 = 1 (runs only when not skipped)
    ]);
    emu.press_key(5);
    emu.step().unwrap();
    emu.step().unwrap();
    emu.step().unwrap();
    assert_eq!(emu.get_register(1), 1);
    emu.unpress_key(5);
    assert_eq!(emu.get_program_counter(), 0x206);
}

#[test]
fn wait_key_busy_waits() {
    // FX0A rewinds the program counter until a key is pressed; a held key
    // satisfies it immediately, with no edge detection.
    let mut emu = boot(vec![0xF0, 0x0A]);
    emu.step().unwrap();
    assert_eq!(emu.get_program_counter(), 0x200);
    emu.step().unwrap();
    assert_eq!(emu.get_program_counter(), 0x200);
    emu.press_key(0xB);
    emu.step().unwrap();
    assert_eq!(emu.get_program_counter(), 0x202);
    assert_eq!(emu.get_register(0), 0xB);
}

#[test]
fn wait_key_reports_highest_pressed() {
    // The scan writes every pressed key in order, so the highest index is
    // what the register ends up holding.
    let mut emu = boot(vec![0xF0, 0x0A]);
    emu.press_key(0x2);
    emu.press_key(0x9);
    emu.step().unwrap();
    assert_eq!(emu.get_register(0), 0x9);
}

#[test]
fn draw_clips_at_screen_edges() {
    // A glyph drawn at (62, 30) shows only its 2x2 top-left corner; the
    // rest falls past the right and bottom edges and is clipped, not
    // wrapped.
    let mut emu = boot(vec![
        0x60, 0x3E, // V0 = 62
        0x61, 0x1E, // V1 = 30
        0xF2, 0x29, // I = glyph for V2 (= 0, so glyph 0)
        0xD0, 0x15, // draw 5 rows at (V0, V1)
    ]);
    for _ in 0..4 {
        emu.step().unwrap();
    }
    let display = emu.get_display();
    let lit: Vec<usize> = (0..display.len()).filter(|i| display[*i]).collect();
    // Glyph 0 starts 0xF0, 0x90: row 30 shows bits 7 and 6, row 31 shows
    // bit 7 only (bit 6 of 0x90 is clear).
    assert_eq!(lit, vec![30 * 64 + 62, 30 * 64 + 63, 31 * 64 + 62]);
    // No wrapped pixel reached rows 0 or 1.
    assert!(!display[0]);
}

#[test]
fn draw_origin_wraps_modulo_screen() {
    // Coordinates are taken modulo the screen size at the sprite origin:
    // (64, 32) is the same origin as (0, 0).
    let mut emu = boot(vec![
        0x60, 0x40, // V0 = 64
        0x61, 0x20, // V1 = 32
        0xF2, 0x29, // I = glyph for V2 (= 0)
        0xD0, 0x15, // draw 5 rows at (V0, V1)
    ]);
    for _ in 0..4 {
        emu.step().unwrap();
    }
    let display = emu.get_display();
    assert_eq!(&display[0..4], &[true, true, true, true]);
}

#[test]
fn draw_twice_restores_clear_display_and_reports_collision() {
    // Drawing the same non-empty sprite twice at the same coordinates on a
    // clear display toggles every bit back off; the second draw sets the
    // collision flag.
    let mut emu = boot(vec![
        0x60, 0x00, // V0 = 0
        0xF0, 0x29, // I = glyph for V0
        0xD0, 0x05, // draw
        0xD0, 0x05, // draw again
    ]);
    for _ in 0..3 {
        emu.step().unwrap();
    }
    assert!(emu.get_display().iter().any(|p| *p));
    assert_eq!(emu.get_register(0xf), 0);
    emu.step().unwrap();
    assert!(emu.get_display().iter().all(|p| !*p));
    assert_eq!(emu.get_register(0xf), 1);
}

#[test]
fn copy_register() {
    let emu = run(
        vec![
            0x60, 0x2A, // V0 = 42
            0x85, 0x00, // V5 = V0
        ],
        2,
    );
    assert_eq!(emu.get_register(5), 42);
}

#[test]
fn set_sound_timer() {
    let emu = run(
        vec![
            0x60, 0x0C, // V0 = 12
            0xF0, 0x18, // sound timer = V0
        ],
        2,
    );
    assert_eq!(emu.get_sound_timer(), 12);
}
