use chip8::Chip8;
use chip8::Chip8Error;

fn boot(rom: Vec<u8>) -> Chip8 {
    let mut vm = Chip8::new();
    vm.load(&rom).unwrap();
    vm
}

#[test]
fn test_font_init() {
    let emu = Chip8::new();
    let font: [u8; 80] = [
        0xF0, 0x90, 0x90, 0x90, 0xF0, // 0
        0x20, 0x60, 0x20, 0x20, 0x70, // 1
        0xF0, 0x10, 0xF0, 0x80, 0xF0, // 2
        0xF0, 0x10, 0xF0, 0x10, 0xF0, // 3
        0x90, 0x90, 0xF0, 0x10, 0x10, // 4
        0xF0, 0x80, 0xF0, 0x10, 0xF0, // 5
        0xF0, 0x80, 0xF0, 0x90, 0xF0, // 6
        0xF0, 0x10, 0x20, 0x40, 0x40, // 7
        0xF0, 0x90, 0xF0, 0x90, 0xF0, // 8
        0xF0, 0x90, 0xF0, 0x10, 0xF0, // 9
        0xF0, 0x90, 0xF0, 0x90, 0x90, // A
        0xE0, 0x90, 0xE0, 0x90, 0xE0, // B
        0xF0, 0x80, 0x80, 0x80, 0xF0, // C
        0xE0, 0x90, 0x90, 0x90, 0xE0, // D
        0xF0, 0x80, 0xF0, 0x80, 0xF0, // E
        0xF0, 0x80, 0xF0, 0x80, 0x80, // F
    ];
    assert_eq!(emu.get_memory()[0x50..=0x9f], font);
}

#[test]
fn load_program() {
    let mut emu = Chip8::new();
    let data = vec![1, 2, 3, 4, 5, 6, 7, 8, 9, 10, 11, 12, 13, 14, 15, 16];
    emu.load(&data).unwrap();
    assert_eq!(emu.get_memory()[0x200..=0x200 + data.len() - 1], data);
}

#[test]
fn too_large_program() {
    let mut emu = Chip8::new();
    let data = vec![0; 10000];
    let before: Vec<u8> = emu.get_memory().to_vec();
    assert_eq!(emu.load(&data), Err(Chip8Error::CapacityError));
    assert_eq!(emu.get_memory(), &before[..]);
}

#[test]
fn clear_screen() {
    // Light some pixels by drawing a glyph, then execute the clear-screen
    // opcode and check that every pixel is off again.
    let mut emu = boot(vec![
        0x60, 0x00, // V0 = 0
        0xF0, 0x29, // I = font glyph for V0
        0xD0, 0x05, // draw 5 rows at (V0, V0)
        0x00, 0xE0, // clear screen
    ]);
    emu.step().unwrap();
    emu.step().unwrap();
    emu.step().unwrap();
    assert!(emu.get_display().iter().any(|p| *p));
    emu.step().unwrap();
    assert!(emu.get_display().iter().all(|p| !*p));
}

#[test]
fn jump() {
    let mut emu = boot(vec![0x11, 0x11]); // jump to 0x111
    emu.step().unwrap();
    assert_eq!(emu.get_program_counter(), 0x111);
}

#[test]
fn draw_sprite() {
    // Draw the font glyph for 0 (0xF0, 0x90, 0x90, 0x90, 0xF0) at (0, 0).
    let mut emu = boot(vec![
        0x60, 0x00, // V0 = 0
        0xF0, 0x29, // I = font glyph for V0
        0xD0, 0x05, // draw 5 rows at (V0, V0)
    ]);
    emu.step().unwrap();
    emu.step().unwrap();
    assert_eq!(emu.get_index_register(), 0x50);
    emu.step().unwrap();
    let display = emu.get_display();
    // Top row of the glyph: 0xF0 lights the four leftmost pixels.
    assert_eq!(&display[0..8], &[true, true, true, true, false, false, false, false]);
    // Second row: 0x90 lights columns 0 and 3.
    assert_eq!(&display[64..72], &[true, false, false, true, false, false, false, false]);
    // Nothing was lit before, so no collision.
    assert_eq!(emu.get_register(0xf), 0);
    assert!(emu.needs_redraw());
}

#[test]
fn load_from_memory() {
    // FX65 fills registers 0 through X from memory at the index register.
    let mut emu = boot(vec![
        0xA2, 0x08, // I = 0x208
        0xF2, 0x65, // load V0..=V2 from memory
        0x00, 0x00, 0x00, 0x00, // padding up to offset 8
        0x07, 0x08, 0x09, // the data at 0x208
    ]);
    emu.step().unwrap();
    emu.step().unwrap();
    assert_eq!(emu.get_register(0), 0x07);
    assert_eq!(emu.get_register(1), 0x08);
    assert_eq!(emu.get_register(2), 0x09);
    assert_eq!(emu.get_register(3), 0);
}

#[test]
fn load_to_memory() {
    // FX55 stores registers 0 through X to memory at the index register.
    let mut emu = boot(vec![
        0x60, 0x01, // V0 = 1
        0x61, 0x02, // V1 = 2
        0xA3, 0x00, // I = 0x300
        0xF1, 0x55, // store V0..=V1 to memory
    ]);
    for _ in 0..4 {
        emu.step().unwrap();
    }
    assert_eq!(emu.get_memory()[0x300], 1);
    assert_eq!(emu.get_memory()[0x301], 2);
    assert_eq!(emu.get_memory()[0x302], 0);
}

#[test]
fn stack_underflow_on_first_return() {
    // A fresh machine whose first instruction is a return fails fatally.
    let mut emu = boot(vec![0x00, 0xEE]);
    assert_eq!(emu.step(), Err(Chip8Error::StackUnderflow));
}

#[test]
fn capacity_boundary() {
    // Exactly the program capacity fits; one byte more is rejected.
    let mut emu = Chip8::new();
    let exact = vec![0xAB; 4096 - 0x200];
    assert_eq!(emu.load(&exact), Ok(()));
    assert_eq!(emu.get_memory()[0xfff], 0xAB);

    let mut emu = Chip8::new();
    let too_large = vec![0xAB; 4096 - 0x200 + 1];
    assert_eq!(emu.load(&too_large), Err(Chip8Error::CapacityError));
    assert_eq!(emu.get_memory()[0x200], 0);
}

#[test]
fn unimplemented_opcode_reports_nibbles() {
    // 5XY1 matches no pattern; the four raw nibbles come back, and the
    // machine is left as it was.
    let mut emu = boot(vec![0x5A, 0xB1]);
    assert_eq!(emu.step(), Err(Chip8Error::UnimplementedOpcode(0x5, 0xA, 0xB, 0x1)));
    assert_eq!(emu.get_program_counter(), 0x200);
}

#[test]
fn machine_routine_is_noop() {
    // 0NNN other than 00E0/00EE does nothing but advance.
    let mut emu = boot(vec![0x01, 0x23]);
    emu.step().unwrap();
    assert_eq!(emu.get_program_counter(), 0x202);
}

#[test]
fn reset_restores_initial_state() {
    let mut emu = boot(vec![
        0x60, 0x07, // V0 = 7
        0xA3, 0x00, // I = 0x300
        0x12, 0x00, // jump to 0x200
    ]);
    for _ in 0..3 {
        emu.step().unwrap();
    }
    emu.reset();
    assert_eq!(emu.get_program_counter(), 0x200);
    assert_eq!(emu.get_register(0), 0);
    assert_eq!(emu.get_index_register(), 0);
    assert_eq!(emu.get_delay_timer(), 0);
    assert_eq!(emu.get_sound_timer(), 0);
    assert!(emu.get_display().iter().all(|p| !*p));
    assert!(emu.needs_redraw());
    // The font survives a reset.
    assert_eq!(emu.get_memory()[0x50], 0xF0);
    // The loaded program is gone.
    assert_eq!(emu.get_memory()[0x200], 0);
}

#[test]
fn tick_timers_saturate_at_zero() {
    let mut emu = boot(vec![
        0x60, 0x02, // V0 = 2
        0xF0, 0x15, // delay timer = V0
        0xF0, 0x18, // sound timer = V0
    ]);
    for _ in 0..3 {
        emu.step().unwrap();
    }
    assert_eq!(emu.get_delay_timer(), 2);
    assert_eq!(emu.get_sound_timer(), 2);
    emu.tick_timers();
    assert_eq!(emu.get_delay_timer(), 1);
    assert_eq!(emu.get_sound_timer(), 1);
    emu.tick_timers();
    emu.tick_timers();
    emu.tick_timers();
    assert_eq!(emu.get_delay_timer(), 0);
    assert_eq!(emu.get_sound_timer(), 0);
}

#[test]
fn redraw_flag_round_trip() {
    let mut emu = Chip8::new();
    assert!(!emu.needs_redraw());
    emu.load(&vec![0x00, 0xE0]).unwrap();
    emu.step().unwrap();
    assert!(emu.needs_redraw());
    emu.was_redrawn();
    assert!(!emu.needs_redraw());
}

#[test]
fn out_of_range_key_is_ignored() {
    let mut emu = Chip8::new();
    emu.press_key(16);
    emu.press_key(0xff);
    emu.unpress_key(200);
    // A skip-if-not-pressed on key 0 still skips: no key was recorded.
    emu.load(&vec![0xE0, 0xA1]).unwrap();
    emu.step().unwrap();
    assert_eq!(emu.get_program_counter(), 0x204);
}

#[test]
fn can_step_detects_fetch_past_memory_end() {
    let mut emu = boot(vec![0x1F, 0xFF]); // jump to 0xFFF
    assert!(emu.can_step());
    emu.step().unwrap();
    assert_eq!(emu.get_program_counter(), 0xFFF);
    // The second fetch byte would sit at 0x1000, past the end of memory.
    assert!(!emu.can_step());
}

#[test]
fn get_display_dimensions() {
    let emu = Chip8::new();
    assert_eq!(emu.get_display().len(), 64 * 32);
}
