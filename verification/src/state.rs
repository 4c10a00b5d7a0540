//! The mathematical model of the machine: an abstract state over sequences
//! and fixed-width integers, together with the well-formedness predicate and
//! the states that construction, reset and program loading produce.

use vstd::prelude::*;

use crate::font::with_font;
use crate::font::FONT_BASE;
use crate::font::FONT_BYTES;

verus! {

/// Number of addressable memory cells.
pub const MEMORY_SIZE: usize = 4096;

/// Framebuffer width in pixels.
pub const SCREEN_WIDTH: usize = 64;

/// Framebuffer height in pixels.
pub const SCREEN_HEIGHT: usize = 32;

/// Number of framebuffer cells, row-major.
pub const DISPLAY_SIZE: usize = SCREEN_WIDTH * SCREEN_HEIGHT;

/// Number of general-purpose registers.
pub const NUM_REGISTERS: usize = 16;

/// The register that doubles as the carry/borrow/collision flag.
pub const FLAG_REGISTER: usize = 15;

/// Number of keypad keys, one per hexadecimal digit.
pub const NUM_KEYS: usize = 16;

/// First memory address of the program region; the program counter starts
/// here.
pub const PROGRAM_START: usize = 0x200;

/// Bytes available to a loaded program: memory size minus the program-start
/// offset.
pub const PROGRAM_CAPACITY: usize = MEMORY_SIZE - PROGRAM_START;

/// The abstract machine state: every contract of the virtual machine speaks
/// of values of this type.
#[verifier::ext_equal]
pub ghost struct State {
    /// Byte-addressable memory; the font region and the program region are
    /// parts of it.
    pub memory: Seq<u8>,
    /// The 16 general-purpose 8-bit registers; the last doubles as the flag.
    pub registers: Seq<u8>,
    /// The program counter.
    pub pc: u16,
    /// The 16-bit index register used for sprite and data addressing.
    pub index: u16,
    /// The delay countdown timer.
    pub delay: u8,
    /// The sound countdown timer.
    pub sound: u8,
    /// The framebuffer, row-major, true for a lit pixel.
    pub display: Seq<bool>,
    /// One flag per keypad key, true while held.
    pub keyboard: Seq<bool>,
    /// Return addresses, most recent last.
    pub stack: Seq<u16>,
    /// Whether the framebuffer changed since the host last redrew.
    pub needs_redraw: bool,
}

impl State {
    /// The fixed sizes of the state groups.
    pub open spec fn wf(self) -> bool {
        &&& self.memory.len() == MEMORY_SIZE
        &&& self.registers.len() == NUM_REGISTERS
        &&& self.display.len() == DISPLAY_SIZE
        &&& self.keyboard.len() == NUM_KEYS
    }
}

/// The all-clear framebuffer.
pub open spec fn blank_display() -> Seq<bool> {
    Seq::new(DISPLAY_SIZE as nat, |i: int| false)
}

/// Memory as construction and reset leave it: all zero except the font
/// region.
pub open spec fn initial_memory() -> Seq<u8> {
    with_font(Seq::new(MEMORY_SIZE as nat, |i: int| 0u8))
}

/// The state after construction: font loaded; memory, registers, stack,
/// timers and keypad zeroed; program counter at the program-start offset.
pub open spec fn initial_state() -> State {
    State {
        memory: initial_memory(),
        registers: Seq::new(NUM_REGISTERS as nat, |i: int| 0u8),
        pc: PROGRAM_START as u16,
        index: 0,
        delay: 0,
        sound: 0,
        display: blank_display(),
        keyboard: Seq::new(NUM_KEYS as nat, |i: int| false),
        stack: Seq::empty(),
        needs_redraw: false,
    }
}

/// The given memory contents with `data` copied verbatim over the program
/// region and every other cell unchanged.
pub open spec fn load_region(m: Seq<u8>, data: Seq<u8>) -> Seq<u8> {
    Seq::new(
        m.len(),
        |i: int|
            if PROGRAM_START <= i < PROGRAM_START + data.len() {
                data[i - PROGRAM_START]
            } else {
                m[i]
            },
    )
}

/// One timer decrement: down by exactly 1, saturating at 0.
pub open spec fn tick(t: u8) -> u8 {
    if t > 0 {
        (t - 1) as u8
    } else {
        0
    }
}

} // verus!
