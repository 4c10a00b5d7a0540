//! The built-in font: 16 glyphs of 5 bytes each, one per hexadecimal digit,
//! burned into memory at a fixed base offset on construction and reset. The
//! glyphs live in addressable memory because one opcode points the index
//! register at them.

use vstd::prelude::*;

verus! {

/// First memory address of the font region.
pub const FONT_BASE: usize = 0x50;

/// Bytes per glyph: each glyph is five rows of eight pixels.
pub const FONT_GLYPH_BYTES: usize = 5;

/// Total size of the font region: 16 glyphs of 5 bytes.
pub const FONT_BYTES: usize = 80;

/// The fixed 16-glyph table, five bytes per hexadecimal digit 0 through F.
pub open spec fn font_table() -> Seq<u8> {
    seq![
        0xF0, 0x90, 0x90, 0x90, 0xF0, // 0
        0x20, 0x60, 0x20, 0x20, 0x70, // 1
        0xF0, 0x10, 0xF0, 0x80, 0xF0, // 2
        0xF0, 0x10, 0xF0, 0x10, 0xF0, // 3
        0x90, 0x90, 0xF0, 0x10, 0x10, // 4
        0xF0, 0x80, 0xF0, 0x10, 0xF0, // 5
        0xF0, 0x80, 0xF0, 0x90, 0xF0, // 6
        0xF0, 0x10, 0x20, 0x40, 0x40, // 7
        0xF0, 0x90, 0xF0, 0x90, 0xF0, // 8
        0xF0, 0x90, 0xF0, 0x10, 0xF0, // 9
        0xF0, 0x90, 0xF0, 0x90, 0x90, // A
        0xE0, 0x90, 0xE0, 0x90, 0xE0, // B
        0xF0, 0x80, 0x80, 0x80, 0xF0, // C
        0xE0, 0x90, 0x90, 0x90, 0xE0, // D
        0xF0, 0x80, 0xF0, 0x80, 0xF0, // E
        0xF0, 0x80, 0xF0, 0x80, 0x80, // F
    ]
}

/// The given memory contents with the font table written over the font
/// region and every other cell unchanged.
pub open spec fn with_font(m: Seq<u8>) -> Seq<u8> {
    Seq::new(
        m.len(),
        |i: int|
            if FONT_BASE <= i < FONT_BASE + FONT_BYTES {
                font_table()[i - FONT_BASE]
            } else {
                m[i]
            },
    )
}

/// Load the font into memory starting at byte 0x50 (by convention).
pub fn write_font(memory: &mut Vec<u8>)
    requires
        old(memory)@.len() >= FONT_BASE + FONT_BYTES,
    ensures
        final(memory)@ == with_font(old(memory)@),
{
    let font: [u8; 80] = [
        0xF0, 0x90, 0x90, 0x90, 0xF0, // 0
        0x20, 0x60, 0x20, 0x20, 0x70, // 1
        0xF0, 0x10, 0xF0, 0x80, 0xF0, // 2
        0xF0, 0x10, 0xF0, 0x10, 0xF0, // 3
        0x90, 0x90, 0xF0, 0x10, 0x10, // 4
        0xF0, 0x80, 0xF0, 0x10, 0xF0, // 5
        0xF0, 0x80, 0xF0, 0x90, 0xF0, // 6
        0xF0, 0x10, 0x20, 0x40, 0x40, // 7
        0xF0, 0x90, 0xF0, 0x90, 0xF0, // 8
        0xF0, 0x90, 0xF0, 0x10, 0xF0, // 9
        0xF0, 0x90, 0xF0, 0x90, 0x90, // A
        0xE0, 0x90, 0xE0, 0x90, 0xE0, // B
        0xF0, 0x80, 0x80, 0x80, 0xF0, // C
        0xE0, 0x90, 0x90, 0x90, 0xE0, // D
        0xF0, 0x80, 0xF0, 0x80, 0xF0, // E
        0xF0, 0x80, 0xF0, 0x80, 0x80, // F
    ];
    proof {
        assert(font@ =~= font_table());
    }
    let mut i: usize = 0;
    while i < FONT_BYTES
        invariant
            i <= FONT_BYTES,
            font@ == font_table(),
            memory@.len() == old(memory)@.len(),
            old(memory)@.len() >= FONT_BASE + FONT_BYTES,
            forall|j: int|
                0 <= j < memory@.len() ==> memory@[j] == (if FONT_BASE <= j < FONT_BASE + i {
                    font_table()[j - FONT_BASE]
                } else {
                    old(memory)@[j]
                }),
        decreases FONT_BYTES - i,
    {
        memory.set(FONT_BASE + i, font[i]);
        i += 1;
    }
    assert(memory@ =~= with_font(old(memory)@));
}

} // verus!
