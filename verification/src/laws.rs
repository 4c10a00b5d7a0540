//! Machine-wide laws, proved once and for all states: what construction and
//! reset leave in the font region, what a jump leaves in the program
//! counter, how a call and a return compose, and how a draw cancels itself.

use vstd::prelude::*;

use crate::decode::Instruction;
use crate::font::font_table;
use crate::font::FONT_BASE;
use crate::font::FONT_BYTES;
use crate::semantics::draw_collision;
use crate::semantics::draw_display;
use crate::semantics::fetched;
use crate::semantics::sprite_covers;
use crate::semantics::step_spec;
use crate::state::blank_display;
use crate::state::initial_memory;
use crate::state::State;
use crate::state::DISPLAY_SIZE;
use crate::state::MEMORY_SIZE;

verus! {

/// Law: the bytes of the font region equal the fixed 16-glyph table in the
/// memory that construction and reset install, so they do immediately after
/// either, regardless of prior state.
pub proof fn lemma_font_region()
    ensures
        initial_memory().subrange(FONT_BASE as int, FONT_BASE as int + FONT_BYTES)
            == font_table(),
{
    assert(initial_memory().subrange(FONT_BASE as int, FONT_BASE as int + FONT_BYTES)
        =~= font_table());
}

/// Law: one step on an unconditional jump to address `a` leaves the program
/// counter exactly at `a`; the pre-dispatch increment does not leak into the
/// final value.
pub proof fn lemma_jump_overwrite(s: State, rand: u8, a: u16)
    requires
        fetched(s) == Instruction::Jump(a),
    ensures
        step_spec(s, rand) is Ok,
        (step_spec(s, rand)->Ok_0).pc == a,
{
}

/// Law: a call to address `a` followed by the return at `a` resumes
/// execution at the instruction immediately after the call site.
pub proof fn lemma_call_return_round_trip(s: State, r1: u8, r2: u8, a: u16)
    requires
        s.pc + 1 < MEMORY_SIZE,
        fetched(s) == Instruction::Call(a),
        s.memory[a as int] == 0x00,
        s.memory[a as int + 1] == 0xEE,
    ensures
        step_spec(s, r1) is Ok,
        ({
            let after_call = step_spec(s, r1)->Ok_0;
            &&& after_call.pc == a
            &&& step_spec(after_call, r2) is Ok
            &&& (step_spec(after_call, r2)->Ok_0).pc == s.pc + 2
        }),
{
    assert(0x00u8 >> 4u8 == 0 && 0x00u8 & 0xf == 0 && 0xEEu8 >> 4u8 == 0xE && 0xEEu8 & 0xf
        == 0xE) by (bit_vector);
    let after_call = step_spec(s, r1)->Ok_0;
    assert(fetched(after_call) == Instruction::Return);
    assert(after_call.stack.last() == s.pc + 2);
}

/// Law: drawing a sprite twice at the same coordinates onto an all-clear
/// display returns the display to all-clear, and the second draw reports a
/// collision exactly when the sprite covers at least one framebuffer cell —
/// every bit the first draw set, the second toggles back off.
pub proof fn lemma_draw_twice(mem: Seq<u8>, index: u16, x0: int, y0: int, n: int)
    ensures
        draw_display(
            draw_display(blank_display(), mem, index, x0, y0, n),
            mem,
            index,
            x0,
            y0,
            n,
        ) == blank_display(),
        draw_collision(
            draw_display(blank_display(), mem, index, x0, y0, n),
            mem,
            index,
            x0,
            y0,
            n,
        ) == (exists|p: int| 0 <= p < DISPLAY_SIZE && sprite_covers(mem, index, x0, y0, n, p)),
{
    let d0 = blank_display();
    let d1 = draw_display(d0, mem, index, x0, y0, n);
    assert(draw_display(d1, mem, index, x0, y0, n) =~= d0);
    assert(draw_collision(d1, mem, index, x0, y0, n) == (exists|p: int|
        0 <= p < DISPLAY_SIZE && sprite_covers(mem, index, x0, y0, n, p))) by {
        if draw_collision(d1, mem, index, x0, y0, n) {
            let p = choose|p: int|
                0 <= p < d1.len() && d1[p] && sprite_covers(mem, index, x0, y0, n, p);
            assert(0 <= p < DISPLAY_SIZE && sprite_covers(mem, index, x0, y0, n, p));
        }
        if exists|p: int| 0 <= p < DISPLAY_SIZE && sprite_covers(mem, index, x0, y0, n, p) {
            let p = choose|p: int|
                0 <= p < DISPLAY_SIZE && sprite_covers(mem, index, x0, y0, n, p);
            assert(d1[p] && sprite_covers(mem, index, x0, y0, n, p));
        }
    };
}

} // verus!
