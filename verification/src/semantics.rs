//! The transition function of the machine: what one `step` does to the
//! abstract state, instruction by instruction. The executable engine is
//! verified against these definitions.
//!
//! Conventions chosen here, where interpreter lineages disagree: the
//! immediate add wraps modulo 256; subtraction sets the flag to 1 exactly
//! when no borrow occurred; the shifts set the flag to the bit shifted out,
//! as 0 or 1; sprites are clipped at the screen edges, never wrapped; the
//! font opcode maps the low nibble of the register through
//! `FONT_BASE + digit * 5`; and when an arithmetic result and the flag target
//! the same register, the result wins.

use vstd::prelude::*;

use crate::decode::spec_decode;
use crate::decode::Instruction;
use crate::error::Chip8Error;
use crate::font::FONT_BASE;
use crate::state::blank_display;
use crate::state::State;
use crate::state::FLAG_REGISTER;
use crate::state::MEMORY_SIZE;
use crate::state::NUM_KEYS;
use crate::state::SCREEN_HEIGHT;
use crate::state::SCREEN_WIDTH;

verus! {

/// Addition modulo 256.
pub open spec fn byte_add(a: u8, b: u8) -> u8 {
    ((a + b) % 256) as u8
}

/// Subtraction modulo 256.
pub open spec fn byte_sub(a: u8, b: u8) -> u8 {
    ((a - b + 256) % 256) as u8
}

/// Addition modulo 2^16.
pub open spec fn word_add(a: u16, b: u16) -> u16 {
    ((a + b) % 0x10000) as u16
}

/// Subtraction modulo 2^16.
pub open spec fn word_sub(a: u16, b: u16) -> u16 {
    ((a - b + 0x10000) % 0x10000) as u16
}

/// Whether the sprite row byte has the bit for column `col` set; bit 7 is
/// the leftmost column.
pub open spec fn sprite_bit(row_byte: u8, col: int) -> bool {
    row_byte & (0x80u8 >> (col as u8)) != 0
}

/// Whether a draw of the `n`-row sprite at `mem[index ..]`, with origin
/// `(x0, y0)`, toggles the framebuffer cell `p`. Cells past the right or
/// bottom screen edge are clipped: no `p` within the framebuffer stands for
/// them, so they are toggled nowhere.
pub open spec fn sprite_covers(
    mem: Seq<u8>,
    index: u16,
    x0: int,
    y0: int,
    n: int,
    p: int,
) -> bool {
    let px = p % (SCREEN_WIDTH as int);
    let py = p / (SCREEN_WIDTH as int);
    &&& x0 <= px < x0 + 8
    &&& y0 <= py < y0 + n
    &&& sprite_bit(mem[index + (py - y0)], px - x0)
}

/// The framebuffer after a draw: each covered cell is XORed, every other
/// cell is unchanged.
pub open spec fn draw_display(
    d: Seq<bool>,
    mem: Seq<u8>,
    index: u16,
    x0: int,
    y0: int,
    n: int,
) -> Seq<bool> {
    Seq::new(d.len(), |p: int| d[p] != sprite_covers(mem, index, x0, y0, n, p))
}

/// Whether a draw turned any lit cell off: a cell the sprite covers was set
/// before the draw.
pub open spec fn draw_collision(
    d: Seq<bool>,
    mem: Seq<u8>,
    index: u16,
    x0: int,
    y0: int,
    n: int,
) -> bool {
    exists|p: int| 0 <= p < d.len() && d[p] && sprite_covers(mem, index, x0, y0, n, p)
}

/// The state after a draw: the sprite is XORed into the framebuffer, the
/// flag register reports whether any lit cell went dark, and the display
/// counts as changed. The origin is the pair of register values modulo the
/// screen size, so a sprite origin wraps while the sprite body clips.
pub open spec fn draw_step(s: State, rx: u8, ry: u8, n: u8) -> State {
    let x0 = s.registers[rx as int] as int % (SCREEN_WIDTH as int);
    let y0 = s.registers[ry as int] as int % (SCREEN_HEIGHT as int);
    let flag: u8 = if draw_collision(s.display, s.memory, s.index, x0, y0, n as int) {
        1
    } else {
        0
    };
    State {
        display: draw_display(s.display, s.memory, s.index, x0, y0, n as int),
        registers: s.registers.update(FLAG_REGISTER as int, flag),
        needs_redraw: true,
        ..s
    }
}

/// Memory after registers 0 through `x` are stored at the index register.
pub open spec fn stored_registers(s: State, x: u8) -> Seq<u8> {
    Seq::new(
        s.memory.len(),
        |j: int|
            if s.index <= j <= s.index + x {
                s.registers[j - s.index]
            } else {
                s.memory[j]
            },
    )
}

/// Registers after 0 through `x` are loaded from memory at the index
/// register.
pub open spec fn loaded_registers(s: State, x: u8) -> Seq<u8> {
    Seq::new(
        s.registers.len(),
        |j: int|
            if 0 <= j <= x {
                s.memory[s.index + j]
            } else {
                s.registers[j]
            },
    )
}

/// The highest pressed key index below `n`, if any: the wait-for-key opcode
/// reports the last pressed key that a scan of the keypad finds.
pub open spec fn last_pressed(keys: Seq<bool>, n: int) -> Option<u8>
    decreases n,
{
    if n <= 0 {
        None
    } else if keys[n - 1] {
        Some((n - 1) as u8)
    } else {
        last_pressed(keys, n - 1)
    }
}

/// The effect of one decoded instruction on the state `s`, in which the
/// program counter has already been advanced past the instruction; a jump or
/// call therefore overwrites the counter absolutely. `rand` is the byte the
/// random opcode masks. On an error the resulting state is discarded by
/// `step_spec`, which keeps the pre-step state.
pub open spec fn run_instruction(s: State, instruction: Instruction, rand: u8) -> Result<
    State,
    Chip8Error,
> {
    match instruction {
        Instruction::ClearScreen => Ok(
            State { display: blank_display(), needs_redraw: true, ..s },
        ),
        Instruction::Return => if s.stack.len() == 0 {
            Err(Chip8Error::StackUnderflow)
        } else {
            Ok(State { pc: s.stack.last(), stack: s.stack.drop_last(), ..s })
        },
        Instruction::MachineRoutine => Ok(s),
        Instruction::Jump(a) => Ok(State { pc: a, ..s }),
        Instruction::Call(a) => Ok(State { stack: s.stack.push(s.pc), pc: a, ..s }),
        Instruction::SkipEqImm(x, b) => Ok(
            if s.registers[x as int] == b {
                State { pc: word_add(s.pc, 2), ..s }
            } else {
                s
            },
        ),
        Instruction::SkipNeImm(x, b) => Ok(
            if s.registers[x as int] != b {
                State { pc: word_add(s.pc, 2), ..s }
            } else {
                s
            },
        ),
        Instruction::SkipEqReg(x, y) => Ok(
            if s.registers[x as int] == s.registers[y as int] {
                State { pc: word_add(s.pc, 2), ..s }
            } else {
                s
            },
        ),
        Instruction::SkipNeReg(x, y) => Ok(
            if s.registers[x as int] != s.registers[y as int] {
                State { pc: word_add(s.pc, 2), ..s }
            } else {
                s
            },
        ),
        Instruction::SetImm(x, b) => Ok(
            State { registers: s.registers.update(x as int, b), ..s },
        ),
        Instruction::AddImm(x, b) => Ok(
            State {
                registers: s.registers.update(x as int, byte_add(s.registers[x as int], b)),
                ..s
            },
        ),
        Instruction::Copy(x, y) => Ok(
            State { registers: s.registers.update(x as int, s.registers[y as int]), ..s },
        ),
        Instruction::Or(x, y) => Ok(
            State {
                registers: s.registers.update(
                    x as int,
                    s.registers[x as int] | s.registers[y as int],
                ),
                ..s
            },
        ),
        Instruction::And(x, y) => Ok(
            State {
                registers: s.registers.update(
                    x as int,
                    s.registers[x as int] & s.registers[y as int],
                ),
                ..s
            },
        ),
        Instruction::Xor(x, y) => Ok(
            State {
                registers: s.registers.update(
                    x as int,
                    s.registers[x as int] ^ s.registers[y as int],
                ),
                ..s
            },
        ),
        Instruction::Add(x, y) => {
            let a = s.registers[x as int];
            let b = s.registers[y as int];
            let flag: u8 = if a + b > 255 {
                1
            } else {
                0
            };
            Ok(
                State {
                    registers: s.registers.update(FLAG_REGISTER as int, flag).update(
                        x as int,
                        byte_add(a, b),
                    ),
                    ..s
                },
            )
        },
        Instruction::Sub(x, y) => {
            let a = s.registers[x as int];
            let b = s.registers[y as int];
            let flag: u8 = if a >= b {
                1
            } else {
                0
            };
            Ok(
                State {
                    registers: s.registers.update(FLAG_REGISTER as int, flag).update(
                        x as int,
                        byte_sub(a, b),
                    ),
                    ..s
                },
            )
        },
        Instruction::ShiftRight(x) => {
            let v = s.registers[x as int];
            Ok(
                State {
                    registers: s.registers.update(FLAG_REGISTER as int, v & 1).update(
                        x as int,
                        v >> 1u8,
                    ),
                    ..s
                },
            )
        },
        Instruction::SubFrom(x, y) => {
            let a = s.registers[x as int];
            let b = s.registers[y as int];
            let flag: u8 = if b >= a {
                1
            } else {
                0
            };
            Ok(
                State {
                    registers: s.registers.update(FLAG_REGISTER as int, flag).update(
                        x as int,
                        byte_sub(b, a),
                    ),
                    ..s
                },
            )
        },
        Instruction::ShiftLeft(x) => {
            let v = s.registers[x as int];
            Ok(
                State {
                    registers: s.registers.update(FLAG_REGISTER as int, v >> 7u8).update(
                        x as int,
                        v << 1u8,
                    ),
                    ..s
                },
            )
        },
        Instruction::SetIndex(a) => Ok(State { index: a, ..s }),
        Instruction::JumpOffset(a) => Ok(
            State { pc: word_add(a, s.registers[0] as u16), ..s },
        ),
        Instruction::Random(x, mask) => Ok(
            State { registers: s.registers.update(x as int, rand & mask), ..s },
        ),
        Instruction::Draw(rx, ry, n) => Ok(draw_step(s, rx, ry, n)),
        Instruction::SkipIfKey(x) => Ok(
            if s.keyboard[s.registers[x as int] as int] {
                State { pc: word_add(s.pc, 2), ..s }
            } else {
                s
            },
        ),
        Instruction::SkipIfNotKey(x) => Ok(
            if !s.keyboard[s.registers[x as int] as int] {
                State { pc: word_add(s.pc, 2), ..s }
            } else {
                s
            },
        ),
        Instruction::ReadDelay(x) => Ok(
            State { registers: s.registers.update(x as int, s.delay), ..s },
        ),
        Instruction::SetDelay(x) => Ok(State { delay: s.registers[x as int], ..s }),
        Instruction::SetSound(x) => Ok(State { sound: s.registers[x as int], ..s }),
        Instruction::AddIndex(x) => Ok(
            State { index: word_add(s.index, s.registers[x as int] as u16), ..s },
        ),
        Instruction::WaitKey(x) => match last_pressed(s.keyboard, NUM_KEYS as int) {
            Some(k) => Ok(State { registers: s.registers.update(x as int, k), ..s }),
            None => Ok(State { pc: word_sub(s.pc, 2), ..s }),
        },
        Instruction::FontIndex(x) => Ok(
            State { index: (FONT_BASE + (s.registers[x as int] & 0xf) * 5) as u16, ..s },
        ),
        Instruction::StoreBcd(x) => {
            let v = s.registers[x as int];
            Ok(
                State {
                    memory: s.memory.update(s.index as int, (v / 100) as u8).update(
                        s.index as int + 1,
                        ((v / 10) % 10) as u8,
                    ).update(s.index as int + 2, (v % 10) as u8),
                    ..s
                },
            )
        },
        Instruction::StoreRegisters(x) => Ok(State { memory: stored_registers(s, x), ..s }),
        Instruction::LoadRegisters(x) => Ok(State { registers: loaded_registers(s, x), ..s }),
        Instruction::Unknown(n1, n2, n3, n4) => Err(
            Chip8Error::UnimplementedOpcode(n1, n2, n3, n4),
        ),
    }
}

/// The instruction the two bytes at the program counter decode to.
pub open spec fn fetched(s: State) -> Instruction {
    spec_decode(s.memory[s.pc as int], s.memory[s.pc as int + 1])
}

/// One fetch-decode-execute cycle on the abstract state: the program counter
/// is advanced by 2 before the decoded instruction runs.
pub open spec fn step_spec(s: State, rand: u8) -> Result<State, Chip8Error> {
    run_instruction(State { pc: word_add(s.pc, 2), ..s }, fetched(s), rand)
}

/// The inputs on which a step stays within bounds. Fetching needs two bytes
/// at the program counter; the key-skip opcodes index the keypad by a
/// register value; and the opcodes that move data at the index register need
/// their whole span inside memory. Outside these bounds the access is a
/// defect of the program, not a condition the machine recovers from.
pub open spec fn step_safe(s: State) -> bool {
    &&& s.pc + 1 < MEMORY_SIZE
    &&& match fetched(s) {
        Instruction::Draw(_, _, n) => s.index + n <= MEMORY_SIZE,
        Instruction::SkipIfKey(x) => s.registers[x as int] < NUM_KEYS,
        Instruction::SkipIfNotKey(x) => s.registers[x as int] < NUM_KEYS,
        Instruction::StoreBcd(_) => s.index + 3 <= MEMORY_SIZE,
        Instruction::StoreRegisters(x) => s.index + x + 1 <= MEMORY_SIZE,
        Instruction::LoadRegisters(x) => s.index + x + 1 <= MEMORY_SIZE,
        _ => true,
    }
}

/// How the state and result of one executed step relate to the state before
/// it: on success the state is exactly what `step_spec` gives; on an error
/// the machine is left unchanged and the error is reported.
pub open spec fn step_post(pre: State, rand: u8, post: State, r: Result<(), Chip8Error>) -> bool {
    match step_spec(pre, rand) {
        Ok(s2) => r is Ok && post == s2,
        Err(e) => r == Err::<(), Chip8Error>(e) && post == pre,
    }
}

} // verus!
