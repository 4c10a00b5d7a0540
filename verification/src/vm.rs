//! The executable virtual machine. Every public operation is specified
//! against the abstract `State` and the transition function in `semantics`.

use vstd::prelude::*;

use crate::decode::decode;
use crate::decode::hi_nibble;
use crate::decode::lemma_addr_bound;
use crate::decode::lemma_nibble_bounds;
use crate::decode::lo_nibble;
use crate::decode::Instruction;
use crate::error::Chip8Error;
use crate::font::write_font;
use crate::font::FONT_BASE;
use crate::rng::random_byte;
use crate::semantics::draw_collision;
use crate::semantics::draw_display;
use crate::semantics::draw_step;
use crate::semantics::last_pressed;
use crate::semantics::loaded_registers;
use crate::semantics::sprite_bit;
use crate::semantics::sprite_covers;
use crate::semantics::step_post;
use crate::semantics::step_safe;
use crate::semantics::stored_registers;
use crate::semantics::word_add;
use crate::state::blank_display;
use crate::state::initial_memory;
use crate::state::initial_state;
use crate::state::load_region;
use crate::state::tick;
use crate::state::State;
use crate::state::DISPLAY_SIZE;
use crate::state::FLAG_REGISTER;
use crate::state::MEMORY_SIZE;
use crate::state::NUM_KEYS;
use crate::state::NUM_REGISTERS;
use crate::state::PROGRAM_CAPACITY;
use crate::state::PROGRAM_START;
use crate::state::SCREEN_HEIGHT;
use crate::state::SCREEN_WIDTH;
use vstd::arithmetic::div_mod::lemma_fundamental_div_mod;
use vstd::arithmetic::div_mod::lemma_fundamental_div_mod_converse;

verus! {

/// Whether the draw loop has already toggled cell `p`: the first
/// `full_rows` sprite rows are done, and of the next row the first `cols`
/// columns.
spec fn sprite_covers_upto(
    mem: Seq<u8>,
    index: u16,
    x0: int,
    y0: int,
    full_rows: int,
    cols: int,
    p: int,
) -> bool {
    let px = p % (SCREEN_WIDTH as int);
    let py = p / (SCREEN_WIDTH as int);
    &&& x0 <= px < x0 + 8
    &&& y0 <= py
    &&& (py < y0 + full_rows || (py == y0 + full_rows && px < x0 + cols))
    &&& sprite_bit(mem[index + (py - y0)], px - x0)
}

/// The CHIP-8 interpreter: flat memory with the font burned in, sixteen
/// 8-bit registers, an index register, a program counter, a call stack, two
/// countdown timers, a monochrome framebuffer and a 16-key keypad.
pub struct Chip8 {
    /// Address of the next instruction to fetch.
    program_counter: u16,
    /// The memory of the machine; the loaded program starts at 0x200.
    memory: Vec<u8>,
    /// The general purpose registers; the last doubles as the flag.
    registers: Vec<u8>,
    /// Whether the display needs to be redrawn.
    needs_redraw: bool,
    /// Pointer register for sprite and data addressing.
    index_register: u16,
    /// Delay timer, decremented by the host at a fixed cadence.
    delay_timer: u8,
    /// Sound timer, decremented by the host at a fixed cadence.
    sound_timer: u8,
    /// The state of each pixel on the screen, row-major.
    display: Vec<bool>,
    /// The state of each keypad key.
    keyboard: Vec<bool>,
    /// Return addresses of the subroutines entered, most recent last.
    stack: Vec<u16>,
}

impl View for Chip8 {
    type V = State;

    closed spec fn view(&self) -> State {
        State {
            memory: self.memory@,
            registers: self.registers@,
            pc: self.program_counter,
            index: self.index_register,
            delay: self.delay_timer,
            sound: self.sound_timer,
            display: self.display@,
            keyboard: self.keyboard@,
            stack: self.stack@,
            needs_redraw: self.needs_redraw,
        }
    }
}

/// Copies `data` verbatim into memory at the program-start offset.
fn copy_program(memory: &mut Vec<u8>, data: &Vec<u8>)
    requires
        old(memory)@.len() == MEMORY_SIZE,
        data@.len() <= PROGRAM_CAPACITY,
    ensures
        final(memory)@ == load_region(old(memory)@, data@),
{
    let mut i: usize = 0;
    while i < data.len()
        invariant
            i <= data@.len(),
            data@.len() <= PROGRAM_CAPACITY,
            memory@.len() == MEMORY_SIZE,
            forall|j: int|
                0 <= j < MEMORY_SIZE ==> memory@[j] == (if PROGRAM_START <= j < PROGRAM_START
                    + i {
                    data@[j - PROGRAM_START]
                } else {
                    old(memory)@[j]
                }),
        decreases data@.len() - i,
    {
        memory.set(PROGRAM_START + i, data[i]);
        i += 1;
    }
    assert(memory@ =~= load_region(old(memory)@, data@));
}

impl Chip8 {
    /// The state groups have their fixed sizes.
    pub open spec fn wf(&self) -> bool {
        self@.wf()
    }

    /// Initializes the interpreter: font loaded, everything else zeroed, the
    /// program counter at the program-start offset.
    pub fn new() -> (vm: Chip8)
        ensures
            vm@ == initial_state(),
            vm.wf(),
    {
        let mut memory: Vec<u8> = vec![0u8; MEMORY_SIZE];
        write_font(&mut memory);
        let vm = Chip8 {
            program_counter: PROGRAM_START as u16,
            memory,
            registers: vec![0u8; NUM_REGISTERS],
            needs_redraw: false,
            index_register: 0,
            delay_timer: 0,
            sound_timer: 0,
            display: vec![false; DISPLAY_SIZE],
            keyboard: vec![false; NUM_KEYS],
            stack: Vec::new(),
        };
        proof {
            assert(vm@.memory =~= initial_memory());
            assert(vm@.registers =~= initial_state().registers);
            assert(vm@.display =~= blank_display());
            assert(vm@.keyboard =~= initial_state().keyboard);
            assert(vm@ =~= initial_state());
        }
        vm
    }

    /// Resets the execution: the same state as construction, except that the
    /// display counts as changed, so the host redraws the cleared screen.
    pub fn reset(&mut self)
        ensures
            final(self)@ == (State { needs_redraw: true, ..initial_state() }),
            final(self).wf(),
    {
        let mut memory: Vec<u8> = vec![0u8; MEMORY_SIZE];
        write_font(&mut memory);
        self.program_counter = PROGRAM_START as u16;
        self.memory = memory;
        self.registers = vec![0u8; NUM_REGISTERS];
        self.needs_redraw = true;
        self.index_register = 0;
        self.delay_timer = 0;
        self.sound_timer = 0;
        self.display = vec![false; DISPLAY_SIZE];
        self.keyboard = vec![false; NUM_KEYS];
        self.stack = Vec::new();
        proof {
            assert(self@.memory =~= initial_memory());
            assert(self@.registers =~= initial_state().registers);
            assert(self@.display =~= blank_display());
            assert(self@.keyboard =~= initial_state().keyboard);
            assert(self@ =~= State { needs_redraw: true, ..initial_state() });
        }
    }

    /// Loads a program into memory at the program-start offset. Succeeds and
    /// copies the bytes verbatim exactly when they fit into the program
    /// region; a larger program is rejected with `CapacityError` and memory
    /// is left byte-for-byte unchanged.
    pub fn load(&mut self, data: &Vec<u8>) -> (r: Result<(), Chip8Error>)
        requires
            old(self).wf(),
        ensures
            final(self).wf(),
            data@.len() <= PROGRAM_CAPACITY ==> r is Ok && final(self)@ == (State {
                memory: load_region(old(self)@.memory, data@),
                ..old(self)@
            }),
            data@.len() > PROGRAM_CAPACITY ==> r == Err::<(), Chip8Error>(
                Chip8Error::CapacityError,
            ) && final(self)@ == old(self)@,
    {
        if data.len() > PROGRAM_CAPACITY {
            return Err(Chip8Error::CapacityError);
        }
        copy_program(&mut self.memory, data);
        Ok(())
    }

    /// Returns the display, row-major.
    pub fn get_display(&self) -> (d: &[bool])
        ensures
            d@ == self@.display,
    {
        self.display.as_slice()
    }

    /// Returns the memory, font and program regions included.
    pub fn get_memory(&self) -> (m: &[u8])
        ensures
            m@ == self@.memory,
    {
        self.memory.as_slice()
    }

    /// Returns the program counter.
    pub fn get_program_counter(&self) -> (pc: u16)
        ensures
            pc == self@.pc,
    {
        self.program_counter
    }

    /// Returns the value of one general-purpose register.
    pub fn get_register(&self, register: u8) -> (v: u8)
        requires
            self.wf(),
            register < NUM_REGISTERS,
        ensures
            v == self@.registers[register as int],
    {
        self.registers[register as usize]
    }

    /// Returns the index register.
    pub fn get_index_register(&self) -> (v: u16)
        ensures
            v == self@.index,
    {
        self.index_register
    }

    /// Returns the delay timer.
    pub fn get_delay_timer(&self) -> (v: u8)
        ensures
            v == self@.delay,
    {
        self.delay_timer
    }

    /// Returns the sound timer.
    pub fn get_sound_timer(&self) -> (v: u8)
        ensures
            v == self@.sound,
    {
        self.sound_timer
    }

    /// Decrements both the delay and the sound timers by exactly 1 each,
    /// saturating at 0. Cadence is the host's responsibility; the machine
    /// has no notion of time.
    pub fn tick_timers(&mut self)
        ensures
            final(self)@ == (State {
                delay: tick(old(self)@.delay),
                sound: tick(old(self)@.sound),
                ..old(self)@
            }),
    {
        if self.sound_timer > 0 {
            self.sound_timer = self.sound_timer - 1;
        }
        if self.delay_timer > 0 {
            self.delay_timer = self.delay_timer - 1;
        }
    }

    /// Presses the key at the given position on the 16-key panel. An index
    /// outside the valid key range is silently ignored.
    pub fn press_key(&mut self, key_num: u8)
        requires
            old(self).wf(),
        ensures
            final(self).wf(),
            key_num < NUM_KEYS ==> final(self)@ == (State {
                keyboard: old(self)@.keyboard.update(key_num as int, true),
                ..old(self)@
            }),
            key_num >= NUM_KEYS ==> final(self)@ == old(self)@,
    {
        if key_num > 0xf {
            return ;
        }
        self.keyboard.set(key_num as usize, true);
    }

    /// Releases the key at the given position. An index outside the valid
    /// key range is silently ignored.
    pub fn unpress_key(&mut self, key_num: u8)
        requires
            old(self).wf(),
        ensures
            final(self).wf(),
            key_num < NUM_KEYS ==> final(self)@ == (State {
                keyboard: old(self)@.keyboard.update(key_num as int, false),
                ..old(self)@
            }),
            key_num >= NUM_KEYS ==> final(self)@ == old(self)@,
    {
        if key_num > 0xf {
            return ;
        }
        self.keyboard.set(key_num as usize, false);
    }

    /// Records that the host redrew the display.
    pub fn was_redrawn(&mut self)
        ensures
            final(self)@ == (State { needs_redraw: false, ..old(self)@ }),
    {
        self.needs_redraw = false;
    }

    /// Whether the display changed since the host last redrew.
    pub fn needs_redraw(&self) -> (b: bool)
        ensures
            b == self@.needs_redraw,
    {
        self.needs_redraw
    }

    /// Sets all the display pixels to off.
    fn clear_screen(&mut self)
        requires
            old(self).wf(),
        ensures
            final(self).wf(),
            final(self)@ == (State { display: blank_display(), ..old(self)@ }),
    {
        let mut i: usize = 0;
        while i < DISPLAY_SIZE
            invariant
                i <= DISPLAY_SIZE,
                self@.display.len() == DISPLAY_SIZE,
                self@ == (State { display: self@.display, ..old(self)@ }),
                forall|j: int| 0 <= j < i ==> !self@.display[j],
            decreases DISPLAY_SIZE - i,
        {
            self.display.set(i, false);
            i += 1;
        }
        assert(self@.display =~= blank_display());
    }

    /// Scans the keypad in key order, writing each pressed key's index to
    /// register `x`; reports whether any key was pressed. The register ends
    /// up holding the highest pressed index, the last one the scan found.
    fn scan_keys(&mut self, x: u8) -> (pressed: bool)
        requires
            old(self).wf(),
            x < NUM_REGISTERS,
        ensures
            final(self).wf(),
            pressed == (last_pressed(old(self)@.keyboard, NUM_KEYS as int) is Some),
            pressed ==> final(self)@ == (State {
                registers: old(self)@.registers.update(
                    x as int,
                    last_pressed(old(self)@.keyboard, NUM_KEYS as int)->Some_0,
                ),
                ..old(self)@
            }),
            !pressed ==> final(self)@ == old(self)@,
    {
        let mut any_pressed = false;
        let mut i: usize = 0;
        while i < NUM_KEYS
            invariant
                old(self).wf(),
                i <= NUM_KEYS,
                x < NUM_REGISTERS,
                self@.keyboard.len() == NUM_KEYS,
                self@.registers.len() == NUM_REGISTERS,
                any_pressed == (last_pressed(old(self)@.keyboard, i as int) is Some),
                any_pressed ==> self@ == (State {
                    registers: old(self)@.registers.update(
                        x as int,
                        last_pressed(old(self)@.keyboard, i as int)->Some_0,
                    ),
                    ..old(self)@
                }),
                !any_pressed ==> self@ == old(self)@,
            decreases NUM_KEYS - i,
        {
            let ghost regs_before = self@.registers;
            if self.keyboard[i] {
                self.registers.set(x as usize, i as u8);
                any_pressed = true;
            }
            proof {
                assert(old(self)@.registers.update(x as int, i as u8) =~= regs_before.update(
                    x as int,
                    i as u8,
                ));
            }
            i += 1;
        }
        any_pressed
    }

    /// Stores registers 0 through `x` to memory at the index register.
    fn store_registers(&mut self, x: u8)
        requires
            old(self).wf(),
            x < NUM_REGISTERS,
            old(self)@.index + x + 1 <= MEMORY_SIZE,
        ensures
            final(self).wf(),
            final(self)@ == (State { memory: stored_registers(old(self)@, x), ..old(self)@ }),
    {
        let base = self.index_register as usize;
        let mut i: usize = 0;
        while i <= x as usize
            invariant
                old(self).wf(),
                i <= x as usize + 1,
                x < NUM_REGISTERS,
                base == old(self)@.index,
                base + x + 1 <= MEMORY_SIZE,
                self@.memory.len() == MEMORY_SIZE,
                self@ == (State { memory: self@.memory, ..old(self)@ }),
                forall|j: int|
                    0 <= j < MEMORY_SIZE ==> self@.memory[j] == (if base <= j < base + i {
                        old(self)@.registers[j - base]
                    } else {
                        old(self)@.memory[j]
                    }),
            decreases x as usize + 1 - i,
        {
            let value = self.registers[i];
            self.memory.set(base + i, value);
            i += 1;
        }
        assert(self@.memory =~= stored_registers(old(self)@, x));
    }

    /// Loads registers 0 through `x` from memory at the index register.
    fn load_registers(&mut self, x: u8)
        requires
            old(self).wf(),
            x < NUM_REGISTERS,
            old(self)@.index + x + 1 <= MEMORY_SIZE,
        ensures
            final(self).wf(),
            final(self)@ == (State { registers: loaded_registers(old(self)@, x), ..old(self)@ }),
    {
        let base = self.index_register as usize;
        let mut i: usize = 0;
        while i <= x as usize
            invariant
                old(self).wf(),
                i <= x as usize + 1,
                x < NUM_REGISTERS,
                base == old(self)@.index,
                base + x + 1 <= MEMORY_SIZE,
                self@.registers.len() == NUM_REGISTERS,
                self@ == (State { registers: self@.registers, ..old(self)@ }),
                forall|j: int|
                    0 <= j < NUM_REGISTERS ==> self@.registers[j] == (if 0 <= j < i {
                        old(self)@.memory[base + j]
                    } else {
                        old(self)@.registers[j]
                    }),
            decreases x as usize + 1 - i,
        {
            let value = self.memory[base + i];
            self.registers.set(i, value);
            i += 1;
        }
        assert(self@.registers =~= loaded_registers(old(self)@, x));
    }

    /// Draws the `n`-row sprite at the index register with its origin at the
    /// coordinates in registers `rx` and `ry`, taken modulo the screen size.
    /// Each sprite bit is XORed into the framebuffer, rows and columns past
    /// the screen edge are clipped, and the flag register reports whether
    /// any lit cell went dark.
    fn draw_sprite(&mut self, rx: u8, ry: u8, n: u8)
        requires
            old(self).wf(),
            rx < NUM_REGISTERS,
            ry < NUM_REGISTERS,
            n < 16,
            old(self)@.index + n <= MEMORY_SIZE,
        ensures
            final(self).wf(),
            final(self)@ == draw_step(old(self)@, rx, ry, n),
    {
        self.needs_redraw = true;
        let x0 = (self.registers[rx as usize] % (SCREEN_WIDTH as u8)) as usize;
        let y0 = (self.registers[ry as usize] % (SCREEN_HEIGHT as u8)) as usize;
        let mut collision = false;
        let mut row: usize = 0;
        while row < n as usize
            invariant
                old(self).wf(),
                row <= n as usize,
                n < 16,
                x0 == old(self)@.registers[rx as int] as int % (SCREEN_WIDTH as int),
                y0 == old(self)@.registers[ry as int] as int % (SCREEN_HEIGHT as int),
                x0 < SCREEN_WIDTH,
                y0 < SCREEN_HEIGHT,
                old(self)@.index + n <= MEMORY_SIZE,
                self@.display.len() == DISPLAY_SIZE,
                self@ == (State { display: self@.display, needs_redraw: true, ..old(self)@ }),
                forall|p: int|
                    0 <= p < DISPLAY_SIZE ==> self@.display[p] == (old(self)@.display[p]
                        != sprite_covers_upto(
                        old(self)@.memory,
                        old(self)@.index,
                        x0 as int,
                        y0 as int,
                        row as int,
                        0,
                        p,
                    )),
                collision == (exists|p: int|
                    0 <= p < DISPLAY_SIZE && old(self)@.display[p] && sprite_covers_upto(
                        old(self)@.memory,
                        old(self)@.index,
                        x0 as int,
                        y0 as int,
                        row as int,
                        0,
                        p,
                    )),
            decreases n as usize - row,
        {
            let pixels = self.memory[self.index_register as usize + row];
            if y0 + row < SCREEN_HEIGHT {
                let mut col: usize = 0;
                while col < 8
                    invariant
                        old(self).wf(),
                        col <= 8,
                        row < n as usize,
                        n < 16,
                        x0 == old(self)@.registers[rx as int] as int % (SCREEN_WIDTH as int),
                        y0 == old(self)@.registers[ry as int] as int % (SCREEN_HEIGHT as int),
                        x0 < SCREEN_WIDTH,
                        y0 < SCREEN_HEIGHT,
                        y0 + row < SCREEN_HEIGHT,
                        old(self)@.index + n <= MEMORY_SIZE,
                        pixels == old(self)@.memory[old(self)@.index + row],
                        self@.display.len() == DISPLAY_SIZE,
                        self@ == (State {
                            display: self@.display,
                            needs_redraw: true,
                            ..old(self)@
                        }),
                        forall|p: int|
                            0 <= p < DISPLAY_SIZE ==> self@.display[p] == (old(self)@.display[p]
                                != sprite_covers_upto(
                                old(self)@.memory,
                                old(self)@.index,
                                x0 as int,
                                y0 as int,
                                row as int,
                                col as int,
                                p,
                            )),
                        collision == (exists|p: int|
                            0 <= p < DISPLAY_SIZE && old(self)@.display[p] && sprite_covers_upto(
                                old(self)@.memory,
                                old(self)@.index,
                                x0 as int,
                                y0 as int,
                                row as int,
                                col as int,
                                p,
                            )),
                    decreases 8 - col,
                {
                    let ghost mem = old(self)@.memory;
                    let ghost index = old(self)@.index;
                    let ghost d0 = old(self)@.display;
                    if x0 + col < SCREEN_WIDTH {
                        let sprite_pixel = (pixels & (0x80u8 >> (col as u8))) != 0;
                        let idx = (y0 + row) * SCREEN_WIDTH + (x0 + col);
                        let current = self.display[idx];
                        proof {
                            lemma_fundamental_div_mod_converse(
                                idx as int,
                                SCREEN_WIDTH as int,
                                (y0 + row) as int,
                                (x0 + col) as int,
                            );
                            assert(!sprite_covers_upto(
                                mem,
                                index,
                                x0 as int,
                                y0 as int,
                                row as int,
                                col as int,
                                idx as int,
                            ));
                            assert(sprite_covers_upto(
                                mem,
                                index,
                                x0 as int,
                                y0 as int,
                                row as int,
                                col as int + 1,
                                idx as int,
                            ) == sprite_bit(pixels, col as int));
                            assert forall|p: int|
                                0 <= p < DISPLAY_SIZE && p != idx implies sprite_covers_upto(
                                mem,
                                index,
                                x0 as int,
                                y0 as int,
                                row as int,
                                col as int + 1,
                                p,
                            ) == sprite_covers_upto(
                                mem,
                                index,
                                x0 as int,
                                y0 as int,
                                row as int,
                                col as int,
                                p,
                            ) by {
                                lemma_fundamental_div_mod(p, SCREEN_WIDTH as int);
                            };
                        }
                        if current && sprite_pixel {
                            collision = true;
                        }
                        self.display.set(idx, current != sprite_pixel);
                        proof {
                            let rowg = row as int;
                            let colg = col as int;
                            if current && sprite_pixel {
                                assert(d0[idx as int] && sprite_covers_upto(
                                    mem,
                                    index,
                                    x0 as int,
                                    y0 as int,
                                    rowg,
                                    colg + 1,
                                    idx as int,
                                ));
                            } else {
                                assert(collision == (exists|p: int|
                                    0 <= p < DISPLAY_SIZE && d0[p] && sprite_covers_upto(
                                        mem,
                                        index,
                                        x0 as int,
                                        y0 as int,
                                        rowg,
                                        colg + 1,
                                        p,
                                    ))) by {
                                    if collision {
                                        let p = choose|p: int|
                                            0 <= p < DISPLAY_SIZE && d0[p] && sprite_covers_upto(
                                                mem,
                                                index,
                                                x0 as int,
                                                y0 as int,
                                                rowg,
                                                colg,
                                                p,
                                            );
                                        assert(sprite_covers_upto(
                                            mem,
                                            index,
                                            x0 as int,
                                            y0 as int,
                                            rowg,
                                            colg + 1,
                                            p,
                                        ));
                                    }
                                    if exists|p: int|
                                        0 <= p < DISPLAY_SIZE && d0[p] && sprite_covers_upto(
                                            mem,
                                            index,
                                            x0 as int,
                                            y0 as int,
                                            rowg,
                                            colg + 1,
                                            p,
                                        ) {
                                        let p = choose|p: int|
                                            0 <= p < DISPLAY_SIZE && d0[p] && sprite_covers_upto(
                                                mem,
                                                index,
                                                x0 as int,
                                                y0 as int,
                                                rowg,
                                                colg + 1,
                                                p,
                                            );
                                        if p == idx as int {
                                            assert(current == d0[idx as int]);
                                            assert(false);
                                        } else {
                                            assert(sprite_covers_upto(
                                                mem,
                                                index,
                                                x0 as int,
                                                y0 as int,
                                                rowg,
                                                colg,
                                                p,
                                            ));
                                        }
                                    }
                                };
                            }
                        }
                    } else {
                        proof {
                            assert forall|p: int| 0 <= p < DISPLAY_SIZE implies sprite_covers_upto(
                                mem,
                                index,
                                x0 as int,
                                y0 as int,
                                row as int,
                                col as int + 1,
                                p,
                            ) == sprite_covers_upto(
                                mem,
                                index,
                                x0 as int,
                                y0 as int,
                                row as int,
                                col as int,
                                p,
                            ) by {
                                assert(p % (SCREEN_WIDTH as int) < SCREEN_WIDTH as int) by {
                                    lemma_fundamental_div_mod(p, SCREEN_WIDTH as int);
                                };
                            };
                        }
                    }
                    col += 1;
                }
                proof {
                    assert forall|p: int| 0 <= p < DISPLAY_SIZE implies sprite_covers_upto(
                        old(self)@.memory,
                        old(self)@.index,
                        x0 as int,
                        y0 as int,
                        row as int,
                        8,
                        p,
                    ) == sprite_covers_upto(
                        old(self)@.memory,
                        old(self)@.index,
                        x0 as int,
                        y0 as int,
                        row as int + 1,
                        0,
                        p,
                    ) by {
                        lemma_fundamental_div_mod(p, SCREEN_WIDTH as int);
                    };
                }
            } else {
                proof {
                    assert forall|p: int| 0 <= p < DISPLAY_SIZE implies sprite_covers_upto(
                        old(self)@.memory,
                        old(self)@.index,
                        x0 as int,
                        y0 as int,
                        row as int,
                        0,
                        p,
                    ) == sprite_covers_upto(
                        old(self)@.memory,
                        old(self)@.index,
                        x0 as int,
                        y0 as int,
                        row as int + 1,
                        0,
                        p,
                    ) by {
                        assert(p / (SCREEN_WIDTH as int) < SCREEN_HEIGHT as int) by {
                            lemma_fundamental_div_mod(p, SCREEN_WIDTH as int);
                        };
                    };
                }
            }
            row += 1;
        }
        if collision {
            self.registers.set(FLAG_REGISTER, 1);
        } else {
            self.registers.set(FLAG_REGISTER, 0);
        }
        proof {
            let s0 = old(self)@;
            let x0g = x0 as int;
            let y0g = y0 as int;
            assert forall|p: int| 0 <= p < DISPLAY_SIZE implies sprite_covers_upto(
                s0.memory,
                s0.index,
                x0g,
                y0g,
                n as int,
                0,
                p,
            ) == sprite_covers(s0.memory, s0.index, x0g, y0g, n as int, p) by {};
            assert(self@.display =~= draw_display(s0.display, s0.memory, s0.index, x0g, y0g, n as int));
            assert(collision == draw_collision(s0.display, s0.memory, s0.index, x0g, y0g, n as int))
                by {
                if collision {
                    let p = choose|p: int|
                        0 <= p < DISPLAY_SIZE && s0.display[p] && sprite_covers_upto(
                            s0.memory,
                            s0.index,
                            x0g,
                            y0g,
                            n as int,
                            0,
                            p,
                        );
                    assert(s0.display[p] && sprite_covers(s0.memory, s0.index, x0g, y0g, n as int, p));
                }
                if draw_collision(s0.display, s0.memory, s0.index, x0g, y0g, n as int) {
                    let p = choose|p: int|
                        0 <= p < s0.display.len() && s0.display[p] && sprite_covers(
                            s0.memory,
                            s0.index,
                            x0g,
                            y0g,
                            n as int,
                            p,
                        );
                    assert(s0.display[p] && sprite_covers_upto(
                        s0.memory,
                        s0.index,
                        x0g,
                        y0g,
                        n as int,
                        0,
                        p,
                    ));
                }
            };
            assert(self@ =~= draw_step(s0, rx, ry, n));
        }
    }

    /// Whether the next `step` stays within bounds: the fetch, the keypad
    /// skips and the opcodes that move data at the index register. A step on
    /// a state where this is false would run off a buffer, which marks a
    /// malformed program; the host checks before stepping and halts.
    pub fn can_step(&self) -> (b: bool)
        requires
            self.wf(),
        ensures
            b == step_safe(self@),
    {
        if self.program_counter as usize >= MEMORY_SIZE - 1 {
            return false;
        }
        let byte1 = self.memory[self.program_counter as usize];
        let byte2 = self.memory[self.program_counter as usize + 1];
        let instruction = decode(byte1, byte2);
        proof {
            lemma_nibble_bounds(byte1);
            lemma_nibble_bounds(byte2);
        }
        match instruction {
            Instruction::Draw(_, _, n) => self.index_register as usize + (n as usize)
                <= MEMORY_SIZE,
            Instruction::SkipIfKey(x) => (self.registers[x as usize] as usize) < NUM_KEYS,
            Instruction::SkipIfNotKey(x) => (self.registers[x as usize] as usize) < NUM_KEYS,
            Instruction::StoreBcd(_) => self.index_register as usize + 3 <= MEMORY_SIZE,
            Instruction::StoreRegisters(x) => self.index_register as usize + (x as usize) + 1
                <= MEMORY_SIZE,
            Instruction::LoadRegisters(x) => self.index_register as usize + (x as usize) + 1
                <= MEMORY_SIZE,
            _ => true,
        }
    }

    /// Goes through the fetch, decode, execute cycle once, with `rand` as
    /// the byte the random opcode masks. The state becomes exactly what the
    /// transition function gives; on a fatal error (`StackUnderflow`,
    /// `UnimplementedOpcode`) the machine is left as it was and the error is
    /// reported.
    #[verifier::rlimit(100)]
    pub fn step_with(&mut self, rand: u8) -> (r: Result<(), Chip8Error>)
        requires
            old(self).wf(),
            step_safe(old(self)@),
        ensures
            final(self).wf(),
            step_post(old(self)@, rand, final(self)@, r),
    {
        let ghost pre = old(self)@;
        let byte1 = self.memory[self.program_counter as usize];
        let byte2 = self.memory[self.program_counter as usize + 1];
        self.program_counter = self.program_counter + 2;
        let ghost adv = State { pc: (pre.pc + 2) as u16, ..pre };
        proof {
            assert(word_add(pre.pc, 2) == (pre.pc + 2) as u16);
            assert(self@ == adv);
            lemma_nibble_bounds(byte1);
            lemma_nibble_bounds(byte2);
        }
        let instruction = decode(byte1, byte2);
        match instruction {
            Instruction::ClearScreen => {
                self.clear_screen();
                self.needs_redraw = true;
            },
            Instruction::Return => {
                match self.stack.pop() {
                    Some(addr) => {
                        self.program_counter = addr;
                    },
                    None => {
                        self.program_counter = self.program_counter - 2;
                        return Err(Chip8Error::StackUnderflow);
                    },
                }
            },
            Instruction::MachineRoutine => {},
            Instruction::Jump(a) => {
                self.program_counter = a;
            },
            Instruction::Call(a) => {
                self.stack.push(self.program_counter);
                self.program_counter = a;
            },
            Instruction::SkipEqImm(x, b) => {
                if self.registers[x as usize] == b {
                    self.program_counter = self.program_counter + 2;
                }
            },
            Instruction::SkipNeImm(x, b) => {
                if self.registers[x as usize] != b {
                    self.program_counter = self.program_counter + 2;
                }
            },
            Instruction::SkipEqReg(x, y) => {
                if self.registers[x as usize] == self.registers[y as usize] {
                    self.program_counter = self.program_counter + 2;
                }
            },
            Instruction::SkipNeReg(x, y) => {
                if self.registers[x as usize] != self.registers[y as usize] {
                    self.program_counter = self.program_counter + 2;
                }
            },
            Instruction::SetImm(x, b) => {
                self.registers.set(x as usize, b);
            },
            Instruction::AddImm(x, b) => {
                let a = self.registers[x as usize];
                let sum: u16 = a as u16 + b as u16;
                self.registers.set(x as usize, (sum % 256) as u8);
            },
            Instruction::Copy(x, y) => {
                let v = self.registers[y as usize];
                self.registers.set(x as usize, v);
            },
            Instruction::Or(x, y) => {
                let v = self.registers[x as usize] | self.registers[y as usize];
                self.registers.set(x as usize, v);
            },
            Instruction::And(x, y) => {
                let v = self.registers[x as usize] & self.registers[y as usize];
                self.registers.set(x as usize, v);
            },
            Instruction::Xor(x, y) => {
                let v = self.registers[x as usize] ^ self.registers[y as usize];
                self.registers.set(x as usize, v);
            },
            Instruction::Add(x, y) => {
                let a = self.registers[x as usize];
                let b = self.registers[y as usize];
                let sum: u16 = a as u16 + b as u16;
                if sum > 255 {
                    self.registers.set(FLAG_REGISTER, 1);
                } else {
                    self.registers.set(FLAG_REGISTER, 0);
                }
                self.registers.set(x as usize, (sum % 256) as u8);
            },
            Instruction::Sub(x, y) => {
                let a = self.registers[x as usize];
                let b = self.registers[y as usize];
                if a >= b {
                    self.registers.set(FLAG_REGISTER, 1);
                } else {
                    self.registers.set(FLAG_REGISTER, 0);
                }
                let diff: u16 = (a as u16 + 256 - b as u16) % 256;
                self.registers.set(x as usize, diff as u8);
            },
            Instruction::ShiftRight(x) => {
                let v = self.registers[x as usize];
                self.registers.set(FLAG_REGISTER, v & 1);
                self.registers.set(x as usize, v >> 1u8);
            },
            Instruction::SubFrom(x, y) => {
                let a = self.registers[x as usize];
                let b = self.registers[y as usize];
                if b >= a {
                    self.registers.set(FLAG_REGISTER, 1);
                } else {
                    self.registers.set(FLAG_REGISTER, 0);
                }
                let diff: u16 = (b as u16 + 256 - a as u16) % 256;
                self.registers.set(x as usize, diff as u8);
            },
            Instruction::ShiftLeft(x) => {
                let v = self.registers[x as usize];
                self.registers.set(FLAG_REGISTER, v >> 7u8);
                self.registers.set(x as usize, v << 1u8);
            },
            Instruction::SetIndex(a) => {
                self.index_register = a;
            },
            Instruction::JumpOffset(a) => {
                proof {
                    lemma_addr_bound(lo_nibble(byte1), hi_nibble(byte2), lo_nibble(byte2));
                }
                self.program_counter = a + self.registers[0] as u16;
            },
            Instruction::Random(x, mask) => {
                let v = rand & mask;
                self.registers.set(x as usize, v);
            },
            Instruction::Draw(rx, ry, n) => {
                self.draw_sprite(rx, ry, n);
            },
            Instruction::SkipIfKey(x) => {
                let key = self.registers[x as usize];
                if self.keyboard[key as usize] {
                    self.program_counter = self.program_counter + 2;
                }
            },
            Instruction::SkipIfNotKey(x) => {
                let key = self.registers[x as usize];
                if !self.keyboard[key as usize] {
                    self.program_counter = self.program_counter + 2;
                }
            },
            Instruction::ReadDelay(x) => {
                let v = self.delay_timer;
                self.registers.set(x as usize, v);
            },
            Instruction::SetDelay(x) => {
                self.delay_timer = self.registers[x as usize];
            },
            Instruction::SetSound(x) => {
                self.sound_timer = self.registers[x as usize];
            },
            Instruction::AddIndex(x) => {
                let sum: u32 = self.index_register as u32 + self.registers[x as usize] as u32;
                self.index_register = (sum % 0x10000) as u16;
            },
            Instruction::WaitKey(x) => {
                let pressed = self.scan_keys(x);
                if !pressed {
                    self.program_counter = self.program_counter - 2;
                }
            },
            Instruction::FontIndex(x) => {
                let digit = self.registers[x as usize] & 0xf;
                proof {
                    lemma_nibble_bounds(self.registers[x as int]);
                }
                self.index_register = FONT_BASE as u16 + (digit as u16) * 5;
            },
            Instruction::StoreBcd(x) => {
                let v = self.registers[x as usize];
                let base = self.index_register as usize;
                self.memory.set(base, v / 100);
                self.memory.set(base + 1, (v / 10) % 10);
                self.memory.set(base + 2, v % 10);
            },
            Instruction::StoreRegisters(x) => {
                self.store_registers(x);
            },
            Instruction::LoadRegisters(x) => {
                self.load_registers(x);
            },
            Instruction::Unknown(n1, n2, n3, n4) => {
                self.program_counter = self.program_counter - 2;
                return Err(Chip8Error::UnimplementedOpcode(n1, n2, n3, n4));
            },
        }
        Ok(())
    }

    /// Goes through the fetch, decode, execute cycle once. The random opcode
    /// masks a byte drawn from the machine's random source, so the state
    /// after a step is what the transition function gives for some byte; for
    /// every other opcode the byte is irrelevant and the step is
    /// deterministic. On a fatal error the machine is left as it was.
    pub fn step(&mut self) -> (r: Result<(), Chip8Error>)
        requires
            old(self).wf(),
            step_safe(old(self)@),
        ensures
            final(self).wf(),
            (exists|rand: u8| step_post(old(self)@, rand, final(self)@, r)),
    {
        let byte1 = self.memory[self.program_counter as usize];
        let rand: u8 = if (byte1 >> 4u8) == 0xc {
            random_byte()
        } else {
            0
        };
        let r = self.step_with(rand);
        proof {
            assert(step_post(old(self)@, rand, self@, r));
        }
        r
    }
}

} // verus!
