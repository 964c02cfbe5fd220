//! The fetch-decode-execute engine. One call to `chip_clk` performs exactly
//! one instruction cycle against the machine state, as the step semantics
//! describe; errors are surfaced per cycle with the machine left untouched,
//! and the driving loop outside the core decides whether to halt or skip.

use vstd::prelude::*;
use crate::display::blank_display;
use crate::display::DisplayBuffer;
use crate::error::ChipError;
use crate::memory::ChipMemory;
use crate::memory::FONT_ROM_STARTING_MEMORY_LOCATION;
use crate::memory::ROM_STARTING_MEMORY_LOCATION;
use crate::rng::RandomNumberGenerator;
use crate::semantics::draw_row;
use crate::semantics::draw_sprite;
use crate::semantics::first_key_from;
use crate::semantics::step;
use crate::semantics::step_alu;
use crate::semantics::step_decoded;
use crate::semantics::step_draw;
use crate::semantics::step_keys;
use crate::semantics::step_misc;
use crate::semantics::step_system;
use crate::semantics::ChipView;

verus! {

/// The interpreter: the machine state it mutates, the pixel grid, the
/// pressed/released key table the translator outside the core writes, and
/// the random byte source. Window, audio and event plumbing live outside.
pub struct ChipEmulator {
    pub mem: ChipMemory,
    pub display: DisplayBuffer,
    pub input: [bool; 16],
    pub rng: RandomNumberGenerator,
}

impl View for ChipEmulator {
    type V = ChipView;

    open spec fn view(&self) -> ChipView {
        ChipView {
            ram: self.mem.ram@,
            pc: self.mem.pc,
            i: self.mem.i,
            stack: self.mem.stack@,
            sp: self.mem.stack_ptr as int,
            delay: self.mem.timers.delay,
            sound: self.mem.timers.sound,
            regs: self.mem.registers@,
            display: self.display@,
            keys: self.input@,
            rng: self.rng.state,
        }
    }
}

impl ChipEmulator {
    pub open spec fn wf(&self) -> bool {
        self.mem.wf()
    }

    /// A fresh machine around already-built memory: blank display, no key
    /// pressed, and the random source on its fixed fallback seed until the
    /// driving program reseeds it.
    pub fn new(mem: ChipMemory) -> (emu: ChipEmulator)
        requires
            mem.wf(),
        ensures
            emu.wf(),
            emu.mem == mem,
            emu@.display == crate::display::blank_display(),
            emu@.keys == Seq::new(16, |k: int| false),
            emu@.rng == 4u32,
    {
        let emu = ChipEmulator {
            mem,
            display: DisplayBuffer::new(),
            input: [false; 16],
            rng: RandomNumberGenerator::new(4),
        };
        proof {
            assert(emu.input@ =~= Seq::new(16, |k: int| false));
        }
        emu
    }

    /// Copy a program image into memory starting at the program space and
    /// point the program counter there. An image longer than the program
    /// space is refused outright instead of spilling past the end of memory.
    pub fn load_rom(&mut self, rom: &[u8]) -> (r: Result<(), ChipError>)
        requires
            old(self).wf(),
        ensures
            final(self).wf(),
            rom@.len() <= 3584 ==> (r matches Ok(())
                && final(self)@ == (ChipView {
                    ram: Seq::new(
                        4096,
                        |a: int|
                            if 0x200 <= a < 0x200 + rom@.len() {
                                rom@[a - 0x200]
                            } else {
                                old(self)@.ram[a]
                            },
                    ),
                    pc: 0x200u16,
                    ..old(self)@
                })),
            rom@.len() > 3584 ==> (r matches Err(e)
                && e == ChipError::RomTooLarge
                && final(self)@ == old(self)@),
    {
        if rom.len() > 3584 {
            return Err(ChipError::RomTooLarge);
        }
        let ghost pre = *self;
        let n = rom.len();
        let mut k: usize = 0;
        while k < n
            invariant
                n == rom@.len(),
                n <= 3584,
                k <= n,
                self.mem.stack_ptr == pre.mem.stack_ptr,
                self.mem.wf(),
                self.mem.pc == pre.mem.pc,
                self.mem.i == pre.mem.i,
                self.mem.stack == pre.mem.stack,
                self.mem.timers == pre.mem.timers,
                self.mem.registers == pre.mem.registers,
                self.display == pre.display,
                self.input == pre.input,
                self.rng == pre.rng,
                forall|a: int|
                    0 <= a < 4096 ==> self.mem.ram@[a] == (if 0x200 <= a < 0x200 + k {
                        rom@[a - 0x200]
                    } else {
                        pre.mem.ram@[a]
                    }),
            decreases n - k,
        {
            self.mem.ram[ROM_STARTING_MEMORY_LOCATION + k] = rom[k];
            k += 1;
        }
        self.mem.pc = 0x200;
        proof {
            assert(self@ =~= (ChipView {
                ram: Seq::new(
                    4096,
                    |a: int|
                        if 0x200 <= a < 0x200 + rom@.len() {
                            rom@[a - 0x200]
                        } else {
                            old(self)@.ram[a]
                        },
                ),
                pc: 0x200u16,
                ..old(self)@
            }));
        }
        Ok(())
    }

    /// One fetch-decode-execute cycle: fetch at the program counter,
    /// advance it by two, and execute the decoded opcode, exactly as the
    /// step semantics describe. On an error the machine is left as it was
    /// before the call.
    pub fn chip_clk(&mut self) -> (r: Result<(), ChipError>)
        requires
            old(self).wf(),
        ensures
            final(self).wf(),
            (match r {
                Ok(()) => step(old(self)@) == Ok::<ChipView, ChipError>(final(self)@),
                Err(e) => step(old(self)@) == Err::<ChipView, ChipError>(e) && final(self)@
                    == old(self)@,
            }),
    {
        let instruction = match self.mem.get_instruction() {
            Ok(ins) => ins,
            Err(e) => {
                return Err(e);
            },
        };
        let b0 = instruction.val[0];
        let b1 = instruction.val[1];
        proof {
            assert(self@ =~= (ChipView { pc: (old(self)@.pc + 2) as u16, ..old(self)@ }));
        }
        let res = self.step_instruction(b0, b1);
        match res {
            Ok(()) => Ok(()),
            Err(e) => {
                self.mem.pc = self.mem.pc - 2;
                proof {
                    assert(self@ =~= old(self)@);
                }
                Err(e)
            },
        }
    }

    /// Dispatch one decoded instruction on its opcode group.
    fn step_instruction(&mut self, b0: u8, b1: u8) -> (r: Result<(), ChipError>)
        requires
            old(self).wf(),
            old(self).mem.pc <= 4096,
        ensures
            final(self).wf(),
            (match r {
                Ok(()) => step_decoded(old(self)@, b0, b1) == Ok::<ChipView, ChipError>(
                    final(self)@,
                ),
                Err(e) => step_decoded(old(self)@, b0, b1) == Err::<ChipView, ChipError>(e)
                    && final(self)@ == old(self)@,
            }),
    {
        proof {
            crate::instruction::lemma_nibble_bounds(b0, b1);
        }
        let x = (b0 & 0x0F) as usize;
        let y = ((b1 & 0xF0) >> 4) as usize;
        let nn = b1;
        let nnn = (b0 & 0x0F) as u16 * 256 + b1 as u16;
        match b0 & 0xF0 {
            0x00 => self.op_system(b0, b1),
            0x10 => {
                self.mem.pc = nnn;
                Ok(())
            },
            0x20 => {
                if self.mem.stack_ptr >= 32 {
                    return Err(ChipError::StackOverflow);
                }
                self.mem.stack[self.mem.stack_ptr] = self.mem.pc;
                self.mem.stack_ptr += 1;
                self.mem.pc = nnn;
                Ok(())
            },
            0x30 => {
                if self.mem.registers[x] == nn {
                    self.mem.pc += 2;
                }
                Ok(())
            },
            0x40 => {
                if self.mem.registers[x] != nn {
                    self.mem.pc += 2;
                }
                Ok(())
            },
            0x50 => {
                if self.mem.registers[x] == self.mem.registers[y] {
                    self.mem.pc += 2;
                }
                Ok(())
            },
            0x60 => {
                self.mem.registers[x] = nn;
                Ok(())
            },
            0x70 => {
                self.mem.registers[x] = self.mem.registers[x].wrapping_add(nn);
                Ok(())
            },
            0x80 => self.op_alu(b0, b1),
            0x90 => {
                if self.mem.registers[x] != self.mem.registers[y] {
                    self.mem.pc += 2;
                }
                Ok(())
            },
            0xA0 => {
                self.mem.i = nnn;
                Ok(())
            },
            0xB0 => {
                self.mem.pc = nnn + self.mem.registers[0] as u16;
                Ok(())
            },
            0xC0 => {
                let rb = self.rng.next();
                self.mem.registers[x] = nn & rb;
                Ok(())
            },
            0xD0 => self.op_draw(b0, b1),
            0xE0 => self.op_keys(b0, b1),
            _ => self.op_misc(b0, b1),
        }
    }

    /// Group 0x0: clear the display, or return from a subroutine.
    fn op_system(&mut self, b0: u8, b1: u8) -> (r: Result<(), ChipError>)
        requires
            old(self).wf(),
        ensures
            final(self).wf(),
            (match r {
                Ok(()) => step_system(old(self)@, b0, b1) == Ok::<ChipView, ChipError>(
                    final(self)@,
                ),
                Err(e) => step_system(old(self)@, b0, b1) == Err::<ChipView, ChipError>(e)
                    && final(self)@ == old(self)@,
            }),
    {
        if b1 == 0xE0 {
            self.display.clear_display();
            proof {
                assert(self@ =~= (ChipView { display: blank_display(), ..old(self)@ }));
            }
            Ok(())
        } else if b1 == 0xEE {
            if self.mem.stack_ptr == 0 {
                return Err(ChipError::StackUnderflow);
            }
            self.mem.pc = self.mem.stack[self.mem.stack_ptr - 1];
            self.mem.stack_ptr = self.mem.stack_ptr - 1;
            proof {
                assert(self@ =~= (ChipView {
                    pc: old(self)@.stack[old(self)@.sp - 1],
                    sp: old(self)@.sp - 1,
                    ..old(self)@
                }));
            }
            Ok(())
        } else {
            Err(ChipError::UnknownOpcode { b0, b1 })
        }
    }

    /// Group 0x8: moves, bitwise operations, add/subtract with flags, and
    /// the two shifts.
    fn op_alu(&mut self, b0: u8, b1: u8) -> (r: Result<(), ChipError>)
        requires
            old(self).wf(),
        ensures
            final(self).wf(),
            (match r {
                Ok(()) => step_alu(old(self)@, b0, b1) == Ok::<ChipView, ChipError>(final(self)@),
                Err(e) => step_alu(old(self)@, b0, b1) == Err::<ChipView, ChipError>(e)
                    && final(self)@ == old(self)@,
            }),
    {
        proof {
            crate::instruction::lemma_nibble_bounds(b0, b1);
        }
        let x = (b0 & 0x0F) as usize;
        let y = ((b1 & 0xF0) >> 4) as usize;
        let rx = self.mem.registers[x];
        let ry = self.mem.registers[y];
        match b1 & 0x0F {
            0x0 => {
                self.mem.registers[x] = ry;
                Ok(())
            },
            0x1 => {
                self.mem.registers[x] = rx | ry;
                Ok(())
            },
            0x2 => {
                self.mem.registers[x] = rx & ry;
                Ok(())
            },
            0x3 => {
                self.mem.registers[x] = rx ^ ry;
                Ok(())
            },
            0x4 => {
                let carry = (rx as u16 + ry as u16) > 255;
                self.mem.registers[x] = rx.wrapping_add(ry);
                self.mem.registers[15] = if carry {
                    0x1
                } else {
                    0x0
                };
                Ok(())
            },
            0x5 => {
                self.mem.registers[x] = rx.wrapping_sub(ry);
                self.mem.registers[15] = if rx >= ry {
                    0x1
                } else {
                    0x0
                };
                Ok(())
            },
            0x7 => {
                self.mem.registers[x] = ry.wrapping_sub(rx);
                self.mem.registers[15] = if ry >= rx {
                    0x1
                } else {
                    0x0
                };
                Ok(())
            },
            0x6 => {
                self.mem.registers[x] = ry >> 1u8;
                self.mem.registers[15] = if (ry & 0x1) == 1 {
                    0x1
                } else {
                    0x0
                };
                Ok(())
            },
            0xE => {
                self.mem.registers[x] = ry << 1u8;
                self.mem.registers[15] = if (ry & 0x80) == 0 {
                    0x0
                } else {
                    0x1
                };
                Ok(())
            },
            _ => Err(ChipError::UnknownOpcode { b0, b1 }),
        }
    }

    /// Group 0xE: skip on the pressed state of the key named by register X.
    fn op_keys(&mut self, b0: u8, b1: u8) -> (r: Result<(), ChipError>)
        requires
            old(self).wf(),
            old(self).mem.pc <= 4096,
        ensures
            final(self).wf(),
            (match r {
                Ok(()) => step_keys(old(self)@, b0, b1) == Ok::<ChipView, ChipError>(final(self)@),
                Err(e) => step_keys(old(self)@, b0, b1) == Err::<ChipView, ChipError>(e)
                    && final(self)@ == old(self)@,
            }),
    {
        proof {
            crate::instruction::lemma_nibble_bounds(b0, b1);
        }
        let x = (b0 & 0x0F) as usize;
        let key = self.mem.registers[x];
        let pressed = if (key as usize) < 16 {
            self.input[key as usize]
        } else {
            false
        };
        if b1 == 0x9E {
            if pressed {
                self.mem.pc += 2;
            }
            Ok(())
        } else if b1 == 0xA1 {
            if !pressed {
                self.mem.pc += 2;
            }
            Ok(())
        } else {
            Err(ChipError::UnknownOpcode { b0, b1 })
        }
    }

    /// Group 0xF: timers, index arithmetic, font lookup, decimal
    /// decomposition, register dump/load, and the key-wait retry.
    fn op_misc(&mut self, b0: u8, b1: u8) -> (r: Result<(), ChipError>)
        requires
            old(self).wf(),
        ensures
            final(self).wf(),
            (match r {
                Ok(()) => step_misc(old(self)@, b0, b1) == Ok::<ChipView, ChipError>(final(self)@),
                Err(e) => step_misc(old(self)@, b0, b1) == Err::<ChipView, ChipError>(e)
                    && final(self)@ == old(self)@,
            }),
    {
        proof {
            crate::instruction::lemma_nibble_bounds(b0, b1);
        }
        let x = (b0 & 0x0F) as usize;
        let rx = self.mem.registers[x];
        if b1 == 0x07 {
            self.mem.registers[x] = self.mem.timers.delay;
            Ok(())
        } else if b1 == 0x15 {
            self.mem.timers.delay = rx;
            Ok(())
        } else if b1 == 0x18 {
            self.mem.timers.sound = rx;
            Ok(())
        } else if b1 == 0x1E {
            self.mem.i = self.mem.i.wrapping_add(rx as u16);
            Ok(())
        } else if b1 == 0x55 {
            let base = self.mem.i as usize;
            if base + x >= 4096 {
                return Err(ChipError::MemoryOutOfBounds);
            }
            let ghost pre = *self;
            let mut k: usize = 0;
            while k < x + 1
                invariant
                    x < 16,
                    k <= x + 1,
                    base + x < 4096,
                    base == pre.mem.i as usize,
                    self.mem.pc == pre.mem.pc,
                    self.mem.i == pre.mem.i,
                    self.mem.stack == pre.mem.stack,
                    self.mem.stack_ptr == pre.mem.stack_ptr,
                    self.mem.timers == pre.mem.timers,
                    self.mem.registers == pre.mem.registers,
                    self.display == pre.display,
                    self.input == pre.input,
                    self.rng == pre.rng,
                    forall|a: int|
                        0 <= a < 4096 ==> self.mem.ram@[a] == (if base <= a < base + k {
                            pre.mem.registers@[a - base]
                        } else {
                            pre.mem.ram@[a]
                        }),
                decreases x + 1 - k,
            {
                self.mem.ram[base + k] = self.mem.registers[k];
                k += 1;
            }
            proof {
                assert(self@ =~= (ChipView {
                    ram: Seq::new(
                        4096,
                        |a: int|
                            if old(self)@.i <= a <= old(self)@.i + x {
                                old(self)@.regs[a - old(self)@.i]
                            } else {
                                old(self)@.ram[a]
                            },
                    ),
                    ..old(self)@
                }));
            }
            Ok(())
        } else if b1 == 0x65 {
            let base = self.mem.i as usize;
            if base + x >= 4096 {
                return Err(ChipError::MemoryOutOfBounds);
            }
            let ghost pre = *self;
            let mut k: usize = 0;
            while k < x + 1
                invariant
                    x < 16,
                    k <= x + 1,
                    base + x < 4096,
                    base == pre.mem.i as usize,
                    self.mem.pc == pre.mem.pc,
                    self.mem.i == pre.mem.i,
                    self.mem.stack == pre.mem.stack,
                    self.mem.stack_ptr == pre.mem.stack_ptr,
                    self.mem.timers == pre.mem.timers,
                    self.mem.ram == pre.mem.ram,
                    self.display == pre.display,
                    self.input == pre.input,
                    self.rng == pre.rng,
                    forall|j: int|
                        0 <= j < 16 ==> self.mem.registers@[j] == (if j < k {
                            pre.mem.ram@[base + j]
                        } else {
                            pre.mem.registers@[j]
                        }),
                decreases x + 1 - k,
            {
                self.mem.registers[k] = self.mem.ram[base + k];
                k += 1;
            }
            proof {
                assert(self@ =~= (ChipView {
                    regs: Seq::new(
                        16,
                        |j: int|
                            if j <= x {
                                old(self)@.ram[old(self)@.i + j]
                            } else {
                                old(self)@.regs[j]
                            },
                    ),
                    ..old(self)@
                }));
            }
            Ok(())
        } else if b1 == 0x33 {
            let base = self.mem.i as usize;
            if base + 2 >= 4096 {
                return Err(ChipError::MemoryOutOfBounds);
            }
            self.mem.ram[base] = rx / 100;
            self.mem.ram[base + 1] = (rx % 100) / 10;
            self.mem.ram[base + 2] = rx % 10;
            Ok(())
        } else if b1 == 0x0A {
            let ghost pre = *self;
            let mut pressed_key: u8 = 0;
            let mut found: bool = false;
            let mut k: usize = 0;
            while !found && k < 16
                invariant
                    k <= 16,
                    *self == pre,
                    !found ==> first_key_from(pre@.keys, k as int) == first_key_from(pre@.keys, 0),
                    found ==> first_key_from(pre@.keys, 0) == Some(pressed_key),
                decreases 16 - k, (if found { 0int } else { 1int }),
            {
                if self.input[k] {
                    found = true;
                    pressed_key = k as u8;
                } else {
                    k += 1;
                }
            }
            if !found {
                self.mem.pc = self.mem.pc.wrapping_sub(2);
            } else {
                self.mem.registers[x] = pressed_key;
            }
            Ok(())
        } else if b1 == 0x29 {
            self.mem.i = (FONT_ROM_STARTING_MEMORY_LOCATION + 5 * (rx as usize)) as u16;
            Ok(())
        } else {
            Err(ChipError::UnknownOpcode { b0, b1 })
        }
    }

    /// Group 0xD: the XOR sprite draw with edge clipping and the collision
    /// flag in register 15.
    fn op_draw(&mut self, b0: u8, b1: u8) -> (r: Result<(), ChipError>)
        requires
            old(self).wf(),
        ensures
            final(self).wf(),
            (match r {
                Ok(()) => step_draw(old(self)@, b0, b1) == Ok::<ChipView, ChipError>(final(self)@),
                Err(e) => step_draw(old(self)@, b0, b1) == Err::<ChipView, ChipError>(e)
                    && final(self)@ == old(self)@,
            }),
    {
        proof {
            crate::instruction::lemma_nibble_bounds(b0, b1);
            assert((b1 & 0x0F) < 16) by (bit_vector);
        }
        let x = (b0 & 0x0F) as usize;
        let y = ((b1 & 0xF0) >> 4) as usize;
        let n = (b1 & 0x0F) as usize;
        let x0 = (self.mem.registers[x] % 64) as usize;
        let y0 = (self.mem.registers[y] % 32) as usize;
        let rows = if n <= 32 - y0 {
            n
        } else {
            32 - y0
        };
        let base = self.mem.i as usize;
        if rows > 0 && base + rows > 4096 {
            return Err(ChipError::MemoryOutOfBounds);
        }
        let ghost pre = *self;
        let mut collision: bool = false;
        let mut yi: usize = 0;
        while yi < rows
            invariant
                yi <= rows,
                rows <= 32,
                x0 < 64,
                y0 < 32,
                y0 + rows <= 32,
                rows > 0 ==> base + rows <= 4096,
                base == pre.mem.i as usize,
                self.mem == pre.mem,
                self.input == pre.input,
                self.rng == pre.rng,
                self.display@.len() == 2048,
                draw_sprite(
                    self.display@,
                    pre.mem.ram@,
                    base as int,
                    x0 as int,
                    y0 as int,
                    rows as int,
                    yi as int,
                    collision,
                ) == draw_sprite(
                    pre@.display,
                    pre.mem.ram@,
                    base as int,
                    x0 as int,
                    y0 as int,
                    rows as int,
                    0,
                    false,
                ),
            decreases rows - yi,
        {
            let sprite_data = self.mem.ram[base + yi];
            let ghost row_start_disp = self.display@;
            let ghost row_start_hit = collision;
            let mut xi: usize = 0;
            while xi < 8 && x0 + xi < 64
                invariant
                    xi <= 8,
                    x0 < 64,
                    y0 < 32,
                    yi < rows,
                    y0 + rows <= 32,
                    self.mem == pre.mem,
                    self.input == pre.input,
                    self.rng == pre.rng,
                    self.display@.len() == 2048,
                    draw_row(
                        self.display@,
                        sprite_data,
                        x0 as int,
                        (y0 + yi) as int,
                        xi as int,
                        collision,
                    ) == draw_row(
                        row_start_disp,
                        sprite_data,
                        x0 as int,
                        (y0 + yi) as int,
                        0,
                        row_start_hit,
                    ),
                decreases 8 - xi,
            {
                let on = (sprite_data << (xi as u8)) & 0x80 == 0x80;
                if on {
                    let cur = self.display.get_display_at_location(x0 + xi, y0 + yi);
                    if cur {
                        self.display.set_display_at_location(x0 + xi, y0 + yi, false);
                        collision = true;
                    } else {
                        self.display.set_display_at_location(x0 + xi, y0 + yi, true);
                    }
                }
                xi += 1;
            }
            yi += 1;
        }
        self.mem.registers[15] = if collision {
            0x1
        } else {
            0x0
        };
        proof {
            let res = draw_sprite(
                old(self)@.display,
                old(self)@.ram,
                old(self)@.i as int,
                x0 as int,
                y0 as int,
                rows as int,
                0,
                false,
            );
            assert(self@ =~= (ChipView {
                display: res.0,
                regs: old(self)@.regs.update(15, if res.1 { 1u8 } else { 0u8 }),
                ..old(self)@
            }));
        }
        Ok(())
    }
}

} // verus!
