//! The mathematical small-step semantics of the machine: what one
//! fetch-decode-execute cycle does to the whole machine state. The engine's
//! contract says that each call performs exactly one of these steps.

use vstd::prelude::*;
use vstd::wrapping::u8_specs;
use vstd::wrapping::u16_specs;
use crate::display::blank_display;
use crate::error::ChipError;
use crate::instruction::spec_first_nibble;
use crate::instruction::spec_second_nibble;
use crate::instruction::spec_third_nibble;
use crate::instruction::spec_nnn;
use crate::rng::xorshift_step;

verus! {

/// The whole machine as mathematical values: memory, registers, program
/// counter, index register, call stack and its pointer, the two timers, the
/// pixel grid, the 16-key table, and the random source's state word.
#[verifier::ext_equal]
pub struct ChipView {
    pub ram: Seq<u8>,
    pub pc: u16,
    pub i: u16,
    pub stack: Seq<u16>,
    pub sp: int,
    pub delay: u8,
    pub sound: u8,
    pub regs: Seq<u8>,
    pub display: Seq<bool>,
    pub keys: Seq<bool>,
    pub rng: u32,
}

/// Advance the program counter by one further instruction when `cond` holds:
/// the conditional-skip family.
pub open spec fn skip_if(m: ChipView, cond: bool) -> ChipView {
    ChipView { pc: if cond { (m.pc + 2) as u16 } else { m.pc }, ..m }
}

/// Whether sprite column `xi` (0 is the leftmost) of a sprite row byte is on.
pub open spec fn sprite_bit(byte: u8, xi: int) -> bool {
    ((byte << (xi as u8)) & 0x80) == 0x80
}

/// XOR-merge the columns of one sprite row byte into the grid, from column
/// `xi` rightwards, clipping at the right display edge. Returns the new grid
/// and whether a collision (an on-pixel cleared) has happened, folding in the
/// collisions `hit` seen so far.
pub open spec fn draw_row(disp: Seq<bool>, byte: u8, x0: int, y: int, xi: int, hit: bool) -> (
    Seq<bool>,
    bool,
)
    decreases 8 - xi,
{
    if xi < 0 || xi >= 8 || x0 + xi >= 64 {
        (disp, hit)
    } else {
        let idx = 64 * y + x0 + xi;
        if sprite_bit(byte, xi) {
            if disp[idx] {
                draw_row(disp.update(idx, false), byte, x0, y, xi + 1, true)
            } else {
                draw_row(disp.update(idx, true), byte, x0, y, xi + 1, hit)
            }
        } else {
            draw_row(disp, byte, x0, y, xi + 1, hit)
        }
    }
}

/// XOR-merge sprite rows `yi` to `rows` into the grid, reading row bytes at
/// `base` in memory. Rows past `rows` are clipped at the bottom display edge.
pub open spec fn draw_sprite(
    disp: Seq<bool>,
    ram: Seq<u8>,
    base: int,
    x0: int,
    y0: int,
    rows: int,
    yi: int,
    hit: bool,
) -> (Seq<bool>, bool)
    decreases rows - yi,
{
    if yi >= rows {
        (disp, hit)
    } else {
        let row = draw_row(disp, ram[base + yi], x0, y0 + yi, 0, hit);
        draw_sprite(row.0, ram, base, x0, y0, rows, yi + 1, row.1)
    }
}

/// The lowest-numbered pressed key at or after index `k`, if any.
pub open spec fn first_key_from(keys: Seq<bool>, k: int) -> Option<u8>
    decreases 16 - k,
{
    if k < 0 || k >= 16 {
        None
    } else if keys[k] {
        Some(k as u8)
    } else {
        first_key_from(keys, k + 1)
    }
}

/// Group 0x0: clear the display, or return from a subroutine. A return with
/// nothing on the call stack is reported, not silently ignored.
pub open spec fn step_system(m: ChipView, b0: u8, b1: u8) -> Result<ChipView, ChipError> {
    if b1 == 0xE0 {
        Ok(ChipView { display: blank_display(), ..m })
    } else if b1 == 0xEE {
        if m.sp == 0 {
            Err(ChipError::StackUnderflow)
        } else {
            Ok(ChipView { pc: m.stack[m.sp - 1], sp: m.sp - 1, ..m })
        }
    } else {
        Err(ChipError::UnknownOpcode { b0, b1 })
    }
}

/// Group 0x8: register-to-register moves, bitwise operations, wrapping
/// adds and subtracts with their carry/borrow flags, and the two shifts,
/// which first copy register Y and report the shifted-out bit. The flag
/// write lands last, so register 15 as X or Y still ends up with the flag.
pub open spec fn step_alu(m: ChipView, b0: u8, b1: u8) -> Result<ChipView, ChipError> {
    let x = spec_second_nibble(b0) as int;
    let y = spec_third_nibble(b1) as int;
    let rx = m.regs[x];
    let ry = m.regs[y];
    let sub = b1 & 0x0F;
    if sub == 0x0 {
        Ok(ChipView { regs: m.regs.update(x, ry), ..m })
    } else if sub == 0x1 {
        Ok(ChipView { regs: m.regs.update(x, rx | ry), ..m })
    } else if sub == 0x2 {
        Ok(ChipView { regs: m.regs.update(x, rx & ry), ..m })
    } else if sub == 0x3 {
        Ok(ChipView { regs: m.regs.update(x, rx ^ ry), ..m })
    } else if sub == 0x4 {
        let carry: u8 = if rx + ry > 255 {
            1
        } else {
            0
        };
        Ok(ChipView { regs: m.regs.update(x, u8_specs::wrapping_add(rx, ry)).update(15, carry), ..m })
    } else if sub == 0x5 {
        let no_borrow: u8 = if rx >= ry {
            1
        } else {
            0
        };
        Ok(
            ChipView {
                regs: m.regs.update(x, u8_specs::wrapping_sub(rx, ry)).update(15, no_borrow),
                ..m
            },
        )
    } else if sub == 0x7 {
        let no_borrow: u8 = if ry >= rx {
            1
        } else {
            0
        };
        Ok(
            ChipView {
                regs: m.regs.update(x, u8_specs::wrapping_sub(ry, rx)).update(15, no_borrow),
                ..m
            },
        )
    } else if sub == 0x6 {
        let out_bit: u8 = if (ry & 1) == 1 {
            1
        } else {
            0
        };
        Ok(ChipView { regs: m.regs.update(x, ry >> 1u8).update(15, out_bit), ..m })
    } else if sub == 0xE {
        let out_bit: u8 = if (ry & 0x80) == 0 {
            0
        } else {
            1
        };
        Ok(ChipView { regs: m.regs.update(x, ry << 1u8).update(15, out_bit), ..m })
    } else {
        Err(ChipError::UnknownOpcode { b0, b1 })
    }
}

/// Group 0xD: draw an N-row sprite read from memory at the index register,
/// at (register X mod 64, register Y mod 32), XOR-merging pixels and
/// reporting a collision in register 15. Rows and columns past the display
/// edges are clipped, not wrapped; a sprite row that would be read from
/// outside memory is reported and changes nothing.
pub open spec fn step_draw(m: ChipView, b0: u8, b1: u8) -> Result<ChipView, ChipError> {
    let x = spec_second_nibble(b0) as int;
    let y = spec_third_nibble(b1) as int;
    let n = (b1 & 0x0F) as int;
    let x0 = (m.regs[x] % 64) as int;
    let y0 = (m.regs[y] % 32) as int;
    let rows = if n <= 32 - y0 {
        n
    } else {
        32 - y0
    };
    if rows > 0 && m.i + rows > 4096 {
        Err(ChipError::MemoryOutOfBounds)
    } else {
        let res = draw_sprite(m.display, m.ram, m.i as int, x0, y0, rows, 0, false);
        Ok(
            ChipView {
                display: res.0,
                regs: m.regs.update(15, if res.1 { 1u8 } else { 0u8 }),
                ..m
            },
        )
    }
}

/// Group 0xE: skip the next instruction according to whether the key named
/// by register X is pressed. A register value outside the 16-key table
/// counts as not pressed.
pub open spec fn step_keys(m: ChipView, b0: u8, b1: u8) -> Result<ChipView, ChipError> {
    let x = spec_second_nibble(b0) as int;
    let key = m.regs[x] as int;
    let pressed = key < 16 && m.keys[key];
    if b1 == 0x9E {
        Ok(skip_if(m, pressed))
    } else if b1 == 0xA1 {
        Ok(skip_if(m, !pressed))
    } else {
        Err(ChipError::UnknownOpcode { b0, b1 })
    }
}

/// Group 0xF: timer reads and writes, index-register arithmetic, the font
/// lookup, decimal decomposition, register dumps and loads, and the
/// key-wait that re-issues itself by rewinding the program counter. Memory
/// writes and reads steered by the index register are bounds-checked and
/// reported rather than wrapped.
pub open spec fn step_misc(m: ChipView, b0: u8, b1: u8) -> Result<ChipView, ChipError> {
    let x = spec_second_nibble(b0) as int;
    let rx = m.regs[x];
    if b1 == 0x07 {
        Ok(ChipView { regs: m.regs.update(x, m.delay), ..m })
    } else if b1 == 0x15 {
        Ok(ChipView { delay: rx, ..m })
    } else if b1 == 0x18 {
        Ok(ChipView { sound: rx, ..m })
    } else if b1 == 0x1E {
        Ok(ChipView { i: u16_specs::wrapping_add(m.i, rx as u16), ..m })
    } else if b1 == 0x55 {
        if m.i + x >= 4096 {
            Err(ChipError::MemoryOutOfBounds)
        } else {
            Ok(
                ChipView {
                    ram: Seq::new(
                        4096,
                        |a: int|
                            if m.i <= a <= m.i + x {
                                m.regs[a - m.i]
                            } else {
                                m.ram[a]
                            },
                    ),
                    ..m
                },
            )
        }
    } else if b1 == 0x65 {
        if m.i + x >= 4096 {
            Err(ChipError::MemoryOutOfBounds)
        } else {
            Ok(
                ChipView {
                    regs: Seq::new(
                        16,
                        |k: int|
                            if k <= x {
                                m.ram[m.i + k]
                            } else {
                                m.regs[k]
                            },
                    ),
                    ..m
                },
            )
        }
    } else if b1 == 0x33 {
        if m.i + 2 >= 4096 {
            Err(ChipError::MemoryOutOfBounds)
        } else {
            Ok(
                ChipView {
                    ram: m.ram.update(m.i as int, (rx / 100) as u8).update(
                        m.i + 1,
                        ((rx % 100) / 10) as u8,
                    ).update(m.i + 2, (rx % 10) as u8),
                    ..m
                },
            )
        }
    } else if b1 == 0x0A {
        match first_key_from(m.keys, 0) {
            None => Ok(ChipView { pc: u16_specs::wrapping_sub(m.pc, 2), ..m }),
            Some(k) => Ok(ChipView { regs: m.regs.update(x, k), ..m }),
        }
    } else if b1 == 0x29 {
        Ok(ChipView { i: (0x50 + 5 * rx) as u16, ..m })
    } else {
        Err(ChipError::UnknownOpcode { b0, b1 })
    }
}

/// Dispatch one decoded instruction against the machine with its program
/// counter already advanced past the fetched bytes.
pub open spec fn step_decoded(m: ChipView, b0: u8, b1: u8) -> Result<ChipView, ChipError> {
    let x = spec_second_nibble(b0) as int;
    let y = spec_third_nibble(b1) as int;
    let nn = b1;
    let nnn = spec_nnn(b0, b1);
    let group = spec_first_nibble(b0);
    if group == 0x00 {
        step_system(m, b0, b1)
    } else if group == 0x10 {
        Ok(ChipView { pc: nnn, ..m })
    } else if group == 0x20 {
        if m.sp >= 32 {
            Err(ChipError::StackOverflow)
        } else {
            Ok(ChipView { stack: m.stack.update(m.sp, m.pc), sp: m.sp + 1, pc: nnn, ..m })
        }
    } else if group == 0x30 {
        Ok(skip_if(m, m.regs[x] == nn))
    } else if group == 0x40 {
        Ok(skip_if(m, m.regs[x] != nn))
    } else if group == 0x50 {
        Ok(skip_if(m, m.regs[x] == m.regs[y]))
    } else if group == 0x60 {
        Ok(ChipView { regs: m.regs.update(x, nn), ..m })
    } else if group == 0x70 {
        Ok(ChipView { regs: m.regs.update(x, u8_specs::wrapping_add(m.regs[x], nn)), ..m })
    } else if group == 0x80 {
        step_alu(m, b0, b1)
    } else if group == 0x90 {
        Ok(skip_if(m, m.regs[x] != m.regs[y]))
    } else if group == 0xA0 {
        Ok(ChipView { i: nnn, ..m })
    } else if group == 0xB0 {
        Ok(ChipView { pc: (nnn + m.regs[0]) as u16, ..m })
    } else if group == 0xC0 {
        let s2 = xorshift_step(m.rng);
        Ok(ChipView { rng: s2, regs: m.regs.update(x, nn & (s2 as u8)), ..m })
    } else if group == 0xD0 {
        step_draw(m, b0, b1)
    } else if group == 0xE0 {
        step_keys(m, b0, b1)
    } else {
        step_misc(m, b0, b1)
    }
}

/// One whole cycle: fetch the two bytes at the program counter, advance it
/// by two, and execute. A fetch from outside memory is reported with the
/// machine unchanged.
pub open spec fn step(v: ChipView) -> Result<ChipView, ChipError> {
    if v.pc >= 4095 {
        Err(ChipError::MemoryOutOfBounds)
    } else {
        let b0 = v.ram[v.pc as int];
        let b1 = v.ram[v.pc as int + 1];
        step_decoded(ChipView { pc: (v.pc + 2) as u16, ..v }, b0, b1)
    }
}

} // verus!
