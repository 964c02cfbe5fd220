//! Laws of the step semantics that tie several cycles together: the skip
//! distance of the conditional branches, the call/return round trip, and the
//! XOR toggle of sprite drawing.

use vstd::prelude::*;
use crate::instruction::spec_first_nibble;
use crate::instruction::spec_second_nibble;
use crate::instruction::spec_nnn;
use crate::semantics::ChipView;
use crate::semantics::draw_row;
use crate::semantics::draw_sprite;
use crate::semantics::sprite_bit;
use crate::semantics::step;

verus! {

/// A conditional skip on a register/immediate comparison moves the program
/// counter four bytes past the pre-fetch counter when the comparison holds,
/// and two bytes when it does not, and changes nothing else.
pub proof fn lemma_skip_semantics(v: ChipView)
    requires
        v.ram.len() == 4096,
        v.pc < 4095,
        spec_first_nibble(v.ram[v.pc as int]) == 0x30,
    ensures
        ({
            let x = spec_second_nibble(v.ram[v.pc as int]) as int;
            let nn = v.ram[v.pc as int + 1];
            step(v) matches Ok(v2) && v2.pc == (if v.regs[x] == nn {
                v.pc + 4
            } else {
                v.pc + 2
            }) && v2 == (ChipView { pc: v2.pc, ..v })
        }),
{
}

/// Executing a call and then the return it jumps to restores the program
/// counter to the instruction immediately after the call, and the stack
/// pointer to its pre-call value.
pub proof fn lemma_call_return_round_trip(v: ChipView)
    requires
        v.ram.len() == 4096,
        v.stack.len() == 32,
        0 <= v.sp < 32,
        v.pc < 4095,
        spec_first_nibble(v.ram[v.pc as int]) == 0x20,
        ({
            let nnn = spec_nnn(v.ram[v.pc as int], v.ram[v.pc as int + 1]) as int;
            &&& nnn < 4095
            &&& v.ram[nnn] == 0x00
            &&& v.ram[nnn + 1] == 0xEE
        }),
    ensures
        ({
            let nnn = spec_nnn(v.ram[v.pc as int], v.ram[v.pc as int + 1]);
            step(v) matches Ok(v1) && v1.pc == nnn && v1.sp == v.sp + 1 && (step(v1) matches Ok(
                v2,
            ) && v2.pc == v.pc + 2 && v2.sp == v.sp)
        }),
{
    assert(0x00u8 & 0xF0 == 0x00) by (bit_vector);
}

/// Which grid index one sprite row byte touches: index `j` is covered when
/// it lies in row `y`, its column is one of the byte's eight columns from
/// `xi` on starting at `x0`, it is inside the right display edge, and the
/// byte has that column's bit on.
pub open spec fn row_covers(b: u8, x0: int, y: int, xi: int, j: int) -> bool {
    let c = j - 64 * y - x0;
    xi <= c < 8 && x0 + c < 64 && sprite_bit(b, c)
}

/// Pixel by pixel, one sprite row byte flips exactly the indices it covers,
/// and reports a collision exactly when some covered index was already on.
pub proof fn lemma_draw_row_pointwise(d: Seq<bool>, b: u8, x0: int, y: int, xi: int, h: bool)
    requires
        d.len() == 2048,
        0 <= x0 < 64,
        0 <= y < 32,
        0 <= xi,
    ensures
        ({
            let r = draw_row(d, b, x0, y, xi, h);
            &&& r.0.len() == 2048
            &&& (forall|j: int|
                0 <= j < 2048 ==> r.0[j] == (if row_covers(b, x0, y, xi, j) {
                    !d[j]
                } else {
                    d[j]
                }))
            &&& r.1 == (h || exists|j: int|
                0 <= j < 2048 && #[trigger] row_covers(b, x0, y, xi, j) && d[j])
        }),
    decreases 8 - xi,
{
    let r = draw_row(d, b, x0, y, xi, h);
    if xi >= 8 || x0 + xi >= 64 {
        assert(forall|j: int| 0 <= j < 2048 ==> !row_covers(b, x0, y, xi, j));
    } else {
        let idx = 64 * y + x0 + xi;
        assert(0 <= idx < 2048);
        if sprite_bit(b, xi) {
            assert(row_covers(b, x0, y, xi, idx));
            if d[idx] {
                lemma_draw_row_pointwise(d.update(idx, false), b, x0, y, xi + 1, true);
                assert(row_covers(b, x0, y, xi, idx) && d[idx]);
                assert(r == draw_row(d.update(idx, false), b, x0, y, xi + 1, true));
                assert(r.1);
                assert forall|j: int| 0 <= j < 2048 implies r.0[j] == (if row_covers(
                    b,
                    x0,
                    y,
                    xi,
                    j,
                ) {
                    !d[j]
                } else {
                    d[j]
                }) by {
                    assert(r.0[j] == (if row_covers(b, x0, y, xi + 1, j) {
                        !d.update(idx, false)[j]
                    } else {
                        d.update(idx, false)[j]
                    }));
                }
            } else {
                lemma_draw_row_pointwise(d.update(idx, true), b, x0, y, xi + 1, h);
                let d2 = d.update(idx, true);
                assert(r == draw_row(d2, b, x0, y, xi + 1, h));
                assert forall|j: int|
                    0 <= j < 2048 && #[trigger] row_covers(b, x0, y, xi + 1, j) && d2[j] implies (
                row_covers(b, x0, y, xi, j) && d[j]) by {
                    assert(j != idx);
                }
                assert forall|j: int|
                    0 <= j < 2048 && #[trigger] row_covers(b, x0, y, xi, j) && d[j] implies (
                row_covers(b, x0, y, xi + 1, j) && d2[j]) by {
                    assert(j != idx);
                }
                assert forall|j: int| 0 <= j < 2048 implies r.0[j] == (if row_covers(
                    b,
                    x0,
                    y,
                    xi,
                    j,
                ) {
                    !d[j]
                } else {
                    d[j]
                }) by {
                    assert(r.0[j] == (if row_covers(b, x0, y, xi + 1, j) {
                        !d2[j]
                    } else {
                        d2[j]
                    }));
                }
                assert(r.1 == (h || exists|j: int|
                    0 <= j < 2048 && #[trigger] row_covers(b, x0, y, xi, j) && d[j]));
            }
        } else {
            lemma_draw_row_pointwise(d, b, x0, y, xi + 1, h);
            assert(r == draw_row(d, b, x0, y, xi + 1, h));
            assert forall|j: int| 0 <= j < 2048 implies r.0[j] == (if row_covers(
                b,
                x0,
                y,
                xi,
                j,
            ) {
                !d[j]
            } else {
                d[j]
            }) by {
                assert(r.0[j] == (if row_covers(b, x0, y, xi + 1, j) {
                    !d[j]
                } else {
                    d[j]
                }));
            }
            assert forall|j: int|
                0 <= j < 2048 && #[trigger] row_covers(b, x0, y, xi, j) && d[j] implies (
            row_covers(b, x0, y, xi + 1, j) && d[j]) by {}
            assert(r.1 == (h || exists|j: int|
                0 <= j < 2048 && #[trigger] row_covers(b, x0, y, xi, j) && d[j]));
        }
    }
}

/// Which grid index a whole sprite draw from row `yi` on touches: some
/// drawn row's byte covers it.
pub open spec fn sprite_covers(
    ram: Seq<u8>,
    base: int,
    x0: int,
    y0: int,
    rows: int,
    yi: int,
    j: int,
) -> bool
    decreases rows - yi,
{
    if yi >= rows {
        false
    } else {
        row_covers(ram[base + yi], x0, y0 + yi, 0, j) || sprite_covers(
            ram,
            base,
            x0,
            y0,
            rows,
            yi + 1,
            j,
        )
    }
}

/// Every index a sprite draw from row `yi` on touches lies at or beyond the
/// start of that row.
proof fn lemma_sprite_covers_low_bound(
    ram: Seq<u8>,
    base: int,
    x0: int,
    y0: int,
    rows: int,
    yi: int,
)
    requires
        0 <= x0,
        0 <= y0,
        0 <= yi,
    ensures
        forall|j: int|
            #[trigger] sprite_covers(ram, base, x0, y0, rows, yi, j) ==> j >= 64 * (y0 + yi) + x0,
    decreases rows - yi,
{
    if yi < rows {
        lemma_sprite_covers_low_bound(ram, base, x0, y0, rows, yi + 1);
        assert forall|j: int|
            #[trigger] sprite_covers(ram, base, x0, y0, rows, yi, j) implies j >= 64 * (y0 + yi)
            + x0 by {
            if !row_covers(ram[base + yi], x0, y0 + yi, 0, j) {
                assert(sprite_covers(ram, base, x0, y0, rows, yi + 1, j));
            }
        }
    }
}

/// Pixel by pixel, a sprite draw flips exactly the indices it covers, and
/// reports a collision exactly when some covered index was already on.
pub proof fn lemma_draw_sprite_pointwise(
    d: Seq<bool>,
    ram: Seq<u8>,
    base: int,
    x0: int,
    y0: int,
    rows: int,
    yi: int,
    h: bool,
)
    requires
        d.len() == 2048,
        0 <= x0 < 64,
        0 <= y0,
        0 <= yi,
        y0 + rows <= 32,
    ensures
        ({
            let r = draw_sprite(d, ram, base, x0, y0, rows, yi, h);
            &&& r.0.len() == 2048
            &&& (forall|j: int|
                0 <= j < 2048 ==> r.0[j] == (if sprite_covers(ram, base, x0, y0, rows, yi, j) {
                    !d[j]
                } else {
                    d[j]
                }))
            &&& r.1 == (h || exists|j: int|
                0 <= j < 2048 && #[trigger] sprite_covers(ram, base, x0, y0, rows, yi, j) && d[j])
        }),
    decreases rows - yi,
{
    let r = draw_sprite(d, ram, base, x0, y0, rows, yi, h);
    if yi >= rows {
        assert(forall|j: int| !sprite_covers(ram, base, x0, y0, rows, yi, j));
    } else {
        let byte = ram[base + yi];
        let y = y0 + yi;
        lemma_draw_row_pointwise(d, byte, x0, y, 0, h);
        let row = draw_row(d, byte, x0, y, 0, h);
        lemma_draw_sprite_pointwise(row.0, ram, base, x0, y0, rows, yi + 1, row.1);
        lemma_sprite_covers_low_bound(ram, base, x0, y0, rows, yi + 1);
        assert(r == draw_sprite(row.0, ram, base, x0, y0, rows, yi + 1, row.1));
        assert forall|j: int| 0 <= j < 2048 implies r.0[j] == (if sprite_covers(
            ram,
            base,
            x0,
            y0,
            rows,
            yi,
            j,
        ) {
            !d[j]
        } else {
            d[j]
        }) by {
            assert(r.0[j] == (if sprite_covers(ram, base, x0, y0, rows, yi + 1, j) {
                !row.0[j]
            } else {
                row.0[j]
            }));
            assert(row.0[j] == (if row_covers(byte, x0, y, 0, j) {
                !d[j]
            } else {
                d[j]
            }));
            if row_covers(byte, x0, y, 0, j) {
                assert(j < 64 * (y + 1));
                assert(!sprite_covers(ram, base, x0, y0, rows, yi + 1, j));
            }
        }
        // The collision flag: the flag after this row is the flag before it
        // or a collision in this row; rows past this one see the row's
        // pixels unchanged, since their indices are disjoint from the row's.
        if r.1 {
            if !h {
                if row.1 {
                    let j = choose|j: int|
                        0 <= j < 2048 && #[trigger] row_covers(byte, x0, y, 0, j) && d[j];
                    assert(sprite_covers(ram, base, x0, y0, rows, yi, j) && d[j]);
                } else {
                    let j = choose|j: int|
                        0 <= j < 2048 && #[trigger] sprite_covers(ram, base, x0, y0, rows, yi + 1, j)
                            && row.0[j];
                    assert(j >= 64 * (y0 + yi + 1) + x0);
                    assert(!row_covers(byte, x0, y, 0, j));
                    assert(sprite_covers(ram, base, x0, y0, rows, yi, j) && d[j]);
                }
            }
        } else {
            assert(!h);
            assert(!row.1);
            if exists|j: int|
                0 <= j < 2048 && #[trigger] sprite_covers(ram, base, x0, y0, rows, yi, j) && d[j] {
                let j = choose|j: int|
                    0 <= j < 2048 && #[trigger] sprite_covers(ram, base, x0, y0, rows, yi, j)
                        && d[j];
                if row_covers(byte, x0, y, 0, j) {
                    assert(row.1);
                } else {
                    assert(sprite_covers(ram, base, x0, y0, rows, yi + 1, j) && row.0[j]);
                    assert(r.1);
                }
            }
        }
    }
}

/// Drawing any sprite twice from the same memory at the same spot restores
/// the display exactly: the draw is an XOR toggle. When the first draw saw
/// no collision, the second collides exactly when the sprite shows any
/// pixel at all inside the display.
pub proof fn lemma_draw_twice_restores(
    d: Seq<bool>,
    ram: Seq<u8>,
    base: int,
    x0: int,
    y0: int,
    rows: int,
)
    requires
        d.len() == 2048,
        0 <= x0 < 64,
        0 <= y0,
        y0 + rows <= 32,
    ensures
        ({
            let first = draw_sprite(d, ram, base, x0, y0, rows, 0, false);
            let second = draw_sprite(first.0, ram, base, x0, y0, rows, 0, false);
            &&& second.0 =~= d
            &&& (first.1 == false ==> second.1 == (exists|j: int|
                0 <= j < 2048 && #[trigger] sprite_covers(ram, base, x0, y0, rows, 0, j)))
        }),
{
    let first = draw_sprite(d, ram, base, x0, y0, rows, 0, false);
    let second = draw_sprite(first.0, ram, base, x0, y0, rows, 0, false);
    lemma_draw_sprite_pointwise(d, ram, base, x0, y0, rows, 0, false);
    lemma_draw_sprite_pointwise(first.0, ram, base, x0, y0, rows, 0, false);
    assert forall|j: int| 0 <= j < 2048 implies second.0[j] == d[j] by {
        assert(first.0[j] == (if sprite_covers(ram, base, x0, y0, rows, 0, j) {
            !d[j]
        } else {
            d[j]
        }));
        assert(second.0[j] == (if sprite_covers(ram, base, x0, y0, rows, 0, j) {
            !first.0[j]
        } else {
            first.0[j]
        }));
    }
    if first.1 == false {
        if second.1 {
            let j = choose|j: int|
                0 <= j < 2048 && #[trigger] sprite_covers(ram, base, x0, y0, rows, 0, j)
                    && first.0[j];
            assert(sprite_covers(ram, base, x0, y0, rows, 0, j));
        } else {
            if exists|j: int|
                0 <= j < 2048 && #[trigger] sprite_covers(ram, base, x0, y0, rows, 0, j) {
                let j = choose|j: int|
                    0 <= j < 2048 && #[trigger] sprite_covers(ram, base, x0, y0, rows, 0, j);
                assert(!d[j]);
                assert(first.0[j]);
                assert(second.1);
            }
        }
    }
}

/// Drawing a sprite made of one on-pixel onto a clear spot turns the pixel
/// on without a collision; drawing it again at the same spot reports a
/// collision, clears the pixel, and restores the display as a whole: the
/// draw is an XOR toggle.
pub proof fn lemma_draw_single_pixel_twice(disp: Seq<bool>, ram: Seq<u8>, base: int, x0: int, y: int)
    requires
        disp.len() == 2048,
        0 <= base < ram.len(),
        ram[base] == 0x80,
        0 <= x0 < 64,
        0 <= y < 32,
        !disp[64 * y + x0],
    ensures
        ({
            let first = draw_sprite(disp, ram, base, x0, y, 1, 0, false);
            let second = draw_sprite(first.0, ram, base, x0, y, 1, 0, false);
            &&& first.1 == false
            &&& first.0[64 * y + x0] == true
            &&& second.1 == true
            &&& second.0[64 * y + x0] == false
            &&& second.0 =~= disp
        }),
{
    reveal_with_fuel(draw_sprite, 3);
    reveal_with_fuel(draw_row, 10);
    assert((0x80u8 << 0u8) & 0x80 == 0x80) by (bit_vector);
    assert((0x80u8 << 1u8) & 0x80 == 0x00) by (bit_vector);
    assert((0x80u8 << 2u8) & 0x80 == 0x00) by (bit_vector);
    assert((0x80u8 << 3u8) & 0x80 == 0x00) by (bit_vector);
    assert((0x80u8 << 4u8) & 0x80 == 0x00) by (bit_vector);
    assert((0x80u8 << 5u8) & 0x80 == 0x00) by (bit_vector);
    assert((0x80u8 << 6u8) & 0x80 == 0x00) by (bit_vector);
    assert((0x80u8 << 7u8) & 0x80 == 0x00) by (bit_vector);
}

} // verus!

