//! The 64x32 monochrome pixel grid behind the window. The draw opcode is its
//! only writer; presentation of the grid on screen happens outside the core.

use vstd::prelude::*;

verus! {

/// A 64x32 pixel grid in row-major order: pixel (x, y) sits at index
/// 64 * y + x.
pub struct DisplayBuffer {
    pub pixels: [bool; 2048],
}

/// The grid with every pixel off.
pub open spec fn blank_display() -> Seq<bool> {
    Seq::new(2048, |i: int| false)
}

impl View for DisplayBuffer {
    type V = Seq<bool>;

    open spec fn view(&self) -> Seq<bool> {
        self.pixels@
    }
}

impl DisplayBuffer {
    pub fn new() -> (d: DisplayBuffer)
        ensures
            d@ == blank_display(),
    {
        let d = DisplayBuffer { pixels: [false; 2048] };
        proof {
            assert(d.pixels@ =~= blank_display());
        }
        d
    }

    pub fn get_display_at_location(&self, x: usize, y: usize) -> (r: bool)
        requires
            x < 64,
            y < 32,
        ensures
            r == self@[64 * y + x],
    {
        self.pixels[64 * y + x]
    }

    pub fn set_display_at_location(&mut self, x: usize, y: usize, value: bool)
        requires
            x < 64,
            y < 32,
        ensures
            final(self)@ == old(self)@.update(64 * y + x, value),
    {
        self.pixels[64 * y + x] = value;
    }

    /// Swap in a whole replacement grid.
    pub fn replace_display(&mut self, replacement: [bool; 2048])
        ensures
            final(self)@ == replacement@,
    {
        self.pixels = replacement;
    }

    /// Switch every pixel off.
    pub fn clear_display(&mut self)
        ensures
            final(self)@ == blank_display(),
    {
        self.replace_display([false; 2048]);
        proof {
            assert(self.pixels@ =~= blank_display());
        }
    }
}

} // verus!
