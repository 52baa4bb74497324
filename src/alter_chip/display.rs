//! The display addressed by cell index (`row * DISPLAY_WIDTH + column`).

use vstd::prelude::*;

use crate::chip8::screen::{blank, blit, collides, xor_sprite};
use crate::chip8::DISPLAY_SIZE;

verus! {

/// A monochrome display whose pixels are addressed by cell index, row-major.
/// Its view is the sequence of its pixels, `true` for a lit one.
#[derive(Copy, Clone)]
pub struct Display {
    mem: [bool; DISPLAY_SIZE],
}

impl View for Display {
    type V = Seq<bool>;

    closed spec fn view(&self) -> Seq<bool> {
        self.mem@
    }
}

impl Display {
    /// The view of a display holds one entry per pixel.
    pub proof fn lemma_len(&self)
        ensures
            self@.len() == DISPLAY_SIZE,
    {
    }

    /// A display with every pixel off.
    pub fn new() -> (d: Self)
        ensures
            d@ == blank(),
    {
        let d = Display { mem: [false; DISPLAY_SIZE] };
        assert(d@ =~= blank());
        d
    }

    /// Whether the pixel at cell index `position` is on.
    pub fn get_pixel_state(&self, position: usize) -> (on: bool)
        requires
            position < DISPLAY_SIZE,
        ensures
            on == self@[position as int],
    {
        self.mem[position]
    }

    /// Turns the pixel at cell index `position` on or off.
    pub fn set_pixel_state(&mut self, position: usize, state: bool)
        requires
            position < DISPLAY_SIZE,
        ensures
            final(self)@ == old(self)@.update(position as int, state),
    {
        self.mem[position] = state;
    }

    /// Turns every pixel off.
    pub fn clear_display(&mut self)
        ensures
            final(self)@ == blank(),
    {
        let mut k: usize = 0;
        while k < DISPLAY_SIZE
            invariant
                k <= DISPLAY_SIZE,
                forall|i: int| 0 <= i < k ==> !self.mem@[i],
            decreases DISPLAY_SIZE - k,
        {
            self.set_pixel_state(k, false);
            k = k + 1;
        }
        assert(self@ =~= blank());
    }

    /// Draws the sprite with its top left corner in column `x` and row `y`,
    /// wrapping at the edges; each set bit flips the pixel it lands on.
    /// Returns whether a lit pixel was turned off.
    pub fn draw(&mut self, x: usize, y: usize, sprite: &[u8]) -> (collision: bool)
        ensures
            final(self)@ == blit(old(self)@, sprite@, x as int, y as int),
            collision == collides(old(self)@, sprite@, x as int, y as int),
    {
        xor_sprite(&mut self.mem, x, y, sprite)
    }
}

} // verus!
