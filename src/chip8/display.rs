//! The display addressed by row and column.

use vstd::prelude::*;

use crate::chip8::screen::{blank, blit, cell_index, collides, lemma_cell_index, xor_sprite};
use crate::chip8::{DISPLAY_HEIGHT, DISPLAY_SIZE, DISPLAY_WIDTH};

verus! {

/// A monochrome display of `DISPLAY_HEIGHT` rows of `DISPLAY_WIDTH` pixels.
/// Its view is the row-major sequence of its pixels, `true` for a lit one.
#[derive(Copy, Clone)]
pub struct Display {
    vram: [bool; DISPLAY_SIZE],
}

impl View for Display {
    type V = Seq<bool>;

    closed spec fn view(&self) -> Seq<bool> {
        self.vram@
    }
}

impl Display {
    /// The view of a display holds one entry per pixel.
    pub proof fn lemma_len(&self)
        ensures
            self@.len() == DISPLAY_SIZE,
    {
    }

    /// A display with every pixel off.
    pub fn new() -> (d: Self)
        ensures
            d@ == blank(),
    {
        let d = Display { vram: [false; DISPLAY_SIZE] };
        assert(d@ =~= blank());
        d
    }

    /// Turns the pixel in row `y` and column `x` on or off.
    pub fn set_pixel(&mut self, y: usize, x: usize, state: bool)
        requires
            y < DISPLAY_HEIGHT,
            x < DISPLAY_WIDTH,
        ensures
            final(self)@ == old(self)@.update(cell_index(y as int, x as int), state),
    {
        proof {
            lemma_cell_index(y as int, x as int);
        }
        self.vram[y * DISPLAY_WIDTH + x] = state;
    }

    /// Whether the pixel in row `y` and column `x` is on.
    pub fn get_pixel(&self, y: usize, x: usize) -> (on: bool)
        requires
            y < DISPLAY_HEIGHT,
            x < DISPLAY_WIDTH,
        ensures
            on == self@[cell_index(y as int, x as int)],
    {
        proof {
            lemma_cell_index(y as int, x as int);
        }
        self.vram[y * DISPLAY_WIDTH + x]
    }

    /// Turns every pixel off.
    pub fn cls(&mut self)
        ensures
            final(self)@ == blank(),
    {
        let mut k: usize = 0;
        while k < DISPLAY_SIZE
            invariant
                k <= DISPLAY_SIZE,
                forall|i: int| 0 <= i < k ==> !self.vram@[i],
            decreases DISPLAY_SIZE - k,
        {
            self.vram[k] = false;
            k = k + 1;
        }
        assert(self@ =~= blank());
    }

    /// Draws the sprite with its top left corner in column `x` and row `y`,
    /// wrapping at the edges; each set bit flips the pixel it lands on.
    /// Returns whether a lit pixel was turned off.
    pub fn draw(&mut self, x: usize, y: usize, sprite: &[u8]) -> (collision: bool)
        ensures
            final(self)@ == blit(old(self)@, sprite@, x as int, y as int),
            collision == collides(old(self)@, sprite@, x as int, y as int),
    {
        xor_sprite(&mut self.vram, x, y, sprite)
    }
}

} // verus!
