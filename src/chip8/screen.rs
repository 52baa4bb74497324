//! The pixel model shared by the displays: a row-major buffer of
//! `DISPLAY_HEIGHT` rows of `DISPLAY_WIDTH` cells, and sprite blitting onto it.
//!
//! A sprite is a sequence of bytes, one per row, the most significant bit
//! leftmost. Drawn at column `x` and row `y`, bit `i` of row `j` lands on
//! column `(x + i) mod width` and row `(y + j) mod height`, and flips the cell
//! there when it is set.

use vstd::prelude::*;
use vstd::arithmetic::div_mod::*;

use crate::chip8::{DISPLAY_HEIGHT, DISPLAY_SIZE, DISPLAY_WIDTH};

verus! {

/// Whether bit `i` of a sprite row is set, bit 0 being the leftmost one.
pub open spec fn sprite_bit(row: u8, i: int) -> bool {
    0 <= i < 8 && (row >> ((7 - i) as u8)) & 1u8 == 1u8
}

/// Whether a sprite row drawn with its leftmost bit in column `x` sets a bit
/// in column `c`.
pub open spec fn row_covers(row: u8, x: int, c: int) -> bool {
    sprite_bit(row, (c - x) % (DISPLAY_WIDTH as int))
}

/// The display row on which row `j` of a sprite drawn at row `y` lands.
pub open spec fn target_row(y: int, j: int) -> int {
    (y + j) % (DISPLAY_HEIGHT as int)
}

/// The row of cell `k`.
pub open spec fn cell_row(k: int) -> int {
    k / (DISPLAY_WIDTH as int)
}

/// The column of cell `k`.
pub open spec fn cell_col(k: int) -> int {
    k % (DISPLAY_WIDTH as int)
}

/// Whether row `j` of the sprite sets a bit on cell `k`.
pub open spec fn row_hits(sprite: Seq<u8>, x: int, y: int, k: int, j: int) -> bool {
    target_row(y, j) == cell_row(k) && row_covers(sprite[j], x, cell_col(k))
}

/// How many of the first `n` rows of the sprite set a bit on cell `k`.
pub open spec fn hits(sprite: Seq<u8>, x: int, y: int, k: int, n: int) -> nat
    decreases n,
{
    if n <= 0 {
        0
    } else {
        hits(sprite, x, y, k, n - 1) + if row_hits(sprite, x, y, k, n - 1) {
            1nat
        } else {
            0nat
        }
    }
}

/// How many rows of the whole sprite set a bit on cell `k`.
pub open spec fn total_hits(sprite: Seq<u8>, x: int, y: int, k: int) -> nat {
    hits(sprite, x, y, k, sprite.len() as int)
}

/// The buffer after drawing the sprite: a cell flips once for every set bit
/// that lands on it.
pub open spec fn blit(pixels: Seq<bool>, sprite: Seq<u8>, x: int, y: int) -> Seq<bool> {
    Seq::new(
        pixels.len(),
        |k: int| pixels[k] != (total_hits(sprite, x, y, k) % 2 == 1),
    )
}

/// Whether drawing the sprite turns off a lit cell at some point: some cell
/// hit by the sprite was lit before, or is hit twice.
pub open spec fn collides(pixels: Seq<bool>, sprite: Seq<u8>, x: int, y: int) -> bool {
    exists|k: int|
        0 <= k < pixels.len() && #[trigger] total_hits(sprite, x, y, k) >= 1 && (pixels[k]
            || total_hits(sprite, x, y, k) >= 2)
}

/// A buffer with every cell off.
pub open spec fn blank() -> Seq<bool> {
    Seq::new(DISPLAY_SIZE as nat, |k: int| false)
}

/// The cell index of row `r` and column `c`.
pub open spec fn cell_index(r: int, c: int) -> int {
    r * (DISPLAY_WIDTH as int) + c
}

/// Row and column of a cell index are its coordinates.
pub proof fn lemma_cell_index(r: int, c: int)
    requires
        0 <= r < DISPLAY_HEIGHT,
        0 <= c < DISPLAY_WIDTH,
    ensures
        0 <= cell_index(r, c) < DISPLAY_SIZE,
        cell_row(cell_index(r, c)) == r,
        cell_col(cell_index(r, c)) == c,
{
    lemma_fundamental_div_mod_converse(cell_index(r, c), DISPLAY_WIDTH as int, r, c);
}

/// Column `c` is the one that bit `i` of a row drawn at `x` lands on
/// exactly when the row's offset to `c` is `i`.
proof fn lemma_column_offset(x: int, i: int, c: int)
    requires
        0 <= x,
        0 <= i < DISPLAY_WIDTH,
        0 <= c < DISPLAY_WIDTH,
    ensures
        ((c - x) % (DISPLAY_WIDTH as int) == i) == (c == (x + i) % (DISPLAY_WIDTH as int)),
{
    let w = DISPLAY_WIDTH as int;
    lemma_fundamental_div_mod(c - x, w);
    lemma_fundamental_div_mod(x + i, w);
    if (c - x) % w == i {
        lemma_fundamental_div_mod_converse(x + i, w, (x + i - c) / w, c);
        assert((x + i - c) == -((c - x) / w) * w) by (nonlinear_arith)
            requires
                c - x == w * ((c - x) / w) + i,
        ;
        lemma_div_multiples_vanish(-((c - x) / w), w);
        lemma_fundamental_div_mod_converse(x + i, w, -((c - x) / w), c);
    }
    if c == (x + i) % w {
        lemma_fundamental_div_mod_converse(c - x, w, -((x + i) / w), i);
    }
}

/// Flips, in row `r`, every cell on which a bit of the sprite row `row` drawn
/// at column `x` lands, and tells whether one of them was lit.
fn xor_row(pixels: &mut [bool; DISPLAY_SIZE], row: u8, x: usize, r: usize) -> (lit: bool)
    requires
        r < DISPLAY_HEIGHT,
    ensures
        forall|k: int|
            0 <= k < DISPLAY_SIZE ==> #[trigger] final(pixels)@[k] == (old(pixels)@[k] != (
            cell_row(k) == r && row_covers(row, x as int, cell_col(k)))),
        lit == exists|k: int|
            0 <= k < DISPLAY_SIZE && cell_row(k) == r && row_covers(row, x as int, cell_col(k))
                && #[trigger] old(pixels)@[k],
{
    let ghost start = pixels@;
    let x0: usize = x % DISPLAY_WIDTH;
    let mut lit = false;
    let mut i: usize = 0;
    while i < 8
        invariant
            i <= 8,
            r < DISPLAY_HEIGHT,
            x0 == x % DISPLAY_WIDTH,
            start == old(pixels)@,
            forall|k: int|
                0 <= k < DISPLAY_SIZE ==> #[trigger] pixels@[k] == (start[k] != (cell_row(k) == r
                    && (cell_col(k) - x) % (DISPLAY_WIDTH as int) < i && row_covers(
                    row,
                    x as int,
                    cell_col(k),
                ))),
            lit == exists|k: int|
                0 <= k < DISPLAY_SIZE && cell_row(k) == r && (cell_col(k) - x) % (
                DISPLAY_WIDTH as int) < i && row_covers(row, x as int, cell_col(k))
                    && #[trigger] start[k],
        decreases 8 - i,
    {
        let c: usize = (x0 + i) % DISPLAY_WIDTH;
        let idx: usize = r * DISPLAY_WIDTH + c;
        proof {
            lemma_add_mod_noop(x as int, i as int, DISPLAY_WIDTH as int);
            lemma_small_mod(i as nat, DISPLAY_WIDTH as nat);
            lemma_cell_index(r as int, c as int);
            assert forall|k: int| 0 <= k < DISPLAY_SIZE && cell_row(k) == r implies ((cell_col(k)
                - x) % (DISPLAY_WIDTH as int) == i) == (k == idx) by {
                lemma_mod_bound(k, DISPLAY_WIDTH as int);
                lemma_column_offset(x as int, i as int, cell_col(k));
                lemma_fundamental_div_mod(k, DISPLAY_WIDTH as int);
            }
        }
        if (row >> (7 - i) as u8) & 1u8 == 1u8 {
            assert(row_covers(row, x as int, c as int));
            let was_lit = pixels[idx];
            if was_lit {
                lit = true;
            }
            pixels[idx] = !was_lit;
        } else {
            assert(!row_covers(row, x as int, c as int));
        }
        i = i + 1;
    }
    lit
}

/// One more sprite row keeps the collision flag in step with `collides`.
proof fn lemma_collision_step(
    start: Seq<bool>,
    cur: Seq<bool>,
    sprite: Seq<u8>,
    x: int,
    y: int,
    j: int,
    before: bool,
    lit: bool,
)
    requires
        0 <= j < sprite.len(),
        start.len() == DISPLAY_SIZE,
        cur.len() == DISPLAY_SIZE,
        forall|k: int|
            0 <= k < DISPLAY_SIZE ==> #[trigger] cur[k] == (start[k] != (hits(sprite, x, y, k, j)
                % 2 == 1)),
        before == exists|k: int|
            0 <= k < DISPLAY_SIZE && #[trigger] hits(sprite, x, y, k, j) >= 1 && (start[k] || hits(
                sprite,
                x,
                y,
                k,
                j,
            ) >= 2),
        lit == exists|k: int|
            0 <= k < DISPLAY_SIZE && #[trigger] row_hits(sprite, x, y, k, j) && cur[k],
    ensures
        (before || lit) == exists|k: int|
            0 <= k < DISPLAY_SIZE && #[trigger] hits(sprite, x, y, k, j + 1) >= 1 && (start[k]
                || hits(sprite, x, y, k, j + 1) >= 2),
{
    if before {
        let k = choose|k: int|
            0 <= k < DISPLAY_SIZE && #[trigger] hits(sprite, x, y, k, j) >= 1 && (start[k] || hits(
                sprite,
                x,
                y,
                k,
                j,
            ) >= 2);
        assert(hits(sprite, x, y, k, j + 1) >= hits(sprite, x, y, k, j));
    }
    if lit {
        let k = choose|k: int| 0 <= k < DISPLAY_SIZE && #[trigger] row_hits(sprite, x, y, k, j) && cur[k];
        assert(hits(sprite, x, y, k, j + 1) == hits(sprite, x, y, k, j) + 1);
    }
    if exists|k: int|
        0 <= k < DISPLAY_SIZE && #[trigger] hits(sprite, x, y, k, j + 1) >= 1 && (start[k] || hits(
            sprite,
            x,
            y,
            k,
            j + 1,
        ) >= 2) {
        let k = choose|k: int|
            0 <= k < DISPLAY_SIZE && #[trigger] hits(sprite, x, y, k, j + 1) >= 1 && (start[k]
                || hits(sprite, x, y, k, j + 1) >= 2);
        if !row_hits(sprite, x, y, k, j) {
            assert(hits(sprite, x, y, k, j + 1) == hits(sprite, x, y, k, j));
        } else {
            assert(hits(sprite, x, y, k, j + 1) == hits(sprite, x, y, k, j) + 1);
            if !cur[k] {
                assert(hits(sprite, x, y, k, j) >= 1);
            }
        }
    }
}

/// Draws the sprite with its top left corner at column `x` and row `y`,
/// wrapping at the edges, each set bit flipping the cell it lands on.
/// Returns whether a lit cell was turned off.
pub fn xor_sprite(pixels: &mut [bool; DISPLAY_SIZE], x: usize, y: usize, sprite: &[u8]) -> (collision: bool)
    ensures
        final(pixels)@ == blit(old(pixels)@, sprite@, x as int, y as int),
        collision == collides(old(pixels)@, sprite@, x as int, y as int),
{
    let ghost start = pixels@;
    let y0: usize = y % DISPLAY_HEIGHT;
    let mut collision = false;
    let mut j: usize = 0;
    while j < sprite.len()
        invariant
            j <= sprite.len(),
            y0 == y % DISPLAY_HEIGHT,
            start == old(pixels)@,
            forall|k: int|
                0 <= k < DISPLAY_SIZE ==> #[trigger] pixels@[k] == (start[k] != (hits(
                    sprite@,
                    x as int,
                    y as int,
                    k,
                    j as int,
                ) % 2 == 1)),
            collision == exists|k: int|
                0 <= k < DISPLAY_SIZE && #[trigger] hits(sprite@, x as int, y as int, k, j as int)
                    >= 1 && (start[k] || hits(sprite@, x as int, y as int, k, j as int) >= 2),
        decreases sprite.len() - j,
    {
        let r: usize = (y0 + j % DISPLAY_HEIGHT) % DISPLAY_HEIGHT;
        proof {
            lemma_add_mod_noop(y as int, j as int, DISPLAY_HEIGHT as int);
        }
        let ghost cur = pixels@;
        let lit = xor_row(pixels, sprite[j], x, r);
        proof {
            assert forall|k: int| 0 <= k < DISPLAY_SIZE implies #[trigger] hits(
                sprite@,
                x as int,
                y as int,
                k,
                j + 1,
            ) == hits(sprite@, x as int, y as int, k, j as int) + if row_hits(
                sprite@,
                x as int,
                y as int,
                k,
                j as int,
            ) {
                1nat
            } else {
                0nat
            } by {}
            assert(lit == exists|k: int|
                0 <= k < DISPLAY_SIZE && #[trigger] row_hits(sprite@, x as int, y as int, k, j as int)
                    && cur[k]) by {
                if lit {
                    let k = choose|k: int|
                        0 <= k < DISPLAY_SIZE && cell_row(k) == r && row_covers(
                            sprite@[j as int],
                            x as int,
                            cell_col(k),
                        ) && #[trigger] cur[k];
                    assert(row_hits(sprite@, x as int, y as int, k, j as int));
                }
            }
            lemma_collision_step(start, cur, sprite@, x as int, y as int, j as int, collision, lit);
        }
        collision = collision || lit;
        j = j + 1;
    }
    proof {
        assert(pixels@ =~= blit(start, sprite@, x as int, y as int));
        assert(collision == collides(start, sprite@, x as int, y as int)) by {
            if collision {
                let k = choose|k: int|
                    0 <= k < DISPLAY_SIZE && #[trigger] hits(sprite@, x as int, y as int, k, j as int)
                        >= 1 && (start[k] || hits(sprite@, x as int, y as int, k, j as int) >= 2);
                assert(total_hits(sprite@, x as int, y as int, k) >= 1);
            }
        }
    }
    collision
}

/// A sprite no taller than the display sets at most one bit on each cell, and
/// a cell it sets a bit on lies in the display row of one of its rows.
proof fn lemma_hit_once(sprite: Seq<u8>, x: int, y: int, k: int, n: int)
    requires
        0 <= n <= sprite.len() <= DISPLAY_HEIGHT,
    ensures
        hits(sprite, x, y, k, n) <= 1,
        hits(sprite, x, y, k, n) == 1 ==> exists|j: int|
            0 <= j < n && #[trigger] target_row(y, j) == cell_row(k),
    decreases n,
{
    if n > 0 {
        lemma_hit_once(sprite, x, y, k, n - 1);
        if row_hits(sprite, x, y, k, n - 1) && hits(sprite, x, y, k, n - 1) == 1 {
            let j = choose|j: int| 0 <= j < n - 1 && #[trigger] target_row(y, j) == cell_row(k);
            let h = DISPLAY_HEIGHT as int;
            lemma_mod_equivalence(y + n - 1, y + j, h);
            lemma_small_mod((n - 1 - j) as nat, h as nat);
            assert(false);
        }
        if row_hits(sprite, x, y, k, n - 1) {
            assert(target_row(y, n - 1) == cell_row(k));
        }
    }
}

/// Drawing a sprite twice at the same place restores every pixel. When the
/// sprite is no taller than the display, the second drawing collides exactly
/// when the first one lit a pixel that was off.
pub proof fn lemma_draw_twice(pixels: Seq<bool>, sprite: Seq<u8>, x: int, y: int)
    ensures
        blit(blit(pixels, sprite, x, y), sprite, x, y) == pixels,
        sprite.len() <= DISPLAY_HEIGHT ==> (collides(blit(pixels, sprite, x, y), sprite, x, y)
            == exists|k: int|
            0 <= k < pixels.len() && !pixels[k] && #[trigger] blit(pixels, sprite, x, y)[k]),
{
    let once = blit(pixels, sprite, x, y);
    assert(blit(once, sprite, x, y) =~= pixels);
    if sprite.len() <= DISPLAY_HEIGHT {
        if collides(once, sprite, x, y) {
            let k = choose|k: int|
                0 <= k < once.len() && #[trigger] total_hits(sprite, x, y, k) >= 1 && (once[k]
                    || total_hits(sprite, x, y, k) >= 2);
            lemma_hit_once(sprite, x, y, k, sprite.len() as int);
            assert(!pixels[k] && once[k]);
        }
        if exists|k: int| 0 <= k < pixels.len() && !pixels[k] && #[trigger] once[k] {
            let k = choose|k: int| 0 <= k < pixels.len() && !pixels[k] && #[trigger] once[k];
            assert(total_hits(sprite, x, y, k) >= 1);
            assert(once[k]);
        }
    }
}

/// A cell is hit by some of the first `n` rows exactly when one of them
/// sets a bit on it.
proof fn lemma_hit_by_some_row(sprite: Seq<u8>, x: int, y: int, k: int, n: int)
    requires
        0 <= n <= sprite.len(),
    ensures
        (hits(sprite, x, y, k, n) >= 1) == exists|j: int|
            0 <= j < n && #[trigger] row_hits(sprite, x, y, k, j),
    decreases n,
{
    if n > 0 {
        lemma_hit_by_some_row(sprite, x, y, k, n - 1);
        if exists|j: int| 0 <= j < n && #[trigger] row_hits(sprite, x, y, k, j) {
            let j = choose|j: int| 0 <= j < n && #[trigger] row_hits(sprite, x, y, k, j);
            if j < n - 1 {
                assert(hits(sprite, x, y, k, n - 1) >= 1);
            }
        }
    }
}

/// Drawing a sprite no taller than the display twice at the same place: the
/// second drawing collides exactly when a set bit of the sprite, in the first
/// drawing, landed on a pixel that was off.
pub proof fn lemma_second_draw_collides(pixels: Seq<bool>, sprite: Seq<u8>, x: int, y: int)
    requires
        pixels.len() == DISPLAY_SIZE,
        sprite.len() <= DISPLAY_HEIGHT,
        0 <= x,
    ensures
        collides(blit(pixels, sprite, x, y), sprite, x, y) == exists|j: int, i: int|
            0 <= j < sprite.len() && 0 <= i < 8 && #[trigger] sprite_bit(sprite[j], i)
                && !pixels[cell_index(target_row(y, j), (x + i) % (DISPLAY_WIDTH as int))],
{
    let w = DISPLAY_WIDTH as int;
    let once = blit(pixels, sprite, x, y);
    lemma_draw_twice(pixels, sprite, x, y);
    if collides(once, sprite, x, y) {
        let k = choose|k: int| 0 <= k < pixels.len() && !pixels[k] && #[trigger] once[k];
        lemma_hit_by_some_row(sprite, x, y, k, sprite.len() as int);
        let j = choose|j: int| 0 <= j < sprite.len() && #[trigger] row_hits(sprite, x, y, k, j);
        let i = (cell_col(k) - x) % w;
        lemma_mod_bound(k, w);
        lemma_column_offset(x, i, cell_col(k));
        lemma_fundamental_div_mod(k, w);
        assert(k == cell_index(target_row(y, j), (x + i) % w));
        assert(sprite_bit(sprite[j], i));
    }
    if exists|j: int, i: int|
        0 <= j < sprite.len() && 0 <= i < 8 && #[trigger] sprite_bit(sprite[j], i)
            && !pixels[cell_index(target_row(y, j), (x + i) % w)] {
        let (j, i) = choose|j: int, i: int|
            0 <= j < sprite.len() && 0 <= i < 8 && #[trigger] sprite_bit(sprite[j], i)
                && !pixels[cell_index(target_row(y, j), (x + i) % w)];
        let c = cell_index(target_row(y, j), (x + i) % w);
        lemma_mod_bound(y + j, DISPLAY_HEIGHT as int);
        lemma_mod_bound(x + i, w);
        lemma_cell_index(target_row(y, j), (x + i) % w);
        lemma_column_offset(x, i, cell_col(c));
        assert(row_hits(sprite, x, y, c, j));
        lemma_hit_by_some_row(sprite, x, y, c, sprite.len() as int);
        lemma_hit_once(sprite, x, y, c, sprite.len() as int);
        assert(once[c]);
    }
}

/// A sprite drawn from the last column wraps round: its leftmost bit lands in
/// the last column and its bit `c + 1` in column `c`, from column 0 onward.
pub proof fn lemma_wrap_horizontal(row: u8, c: int)
    requires
        0 <= c < DISPLAY_WIDTH - 1,
    ensures
        row_covers(row, DISPLAY_WIDTH - 1, DISPLAY_WIDTH - 1) == sprite_bit(row, 0),
        row_covers(row, DISPLAY_WIDTH - 1, c) == sprite_bit(row, c + 1),
{
    let w = DISPLAY_WIDTH as int;
    lemma_fundamental_div_mod_converse(c - (w - 1), w, -1, c + 1);
    lemma_fundamental_div_mod_converse(0, w, 0, 0);
}

/// A sprite drawn from the last row wraps round: its first row lands in the
/// last display row and its row `j` in display row `j - 1`, from row 0 onward.
pub proof fn lemma_wrap_vertical(j: int)
    requires
        1 <= j <= DISPLAY_HEIGHT,
    ensures
        target_row(DISPLAY_HEIGHT - 1, 0) == DISPLAY_HEIGHT - 1,
        target_row(DISPLAY_HEIGHT - 1, j) == j - 1,
{
    let h = DISPLAY_HEIGHT as int;
    lemma_fundamental_div_mod_converse(h - 1, h, 0, h - 1);
    lemma_fundamental_div_mod_converse(h - 1 + j, h, 1, j - 1);
}

/// The cell on which bit `t % 8` of row `t / 8` of a sprite drawn at column
/// `x` and row `y` lands.
pub open spec fn sprite_cell(x: int, y: int, t: int) -> int {
    cell_index(target_row(y, t / 8), (x + t % 8) % (DISPLAY_WIDTH as int))
}

/// The cells that a sprite of `n` rows drawn at column `x` and row `y` covers,
/// row by row, each row from left to right.
pub open spec fn sprite_cells(x: int, y: int, n: int) -> Seq<usize> {
    Seq::new((8 * n) as nat, |t: int| sprite_cell(x, y, t) as usize)
}

/// The cell indices of all pixels, in order.
pub fn all_cells() -> (cells: Vec<usize>)
    ensures
        cells@ == Seq::new(DISPLAY_SIZE as nat, |k: int| k as usize),
{
    let mut cells: Vec<usize> = Vec::new();
    let mut k: usize = 0;
    while k < DISPLAY_SIZE
        invariant
            k <= DISPLAY_SIZE,
            cells@ == Seq::new(k as nat, |q: int| q as usize),
        decreases DISPLAY_SIZE - k,
    {
        cells.push(k);
        k = k + 1;
        assert(cells@ =~= Seq::new(k as nat, |q: int| q as usize));
    }
    cells
}

/// The cells that a sprite of `n` rows drawn at column `x` and row `y` covers.
pub fn cells_of_sprite(x: u8, y: u8, n: u8) -> (cells: Vec<usize>)
    requires
        n < 16,
    ensures
        cells@ == sprite_cells(x as int, y as int, n as int),
{
    let mut cells: Vec<usize> = Vec::new();
    let count: usize = 8 * n as usize;
    let mut t: usize = 0;
    while t < count
        invariant
            t <= count,
            count == 8 * n,
            cells@ == Seq::new(t as nat, |q: int| sprite_cell(x as int, y as int, q) as usize),
        decreases count - t,
    {
        let r: usize = (y as usize + t / 8) % DISPLAY_HEIGHT;
        let c: usize = (x as usize + t % 8) % DISPLAY_WIDTH;
        proof {
            lemma_cell_index(r as int, c as int);
        }
        cells.push(r * DISPLAY_WIDTH + c);
        t = t + 1;
        assert(cells@ =~= Seq::new(
            t as nat,
            |q: int| sprite_cell(x as int, y as int, q) as usize,
        ));
    }
    cells
}

} // verus!
