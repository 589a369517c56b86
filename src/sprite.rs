//! The meaning of drawing a sprite on a monochrome grid, independent of how
//! pixels are stored.
use vstd::prelude::*;
use vstd::arithmetic::div_mod::lemma_fundamental_div_mod_converse;
use crate::utils::bit_of;

verus! {

/// The width of the frame in pixels.
pub const FRAME_WIDTH: usize = 64;

/// The height of the frame in pixels.
pub const FRAME_HEIGHT: usize = 32;

/// Number of pixels in the frame.
pub const FRAME_SIZE: usize = 2048;

/// Whether pixel `p` of the grid lies under one of the first `k` bits of
/// `sprite`, placed with its top-left corner at column `x0`, row `y0`, and
/// that bit is set. Bits are counted row by row, most significant first.
pub open spec fn covers(sprite: Seq<u8>, x0: int, y0: int, p: int, k: int) -> bool {
    let i = p / FRAME_WIDTH as int - y0;
    let j = p % FRAME_WIDTH as int - x0;
    &&& 0 <= i < sprite.len()
    &&& 0 <= j < 8
    &&& i * 8 + j < k
    &&& bit_of(sprite[i], (7 - j) as u8)
}

/// `grid` after the first `k` sprite bits are XORed in.
pub open spec fn drawn_upto(grid: Seq<bool>, sprite: Seq<u8>, x0: int, y0: int, k: int) -> Seq<
    bool,
> {
    Seq::new(grid.len(), |p: int| grid[p] != covers(sprite, x0, y0, p, k))
}

/// Whether one of the first `k` sprite bits falls on a lit pixel of `grid`.
pub open spec fn collides_upto(grid: Seq<bool>, sprite: Seq<u8>, x0: int, y0: int, k: int) -> bool {
    exists|p: int| 0 <= p < grid.len() && grid[p] && #[trigger] covers(sprite, x0, y0, p, k)
}

/// `grid` after `sprite` is drawn at (`x`, `y`): the start wraps around the
/// frame, and bits that would fall past its right or bottom edge are clipped.
pub open spec fn drawn(grid: Seq<bool>, sprite: Seq<u8>, x: int, y: int) -> Seq<bool> {
    drawn_upto(
        grid,
        sprite,
        x % FRAME_WIDTH as int,
        y % FRAME_HEIGHT as int,
        sprite.len() * 8 as int,
    )
}

/// Whether drawing `sprite` at (`x`, `y`) turns a lit pixel off.
pub open spec fn collides(grid: Seq<bool>, sprite: Seq<u8>, x: int, y: int) -> bool {
    collides_upto(grid, sprite, x % FRAME_WIDTH as int, y % FRAME_HEIGHT as int, sprite.len() * 8 as int)
}

/// Index of the pixel at column `x`, row `y`.
pub open spec fn pixel_at(x: int, y: int) -> int {
    y * FRAME_WIDTH as int + x
}

/// Taking in sprite bit `k = 8 i + j` changes at most the pixel under it.
pub proof fn lemma_cover_step(sprite: Seq<u8>, x0: int, y0: int, i: int, j: int, p: int)
    requires
        0 <= x0 < FRAME_WIDTH,
        0 <= y0 < FRAME_HEIGHT,
        0 <= i < sprite.len(),
        0 <= j < 8,
        0 <= p < FRAME_SIZE,
    ensures
        covers(sprite, x0, y0, p, i * 8 + j + 1) == (covers(sprite, x0, y0, p, i * 8 + j) || (x0
            + j < FRAME_WIDTH && y0 + i < FRAME_HEIGHT && p == pixel_at(x0 + j, y0 + i) && bit_of(
            sprite[i],
            (7 - j) as u8,
        ))),
{
    let w = FRAME_WIDTH as int;
    let row = p / w;
    let col = p % w;
    assert(p == row * w + col && 0 <= col < w) by {
        vstd::arithmetic::div_mod::lemma_fundamental_div_mod(p, w);
    }
    let ii = row - y0;
    let jj = col - x0;
    if 0 <= jj < 8 && ii * 8 + jj == i * 8 + j {
        assert(ii == i && jj == j) by (nonlinear_arith)
            requires
                0 <= jj < 8,
                0 <= j < 8,
                ii * 8 + jj == i * 8 + j,
        ;
    }
    if x0 + j < w && y0 + i < FRAME_HEIGHT && p == pixel_at(x0 + j, y0 + i) {
        lemma_fundamental_div_mod_converse(p, w, y0 + i, x0 + j);
    }
}

/// Every grid position is either lit by the last bit taken in or unaffected.
pub proof fn lemma_drawn_step(
    grid: Seq<bool>,
    sprite: Seq<u8>,
    x0: int,
    y0: int,
    i: int,
    j: int,
)
    requires
        grid.len() == FRAME_SIZE,
        0 <= x0 < FRAME_WIDTH,
        0 <= y0 < FRAME_HEIGHT,
        0 <= i < sprite.len(),
        0 <= j < 8,
    ensures
        !(x0 + j < FRAME_WIDTH && y0 + i < FRAME_HEIGHT && bit_of(sprite[i], (7 - j) as u8))
            ==> drawn_upto(grid, sprite, x0, y0, i * 8 + j + 1) == drawn_upto(
            grid,
            sprite,
            x0,
            y0,
            i * 8 + j,
        ) && collides_upto(grid, sprite, x0, y0, i * 8 + j + 1) == collides_upto(
            grid,
            sprite,
            x0,
            y0,
            i * 8 + j,
        ),
        (x0 + j < FRAME_WIDTH && y0 + i < FRAME_HEIGHT && bit_of(sprite[i], (7 - j) as u8))
            ==> drawn_upto(grid, sprite, x0, y0, i * 8 + j + 1) == drawn_upto(
            grid,
            sprite,
            x0,
            y0,
            i * 8 + j,
        ).update(pixel_at(x0 + j, y0 + i), !drawn_upto(grid, sprite, x0, y0, i * 8 + j)[pixel_at(
            x0 + j,
            y0 + i,
        )]) && collides_upto(grid, sprite, x0, y0, i * 8 + j + 1) == (collides_upto(
            grid,
            sprite,
            x0,
            y0,
            i * 8 + j,
        ) || drawn_upto(grid, sprite, x0, y0, i * 8 + j)[pixel_at(x0 + j, y0 + i)]),
{
    let k = i * 8 + j;
    let q = pixel_at(x0 + j, y0 + i);
    assert forall|p: int| 0 <= p < FRAME_SIZE implies #[trigger] covers(sprite, x0, y0, p, k + 1)
        == (covers(sprite, x0, y0, p, k) || (x0 + j < FRAME_WIDTH && y0 + i < FRAME_HEIGHT && p
        == q && bit_of(sprite[i], (7 - j) as u8))) by {
        lemma_cover_step(sprite, x0, y0, i, j, p);
    }
    let hit = x0 + j < FRAME_WIDTH && y0 + i < FRAME_HEIGHT && bit_of(sprite[i], (7 - j) as u8);
    if hit {
        assert(0 <= q < FRAME_SIZE) by (nonlinear_arith)
            requires
                0 <= x0 + j < 64,
                0 <= y0 + i < 32,
                q == (y0 + i) * 64 + x0 + j,
        ;
        lemma_cover_step(sprite, x0, y0, i, j, q);
        assert(!covers(sprite, x0, y0, q, k)) by {
            if covers(sprite, x0, y0, q, k) {
                lemma_fundamental_div_mod_converse(q, FRAME_WIDTH as int, y0 + i, x0 + j);
            }
        }
        assert(drawn_upto(grid, sprite, x0, y0, k + 1) =~= drawn_upto(
            grid,
            sprite,
            x0,
            y0,
            k,
        ).update(q, !drawn_upto(grid, sprite, x0, y0, k)[q]));
        if collides_upto(grid, sprite, x0, y0, k + 1) {
            let p = choose|p: int|
                0 <= p < grid.len() && grid[p] && #[trigger] covers(sprite, x0, y0, p, k + 1);
            if p != q {
                assert(covers(sprite, x0, y0, p, k));
            }
        }
        if collides_upto(grid, sprite, x0, y0, k) {
            let p = choose|p: int|
                0 <= p < grid.len() && grid[p] && #[trigger] covers(sprite, x0, y0, p, k);
            assert(covers(sprite, x0, y0, p, k + 1));
        }
        if drawn_upto(grid, sprite, x0, y0, k)[q] {
            assert(covers(sprite, x0, y0, q, k + 1));
        }
    } else {
        assert(drawn_upto(grid, sprite, x0, y0, k + 1) =~= drawn_upto(grid, sprite, x0, y0, k));
        if collides_upto(grid, sprite, x0, y0, k + 1) {
            let p = choose|p: int|
                0 <= p < grid.len() && grid[p] && #[trigger] covers(sprite, x0, y0, p, k + 1);
            assert(covers(sprite, x0, y0, p, k));
        }
        if collides_upto(grid, sprite, x0, y0, k) {
            let p = choose|p: int|
                0 <= p < grid.len() && grid[p] && #[trigger] covers(sprite, x0, y0, p, k);
            assert(covers(sprite, x0, y0, p, k + 1));
        }
    }
}

/// Before any sprite bit is taken in, the grid is unchanged and nothing collides.
pub proof fn lemma_drawn_start(grid: Seq<bool>, sprite: Seq<u8>, x0: int, y0: int)
    ensures
        drawn_upto(grid, sprite, x0, y0, 0) == grid,
        !collides_upto(grid, sprite, x0, y0, 0),
{
    assert forall|p: int| !#[trigger] covers(sprite, x0, y0, p, 0) by {
        let i = p / FRAME_WIDTH as int - y0;
        let j = p % FRAME_WIDTH as int - x0;
        if 0 <= i && 0 <= j {
            assert(i * 8 + j >= 0) by (nonlinear_arith)
                requires
                    0 <= i,
                    0 <= j,
            ;
        }
    }
    assert(drawn_upto(grid, sprite, x0, y0, 0) =~= grid);
}

} // verus!
