//! The frame as a grid of pixel states, rows top to bottom.
use vstd::prelude::*;
use crate::sprite::{
    collides, collides_upto, drawn, drawn_upto, lemma_drawn_start, lemma_drawn_step, pixel_at,
    FRAME_HEIGHT, FRAME_SIZE, FRAME_WIDTH,
};
use crate::utils::bit_of;

verus! {

/// The width of the grid in pixels.
pub const PIXELS_WIDTH: usize = 64;

/// The height of the grid in pixels.
pub const PIXELS_HEIGHT: usize = 32;

/// The state of one pixel.
#[derive(Clone, Copy, Debug, PartialEq, Eq, Structural)]
pub enum Pixel {
    On,
    Off,
}

/// A grid of pixels.
pub struct PixelBuffer {
    pixels: [Pixel; FRAME_SIZE],
}

impl View for PixelBuffer {
    type V = Seq<bool>;

    /// The grid, `true` where lit, in row-major order.
    closed spec fn view(&self) -> Seq<bool> {
        self.pixels@.map_values(|p: Pixel| p == Pixel::On)
    }
}

impl PixelBuffer {
    /// A dark grid.
    pub fn new() -> (r: Self)
        ensures
            r@ == Seq::new(FRAME_SIZE as nat, |_p: int| false),
    {
        let r = PixelBuffer { pixels: [Pixel::Off; FRAME_SIZE] };
        assert(r@ =~= Seq::new(FRAME_SIZE as nat, |_p: int| false));
        r
    }

    /// The pixels in row-major order.
    pub fn pixels(&self) -> (r: &[Pixel])
        ensures
            r@.len() == FRAME_SIZE,
            forall|p: int| 0 <= p < FRAME_SIZE ==> (r@[p] == Pixel::On) == #[trigger] self@[p],
    {
        self.pixels.as_slice()
    }

    /// Sets every pixel dark.
    pub fn clear(&mut self)
        ensures
            final(self)@ == Seq::new(FRAME_SIZE as nat, |_p: int| false),
    {
        self.pixels = [Pixel::Off; FRAME_SIZE];
        assert(self@ =~= Seq::new(FRAME_SIZE as nat, |_p: int| false));
    }

    /// XORs `sprite` into the grid at `coordinates`, one byte per row and one
    /// bit per pixel, most significant bit leftmost. The start wraps around
    /// the grid; bits past its right or bottom edge are clipped. Returns
    /// whether a lit pixel was turned dark.
    pub fn draw(&mut self, sprite: &[u8], coordinates: (usize, usize)) -> (collided: bool)
        ensures
            final(self)@ == drawn(old(self)@, sprite@, coordinates.0 as int, coordinates.1 as int),
            collided == collides(old(self)@, sprite@, coordinates.0 as int, coordinates.1 as int),
    {
        let start_x = coordinates.0 % PIXELS_WIDTH;
        let start_y = coordinates.1 % PIXELS_HEIGHT;
        let ghost grid = self@;
        let ghost x0 = start_x as int;
        let ghost y0 = start_y as int;
        proof {
            lemma_drawn_start(grid, sprite@, x0, y0);
        }
        let mut has_collided = false;
        let mut i: usize = 0;
        while i < sprite.len()
            invariant
                i <= sprite@.len(),
                start_x < FRAME_WIDTH,
                start_y < FRAME_HEIGHT,
                x0 == start_x,
                y0 == start_y,
                grid.len() == FRAME_SIZE,
                self@ == drawn_upto(grid, sprite@, x0, y0, i * 8),
                has_collided == collides_upto(grid, sprite@, x0, y0, i * 8),
            decreases sprite@.len() - i,
        {
            let byte = sprite[i];
            let mut j: usize = 0;
            while j < 8
                invariant
                    i < sprite@.len(),
                    j <= 8,
                    byte == sprite@[i as int],
                    start_x < FRAME_WIDTH,
                    start_y < FRAME_HEIGHT,
                    x0 == start_x,
                    y0 == start_y,
                    grid.len() == FRAME_SIZE,
                    self@ == drawn_upto(grid, sprite@, x0, y0, i * 8 + j),
                    has_collided == collides_upto(grid, sprite@, x0, y0, i * 8 + j),
                decreases 8 - j,
            {
                proof {
                    lemma_drawn_step(grid, sprite@, x0, y0, i as int, j as int);
                }
                if j < PIXELS_WIDTH - start_x && i < PIXELS_HEIGHT - start_y {
                    let x = start_x + j;
                    let y = start_y + i;
                    let shift = (7 - j) as u8;
                    let bit = (byte >> shift) & 1u8;
                    assert(bit == 1u8 <==> bit_of(sprite@[i as int], (7 - j) as u8));
                    if bit == 1u8 {
                        let offset = x + y * PIXELS_WIDTH;
                        assert(offset == pixel_at(x as int, y as int));
                        let ghost before = self@;
                        match self.pixels[offset] {
                            Pixel::On => {
                                self.pixels[offset] = Pixel::Off;
                                has_collided = true;
                            },
                            Pixel::Off => {
                                self.pixels[offset] = Pixel::On;
                            },
                        }
                        assert(self@ =~= before.update(offset as int, !before[offset as int]));
                    }
                }
                j = j + 1;
            }
            i = i + 1;
        }
        has_collided
    }
}

} // verus!
