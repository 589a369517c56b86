//! The frame as a buffer of RGBA bytes, four per pixel, rows top to bottom.
use vstd::prelude::*;
use crate::sprite::{
    collides, collides_upto, drawn, drawn_upto, lemma_drawn_start, lemma_drawn_step, pixel_at,
    FRAME_HEIGHT, FRAME_SIZE, FRAME_WIDTH,
};
use crate::utils::bit_of;

verus! {

/// Colour level of the red, green and blue bytes of a lit pixel.
pub const LEVEL_ON: u8 = 255;

/// Colour level of the red, green and blue bytes of a dark pixel.
pub const LEVEL_OFF: u8 = 0;

/// Alpha byte of every pixel.
pub const ALPHA: u8 = 255;

pub const BYTES_PER_PIXEL: usize = 4;

pub const BYTES_PER_ROW: usize = 256;

/// Number of bytes that the frame occupies.
pub const BUFFER_SIZE: usize = 8192;

/// Whether the four bytes of pixel `p` encode a lit or a dark pixel.
pub open spec fn pixel_encoded(bytes: Seq<u8>, p: int) -> bool {
    let b = 4 * p;
    &&& bytes[b + 3] == ALPHA
    &&& bytes[b + 1] == bytes[b]
    &&& bytes[b + 2] == bytes[b]
    &&& (bytes[b] == LEVEL_ON || bytes[b] == LEVEL_OFF)
}

/// Byte `k` of the dark pattern: colour bytes dark, alpha bytes opaque.
pub open spec fn dark_byte(k: int) -> u8 {
    if k % 4 == 3 {
        ALPHA
    } else {
        LEVEL_OFF
    }
}

/// Whether every byte of `bytes` follows the dark pattern.
pub open spec fn all_dark(bytes: Seq<u8>) -> bool {
    forall|k: int| 0 <= k < bytes.len() ==> #[trigger] bytes[k] == dark_byte(k)
}

/// Whether `after` differs from `before` at most in the bytes of the frame.
pub open spec fn tail_kept(before: Seq<u8>, after: Seq<u8>) -> bool {
    &&& after.len() == before.len()
    &&& forall|k: int| BUFFER_SIZE <= k < before.len() ==> #[trigger] after[k] == before[k]
}

/// A byte buffer that holds a whole frame with every pixel encoded.
pub open spec fn buffer_wf(bytes: Seq<u8>) -> bool {
    &&& bytes.len() >= BUFFER_SIZE
    &&& forall|p: int| 0 <= p < FRAME_SIZE ==> #[trigger] pixel_encoded(bytes, p)
}

/// The pixels of a buffer, lit or dark, in row-major order.
pub open spec fn pixels_of(bytes: Seq<u8>) -> Seq<bool> {
    Seq::new(FRAME_SIZE as nat, |p: int| bytes[4 * p] == LEVEL_ON)
}

/// Two buffers that encode every pixel, with the same pixels and the same
/// bytes past the frame, are equal byte for byte.
pub proof fn lemma_bytes_determined(a: Seq<u8>, b: Seq<u8>)
    requires
        buffer_wf(a),
        buffer_wf(b),
        pixels_of(a) == pixels_of(b),
        tail_kept(a, b),
    ensures
        a == b,
{
    assert forall|k: int| 0 <= k < a.len() implies a[k] == b[k] by {
        if k < BUFFER_SIZE {
            let p = k / 4;
            assert(0 <= p < FRAME_SIZE && 4 * p <= k < 4 * p + 4);
            assert(pixel_encoded(a, p) && pixel_encoded(b, p));
            assert(pixels_of(a)[p] == pixels_of(b)[p]);
            assert(pixels_of(a)[p] == (a[4 * p] == LEVEL_ON));
            assert(pixels_of(b)[p] == (b[4 * p] == LEVEL_ON));
            assert(a[4 * p] == b[4 * p]);
            assert(k == 4 * p || k == 4 * p + 1 || k == 4 * p + 2 || k == 4 * p + 3);
        } else {
            assert(b[k] == a[k]);
        }
    }
    assert(a =~= b);
}

/// A frame in a buffer of the machine's own.
pub struct InternalFrameBuffer {
    buffer: Vec<u8>,
}

/// A frame in a buffer that the host handed over, at least `BUFFER_SIZE` bytes long.
pub struct ExternalFrameBuffer {
    buffer: Vec<u8>,
}

/// The frame, held either in the machine's own buffer or in one of the host's.
pub enum FrameBuffer {
    Internal(InternalFrameBuffer),
    External(ExternalFrameBuffer),
}

impl InternalFrameBuffer {
    /// The bytes of the buffer.
    pub closed spec fn bytes(&self) -> Seq<u8> {
        self.buffer@
    }

    /// A zeroed buffer of `BUFFER_SIZE` bytes.
    pub fn new() -> (r: Self)
        ensures
            r.bytes() == Seq::new(BUFFER_SIZE as nat, |_i: int| 0u8),
    {
        let mut buffer: Vec<u8> = Vec::new();
        let mut k: usize = 0;
        while k < BUFFER_SIZE
            invariant
                k <= BUFFER_SIZE,
                buffer@ == Seq::new(k as nat, |_i: int| 0u8),
            decreases BUFFER_SIZE - k,
        {
            buffer.push(0u8);
            k = k + 1;
            assert(buffer@ =~= Seq::new(k as nat, |_i: int| 0u8));
        }
        Self { buffer }
    }
}

impl ExternalFrameBuffer {
    /// The bytes of the buffer.
    pub closed spec fn bytes(&self) -> Seq<u8> {
        self.buffer@
    }

    /// Takes over the host's buffer.
    pub fn new(buffer: Vec<u8>) -> (r: Self)
        ensures
            r.bytes() == buffer@,
    {
        Self { buffer }
    }
}

impl FrameBuffer {
    /// The bytes that hold the frame.
    pub closed spec fn bytes(&self) -> Seq<u8> {
        match self {
            FrameBuffer::Internal(fb) => fb.bytes(),
            FrameBuffer::External(fb) => fb.bytes(),
        }
    }

    /// Whether every pixel of the frame is encoded as lit or dark.
    pub open spec fn wf(&self) -> bool {
        buffer_wf(self.bytes())
    }

    /// The frame's pixels, `true` where lit, in row-major order.
    pub open spec fn pixels(&self) -> Seq<bool> {
        pixels_of(self.bytes())
    }

    /// A dark frame, in `buffer` when one is given (it must hold at least
    /// `BUFFER_SIZE` bytes), else in a buffer of its own.
    pub fn new(buffer: Option<Vec<u8>>) -> (r: Self)
        requires
            buffer is Some ==> buffer->Some_0@.len() >= BUFFER_SIZE,
        ensures
            r.wf(),
            r.pixels() == Seq::new(FRAME_SIZE as nat, |_p: int| false),
            all_dark(r.bytes()),
            buffer is Some ==> r is External && r.spec_len() == buffer->Some_0@.len(),
            buffer is None ==> r is Internal && r.spec_len() == BUFFER_SIZE,
    {
        let mut fb = match buffer {
            Some(buf) => FrameBuffer::External(ExternalFrameBuffer::new(buf)),
            None => FrameBuffer::Internal(InternalFrameBuffer::new()),
        };
        fb.clear();
        fb
    }

    /// Number of bytes of the buffer.
    pub open spec fn spec_len(&self) -> nat {
        self.bytes().len()
    }

    /// Number of bytes of the buffer.
    pub fn len(&self) -> (r: usize)
        ensures
            r == self.spec_len(),
    {
        match self {
            FrameBuffer::Internal(fb) => fb.buffer.len(),
            FrameBuffer::External(fb) => fb.buffer.len(),
        }
    }

    /// The bytes of the buffer, for a host to render.
    pub fn as_bytes(&self) -> (r: &[u8])
        ensures
            r@ == self.bytes(),
    {
        match self {
            FrameBuffer::Internal(fb) => fb.buffer.as_slice(),
            FrameBuffer::External(fb) => fb.buffer.as_slice(),
        }
    }

    /// A copy of the frame in a buffer of its own.
    pub fn snapshot(&self) -> (r: FrameBuffer)
        ensures
            r.bytes() == self.bytes(),
            r is Internal,
    {
        let mut buffer: Vec<u8> = Vec::new();
        let src = self.as_bytes();
        let mut k: usize = 0;
        while k < src.len()
            invariant
                k <= src@.len(),
                buffer@ == src@.subrange(0, k as int),
            decreases src@.len() - k,
        {
            buffer.push(src[k]);
            k = k + 1;
            assert(buffer@ =~= src@.subrange(0, k as int));
        }
        assert(buffer@ =~= src@);
        FrameBuffer::Internal(InternalFrameBuffer { buffer })
    }

    /// Sets every pixel dark.
    pub fn clear(&mut self)
        requires
            old(self).spec_len() >= BUFFER_SIZE,
        ensures
            final(self).wf(),
            final(self).spec_len() == old(self).spec_len(),
            final(self).pixels() == Seq::new(FRAME_SIZE as nat, |_p: int| false),
            all_dark(final(self).bytes()),
            (*final(self) is Internal) <==> (*old(self) is Internal),
    {
        match self {
            FrameBuffer::Internal(fb) => clear_buffer(&mut fb.buffer),
            FrameBuffer::External(fb) => clear_buffer(&mut fb.buffer),
        }
        assert(self.pixels() =~= Seq::new(FRAME_SIZE as nat, |_p: int| false));
    }

    /// XORs `sprite` into the frame at `coordinates`, one byte per row and
    /// one bit per pixel, most significant bit leftmost. The start wraps
    /// around the frame; bits past its right or bottom edge are clipped.
    /// Returns whether a lit pixel was turned dark.
    pub fn draw(&mut self, sprite: &[u8], coordinates: (usize, usize)) -> (collided: bool)
        requires
            old(self).wf(),
        ensures
            final(self).wf(),
            final(self).spec_len() == old(self).spec_len(),
            tail_kept(old(self).bytes(), final(self).bytes()),
            (*final(self) is Internal) <==> (*old(self) is Internal),
            final(self).pixels() == drawn(
                old(self).pixels(),
                sprite@,
                coordinates.0 as int,
                coordinates.1 as int,
            ),
            collided == collides(
                old(self).pixels(),
                sprite@,
                coordinates.0 as int,
                coordinates.1 as int,
            ),
    {
        match self {
            FrameBuffer::Internal(fb) => draw_buffer(&mut fb.buffer, sprite, coordinates),
            FrameBuffer::External(fb) => draw_buffer(&mut fb.buffer, sprite, coordinates),
        }
    }
}

/// Writes the dark encoding into every pixel slot of `buffer`.
fn clear_buffer(buffer: &mut Vec<u8>)
    requires
        old(buffer)@.len() >= BUFFER_SIZE,
    ensures
        final(buffer)@.len() == old(buffer)@.len(),
        buffer_wf(final(buffer)@),
        pixels_of(final(buffer)@) == Seq::new(FRAME_SIZE as nat, |_p: int| false),
        all_dark(final(buffer)@),
{
    let n = buffer.len();
    let mut k: usize = 0;
    while k < n
        invariant
            k <= n,
            n == buffer@.len(),
            n >= BUFFER_SIZE,
            forall|a: int| 0 <= a < k ==> #[trigger] buffer@[a] == dark_byte(a),
        decreases n - k,
    {
        let level = if k % BYTES_PER_PIXEL == 3 {
            ALPHA
        } else {
            LEVEL_OFF
        };
        buffer.set(k, level);
        k = k + 1;
    }
    assert forall|p: int| 0 <= p < FRAME_SIZE implies #[trigger] pixel_encoded(buffer@, p) by {
        assert((4 * p) % 4 == 0 && (4 * p + 1) % 4 == 1 && (4 * p + 2) % 4 == 2 && (4 * p + 3) % 4
            == 3);
    }
    assert(pixels_of(buffer@) =~= Seq::new(FRAME_SIZE as nat, |_p: int| false));
}

/// Sets pixel `p` of `buffer` lit or dark.
fn set_pixel(buffer: &mut Vec<u8>, p: usize, lit: bool)
    requires
        buffer_wf(old(buffer)@),
        p < FRAME_SIZE,
    ensures
        buffer_wf(final(buffer)@),
        final(buffer)@.len() == old(buffer)@.len(),
        tail_kept(old(buffer)@, final(buffer)@),
        pixels_of(final(buffer)@) == pixels_of(old(buffer)@).update(p as int, lit),
{
    let level = if lit {
        LEVEL_ON
    } else {
        LEVEL_OFF
    };
    let b = p * BYTES_PER_PIXEL;
    buffer.set(b, level);
    buffer.set(b + 1, level);
    buffer.set(b + 2, level);
    buffer.set(b + 3, ALPHA);
    assert forall|q: int| 0 <= q < FRAME_SIZE implies #[trigger] pixel_encoded(buffer@, q) by {
        if q != p {
            assert(pixel_encoded(old(buffer)@, q));
        }
    }
    assert(pixels_of(buffer@) =~= pixels_of(old(buffer)@).update(p as int, lit));
}

/// Draws `sprite` into `buffer`; see `FrameBuffer::draw`.
fn draw_buffer(buffer: &mut Vec<u8>, sprite: &[u8], coordinates: (usize, usize)) -> (collided:
    bool)
    requires
        buffer_wf(old(buffer)@),
    ensures
        buffer_wf(final(buffer)@),
        final(buffer)@.len() == old(buffer)@.len(),
        tail_kept(old(buffer)@, final(buffer)@),
        pixels_of(final(buffer)@) == drawn(
            pixels_of(old(buffer)@),
            sprite@,
            coordinates.0 as int,
            coordinates.1 as int,
        ),
        collided == collides(
            pixels_of(old(buffer)@),
            sprite@,
            coordinates.0 as int,
            coordinates.1 as int,
        ),
{
    let start_x = coordinates.0 % FRAME_WIDTH;
    let start_y = coordinates.1 % FRAME_HEIGHT;
    let ghost grid = pixels_of(old(buffer)@);
    let ghost x0 = start_x as int;
    let ghost y0 = start_y as int;
    proof {
        lemma_drawn_start(grid, sprite@, x0, y0);
    }
    let mut has_collided = false;
    let mut i: usize = 0;
    while i < sprite.len()
        invariant
            i <= sprite@.len(),
            start_x < FRAME_WIDTH,
            start_y < FRAME_HEIGHT,
            x0 == start_x,
            y0 == start_y,
            grid.len() == FRAME_SIZE,
            buffer_wf(buffer@),
            buffer@.len() == old(buffer)@.len(),
            tail_kept(old(buffer)@, buffer@),
            pixels_of(buffer@) == drawn_upto(grid, sprite@, x0, y0, i * 8),
            has_collided == collides_upto(grid, sprite@, x0, y0, i * 8),
        decreases sprite@.len() - i,
    {
        let byte = sprite[i];
        let mut j: usize = 0;
        while j < 8
            invariant
                i < sprite@.len(),
                j <= 8,
                byte == sprite@[i as int],
                start_x < FRAME_WIDTH,
                start_y < FRAME_HEIGHT,
                x0 == start_x,
                y0 == start_y,
                grid.len() == FRAME_SIZE,
                buffer_wf(buffer@),
                buffer@.len() == old(buffer)@.len(),
                tail_kept(old(buffer)@, buffer@),
                pixels_of(buffer@) == drawn_upto(grid, sprite@, x0, y0, i * 8 + j),
                has_collided == collides_upto(grid, sprite@, x0, y0, i * 8 + j),
            decreases 8 - j,
        {
            proof {
                lemma_drawn_step(grid, sprite@, x0, y0, i as int, j as int);
            }
            if j < FRAME_WIDTH - start_x && i < FRAME_HEIGHT - start_y {
                let x = start_x + j;
                let y = start_y + i;
                let shift = (7 - j) as u8;
                let bit = (byte >> shift) & 1u8;
                assert(bit == 1u8 <==> bit_of(sprite@[i as int], (7 - j) as u8));
                if bit == 1u8 {
                    let offset = (x * BYTES_PER_PIXEL) + y * BYTES_PER_ROW;
                    let p = y * FRAME_WIDTH + x;
                    assert(p == pixel_at(x as int, y as int));
                    assert(offset == 4 * p);
                    if buffer[offset] == LEVEL_ON {
                        set_pixel(buffer, p, false);
                        has_collided = true;
                    } else {
                        set_pixel(buffer, p, true);
                    }
                }
            }
            j = j + 1;
        }
        i = i + 1;
    }
    has_collided
}

} // verus!
