//! A grid of `0xRRGGBB` words, written one point at a time with a current colour.
use vstd::prelude::*;

use crate::color::{blue_of, green_of, red_of};

verus! {

/// `width * height` pixels in row-major order, all black at first, and the colour
/// that the next `point` paints, white at first.
pub struct Framebuffer {
    pub width: usize,
    pub height: usize,
    buffer: Vec<u32>,
    current_color: u32,
}

/// What a framebuffer holds: its size, its pixels row by row, and its current colour.
pub struct FrameView {
    pub width: nat,
    pub height: nat,
    pub pixels: Seq<u32>,
    pub pen: u32,
}

impl FrameView {
    /// One word per pixel of the `width * height` grid.
    pub open spec fn wf(self) -> bool {
        self.pixels.len() == self.width * self.height
    }

    /// The index in `pixels` of the pixel at column `x`, row `y`.
    pub open spec fn index_of(self, x: int, y: int) -> int {
        y * self.width + x
    }
}

impl View for Framebuffer {
    type V = FrameView;

    closed spec fn view(&self) -> FrameView {
        FrameView {
            width: self.width as nat,
            height: self.height as nat,
            pixels: self.buffer@,
            pen: self.current_color,
        }
    }
}

impl Framebuffer {

    pub fn new(width: usize, height: usize) -> (fb: Framebuffer)
        requires
            width * height <= usize::MAX,
        ensures
            fb@.wf(),
            fb@.width == width,
            fb@.height == height,
            fb@.pixels == Seq::new((width * height) as nat, |i: int| 0u32),
            fb@.pen == 0xFFFFFF,
    {
        let buffer = vec![0x000000u32; width * height];
        let fb = Framebuffer { width, height, buffer, current_color: 0xFFFFFF };
        assert(fb@.pixels =~= Seq::new((width * height) as nat, |i: int| 0u32));
        fb
    }

    pub fn set_current_color(&mut self, color: u32)
        ensures
            final(self)@.width == old(self)@.width,
            final(self)@.height == old(self)@.height,
            final(self)@.pixels == old(self)@.pixels,
            final(self)@.pen == color,
    {
        self.current_color = color;
    }

    /// Paints the pixel at column `x`, row `y` with the current colour; a point
    /// outside the grid leaves the framebuffer as it was.
    pub fn point(&mut self, x: usize, y: usize)
        requires
            old(self)@.wf(),
        ensures
            final(self)@.wf(),
            final(self)@.width == old(self)@.width,
            final(self)@.height == old(self)@.height,
            final(self)@.pen == old(self)@.pen,
            x < old(self)@.width && y < old(self)@.height ==> final(self)@.pixels == old(
                self,
            )@.pixels.update(y * old(self)@.width + x, old(self)@.pen),
            x < old(self)@.width && y < old(self)@.height ==> final(self)@.pixels[y * old(self)@.width + x]
                == old(self)@.pen,
            final(self)@.pixels == if x < old(self)@.width && y < old(self)@.height {
                old(self)@.pixels.update(old(self)@.index_of(x as int, y as int), old(self)@.pen)
            } else {
                old(self)@.pixels
            },
    {
        if x < self.width && y < self.height {
            proof {
                lemma_index_in_grid(x as int, y as int, self.width as int, self.height as int);
            }
            let n = self.buffer.len();
            assert(y * self.width + x < n);
            let i = y * self.width + x;
            self.buffer.set(i, self.current_color);
        }
    }

    /// Paints a frame: `colors[i]` goes to pixel `i`, counted row by row, and the
    /// current colour is left at the last one painted. Colours past the end of the
    /// grid are painted nowhere.
    pub fn paint(&mut self, colors: &[u32])
        requires
            old(self)@.wf(),
            colors@.len() > 0 ==> old(self)@.width > 0,
        ensures
            final(self)@.wf(),
            final(self)@.width == old(self)@.width,
            final(self)@.height == old(self)@.height,
            final(self)@.pixels.len() == old(self)@.pixels.len(),
            forall|p: int|
                0 <= p < old(self)@.pixels.len() ==> #[trigger] final(self)@.pixels[p] == if p
                    < colors@.len() {
                    colors@[p]
                } else {
                    old(self)@.pixels[p]
                },
            colors@.len() == old(self)@.pixels.len() ==> final(self)@.pixels == colors@,
            final(self)@.pen == if colors@.len() > 0 {
                colors@.last()
            } else {
                old(self)@.pen
            },
    {
        let pixels_wide = self.width;
        let ghost start = self@;
        let mut i: usize = 0;
        while i < colors.len()
            invariant
                i <= colors@.len(),
                colors@.len() > 0 ==> pixels_wide > 0,
                pixels_wide == start.width,
                self@.wf(),
                self@.width == start.width,
                self@.height == start.height,
                self@.pixels.len() == start.pixels.len(),
                forall|p: int|
                    0 <= p < start.pixels.len() ==> #[trigger] self@.pixels[p] == if p < i {
                        colors@[p]
                    } else {
                        start.pixels[p]
                    },
                self@.pen == if i > 0 {
                    colors@[i - 1]
                } else {
                    start.pen
                },
            decreases colors@.len() - i,
        {
            let color = colors[i];
            let x = i % pixels_wide;
            let y = i / pixels_wide;
            proof {
                lemma_row_major(i as int, pixels_wide as int, start.height as int);
            }
            self.set_current_color(color);
            self.point(x, y);
            i = i + 1;
        }
    }

    /// The pixels, row by row, as the words that a window shows.
    pub fn buffer(&self) -> (words: &[u32])
        ensures
            words@ == self@.pixels,
    {
        self.buffer.as_slice()
    }

    /// The pixels as red, green and blue bytes, three per pixel, row by row: the
    /// layout of an 8-bit RGB image.
    pub fn to_rgb_bytes(&self) -> (bytes: Vec<u8>)
        requires
            3 * self@.pixels.len() <= usize::MAX,
        ensures
            bytes@.len() == 3 * self@.pixels.len(),
            forall|i: int|
                0 <= i < self@.pixels.len() ==> {
                    &&& #[trigger] bytes@[3 * i] == red_of(self@.pixels[i])
                    &&& bytes@[3 * i + 1] == green_of(self@.pixels[i])
                    &&& bytes@[3 * i + 2] == blue_of(self@.pixels[i])
                },
    {
        let n = self.buffer.len();
        let mut bytes: Vec<u8> = Vec::with_capacity(3 * n);
        let mut i: usize = 0;
        while i < n
            invariant
                n == self@.pixels.len(),
                3 * n <= usize::MAX,
                i <= n,
                bytes@.len() == 3 * i,
                forall|k: int|
                    0 <= k < i ==> {
                        &&& #[trigger] bytes@[3 * k] == red_of(self@.pixels[k])
                        &&& bytes@[3 * k + 1] == green_of(self@.pixels[k])
                        &&& bytes@[3 * k + 2] == blue_of(self@.pixels[k])
                    },
            decreases n - i,
        {
            let color = self.buffer[i];
            let r = #[verifier::truncate] (((color >> 16) & 0xFF) as u8);
            let g = #[verifier::truncate] (((color >> 8) & 0xFF) as u8);
            let b = #[verifier::truncate] ((color & 0xFF) as u8);
            assert(r == red_of(color) && g == green_of(color) && b == blue_of(color)) by {
                lemma_channels_of_word(color);
            }
            let ghost before = bytes@;
            bytes.push(r);
            bytes.push(g);
            bytes.push(b);
            assert(bytes@ == before.push(r).push(g).push(b));
            assert forall|k: int| 0 <= k < i + 1 implies {
                &&& #[trigger] bytes@[3 * k] == red_of(self@.pixels[k])
                &&& bytes@[3 * k + 1] == green_of(self@.pixels[k])
                &&& bytes@[3 * k + 2] == blue_of(self@.pixels[k])
            } by {
                if k < i {
                    assert(before[3 * k] == red_of(self@.pixels[k]));
                }
            }
            i = i + 1;
        }
        bytes
    }
}

/// Pixels are stored row by row from the top, for every size of frame: the pixel at
/// column `x`, row `y` is word `y * width + x`, and distinct pixels of the grid are
/// distinct words of it.
pub proof fn lemma_index_row_major(frame: FrameView, x: int, y: int, x2: int, y2: int)
    requires
        0 <= x < frame.width,
        0 <= y < frame.height,
        0 <= x2 < frame.width,
        0 <= y2 < frame.height,
    ensures
        frame.index_of(x, y) == y * frame.width + x,
        frame.index_of(0, 0) == 0,
        frame.index_of(x, y) == frame.index_of(x2, y2) ==> x == x2 && y == y2,
        0 <= frame.index_of(x, y) < frame.width * frame.height,
{
    lemma_index_in_grid(x, y, frame.width as int, frame.height as int);
    if y < y2 {
        assert(y * frame.width + x < y2 * frame.width + x2) by (nonlinear_arith)
            requires y < y2, 0 <= x < frame.width, 0 <= x2;
    } else if y2 < y {
        assert(y2 * frame.width + x2 < y * frame.width + x) by (nonlinear_arith)
            requires y2 < y, 0 <= x2 < frame.width, 0 <= x;
    }
}

/// A pixel inside a `width * height` grid has a row-major index inside the grid.
pub proof fn lemma_index_in_grid(x: int, y: int, width: int, height: int)
    requires
        0 <= x < width,
        0 <= y < height,
    ensures
        0 <= y * width + x < width * height,
{
    assert(y * width + x < width * height) by (nonlinear_arith)
        requires
            0 <= x < width,
            0 <= y < height,
    ;
    assert(0 <= y * width) by (nonlinear_arith)
        requires
            0 <= y,
            0 <= width,
    ;
}

proof fn lemma_channels_of_word(word: u32)
    ensures
        ((word >> 16) & 0xFF) as u8 == red_of(word),
        ((word >> 8) & 0xFF) as u8 == green_of(word),
        (word & 0xFF) as u8 == blue_of(word),
{
    assert((word >> 16) & 0xFF == (word / 0x10000) % 0x100) by (bit_vector);
    assert((word >> 8) & 0xFF == (word / 0x100) % 0x100) by (bit_vector);
    assert(word & 0xFF == word % 0x100) by (bit_vector);
}

/// Column `i % width` and row `i / width` name pixel `i` of a grid that is
/// `width` wide, and that pixel is in the grid exactly when `i` is.
pub proof fn lemma_row_major(i: int, width: int, height: int)
    requires
        0 <= i,
        0 < width,
        0 <= height,
    ensures
        (i / width) * width + i % width == i,
        0 <= i % width < width,
        (i / width < height) <==> (i < width * height),
{
    vstd::arithmetic::div_mod::lemma_fundamental_div_mod(i, width);
    if i / width < height {
        assert((i / width) * width + width <= height * width) by (nonlinear_arith)
            requires
                i / width < height,
                0 < width,
        ;
    } else {
        assert(height * width <= (i / width) * width) by (nonlinear_arith)
            requires
                i / width >= height,
                0 < width,
        ;
    }
    assert(height * width == width * height) by (nonlinear_arith);
}

} // verus!
