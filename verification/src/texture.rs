//! Where the base colour of a material comes from: one colour, a checkerboard of
//! two colours, or an image wrapped over the surface.
use vstd::prelude::*;

use crate::color::Color;

verus! {

/// An image held in memory to be used as a texture: `width * height` colours,
/// row by row from the top.
#[derive(Debug)]
pub struct ImageTexture {
    width: usize,
    height: usize,
    pixels: Vec<Color>,
}

impl ImageTexture {
    #[verifier::type_invariant]
    spec fn one_colour_per_pixel(self) -> bool {
        self.pixels@.len() == self.width * self.height
    }

    pub closed spec fn spec_width(&self) -> nat {
        self.width as nat
    }

    pub closed spec fn spec_height(&self) -> nat {
        self.height as nat
    }

    /// The colours, row by row from the top.
    pub closed spec fn spec_pixels(&self) -> Seq<Color> {
        self.pixels@
    }

    pub fn width(&self) -> (w: usize)
        ensures
            w == self.spec_width(),
            self.spec_pixels().len() == self.spec_width() * self.spec_height(),
    {
        proof {
            use_type_invariant(self);
        }
        self.width
    }

    pub fn height(&self) -> (h: usize)
        ensures
            h == self.spec_height(),
    {
        self.height
    }

    /// Builds an image from 8-bit RGB bytes, three per pixel, row by row from the top.
    pub fn from_rgb_bytes(width: usize, height: usize, bytes: &[u8]) -> (image: ImageTexture)
        requires
            bytes@.len() == 3 * width * height,
        ensures
            image.spec_width() == width,
            image.spec_height() == height,
            image.spec_pixels().len() == width * height,
            forall|i: int|
                0 <= i < width * height ==> #[trigger] image.spec_pixels()[i] == (Color {
                    r: bytes@[3 * i],
                    g: bytes@[3 * i + 1],
                    b: bytes@[3 * i + 2],
                }),
    {
        let len = bytes.len();
        assert(3 * width * height == 3 * (width * height)) by (nonlinear_arith);
        let n = len / 3;
        assert(n == width * height);
        let mut pixels: Vec<Color> = Vec::with_capacity(n);
        let mut i: usize = 0;
        while i < n
            invariant
                n == width * height,
                bytes@.len() == 3 * n,
                len == bytes@.len(),
                i <= n,
                pixels@.len() == i,
                forall|k: int|
                    0 <= k < i ==> #[trigger] pixels@[k] == (Color {
                        r: bytes@[3 * k],
                        g: bytes@[3 * k + 1],
                        b: bytes@[3 * k + 2],
                    }),
            decreases n - i,
        {
            let c = Color::new(bytes[3 * i], bytes[3 * i + 1], bytes[3 * i + 2]);
            pixels.push(c);
            i = i + 1;
        }
        ImageTexture { width, height, pixels }
    }

    /// The colour of the pixel at column `x`, row `y`; a coordinate past the last
    /// column or row gives that column or row, so every coordinate lands in the image.
    pub fn texel(&self, x: usize, y: usize) -> (c: Color)
        requires
            self.spec_width() > 0,
            self.spec_height() > 0,
        ensures
            c == self.spec_pixels()[clamp_index(y as int, self.spec_height() as int) * self.spec_width()
                + clamp_index(x as int, self.spec_width() as int)],
            x < self.spec_width() && y < self.spec_height() ==> c == self.spec_pixels()[y * self.spec_width() + x],
            x >= self.spec_width() && y < self.spec_height() ==> c == self.spec_pixels()[y * self.spec_width() + self.spec_width() - 1],
            x < self.spec_width() && y >= self.spec_height() ==> c == self.spec_pixels()[(self.spec_height() - 1) * self.spec_width() + x],
            x >= self.spec_width() && y >= self.spec_height() ==> c == self.spec_pixels()[self.spec_height() * self.spec_width() - 1],
    {
        proof {
            use_type_invariant(self);
        }
        let col = if x < self.width - 1 { x } else { self.width - 1 };
        let row = if y < self.height - 1 { y } else { self.height - 1 };
        proof {
            crate::framebuffer::lemma_index_in_grid(col as int, row as int, self.width as int, self.height as int);
        }
        let n = self.pixels.len();
        assert(row * self.width + col < n);
        assert((self.height - 1) * self.width + (self.width - 1) == self.height * self.width - 1)
            by (nonlinear_arith);
        self.pixels[row * self.width + col]
    }
}

/// `i`, or `n - 1` when `i` is past it.
pub open spec fn clamp_index(i: int, n: int) -> int {
    if i < n - 1 {
        i
    } else {
        n - 1
    }
}

/// Where the base colour of a material comes from. `u` and `v` run from 0 to 1
/// over the surface.
#[derive(Debug, Clone, Copy)]
pub enum Texture {
    /// One colour over the whole surface.
    Solid(Color),
    /// Alternating squares of two colours; `tiles` is how many squares there are
    /// from pole to pole.
    Checker { a: Color, b: Color, tiles: u32 },
    /// An image wrapped over the surface.
    Image(&'static ImageTexture),
}

/// The colour of the checkerboard square at `column`, `row`: `a` where the sum of
/// the two is even, `b` where it is odd.
pub open spec fn checker_square(a: Color, b: Color, column: int, row: int) -> Color {
    if (column + row) % 2 == 0 {
        a
    } else {
        b
    }
}

/// The colour of the checkerboard of `a` and `b` at square `column`, `row`.
pub fn checker_color(a: Color, b: Color, column: i32, row: i32) -> (c: Color)
    ensures
        c == checker_square(a, b, column as int, row as int),
        (column + row) % 2 == 0 ==> c == a,
        (column + row) % 2 != 0 ==> c == b,
{
    let sum: i64 = column as i64 + row as i64;
    if sum % 2 == 0 {
        a
    } else {
        b
    }
}

/// A coordinate inside `0..n` is kept as it is; one past the end is held at `n - 1`.
pub proof fn lemma_clamp_index(i: int, n: int)
    requires
        0 <= i,
        0 < n,
    ensures
        i < n ==> clamp_index(i, n) == i,
        i >= n ==> clamp_index(i, n) == n - 1,
        0 <= clamp_index(i, n) < n,
{
}

/// The square whose column and row add up to an even number has the first colour,
/// and the square where they add up to an odd number has the second, whatever the colours.
pub proof fn lemma_checker_parity(a: Color, b: Color, column: int, row: int)
    ensures
        (column + row) % 2 == 0 ==> checker_square(a, b, column, row) == a,
        (column + row) % 2 == 1 ==> checker_square(a, b, column, row) == b,
        checker_square(a, b, 0, 0) == a,
        checker_square(a, b, 1, 0) == b,
{
}

/// Neighbouring squares of the checkerboard alternate: the square one column or one
/// row over has the other colour, and the square one step along a diagonal has the same.
pub proof fn lemma_checker_alternates(a: Color, b: Color, column: int, row: int)
    requires
        a != b,
    ensures
        checker_square(a, b, column + 1, row) != checker_square(a, b, column, row),
        checker_square(a, b, column, row + 1) != checker_square(a, b, column, row),
        checker_square(a, b, column + 1, row + 1) == checker_square(a, b, column, row),
        checker_square(a, b, column, row) == a || checker_square(a, b, column, row) == b,
{
}

} // verus!
