//! RGB colours with one byte per channel.
use std::ops::Add;
use vstd::prelude::*;
use vstd::std_specs::ops::AddSpecImpl;

verus! {

/// A colour: red, green and blue, each from 0 to 255.
#[derive(Debug, Clone, Copy)]
pub struct Color {
    pub r: u8,
    pub g: u8,
    pub b: u8,
}

/// The sum of two channel values, held at 255 when it would go past it.
pub open spec fn channel_sum(x: u8, y: u8) -> u8 {
    if x + y > 255 {
        255
    } else {
        (x + y) as u8
    }
}

/// Two colours added channel by channel, each channel held at 255.
pub open spec fn color_sum(a: Color, b: Color) -> Color {
    Color { r: channel_sum(a.r, b.r), g: channel_sum(a.g, b.g), b: channel_sum(a.b, b.b) }
}

/// The `0xRRGGBB` word of a colour, as a number.
pub open spec fn hex_of(c: Color) -> int {
    c.r * 0x10000 + c.g * 0x100 + c.b
}

/// The red byte of an `0xRRGGBB` word.
pub open spec fn red_of(word: u32) -> u8 {
    ((word / 0x10000) % 0x100) as u8
}

/// The green byte of an `0xRRGGBB` word.
pub open spec fn green_of(word: u32) -> u8 {
    ((word / 0x100) % 0x100) as u8
}

/// The blue byte of an `0xRRGGBB` word.
pub open spec fn blue_of(word: u32) -> u8 {
    (word % 0x100) as u8
}

impl Color {
    pub fn new(r: u8, g: u8, b: u8) -> (c: Color)
        ensures
            c.r == r,
            c.g == g,
            c.b == b,
    {
        Color { r, g, b }
    }

    /// The colour as `0xRRGGBB`, the word the framebuffer stores.
    pub fn to_hex(&self) -> (word: u32)
        ensures
            word == hex_of(*self),
            word == self.r * 0x10000 + self.g * 0x100 + self.b,
            word < 0x100_0000,
    {
        let r = self.r;
        let g = self.g;
        let b = self.b;
        let word = ((r as u32) << 16) | ((g as u32) << 8) | (b as u32);
        assert(word == (r as u32) * 0x10000 + (g as u32) * 0x100 + (b as u32) && word < 0x100_0000)
            by (bit_vector)
            requires
                word == ((r as u32) << 16) | ((g as u32) << 8) | (b as u32),
        ;
        word
    }
}

/// Adds two colours channel by channel, without going past 255 in any channel.
impl Add for Color {
    type Output = Color;

    fn add(self, other: Color) -> (sum: Color)
        ensures
            sum == color_sum(self, other),
            sum.r == if self.r + other.r <= 255 { self.r + other.r } else { 255 },
            sum.g == if self.g + other.g <= 255 { self.g + other.g } else { 255 },
            sum.b == if self.b + other.b <= 255 { self.b + other.b } else { 255 },
    {
        Color::new(
            self.r.saturating_add(other.r),
            self.g.saturating_add(other.g),
            self.b.saturating_add(other.b),
        )
    }
}

impl AddSpecImpl for Color {
    open spec fn obeys_add_spec() -> bool {
        true
    }

    open spec fn add_req(self, rhs: Color) -> bool {
        true
    }

    open spec fn add_spec(self, rhs: Color) -> Color {
        color_sum(self, rhs)
    }
}

/// Each channel of a sum is the true sum of the two channels, held at 255: below 256
/// the sum is exact, and from 256 on it is 255.
pub proof fn lemma_sum_is_held_at_255(a: Color, b: Color)
    ensures
        color_sum(a, b).r == if a.r + b.r <= 255 { a.r + b.r } else { 255 },
        color_sum(a, b).g == if a.g + b.g <= 255 { a.g + b.g } else { 255 },
        color_sum(a, b).b == if a.b + b.b <= 255 { a.b + b.b } else { 255 },
        forall|x: u8, y: u8| x + y <= 255 ==> #[trigger] channel_sum(x, y) == x + y,
        forall|x: u8, y: u8| x + y > 255 ==> #[trigger] channel_sum(x, y) == 255,
{
}

/// The `0xRRGGBB` word of a colour is its red byte times 0x10000, plus its green byte
/// times 0x100, plus its blue byte; and any word below 0x1000000 is put together from
/// the bytes read from it in the same way.
pub proof fn lemma_hex_layout(c: Color, word: u32)
    requires
        word < 0x100_0000,
    ensures
        hex_of(c) == c.r * 0x10000 + c.g * 0x100 + c.b,
        word == red_of(word) * 0x10000 + green_of(word) * 0x100 + blue_of(word),
{
    lemma_top_byte_ignored(word);
    let r = word / 0x10000;
    let m = word % 0x10000;
    assert(word == r * 0x10000 + m);
    assert(r < 0x100);
    assert(m / 0x100 == (word / 0x100) % 0x100) by (nonlinear_arith)
        requires word == r * 0x10000 + m, 0 <= m < 0x10000, 0 <= r;
    assert(m % 0x100 == word % 0x100) by (nonlinear_arith)
        requires word == r * 0x10000 + m, 0 <= m < 0x10000, 0 <= r;
}

/// The bytes read from a word do not depend on its top byte: a word reads as its
/// low 24 bits do.
pub proof fn lemma_top_byte_ignored(word: u32)
    ensures
        red_of(word) == red_of(word % 0x100_0000),
        green_of(word) == green_of(word % 0x100_0000),
        blue_of(word) == blue_of(word % 0x100_0000),
{
    assert((word / 0x10000) % 0x100 == ((word % 0x100_0000) / 0x10000) % 0x100) by (bit_vector);
    assert((word / 0x100) % 0x100 == ((word % 0x100_0000) / 0x100) % 0x100) by (bit_vector);
    assert(word % 0x100 == (word % 0x100_0000) % 0x100) by (bit_vector);
}

/// The order in which two colours are added does not matter.
pub proof fn lemma_sum_commutative(a: Color, b: Color)
    ensures
        color_sum(a, b) == color_sum(b, a),
{
}

/// Adding three colours gives the same whichever pair is added first.
pub proof fn lemma_sum_associative(a: Color, b: Color, c: Color)
    ensures
        color_sum(color_sum(a, b), c) == color_sum(a, color_sum(b, c)),
{
}

/// Adding black leaves a colour as it is.
pub proof fn lemma_sum_black(a: Color)
    ensures
        color_sum(a, Color { r: 0, g: 0, b: 0 }) == a,
{
}

/// The bytes read back from the `0xRRGGBB` word of a colour are its channels.
pub proof fn lemma_hex_channels(c: Color)
    ensures
        0 <= hex_of(c) < 0x100_0000,
        red_of(hex_of(c) as u32) == c.r,
        green_of(hex_of(c) as u32) == c.g,
        blue_of(hex_of(c) as u32) == c.b,
{
    let h = hex_of(c);
    assert(h / 0x10000 == c.r as int) by (nonlinear_arith)
        requires h == c.r * 0x10000 + c.g * 0x100 + c.b, 0 <= c.g < 256, 0 <= c.b < 256, 0 <= c.r;
    assert(h / 0x100 == c.r * 0x100 + c.g as int) by (nonlinear_arith)
        requires h == c.r * 0x10000 + c.g * 0x100 + c.b, 0 <= c.b < 256;
    assert((c.r * 0x100 + c.g as int) % 0x100 == c.g as int) by (nonlinear_arith)
        requires 0 <= c.g < 256, 0 <= c.r;
    assert(h % 0x100 == c.b as int) by (nonlinear_arith)
        requires h == c.r * 0x10000 + c.g * 0x100 + c.b, 0 <= c.b < 256, 0 <= c.r, 0 <= c.g;
}

} // verus!
