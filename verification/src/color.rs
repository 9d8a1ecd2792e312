//! 8-bit RGB colors for the software pixel pipeline, with alpha blending
//! by integer arithmetic.

use vstd::prelude::*;

verus! {

#[derive(Clone, Copy, Debug, Default, PartialEq, Eq, Structural)]
pub struct Color {
    pub r: u8,
    pub g: u8,
    pub b: u8,
}

/// One channel of `fade`: blend `foreground` toward `background` by
/// `alpha`, where 255 keeps the foreground and 0 keeps the background.
/// Division truncates, and the two branches keep the rounding loss on
/// the side of the smaller operand.
pub open spec fn spec_fade_channel(foreground: u8, background: u8, alpha: u8) -> int {
    if foreground > background {
        background + (foreground - background) * alpha / 255
    } else {
        foreground + (background - foreground) * (255 - alpha) / 255
    }
}

pub open spec fn spec_fade(foreground: Color, background: Color, alpha: u8) -> Color {
    Color {
        r: spec_fade_channel(foreground.r, background.r, alpha) as u8,
        g: spec_fade_channel(foreground.g, background.g, alpha) as u8,
        b: spec_fade_channel(foreground.b, background.b, alpha) as u8,
    }
}

/// The blended channel never leaves the interval spanned by its operands.
pub proof fn lemma_fade_channel_bounds(f: u8, b: u8, a: u8)
    ensures
        0 <= spec_fade_channel(f, b, a) <= 255,
{
    if f > b {
        assert((f - b) * a <= (f - b) * 255) by (nonlinear_arith)
            requires
                a <= 255,
                f > b,
        ;
        assert((f - b) * 255 / 255 == f - b) by (nonlinear_arith);
    } else {
        assert((b - f) * (255 - a) <= (b - f) * 255) by (nonlinear_arith)
            requires
                a <= 255,
                f <= b,
        ;
        assert((b - f) * 255 / 255 == b - f) by (nonlinear_arith);
    }
}

fn fade_channel(foreground: u8, background: u8, alpha: u8) -> (r: u8)
    ensures
        r == spec_fade_channel(foreground, background, alpha),
{
    proof {
        lemma_fade_channel_bounds(foreground, background, alpha);
    }
    if foreground > background {
        background + ((foreground - background) as u16 * alpha as u16 / 255) as u8
    } else {
        foreground + ((background - foreground) as u16 * (255 - alpha) as u16 / 255) as u8
    }
}

impl Color {
    pub fn black() -> (r: Color)
        ensures
            r == (Color { r: 0, g: 0, b: 0 }),
    {
        Color { r: 0, g: 0, b: 0 }
    }

    pub fn white() -> (r: Color)
        ensures
            r == (Color { r: 255, g: 255, b: 255 }),
    {
        Color { r: 255, g: 255, b: 255 }
    }

    pub fn gray(v: u8) -> (r: Color)
        ensures
            r == (Color { r: v, g: v, b: v }),
    {
        Color { r: v, g: v, b: v }
    }

    /// Splits a `0xRRGGBB` word into its channels.
    pub fn from_hex(hex: u32) -> (r: Color)
        ensures
            r.r == (hex >> 16) & 0xff,
            r.g == (hex >> 8) & 0xff,
            r.b == hex & 0xff,
    {
        proof {
            assert(((hex >> 16) & 0xff) < 256 && ((hex >> 8) & 0xff) < 256 && (hex & 0xff) < 256)
                by (bit_vector);
        }
        Color {
            r: ((hex >> 16) & 0xff) as u8,
            g: ((hex >> 8) & 0xff) as u8,
            b: (hex & 0xff) as u8,
        }
    }

    /// Returns this color faded with the background. An alpha of `255`
    /// returns `self`, and an alpha of `0` returns `background`.
    pub fn fade(self, background: Color, alpha: u8) -> (r: Color)
        ensures
            r == spec_fade(self, background, alpha),
    {
        proof {
            lemma_fade_channel_bounds(self.r, background.r, alpha);
            lemma_fade_channel_bounds(self.g, background.g, alpha);
            lemma_fade_channel_bounds(self.b, background.b, alpha);
        }
        Color {
            r: fade_channel(self.r, background.r, alpha),
            g: fade_channel(self.g, background.g, alpha),
            b: fade_channel(self.b, background.b, alpha),
        }
    }
}

/// Fading all the way toward either end returns that end exactly.
pub proof fn lemma_fade_endpoints(f: Color, b: Color)
    ensures
        spec_fade(f, b, 255) == f,
        spec_fade(f, b, 0) == b,
{
    lemma_fade_channel_endpoints(f.r, b.r);
    lemma_fade_channel_endpoints(f.g, b.g);
    lemma_fade_channel_endpoints(f.b, b.b);
}

proof fn lemma_fade_channel_endpoints(f: u8, b: u8)
    ensures
        spec_fade_channel(f, b, 255) == f,
        spec_fade_channel(f, b, 0) == b,
{
    if f > b {
        assert((f - b) * 255 / 255 == f - b) by (nonlinear_arith);
        assert((f - b) * 0 / 255 == 0) by (nonlinear_arith);
    } else {
        assert((b - f) * 255 / 255 == b - f) by (nonlinear_arith);
        assert((b - f) * 0 / 255 == 0) by (nonlinear_arith);
    }
}

} // verus!
