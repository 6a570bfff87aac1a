//! RGB colors with 8-bit channels and saturating arithmetic.

use vstd::prelude::*;
use crate::fx::{clamp_spec, fx_mul, fx_mul_spec};

verus! {

/// An RGB color; each channel is an 8-bit intensity.
#[derive(Clone, Copy, Debug, PartialEq, Eq, Structural)]
pub struct Color {
    pub r: u8,
    pub g: u8,
    pub b: u8,
}

/// The model of one channel of `Color::mul`: the channel scaled by a
/// fixed-point factor, clamped into the displayable range.
pub open spec fn channel_mul_spec(x: int, s: int) -> int {
    clamp_spec(fx_mul_spec(x, s), 0, 255)
}

/// The model of `Color::mul`.
pub open spec fn color_mul_spec(c: Color, s: int) -> Color {
    Color {
        r: channel_mul_spec(c.r as int, s) as u8,
        g: channel_mul_spec(c.g as int, s) as u8,
        b: channel_mul_spec(c.b as int, s) as u8,
    }
}

/// The model of one channel of `Color::add`: saturating at white.
pub open spec fn channel_add_spec(a: int, b: int) -> int {
    if a + b > 255 {
        255
    } else {
        a + b
    }
}

/// The model of `Color::add`.
pub open spec fn color_add_spec(a: Color, b: Color) -> Color {
    Color {
        r: channel_add_spec(a.r as int, b.r as int) as u8,
        g: channel_add_spec(a.g as int, b.g as int) as u8,
        b: channel_add_spec(a.b as int, b.b as int) as u8,
    }
}

/// Scale one channel by a fixed-point factor and clamp it to `0..=255`.
fn mul_channel(x: u8, s: i64) -> (r: u8)
    ensures
        r as int == channel_mul_spec(x as int, s as int),
{
    let v = fx_mul(x as i64, s);
    if v < 0 {
        0
    } else if v > 255 {
        255
    } else {
        v as u8
    }
}

impl Color {
    /// Build a color from its three channels.
    #[allow(non_snake_case)]
    pub fn RGB(r: u8, g: u8, b: u8) -> (c: Color)
        ensures
            c == (Color { r, g, b }),
    {
        Color { r, g, b }
    }

    /// Black: every channel zero.
    pub fn zero() -> (c: Color)
        ensures
            c == (Color { r: 0u8, g: 0u8, b: 0u8 }),
    {
        Color { r: 0, g: 0, b: 0 }
    }

    /// Scale every channel by a fixed-point factor, clamping each into the
    /// displayable range.
    pub fn mul(self, rhs: i64) -> (c: Color)
        ensures
            c == color_mul_spec(self, rhs as int),
    {
        Color { r: mul_channel(self.r, rhs), g: mul_channel(self.g, rhs), b: mul_channel(self.b, rhs) }
    }

    /// Add two colors channelwise, saturating at white.
    pub fn add(self, rhs: Color) -> (c: Color)
        ensures
            c == color_add_spec(self, rhs),
    {
        let pr: u16 = (self.r as u16) + (rhs.r as u16);
        let pg: u16 = (self.g as u16) + (rhs.g as u16);
        let pb: u16 = (self.b as u16) + (rhs.b as u16);
        Color {
            r: if pr > 255 {
                255
            } else {
                pr as u8
            },
            g: if pg > 255 {
                255
            } else {
                pg as u8
            },
            b: if pb > 255 {
                255
            } else {
                pb as u8
            },
        }
    }
}

} // verus!
