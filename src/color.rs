//! RGBA colors.
use vstd::prelude::*;

verus! {

/// An 8-bit-per-channel RGBA color.
#[derive(Clone, Copy, Debug, PartialEq, Eq, Structural)]
pub struct Color {
    pub r: u8,
    pub g: u8,
    pub b: u8,
    pub a: u8,
}

/// The color an `RRGGBBAA` code names.
pub open spec fn color_of(code: u32) -> Color {
    Color {
        r: (code as int / 0x1000000) as u8,
        g: ((code as int / 0x10000) % 0x100) as u8,
        b: ((code as int / 0x100) % 0x100) as u8,
        a: (code as int % 0x100) as u8,
    }
}

/// Make a Color from an RRGGBBAA hex code.
pub fn hexcolor(code: u32) -> (c: Color)
    ensures
        c == color_of(code),
{
    Color {
        r: (code / 0x1000000) as u8,
        g: ((code / 0x10000) % 0x100) as u8,
        b: ((code / 0x100) % 0x100) as u8,
        a: (code % 0x100) as u8,
    }
}

/// Opaque white.
pub const WHITE: u32 = 0xffffffff;

/// Opaque black.
pub const BLACK: u32 = 0x000000ff;

/// The green of the demo's greeting.
pub const GREEN: u32 = 0x00e330ff;

} // verus!
