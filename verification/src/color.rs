//! The color model: a color value is either a 3-channel (opaque) or 4-channel
//! (alpha-bearing) color; canonical form is always the 4 channels R, G, B, A
//! with 8 bits each, a 3-channel value widening with alpha = 255.

use vstd::prelude::*;

verus! {

/// A tagged color value, either opaque RGB or alpha-bearing RGBA.
#[derive(Debug, Clone, Copy, PartialEq, Eq, Structural)]
pub enum Color {
    Rgb(u8, u8, u8),
    Rgba(u8, u8, u8, u8),
}

/// The canonical 4-channel form: red, green, blue, alpha.
#[derive(Debug, Clone, Copy, PartialEq, Eq, Structural)]
pub struct ColorRGBA(pub u8, pub u8, pub u8, pub u8);

impl Color {
    /// The canonical form of this color: 3-channel values widen with alpha = 255.
    pub open spec fn spec_as_rgba(self) -> ColorRGBA {
        match self {
            Color::Rgb(r, g, b) => ColorRGBA(r, g, b, 0xFF),
            Color::Rgba(r, g, b, a) => ColorRGBA(r, g, b, a),
        }
    }

    /// Fully opaque red.
    pub fn red() -> (c: Self)
        ensures
            c == Color::Rgba(0xFF, 0x00, 0x00, 0xFF),
    {
        Color::Rgba(0xFF, 0x00, 0x00, 0xFF)
    }

    /// Fully opaque green.
    pub fn green() -> (c: Self)
        ensures
            c == Color::Rgba(0x00, 0xFF, 0x00, 0xFF),
    {
        Color::Rgba(0x00, 0xFF, 0x00, 0xFF)
    }

    /// Fully opaque blue.
    pub fn blue() -> (c: Self)
        ensures
            c == Color::Rgba(0x00, 0x00, 0xFF, 0xFF),
    {
        Color::Rgba(0x00, 0x00, 0xFF, 0xFF)
    }

    /// The big-endian 32-bit interpretation of the canonical form.
    pub fn as_hex(&self) -> (n: u32)
        ensures
            n == self.spec_as_rgba().spec_to_int(),
    {
        self.as_rgba().to_int()
    }

    /// Canonicalize to the 4-channel form.
    pub fn as_rgba(&self) -> (c: ColorRGBA)
        ensures
            c == self.spec_as_rgba(),
    {
        match *self {
            Color::Rgb(r, g, b) => ColorRGBA(r, g, b, 0xFF),
            Color::Rgba(r, g, b, a) => ColorRGBA(r, g, b, a),
        }
    }
}

impl ColorRGBA {
    /// The packed big-endian 32-bit integer R,G,B,A.
    pub open spec fn spec_to_int(self) -> u32 {
        (self.0 * 0x1000000 + self.1 * 0x10000 + self.2 * 0x100 + self.3) as u32
    }

    /// The four channels in order R, G, B, A.
    pub fn to_bytes(&self) -> (b: [u8; 4])
        ensures
            b@ == seq![self.0, self.1, self.2, self.3],
    {
        let b = [self.0, self.1, self.2, self.3];
        proof {
            assert(b@ =~= seq![self.0, self.1, self.2, self.3]);
        }
        b
    }

    /// The packed big-endian 32-bit integer, channel order R, G, B, A.
    pub fn to_int(&self) -> (n: u32)
        ensures
            n == self.spec_to_int(),
    {
        self.0 as u32 * 0x1000000 + self.1 as u32 * 0x10000 + self.2 as u32 * 0x100 + self.3 as u32
    }
}

} // verus!
