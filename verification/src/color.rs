//! Rgb565 colors and their packed 16-bit storage form.
//!
//! Every drawing operation encodes a color through [`Rgb565::into_storage`],
//! so all primitives store pixel words identically.

use vstd::prelude::*;

verus! {

/// An Rgb565 color: five bits of red, six of green, five of blue.
#[derive(Clone, Copy, PartialEq, Eq, Structural, Debug)]
pub struct Rgb565 {
    /// Red channel, at most 31.
    pub r: u8,
    /// Green channel, at most 63.
    pub g: u8,
    /// Blue channel, at most 31.
    pub b: u8,
}

impl Rgb565 {
    /// A color is well formed when each channel fits its bit width.
    pub open spec fn wf(self) -> bool {
        self.r < 32 && self.g < 64 && self.b < 32
    }

    /// The packed 16-bit word that stores this color: `rrrrr gggggg bbbbb`.
    pub open spec fn spec_storage(self) -> u16
        recommends
            self.wf(),
    {
        (self.r * 2048 + self.g * 32 + self.b) as u16
    }

    /// Build a color from its three channels, masking each to its width.
    pub fn new(r: u8, g: u8, b: u8) -> (c: Self)
        ensures
            c.wf(),
            c.r == r & 0x1f,
            c.g == g & 0x3f,
            c.b == b & 0x1f,
    {
        proof {
            assert((r & 0x1f) < 32 && (g & 0x3f) < 64 && (b & 0x1f) < 32) by (bit_vector);
        }
        Rgb565 { r: r & 0x1f, g: g & 0x3f, b: b & 0x1f }
    }

    /// Pack the color into the framebuffer's native 16-bit storage word.
    pub fn into_storage(self) -> (w: u16)
        requires
            self.wf(),
        ensures
            w == self.spec_storage(),
    {
        (self.r as u16) * 2048 + (self.g as u16) * 32 + (self.b as u16)
    }
}

} // verus!
