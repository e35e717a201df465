//! SDRAM-backed display framebuffer helpers.
//!
//! [`DisplaySdram`] records the dimensions of a display region carved out of
//! an FMC-initialised SDRAM bank, so that callers do not repeat the sizing
//! arithmetic when they hand the region to a framebuffer or to the scanout
//! engine. The raw memory itself stays with the board's bring-up code; this
//! type only answers how large the pixel buffer must be.

use vstd::prelude::*;

verus! {

/// A display framebuffer region residing in external SDRAM, described by
/// its dimensions: `width * height` pixel words of Rgb565, two bytes each.
pub struct DisplaySdram {
    width: u16,
    height: u16,
}

impl DisplaySdram {
    /// The display width, as seen by specifications.
    pub closed spec fn spec_width(self) -> u16 {
        self.width
    }

    /// The display height, as seen by specifications.
    pub closed spec fn spec_height(self) -> u16 {
        self.height
    }

    /// Describe a display region of the given dimensions.
    pub fn new(width: u16, height: u16) -> (s: Self)
        ensures
            s.spec_width() == width,
            s.spec_height() == height,
    {
        DisplaySdram { width, height }
    }

    /// Return the display width in pixels.
    pub fn width(&self) -> (w: u16)
        ensures
            w == self.spec_width(),
    {
        self.width
    }

    /// Return the display height in pixels.
    pub fn height(&self) -> (h: u16)
        ensures
            h == self.spec_height(),
    {
        self.height
    }

    /// The number of pixel words an Rgb565 buffer over this region holds:
    /// exactly one word per pixel.
    pub fn pixel_count(&self) -> (n: usize)
        ensures
            n == self.spec_width() as int * self.spec_height() as int,
    {
        proof {
            assert((self.width as int) * (self.height as int) < 0x1_0000_0000) by (nonlinear_arith)
                requires
                    self.width < 0x1_0000,
                    self.height < 0x1_0000,
            ;
        }
        (self.width as usize) * (self.height as usize)
    }
}

} // verus!
