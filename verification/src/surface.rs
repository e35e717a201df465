//! Display surface trait for cross-board portability.
//!
//! The [`Surface`] trait provides a unified drawing contract that can be
//! implemented on top of different display back-ends: an LTDC framebuffer
//! with external SDRAM, or an SPI command-mode display. By programming
//! against `Surface` rather than a concrete display type, application code
//! can be ported between boards with minimal changes.

use vstd::prelude::*;

use crate::color::Rgb565;
use crate::framebuffer::in_bounds;
use crate::framebuffer::pixel_index;
use crate::framebuffer::rect_covers;
use crate::framebuffer::words_of;
use crate::framebuffer::write_limit;
use crate::framebuffer::write_seq;
use crate::framebuffer::LtdcFramebuffer;
use crate::geometry::Point;
use crate::geometry::Rectangle;
use crate::geometry::Size;

verus! {

/// A portable drawing surface.
///
/// The trait abstracts the minimal operations required to draw on a display,
/// regardless of the underlying transport. Every operation clips against the
/// display bounds; drawing never fails for geometric reasons, only transport
/// back-ends may report errors of their own.
pub trait Surface: Sized {
    /// Error type for drawing operations.
    type Error;

    /// The display width in pixels, as specifications see it.
    spec fn surface_width(&self) -> u16;

    /// The display height in pixels, as specifications see it.
    spec fn surface_height(&self) -> u16;

    /// The stored pixel words, row-major.
    spec fn grid(&self) -> Seq<u16>;

    /// The surface's validity invariant.
    spec fn inv(&self) -> bool;

    /// Return the display dimensions as `(width, height)`.
    fn size(&self) -> (r: (u16, u16))
        requires
            self.inv(),
        ensures
            r.0 == self.surface_width(),
            r.1 == self.surface_height(),
    ;

    /// Fill the entire display with `color`.
    fn clear(&mut self, color: Rgb565) -> (r: Result<(), Self::Error>)
        requires
            old(self).inv(),
            color.wf(),
        ensures
            final(self).inv(),
            final(self).surface_width() == old(self).surface_width(),
            final(self).surface_height() == old(self).surface_height(),
            r is Ok ==> final(self).grid().len() == old(self).grid().len() && forall|i: int|
                0 <= i < final(self).grid().len() ==> final(self).grid()[i]
                    == color.spec_storage(),
    ;

    /// Fill a rectangular region with `color`, silently clipping any portion
    /// that falls outside the visible area.
    fn fill_rect(&mut self, x: u16, y: u16, w: u16, h: u16, color: Rgb565) -> (r: Result<
        (),
        Self::Error,
    >)
        requires
            old(self).inv(),
            color.wf(),
        ensures
            final(self).inv(),
            final(self).surface_width() == old(self).surface_width(),
            final(self).surface_height() == old(self).surface_height(),
            r is Ok ==> final(self).grid().len() == old(self).grid().len() && forall|
                xx: int,
                yy: int,
            |
                in_bounds(
                    old(self).surface_width() as int,
                    old(self).surface_height() as int,
                    xx,
                    yy,
                ) ==> final(self).grid()[pixel_index(old(self).surface_width() as int, xx, yy)]
                    == (if rect_covers(
                    (Rectangle {
                        top_left: Point { x: x as i32, y: y as i32 },
                        size: Size { width: w as u32, height: h as u32 },
                    }),
                    old(self).surface_width() as int,
                    old(self).surface_height() as int,
                    xx,
                    yy,
                ) {
                    color.spec_storage()
                } else {
                    old(self).grid()[pixel_index(old(self).surface_width() as int, xx, yy)]
                }),
    ;

    /// Write raw pixel data raster-wise starting at `(x, y)`: columns
    /// advance first and wrap to the next row at the display's width; pixels
    /// beyond the display bounds are silently discarded.
    fn write_pixels(&mut self, x: u16, y: u16, w: u16, h: u16, pixels: &[Rgb565]) -> (r: Result<
        (),
        Self::Error,
    >)
        requires
            old(self).inv(),
            forall|k: int| 0 <= k < pixels@.len() ==> pixels@[k].wf(),
        ensures
            final(self).inv(),
            final(self).surface_width() == old(self).surface_width(),
            final(self).surface_height() == old(self).surface_height(),
            r is Ok ==> final(self).grid() == write_seq(
                old(self).grid(),
                old(self).surface_width() as int,
                old(self).surface_height() as int,
                x as int,
                y as int,
                words_of(pixels@).take(write_limit(pixels@.len() as int, w as int, h as int)),
            ),
    ;
}

impl Surface for LtdcFramebuffer {
    type Error = core::convert::Infallible;

    open spec fn surface_width(&self) -> u16 {
        LtdcFramebuffer::spec_width(*self)
    }

    open spec fn surface_height(&self) -> u16 {
        LtdcFramebuffer::spec_height(*self)
    }

    open spec fn grid(&self) -> Seq<u16> {
        LtdcFramebuffer::pixels(*self)
    }

    open spec fn inv(&self) -> bool {
        LtdcFramebuffer::wf(*self)
    }

    fn size(&self) -> (r: (u16, u16)) {
        LtdcFramebuffer::size(self)
    }

    fn clear(&mut self, color: Rgb565) -> (r: Result<(), Self::Error>) {
        LtdcFramebuffer::clear(self, color);
        Ok(())
    }

    fn fill_rect(&mut self, x: u16, y: u16, w: u16, h: u16, color: Rgb565) -> (r: Result<
        (),
        Self::Error,
    >) {
        LtdcFramebuffer::fill_rect(self, x, y, w, h, color)
    }

    fn write_pixels(&mut self, x: u16, y: u16, w: u16, h: u16, pixels: &[Rgb565]) -> (r: Result<
        (),
        Self::Error,
    >) {
        LtdcFramebuffer::write_pixels(self, x, y, w, h, pixels)
    }
}

} // verus!
