//! Tests for the framebuffer, colors, geometry and the Surface contract.

use stm32f4xx_hal::color::Rgb565;
use stm32f4xx_hal::framebuffer::LtdcFramebuffer;
use stm32f4xx_hal::geometry::{Pixel, Point, Rectangle, Size};
use stm32f4xx_hal::sdram::DisplaySdram;
use stm32f4xx_hal::surface::Surface;

fn buffer(width: u16, height: u16) -> LtdcFramebuffer {
    let words = vec![0u16; width as usize * height as usize];
    LtdcFramebuffer::new(words, width, height)
}

fn white() -> Rgb565 {
    Rgb565::new(31, 63, 31)
}

fn black() -> Rgb565 {
    Rgb565::new(0, 0, 0)
}

#[test]
fn rgb565_packs_channels() {
    assert_eq!(Rgb565::new(31, 0, 0).into_storage(), 0xF800);
    assert_eq!(Rgb565::new(0, 63, 0).into_storage(), 0x07E0);
    assert_eq!(Rgb565::new(0, 0, 31).into_storage(), 0x001F);
    assert_eq!(white().into_storage(), 0xFFFF);
    assert_eq!(black().into_storage(), 0x0000);
    assert_eq!(Rgb565::new(1, 2, 3).into_storage(), (1 << 11) | (2 << 5) | 3);
}

#[test]
fn rgb565_masks_out_of_range_channels() {
    let c = Rgb565::new(255, 255, 255);
    assert_eq!(c, white());
}

#[test]
fn new_keeps_dimensions() {
    let fb = buffer(480, 800);
    assert_eq!(fb.width(), 480);
    assert_eq!(fb.height(), 800);
    assert_eq!(fb.size(), (480, 800));
    assert_eq!(fb.as_slice().len(), 480 * 800);
}

#[test]
fn set_pixel_reads_back() {
    let mut fb = buffer(4, 3);
    fb.set_pixel(2, 1, white());
    assert_eq!(fb.as_slice()[2 + 4 * 1], 0xFFFF);
    for (i, &w) in fb.as_slice().iter().enumerate() {
        if i != 2 + 4 * 1 {
            assert_eq!(w, 0, "pixel {} must stay untouched", i);
        }
    }
}

#[test]
fn set_pixel_out_of_bounds_is_noop() {
    let mut fb = buffer(4, 3);
    fb.set_pixel(-1, 0, white());
    fb.set_pixel(0, -1, white());
    fb.set_pixel(4, 0, white());
    fb.set_pixel(0, 3, white());
    fb.set_pixel(i32::MAX, i32::MAX, white());
    assert!(fb.as_slice().iter().all(|&w| w == 0));
}

#[test]
fn fill_rect_scenario_on_4x2() {
    // A 4x2 buffer on 0x0000 background; a 2x2 fill at (1, 0) colors the two
    // middle columns of both rows.
    let mut fb = buffer(4, 2);
    fb.clear(black());
    fb.fill_rect(1, 0, 2, 2, white()).unwrap();
    assert_eq!(
        fb.as_slice(),
        &[0x0000, 0xFFFF, 0xFFFF, 0x0000, 0x0000, 0xFFFF, 0xFFFF, 0x0000]
    );
}

#[test]
fn fill_solid_clips_partially_off_screen() {
    let mut fb = buffer(3, 3);
    let area = Rectangle::new(Point::new(-1, -1), Size::new(2, 2));
    fb.fill_solid(&area, white()).unwrap();
    assert_eq!(fb.as_slice(), &[0xFFFF, 0, 0, 0, 0, 0, 0, 0, 0]);
}

#[test]
fn fill_solid_degenerate_is_noop() {
    let mut fb = buffer(3, 3);
    fb.fill_solid(&Rectangle::new(Point::new(1, 1), Size::new(0, 5)), white())
        .unwrap();
    fb.fill_solid(&Rectangle::new(Point::new(1, 1), Size::new(5, 0)), white())
        .unwrap();
    fb.fill_solid(&Rectangle::new(Point::new(10, 10), Size::new(2, 2)), white())
        .unwrap();
    fb.fill_solid(&Rectangle::new(Point::new(-10, 0), Size::new(2, 2)), white())
        .unwrap();
    assert!(fb.as_slice().iter().all(|&w| w == 0));
}

#[test]
fn fill_solid_matches_set_pixel() {
    let mut filled = buffer(5, 4);
    let mut poked = buffer(5, 4);
    let area = Rectangle::new(Point::new(1, -1), Size::new(3, 3));
    filled.fill_solid(&area, white()).unwrap();
    for y in -1..2 {
        for x in 1..4 {
            poked.set_pixel(x, y, white());
        }
    }
    assert_eq!(filled.as_slice(), poked.as_slice());
}

#[test]
fn clear_sets_every_pixel() {
    let mut fb = buffer(4, 3);
    fb.clear(Rgb565::new(1, 2, 3));
    let word = Rgb565::new(1, 2, 3).into_storage();
    assert!(fb.as_slice().iter().all(|&w| w == word));
}

#[test]
fn draw_iter_mixed_bounds_only_writes_inside() {
    let mut fb = buffer(3, 2);
    let pixels = vec![
        Pixel::new(Point::new(0, 0), Rgb565::new(0, 0, 1)),
        Pixel::new(Point::new(-5, 0), white()),
        Pixel::new(Point::new(2, 1), Rgb565::new(0, 0, 2)),
        Pixel::new(Point::new(3, 0), white()),
        Pixel::new(Point::new(0, 2), white()),
        Pixel::new(Point::new(1, -1), white()),
    ];
    fb.draw_iter(&pixels).unwrap();
    assert_eq!(fb.as_slice(), &[1, 0, 0, 0, 0, 2]);
}

#[test]
fn draw_iter_later_pixel_wins() {
    let mut fb = buffer(2, 1);
    let pixels = vec![
        Pixel::new(Point::new(0, 0), Rgb565::new(0, 0, 1)),
        Pixel::new(Point::new(0, 0), Rgb565::new(0, 0, 2)),
    ];
    fb.draw_iter(&pixels).unwrap();
    assert_eq!(fb.as_slice(), &[2, 0]);
}

#[test]
fn write_pixels_wraps_at_buffer_width() {
    // Column wrap happens at the buffer width (4), not at the requested
    // width (3): six pixels from (2, 0) land at consecutive indices.
    let mut fb = buffer(4, 2);
    let pixels: Vec<Rgb565> = (1..=6).map(|n| Rgb565::new(0, 0, n)).collect();
    fb.write_pixels(2, 0, 3, 2, &pixels).unwrap();
    assert_eq!(fb.as_slice(), &[0, 0, 1, 2, 3, 4, 5, 6]);
}

#[test]
fn write_pixels_truncates_at_extent_and_bounds() {
    let mut fb = buffer(2, 2);
    let pixels: Vec<Rgb565> = (1..=6).map(|n| Rgb565::new(0, 0, n)).collect();
    // The requested extent is 2x1, so only two words are taken.
    fb.write_pixels(0, 0, 2, 1, &pixels).unwrap();
    assert_eq!(fb.as_slice(), &[1, 2, 0, 0]);

    // A stream longer than the remaining buffer stops at the bottom edge.
    let mut fb = buffer(2, 2);
    fb.write_pixels(0, 1, 2, 3, &pixels).unwrap();
    assert_eq!(fb.as_slice(), &[0, 0, 1, 2]);
}

#[test]
fn write_pixels_short_stream_stops_early() {
    let mut fb = buffer(3, 2);
    let pixels = vec![Rgb565::new(0, 0, 7)];
    fb.write_pixels(1, 0, 2, 2, &pixels).unwrap();
    assert_eq!(fb.as_slice(), &[0, 7, 0, 0, 0, 0]);
}

#[test]
fn as_mut_slice_writes_through() {
    let mut fb = buffer(2, 1);
    fb.as_mut_slice()[1] = 0xABCD;
    assert_eq!(fb.as_slice(), &[0, 0xABCD]);
}

#[test]
fn surface_trait_draws_like_the_inherent_methods() {
    let mut fb = buffer(4, 2);
    assert_eq!(Surface::size(&fb), (4, 2));
    Surface::clear(&mut fb, black()).unwrap();
    Surface::fill_rect(&mut fb, 1, 0, 2, 2, white()).unwrap();
    assert_eq!(
        fb.as_slice(),
        &[0x0000, 0xFFFF, 0xFFFF, 0x0000, 0x0000, 0xFFFF, 0xFFFF, 0x0000]
    );
    let pixels = vec![Rgb565::new(0, 0, 1), Rgb565::new(0, 0, 2)];
    Surface::write_pixels(&mut fb, 0, 0, 2, 1, &pixels).unwrap();
    assert_eq!(fb.as_slice()[0], 1);
    assert_eq!(fb.as_slice()[1], 2);
}

#[test]
fn sdram_region_reports_its_sizing() {
    let region = DisplaySdram::new(480, 800);
    assert_eq!(region.width(), 480);
    assert_eq!(region.height(), 800);
    assert_eq!(region.pixel_count(), 480 * 800);
}
