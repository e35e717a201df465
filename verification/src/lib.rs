//! Display pixel-output pipeline for an STM32F4 graphics stack.
//!
//! The crate provides a bounds-checked framebuffer over a contiguous word
//! buffer ([`LtdcFramebuffer`](framebuffer::LtdcFramebuffer)), a portable
//! drawing [`Surface`](surface::Surface) contract, and a serial command-mode
//! transport encoder ([`spi`]) that turns arbitrary-length pixel and command
//! streams into bounded bus transactions. ADC configuration types and the
//! board table round out the supported peripherals.

pub mod adc;
pub mod boards;
pub mod color;
pub mod sdram;
pub mod spi;
pub mod framebuffer;
pub mod geometry;
pub mod surface;
