//! Pixel-level distortion effects on RGBA rasters, with every effect's result
//! stated as a contract over a mathematical model of the picture.
//!
//! [`glitch::Glitch`] holds a decoded picture and a working copy and offers the
//! effects as methods. The modules beside it hold one effect each, as
//! functions on [`buffer::PixelBuffer`] whose random draws, where an effect
//! has any, are arguments.

pub mod buffer;
pub mod burst;
pub mod codec;
pub mod error;
pub mod glitch;
pub mod pixel;
pub mod random;
pub mod recompress;
pub mod shift;
pub mod streak;
pub mod transpose;
