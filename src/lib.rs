//! Renders raster frames as grids of terminal glyphs, and drives the paced
//! playback of still images, animations and live capture streams.

pub mod driver;
pub mod frame;
pub mod geometry;
pub mod monitor;
pub mod pixel;
pub mod render;
pub mod source;
