//! Rendering of video frames as grids of text glyphs.

pub mod autosize;
pub mod color;
pub mod frame;
pub mod palette;
pub mod playback;
pub mod render;
pub mod scale;
pub mod select;
