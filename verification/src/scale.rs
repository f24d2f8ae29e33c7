//! The target grid of scaling, and taking over what an interpolator made.
//!
//! The interpolation itself is not done here. This module says which targets
//! can be scaled to, and turns the bytes that come back into a frame of
//! exactly the size that was asked for.

use crate::frame::{pixels_of_bgr, Frame, FrameView};
use vstd::prelude::*;

verus! {

/// Why a frame could not be scaled.
#[derive(Clone, Copy, Debug, PartialEq, Eq, Structural)]
pub enum ScaleError {
    /// The target has no columns or no rows.
    EmptyTarget,
    /// The pixels that came back do not fill the target grid.
    WrongSize,
}

/// Whether a frame can be scaled to `size_x` columns and `size_y` rows.
pub open spec fn valid_target(size_x: i32, size_y: i32) -> bool {
    size_x > 0 && size_y > 0
}

/// Checks the target of scaling and returns its columns and rows as sizes.
pub fn scale_target(size_x: i32, size_y: i32) -> (target: Result<(usize, usize), ScaleError>)
    ensures
        valid_target(size_x, size_y) ==> target == Ok::<(usize, usize), ScaleError>(
            (size_x as usize, size_y as usize),
        ),
        !valid_target(size_x, size_y) ==> target == Err::<(usize, usize), ScaleError>(
            ScaleError::EmptyTarget,
        ),
{
    if size_x > 0 && size_y > 0 {
        Ok((size_x as usize, size_y as usize))
    } else {
        Err(ScaleError::EmptyTarget)
    }
}

/// Takes over the pixels of a scaled frame, given as interleaved blue, green
/// and red bytes, rows from the top. The frame that results has exactly
/// `size_x` columns and `size_y` rows, both positive.
pub fn scaled_frame(size_x: i32, size_y: i32, data: &[u8]) -> (scaled: Result<Frame, ScaleError>)
    ensures
        !valid_target(size_x, size_y) ==> scaled is Err && scaled->Err_0
            == ScaleError::EmptyTarget,
        valid_target(size_x, size_y) && data@.len() != 3 * (size_x * size_y) ==> scaled is Err
            && scaled->Err_0 == ScaleError::WrongSize,
        valid_target(size_x, size_y) && data@.len() == 3 * (size_x * size_y) ==> scaled is Ok
            && scaled->Ok_0@ == (FrameView {
            width: size_x as nat,
            height: size_y as nat,
            pixels: pixels_of_bgr(data@),
        }),
{
    match scale_target(size_x, size_y) {
        Err(e) => Err(e),
        Ok((width, height)) => {
            match Frame::from_bgr(width, height, data) {
                Some(frame) => Ok(frame),
                None => Err(ScaleError::WrongSize),
            }
        },
    }
}

} // verus!
