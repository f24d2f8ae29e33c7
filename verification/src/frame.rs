//! A frame: a grid of pixels, held row by row from the top left.

use crate::color::Color;
use vstd::prelude::*;

verus! {

/// What a frame is, mathematically: its dimensions and its pixels in
/// row-major order.
pub struct FrameView {
    pub width: nat,
    pub height: nat,
    pub pixels: Seq<Color>,
}

impl FrameView {
    /// The pixels fill the grid exactly.
    pub open spec fn well_formed(self) -> bool {
        self.pixels.len() == self.width * self.height
    }

    /// The pixel in column `x` of row `y`.
    pub open spec fn pixel(self, x: int, y: int) -> Color {
        self.pixels[y * self.width + x]
    }
}

/// A grid of pixels, `width` columns by `height` rows.
#[derive(Debug)]
pub struct Frame {
    width: usize,
    height: usize,
    pixels: Vec<Color>,
}

impl View for Frame {
    type V = FrameView;

    closed spec fn view(&self) -> FrameView {
        FrameView { width: self.width as nat, height: self.height as nat, pixels: self.pixels@ }
    }
}

/// The pixels that a buffer of interleaved blue, green and red bytes holds.
/// Bytes beyond the last whole triple are not part of any pixel.
pub open spec fn pixels_of_bgr(data: Seq<u8>) -> Seq<Color> {
    Seq::new(
        data.len() / 3,
        |k: int| Color { r: data[3 * k + 2], g: data[3 * k + 1], b: data[3 * k] },
    )
}

/// The buffer of interleaved blue, green and red bytes that holds the given
/// pixels.
pub open spec fn bgr_of_pixels(pixels: Seq<Color>) -> Seq<u8> {
    Seq::new(
        3 * pixels.len(),
        |i: int|
            if i % 3 == 0 {
                pixels[i / 3].b
            } else if i % 3 == 1 {
                pixels[i / 3].g
            } else {
                pixels[i / 3].r
            },
    )
}

/// A cell inside the grid has its place inside the row-major pixel list.
pub proof fn lemma_cell_in_range(width: int, height: int, x: int, y: int)
    requires
        0 <= x < width,
        0 <= y < height,
    ensures
        0 <= y * width + x < width * height,
        y * width + x + (height - 1 - y) * width + (width - x) == width * height,
{
    assert(y * width + (height - 1 - y) * width + width == width * height) by (nonlinear_arith);
    assert(0 <= y * width) by (nonlinear_arith)
        requires
            0 <= y,
            0 <= width,
    ;
    assert(0 <= (height - 1 - y) * width) by (nonlinear_arith)
        requires
            0 <= height - 1 - y,
            0 <= width,
    ;
}

/// Writing pixels out as bytes and reading the bytes back gives the pixels
/// again.
pub proof fn lemma_bgr_round_trip(pixels: Seq<Color>)
    ensures
        pixels_of_bgr(bgr_of_pixels(pixels)) == pixels,
{
    let data = bgr_of_pixels(pixels);
    assert(data.len() / 3 == pixels.len());
    assert forall|k: int| 0 <= k < pixels.len() implies #[trigger] pixels_of_bgr(data)[k]
        == pixels[k] by {
        assert((3 * k) % 3 == 0 && (3 * k) / 3 == k);
        assert((3 * k + 1) % 3 == 1 && (3 * k + 1) / 3 == k);
        assert((3 * k + 2) % 3 == 2 && (3 * k + 2) / 3 == k);
    }
    assert(pixels_of_bgr(data) =~= pixels);
}

/// Reading bytes as pixels and writing the pixels back gives the bytes again,
/// where the bytes make up whole pixels.
pub proof fn lemma_pixels_round_trip(data: Seq<u8>)
    requires
        data.len() % 3 == 0,
    ensures
        bgr_of_pixels(pixels_of_bgr(data)) == data,
{
    assert(bgr_of_pixels(pixels_of_bgr(data)) =~= data);
}

impl Frame {
    #[verifier::type_invariant]
    spec fn filled(&self) -> bool {
        self.pixels@.len() == self.width * self.height
    }

    /// Builds a frame from its dimensions and its pixels in row-major order.
    /// The pixels must fill the grid exactly, else there is no such frame.
    pub fn new(width: usize, height: usize, pixels: Vec<Color>) -> (made: Option<Frame>)
        ensures
            pixels@.len() == width * height ==> made is Some && made->Some_0@ == (FrameView {
                width: width as nat,
                height: height as nat,
                pixels: pixels@,
            }),
            pixels@.len() != width * height ==> made is None,
    {
        let given: usize = pixels.len();
        match width.checked_mul(height) {
            Some(cells) => {
                if given == cells {
                    Some(Frame { width, height, pixels })
                } else {
                    None
                }
            },
            None => None,
        }
    }

    /// Reads a frame from a buffer of interleaved blue, green and red bytes,
    /// three to a pixel, rows from the top, no padding between rows. The
    /// buffer must hold exactly `width * height` pixels.
    pub fn from_bgr(width: usize, height: usize, data: &[u8]) -> (made: Option<Frame>)
        ensures
            data@.len() == 3 * (width * height) ==> made is Some && made->Some_0@ == (FrameView {
                width: width as nat,
                height: height as nat,
                pixels: pixels_of_bgr(data@),
            }),
            data@.len() != 3 * (width * height) ==> made is None,
    {
        let given: usize = data.len();
        let cells: usize = match width.checked_mul(height) {
            Some(cells) => cells,
            None => {
                return None;
            },
        };
        let bytes: usize = match cells.checked_mul(3) {
            Some(bytes) => bytes,
            None => {
                return None;
            },
        };
        if given != bytes {
            return None;
        }
        let mut pixels: Vec<Color> = Vec::new();
        let mut k: usize = 0;
        while k < cells
            invariant
                k <= cells,
                data@.len() == 3 * cells,
                3 * cells <= usize::MAX,
                pixels@.len() == k,
                forall|j: int| 0 <= j < k ==> #[trigger] pixels@[j] == pixels_of_bgr(data@)[j],
            decreases cells - k,
        {
            let color = Color { r: data[3 * k + 2], g: data[3 * k + 1], b: data[3 * k] };
            pixels.push(color);
            k += 1;
        }
        assert(pixels@ =~= pixels_of_bgr(data@));
        Some(Frame { width, height, pixels })
    }

    /// Writes the frame out as interleaved blue, green and red bytes, three
    /// to a pixel, rows from the top.
    pub fn to_bgr(&self) -> (data: Vec<u8>)
        ensures
            data@ == bgr_of_pixels(self@.pixels),
    {
        let mut data: Vec<u8> = Vec::new();
        let mut k: usize = 0;
        while k < self.pixels.len()
            invariant
                k <= self.pixels@.len(),
                data@.len() == 3 * k,
                forall|i: int|
                    0 <= i < 3 * k ==> #[trigger] data@[i] == bgr_of_pixels(self.pixels@)[i],
            decreases self.pixels@.len() - k,
        {
            let color = self.pixels[k];
            data.push(color.b);
            data.push(color.g);
            data.push(color.r);
            k += 1;
        }
        assert(data@ =~= bgr_of_pixels(self.pixels@));
        data
    }

    /// The number of columns.
    pub fn width(&self) -> (w: usize)
        ensures
            w == self@.width,
            self@.well_formed(),
    {
        proof {
            use_type_invariant(self);
        }
        self.width
    }

    /// The number of rows.
    pub fn height(&self) -> (h: usize)
        ensures
            h == self@.height,
            self@.well_formed(),
    {
        proof {
            use_type_invariant(self);
        }
        self.height
    }

    /// The pixel in column `x` of row `y`, if the frame has such a cell.
    pub fn pixel(&self, x: usize, y: usize) -> (found: Option<Color>)
        ensures
            self@.well_formed(),
            x < self@.width && y < self@.height ==> found == Some(self@.pixel(x as int, y as int)),
            x >= self@.width || y >= self@.height ==> found is None,
    {
        proof {
            use_type_invariant(self);
        }
        if x < self.width && y < self.height {
            proof {
                lemma_cell_in_range(self.width as int, self.height as int, x as int, y as int);
                assert(self.pixels.len() == self.pixels@.len());
            }
            Some(self.pixels[y * self.width + x])
        } else {
            None
        }
    }
}

impl Clone for Frame {
    /// Copies the frame, pixel by pixel.
    fn clone(&self) -> (copy: Frame)
        ensures
            copy@ == self@,
    {
        proof {
            use_type_invariant(self);
        }
        let mut pixels: Vec<Color> = Vec::new();
        let mut k: usize = 0;
        while k < self.pixels.len()
            invariant
                k <= self.pixels@.len(),
                pixels@ == self.pixels@.take(k as int),
            decreases self.pixels@.len() - k,
        {
            pixels.push(self.pixels[k]);
            assert(self.pixels@.take(k as int).push(self.pixels@[k as int]) =~= self.pixels@.take(
                k + 1,
            ));
            k += 1;
        }
        assert(self.pixels@.take(self.pixels@.len() as int) =~= self.pixels@);
        Frame { width: self.width, height: self.height, pixels }
    }
}

} // verus!
