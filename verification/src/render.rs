//! Turning a frame into text: one glyph per pixel, one line per row.

use crate::frame::{Frame, FrameView};
use crate::palette::{color_to_character, glyph_for, lemma_glyph_from_palette, Palette, Shade};
use vstd::arithmetic::div_mod::lemma_fundamental_div_mod_converse;
use vstd::prelude::*;

verus! {

/// `String::push` of the standard library appends the given character to the
/// end of the string and leaves what was there before as it was.
pub assume_specification[ String::push ](s: &mut String, ch: char)
    ensures
        final(s)@ == old(s)@.push(ch),
;

/// The character at position `k` of a frame's text. Each row takes
/// `width + 1` positions: its glyphs from left to right, then a newline.
pub open spec fn text_char(frame: FrameView, shades: Seq<Shade>, k: int) -> char {
    let stride = (frame.width + 1) as int;
    if k % stride == frame.width {
        '\n'
    } else {
        glyph_for(shades, frame.pixel(k % stride, k / stride))
    }
}

/// The text of a frame: for each row from the top, the glyph of each pixel
/// from the left, then a newline.
pub open spec fn frame_text(frame: FrameView, shades: Seq<Shade>) -> Seq<char> {
    Seq::new(frame.height * (frame.width + 1), |k: int| text_char(frame, shades, k))
}

/// The position in the text of column `x` of row `y`, where `x == width`
/// stands for the newline that ends the row.
pub open spec fn text_position(width: nat, x: int, y: int) -> int {
    y * (width + 1) + x
}

/// The position of a column of a row lies inside the text, and dividing it by
/// the length of a line gives the row and the column back.
pub proof fn lemma_text_position(width: nat, height: nat, x: int, y: int)
    requires
        0 <= x <= width,
        0 <= y < height,
    ensures
        0 <= text_position(width, x, y) < height * (width + 1),
        text_position(width, x, y) % (width + 1) as int == x,
        text_position(width, x, y) / (width + 1) as int == y,
        text_position(width, 0, y + 1) == text_position(width, width as int, y) + 1,
{
    let stride = (width + 1) as int;
    let k = text_position(width, x, y);
    lemma_fundamental_div_mod_converse(k, stride, y, x);
    assert(0 <= y * stride) by (nonlinear_arith)
        requires
            0 <= y,
            0 <= stride,
    ;
    assert(y * stride + stride <= height * stride) by (nonlinear_arith)
        requires
            y + 1 <= height,
            0 <= stride,
    ;
    assert((y + 1) * stride == y * stride + stride) by (nonlinear_arith);
}

/// The text of a frame has `height` lines. Each of them holds `width`
/// glyphs, which are the palette's glyphs for the pixels of that row from
/// left to right, and then one newline.
pub proof fn lemma_frame_text_shape(frame: FrameView, shades: Seq<Shade>)
    ensures
        frame_text(frame, shades).len() == frame.height * (frame.width + 1),
        forall|y: int|
            0 <= y < frame.height ==> #[trigger] frame_text(frame, shades)[text_position(
                frame.width,
                frame.width as int,
                y,
            )] == '\n',
        forall|x: int, y: int|
            0 <= x < frame.width && 0 <= y < frame.height ==> #[trigger] frame_text(
                frame,
                shades,
            )[text_position(frame.width, x, y)] == glyph_for(shades, frame.pixel(x, y)),
{
    let text = frame_text(frame, shades);
    assert forall|y: int| 0 <= y < frame.height implies #[trigger] text[text_position(
        frame.width,
        frame.width as int,
        y,
    )] == '\n' by {
        lemma_text_position(frame.width, frame.height, frame.width as int, y);
    }
    assert forall|x: int, y: int|
        0 <= x < frame.width && 0 <= y < frame.height implies #[trigger] text[text_position(
        frame.width,
        x,
        y,
    )] == glyph_for(shades, frame.pixel(x, y)) by {
        lemma_text_position(frame.width, frame.height, x, y);
    }
}

/// Where no glyph of the palette is a newline, the newlines of a frame's
/// text are exactly the ends of its rows, so the text reads as `height`
/// lines of `width` characters.
pub proof fn lemma_newlines_end_rows(frame: FrameView, shades: Seq<Shade>, k: int)
    requires
        shades.len() > 0,
        forall|i: int| 0 <= i < shades.len() ==> (#[trigger] shades[i]).glyph != '\n',
        0 <= k < frame_text(frame, shades).len(),
    ensures
        frame_text(frame, shades)[k] == '\n' <==> k % (frame.width + 1) as int == frame.width,
{
    let stride = (frame.width + 1) as int;
    if k % stride != frame.width {
        let pixel = frame.pixel(k % stride, k / stride);
        lemma_glyph_from_palette(shades, pixel);
    }
}

/// Renders a frame as text with the given palette: `height` lines, each of
/// `width` glyphs and a newline, the glyph of each pixel being the one that
/// the palette maps its color to.
pub fn frame_to_text(frame: &Frame, palette: &Palette) -> (text: String)
    ensures
        text@ == frame_text(frame@, palette@),
        text@.len() == frame@.height * (frame@.width + 1),
        forall|y: int|
            0 <= y < frame@.height ==> #[trigger] text@[text_position(
                frame@.width,
                frame@.width as int,
                y,
            )] == '\n',
        forall|x: int, y: int|
            0 <= x < frame@.width && 0 <= y < frame@.height ==> #[trigger] text@[text_position(
                frame@.width,
                x,
                y,
            )] == glyph_for(palette@, frame@.pixel(x, y)),
{
    let width: usize = frame.width();
    let height: usize = frame.height();
    let ghost full = frame_text(frame@, palette@);
    let mut text = String::new();
    let mut y: usize = 0;
    assert(text@ =~= full.take(0));
    while y < height
        invariant
            y <= height,
            width == frame@.width,
            height == frame@.height,
            full == frame_text(frame@, palette@),
            text@ == full.take(y * (width + 1)),
        decreases height - y,
    {
        let mut x: usize = 0;
        while x < width
            invariant
                x <= width,
                y < height,
                width == frame@.width,
                height == frame@.height,
                full == frame_text(frame@, palette@),
                text@ == full.take(text_position(width as nat, x as int, y as int)),
            decreases width - x,
        {
            let ghost k = text_position(width as nat, x as int, y as int);
            proof {
                lemma_text_position(width as nat, height as nat, x as int, y as int);
                lemma_text_position(width as nat, height as nat, x + 1, y as int);
            }
            match frame.pixel(x, y) {
                Some(color) => {
                    let glyph = color_to_character(palette, color);
                    text.push(glyph);
                },
                None => {},
            }
            assert(text@ =~= full.take(k + 1));
            x += 1;
        }
        let ghost k = text_position(width as nat, width as int, y as int);
        proof {
            lemma_text_position(width as nat, height as nat, width as int, y as int);
        }
        text.push('\n');
        assert(text@ =~= full.take(k + 1));
        y += 1;
    }
    proof {
        assert(y * (width + 1) == height * (width + 1));
        assert(text@ =~= full);
        lemma_frame_text_shape(frame@, palette@);
    }
    text
}

/// Renders every frame of a sequence, in order.
pub fn frames_to_text(frames: &Vec<Frame>, palette: &Palette) -> (texts: Vec<String>)
    ensures
        texts@.len() == frames@.len(),
        forall|i: int|
            0 <= i < frames@.len() ==> (#[trigger] texts@[i])@ == frame_text(frames@[i]@, palette@),
{
    let mut texts: Vec<String> = Vec::new();
    let mut i: usize = 0;
    while i < frames.len()
        invariant
            i <= frames@.len(),
            texts@.len() == i,
            forall|j: int|
                0 <= j < i ==> (#[trigger] texts@[j])@ == frame_text(frames@[j]@, palette@),
        decreases frames@.len() - i,
    {
        let text = frame_to_text(&frames[i], palette);
        texts.push(text);
        i += 1;
    }
    texts
}

} // verus!
