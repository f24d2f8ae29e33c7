//! The palette of shades and the choice of the shade closest to a pixel.

use crate::color::{distance, Color};
use vstd::prelude::*;

verus! {

/// A glyph together with the color it stands for.
#[derive(Clone, Copy, Debug, PartialEq, Eq, Structural)]
pub struct Shade {
    pub glyph: char,
    pub color: Color,
}

/// Why a palette could not be built.
#[derive(Clone, Copy, Debug, PartialEq, Eq, Structural)]
pub enum PaletteError {
    /// No shade was given, so no pixel could ever be given a glyph.
    Empty,
}

/// An ordered, non-empty list of shades. Its view is the list itself.
#[derive(Debug)]
pub struct Palette {
    shades: Vec<Shade>,
}

impl View for Palette {
    type V = Seq<Shade>;

    closed spec fn view(&self) -> Seq<Shade> {
        self.shades@
    }
}

/// `i` is the position of the shade that `pixel` maps to: no shade is nearer
/// to the pixel, and every shade before it is strictly farther away.
pub open spec fn is_closest(shades: Seq<Shade>, pixel: Color, i: int) -> bool {
    &&& 0 <= i < shades.len()
    &&& forall|j: int|
        0 <= j < shades.len() ==> distance(pixel, shades[i].color) <= distance(
            pixel,
            #[trigger] shades[j].color,
        )
    &&& forall|j: int|
        0 <= j < i ==> distance(pixel, shades[i].color) < distance(
            pixel,
            #[trigger] shades[j].color,
        )
}

/// The position of the shade that `pixel` maps to. It is meaningful for a
/// non-empty list of shades only.
pub open spec fn closest_index(shades: Seq<Shade>, pixel: Color) -> int {
    choose|i: int| is_closest(shades, pixel, i)
}

/// The glyph that `pixel` is drawn with under the given shades.
pub open spec fn glyph_for(shades: Seq<Shade>, pixel: Color) -> char {
    shades[closest_index(shades, pixel)].glyph
}

/// At most one position is the closest one.
pub proof fn lemma_closest_unique(shades: Seq<Shade>, pixel: Color, i: int, k: int)
    requires
        is_closest(shades, pixel, i),
        is_closest(shades, pixel, k),
    ensures
        i == k,
{
    if i < k {
        assert(distance(pixel, shades[k].color) < distance(pixel, shades[i].color));
        assert(distance(pixel, shades[i].color) <= distance(pixel, shades[k].color));
    } else if k < i {
        assert(distance(pixel, shades[i].color) < distance(pixel, shades[k].color));
        assert(distance(pixel, shades[k].color) <= distance(pixel, shades[i].color));
    }
}

/// Among the first `n` shades there is one that is closest to the pixel.
proof fn lemma_closest_in_prefix(shades: Seq<Shade>, pixel: Color, n: int) -> (i: int)
    requires
        0 < n <= shades.len(),
    ensures
        is_closest(shades.take(n), pixel, i),
    decreases n,
{
    if n == 1 {
        0
    } else {
        let p = lemma_closest_in_prefix(shades, pixel, n - 1);
        let shorter = shades.take(n - 1);
        let longer = shades.take(n);
        assert forall|j: int| 0 <= j < n - 1 implies #[trigger] longer[j] == shorter[j] by {}
        if distance(pixel, longer[n - 1].color) < distance(pixel, longer[p].color) {
            assert forall|j: int| 0 <= j < n - 1 implies distance(pixel, longer[n - 1].color)
                < distance(pixel, #[trigger] longer[j].color) by {
                assert(distance(pixel, shorter[p].color) <= distance(pixel, shorter[j].color));
            }
            n - 1
        } else {
            assert forall|j: int| 0 <= j < n implies distance(pixel, longer[p].color) <= distance(
                pixel,
                #[trigger] longer[j].color,
            ) by {
                if j < n - 1 {
                    assert(distance(pixel, shorter[p].color) <= distance(
                        pixel,
                        shorter[j].color,
                    ));
                }
            }
            assert forall|j: int| 0 <= j < p implies distance(pixel, longer[p].color) < distance(
                pixel,
                #[trigger] longer[j].color,
            ) by {
                assert(distance(pixel, shorter[p].color) < distance(pixel, shorter[j].color));
            }
            p
        }
    }
}

/// Every non-empty list of shades has a closest shade for every pixel, and
/// `closest_index` names it.
pub proof fn lemma_closest_exists(shades: Seq<Shade>, pixel: Color)
    requires
        shades.len() > 0,
    ensures
        is_closest(shades, pixel, closest_index(shades, pixel)),
{
    let i = lemma_closest_in_prefix(shades, pixel, shades.len() as int);
    assert(shades.take(shades.len() as int) =~= shades);
    assert(is_closest(shades, pixel, i));
}

/// Whatever the pixel, the glyph chosen for it is the glyph of one of the
/// shades.
pub proof fn lemma_glyph_from_palette(shades: Seq<Shade>, pixel: Color)
    requires
        shades.len() > 0,
    ensures
        exists|i: int|
            0 <= i < shades.len() && #[trigger] shades[i].glyph == glyph_for(shades, pixel),
{
    lemma_closest_exists(shades, pixel);
    let i = closest_index(shades, pixel);
    assert(shades[i].glyph == glyph_for(shades, pixel));
}

/// Of two shades at the same distance from the pixel, the later one is never
/// chosen.
pub proof fn lemma_tie_goes_to_earlier(shades: Seq<Shade>, pixel: Color, earlier: int, later: int)
    requires
        0 <= earlier < later < shades.len(),
        distance(pixel, shades[earlier].color) == distance(pixel, shades[later].color),
    ensures
        closest_index(shades, pixel) != later,
{
    lemma_closest_exists(shades, pixel);
    if closest_index(shades, pixel) == later {
        assert(distance(pixel, shades[later].color) < distance(pixel, shades[earlier].color));
    }
}

/// The shades of the block palette: five grays from black to white, drawn
/// with ever lighter block glyphs and at last with a blank.
pub open spec fn block_shades() -> Seq<Shade> {
    seq![
        Shade { glyph: '\u{2588}', color: Color { r: 0, g: 0, b: 0 } },
        Shade { glyph: '\u{2593}', color: Color { r: 51, g: 51, b: 51 } },
        Shade { glyph: '\u{2592}', color: Color { r: 153, g: 153, b: 153 } },
        Shade { glyph: '\u{2591}', color: Color { r: 204, g: 204, b: 204 } },
        Shade { glyph: ' ', color: Color { r: 255, g: 255, b: 255 } },
    ]
}

impl Palette {
    #[verifier::type_invariant]
    spec fn non_empty(&self) -> bool {
        self.shades@.len() > 0
    }

    /// Builds a palette from the given shades, in the given order. An empty
    /// list is refused.
    pub fn new(shades: Vec<Shade>) -> (made: Result<Palette, PaletteError>)
        ensures
            shades@.len() == 0 ==> made == Err::<Palette, PaletteError>(PaletteError::Empty),
            shades@.len() > 0 ==> made is Ok && made->Ok_0@ == shades@,
    {
        if shades.len() == 0 {
            Err(PaletteError::Empty)
        } else {
            Ok(Palette { shades })
        }
    }

    /// The five-step palette of block glyphs, from full block for black to a
    /// blank for white.
    pub fn blocks() -> (palette: Palette)
        ensures
            palette@ == block_shades(),
    {
        let mut shades: Vec<Shade> = Vec::new();
        shades.push(Shade { glyph: '\u{2588}', color: Color { r: 0, g: 0, b: 0 } });
        shades.push(Shade { glyph: '\u{2593}', color: Color { r: 51, g: 51, b: 51 } });
        shades.push(Shade { glyph: '\u{2592}', color: Color { r: 153, g: 153, b: 153 } });
        shades.push(Shade { glyph: '\u{2591}', color: Color { r: 204, g: 204, b: 204 } });
        shades.push(Shade { glyph: ' ', color: Color { r: 255, g: 255, b: 255 } });
        assert(shades@ =~= block_shades());
        Palette { shades }
    }

    /// The number of shades, which is never zero.
    pub fn len(&self) -> (n: usize)
        ensures
            n == self@.len(),
            n > 0,
    {
        proof {
            use_type_invariant(self);
        }
        self.shades.len()
    }

    /// The shade at `index`, if there is one.
    pub fn shade(&self, index: usize) -> (found: Option<Shade>)
        ensures
            index < self@.len() ==> found == Some(self@[index as int]),
            index >= self@.len() ==> found is None,
    {
        if index < self.shades.len() {
            Some(self.shades[index])
        } else {
            None
        }
    }

    /// Finds the position of the shade closest to `pixel`. Where several
    /// shades are equally close, it is the first of them.
    pub fn closest(&self, pixel: Color) -> (index: usize)
        ensures
            is_closest(self@, pixel, index as int),
            index == closest_index(self@, pixel),
    {
        proof {
            use_type_invariant(self);
        }
        let mut best: usize = 0;
        let mut best_distance: u32 = pixel.distance_to(self.shades[0].color);
        let mut i: usize = 1;
        while i < self.shades.len()
            invariant
                1 <= i <= self.shades@.len(),
                best < i,
                best_distance == distance(pixel, self.shades@[best as int].color),
                forall|j: int|
                    0 <= j < i ==> best_distance <= distance(
                        pixel,
                        #[trigger] self.shades@[j].color,
                    ),
                forall|j: int|
                    0 <= j < best ==> best_distance < distance(
                        pixel,
                        #[trigger] self.shades@[j].color,
                    ),
            decreases self.shades@.len() - i,
        {
            let candidate: u32 = pixel.distance_to(self.shades[i].color);
            if candidate < best_distance {
                best_distance = candidate;
                best = i;
            }
            i += 1;
        }
        proof {
            assert(is_closest(self@, pixel, best as int));
            lemma_closest_exists(self@, pixel);
            lemma_closest_unique(self@, pixel, best as int, closest_index(self@, pixel));
        }
        best
    }
}

/// Maps a pixel to the glyph of the closest shade of the palette.
pub fn color_to_character(palette: &Palette, color: Color) -> (glyph: char)
    ensures
        glyph == glyph_for(palette@, color),
        exists|i: int| 0 <= i < palette@.len() && #[trigger] palette@[i].glyph == glyph,
{
    let index = palette.closest(color);
    let found = palette.shade(index);
    proof {
        assert(palette@[index as int].glyph == glyph_for(palette@, color));
    }
    match found {
        Some(shade) => shade.glyph,
        None => ' ',
    }
}

} // verus!
