use ascii_video::color::{Color, MAX_DISTANCE};
use ascii_video::palette::{color_to_character, Palette, PaletteError, Shade};

fn shade(glyph: char, r: u8, g: u8, b: u8) -> Shade {
    Shade { glyph, color: Color::new(r, g, b) }
}

fn black_and_red() -> Palette {
    Palette::new(vec![shade('#', 0, 0, 0), shade('r', 255, 0, 0)]).unwrap()
}

#[test]
fn distance_is_sum_of_squared_gaps() {
    let pixel = Color::new(10, 200, 30);
    let target = Color::new(4, 100, 30);
    assert_eq!(pixel.distance_to(target), 6 * 6 + 100 * 100);
}

#[test]
fn distance_clamps_channels_below_the_shade() {
    let black = Color::new(0, 0, 0);
    let red = Color::new(255, 0, 0);
    assert_eq!(black.distance_to(red), 0);
    assert_eq!(red.distance_to(black), 255 * 255);
}

#[test]
fn distance_is_one_sided() {
    let dark = Color::new(10, 20, 30);
    let light = Color::new(110, 220, 130);
    assert_eq!(dark.distance_to(light), 0);
    assert_eq!(light.distance_to(dark), 100 * 100 + 200 * 200 + 100 * 100);
}

#[test]
fn distance_reaches_its_maximum_from_white_to_black() {
    let white = Color::new(255, 255, 255);
    let black = Color::new(0, 0, 0);
    assert_eq!(white.distance_to(black), 195075);
    assert_eq!(white.distance_to(black), MAX_DISTANCE);
}

#[test]
fn distance_to_itself_is_zero() {
    let c = Color::new(17, 99, 201);
    assert_eq!(c.distance_to(c), 0);
}

#[test]
fn empty_palette_is_refused() {
    let made = Palette::new(Vec::new());
    assert!(matches!(made, Err(PaletteError::Empty)));
}

#[test]
fn palette_keeps_shades_in_order() {
    let palette = Palette::new(vec![shade('a', 1, 2, 3), shade('b', 4, 5, 6)]).unwrap();
    assert_eq!(palette.len(), 2);
    assert_eq!(palette.shade(0), Some(shade('a', 1, 2, 3)));
    assert_eq!(palette.shade(1), Some(shade('b', 4, 5, 6)));
    assert_eq!(palette.shade(2), None);
}

#[test]
fn block_palette_has_five_shades_dark_to_light() {
    let palette = Palette::blocks();
    assert_eq!(palette.len(), 5);
    assert_eq!(palette.shade(0), Some(shade('█', 0, 0, 0)));
    assert_eq!(palette.shade(1), Some(shade('▓', 51, 51, 51)));
    assert_eq!(palette.shade(2), Some(shade('▒', 153, 153, 153)));
    assert_eq!(palette.shade(3), Some(shade('░', 204, 204, 204)));
    assert_eq!(palette.shade(4), Some(shade(' ', 255, 255, 255)));
}

#[test]
fn quantize_returns_a_glyph_of_the_palette() {
    let palette = Palette::new(vec![
        shade('a', 0, 0, 0),
        shade('b', 90, 10, 200),
        shade('c', 255, 255, 255),
    ])
    .unwrap();
    let mut value: u32 = 0;
    while value < 256 {
        let v: u8 = value as u8;
        for color in [
            Color::new(v, v, v),
            Color::new(v, 0, 255 - v),
            Color::new(0, v, 0),
            Color::new(255, 255 - v, v),
        ] {
            let glyph = color_to_character(&palette, color);
            assert!(glyph == 'a' || glyph == 'b' || glyph == 'c');
        }
        value += 1;
    }
}

#[test]
fn quantize_with_one_shade_always_gives_it() {
    let palette = Palette::new(vec![shade('x', 0, 0, 0)]).unwrap();
    assert_eq!(color_to_character(&palette, Color::new(0, 0, 0)), 'x');
    assert_eq!(color_to_character(&palette, Color::new(255, 255, 255)), 'x');
    assert_eq!(palette.closest(Color::new(255, 255, 255)), 0);
}

#[test]
fn tie_goes_to_the_earlier_shade() {
    let palette = Palette::new(vec![
        shade('1', 100, 100, 100),
        shade('2', 100, 100, 100),
        shade('3', 50, 50, 50),
    ])
    .unwrap();
    let pixel = Color::new(110, 100, 100);
    assert_eq!(palette.closest(pixel), 0);
    assert_eq!(color_to_character(&palette, pixel), '1');
}

#[test]
fn tie_between_different_colors_goes_to_the_earlier_shade() {
    // Both shades are 10 away from the pixel, on different channels.
    let first = Palette::new(vec![shade('g', 50, 40, 50), shade('b', 50, 50, 40)]).unwrap();
    let second = Palette::new(vec![shade('b', 50, 50, 40), shade('g', 50, 40, 50)]).unwrap();
    let pixel = Color::new(50, 50, 50);
    assert_eq!(color_to_character(&first, pixel), 'g');
    assert_eq!(color_to_character(&second, pixel), 'b');
}

#[test]
fn later_shade_wins_only_when_strictly_closer() {
    let palette = Palette::new(vec![shade('f', 0, 0, 0), shade('n', 9, 0, 0)]).unwrap();
    assert_eq!(palette.closest(Color::new(10, 0, 0)), 1);
    assert_eq!(palette.closest(Color::new(0, 0, 0)), 0);
}

#[test]
fn pure_red_matches_the_red_shade() {
    let palette = black_and_red();
    assert_eq!(color_to_character(&palette, Color::new(255, 0, 0)), 'r');
    assert_eq!(palette.closest(Color::new(255, 0, 0)), 1);
}

#[test]
fn pure_black_does_not_favor_the_red_shade() {
    let palette = black_and_red();
    let black = Color::new(0, 0, 0);
    // Both shades are at distance zero from black; the first one stays.
    assert_eq!(black.distance_to(Color::new(255, 0, 0)), 0);
    assert_eq!(black.distance_to(Color::new(0, 0, 0)), 0);
    assert_eq!(color_to_character(&palette, black), '#');
    assert_eq!(palette.closest(black), 0);
}

#[test]
fn block_palette_maps_grays_to_the_expected_glyphs() {
    let palette = Palette::blocks();
    assert_eq!(color_to_character(&palette, Color::new(0, 0, 0)), '█');
    assert_eq!(color_to_character(&palette, Color::new(255, 255, 255)), ' ');
    // A pixel below a shade in every channel is at distance zero from it, so
    // the darkest shade already matches every pixel it dominates.
    assert_eq!(color_to_character(&palette, Color::new(51, 51, 51)), '▓');
    assert_eq!(color_to_character(&palette, Color::new(50, 50, 50)), '▓');
    assert_eq!(color_to_character(&palette, Color::new(52, 52, 52)), '▒');
    assert_eq!(color_to_character(&palette, Color::new(153, 153, 153)), '▒');
    assert_eq!(color_to_character(&palette, Color::new(154, 154, 154)), '░');
    assert_eq!(color_to_character(&palette, Color::new(204, 204, 204)), '░');
    assert_eq!(color_to_character(&palette, Color::new(205, 205, 205)), ' ');
    assert_eq!(color_to_character(&palette, Color::new(1, 1, 1)), '▓');
}
