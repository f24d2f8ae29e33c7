//! The size of the glyph grid: as asked for, or fitted to the terminal.

use vstd::prelude::*;

verus! {

/// The number of glyph columns that go with one glyph row.
pub const COLUMNS_PER_ROW: u16 = 4;

/// The rows of the grid fitted to a terminal: a quarter of the terminal's
/// width, rounded down, but no more than the terminal's height.
pub open spec fn fitted_rows(terminal_width: u16, terminal_height: u16) -> int {
    if terminal_width / COLUMNS_PER_ROW > terminal_height {
        terminal_height as int
    } else {
        (terminal_width / COLUMNS_PER_ROW) as int
    }
}

/// The columns and rows of the grid fitted to a terminal: four columns to
/// each of the fitted rows.
pub open spec fn fitted_size(terminal_width: u16, terminal_height: u16) -> (int, int) {
    (
        COLUMNS_PER_ROW * fitted_rows(terminal_width, terminal_height),
        fitted_rows(terminal_width, terminal_height),
    )
}

/// The size to render at: the fitted size where fitting is asked for and the
/// terminal's size is known, else the size that was given.
pub open spec fn resolved_size(
    autosize: bool,
    terminal: Option<(u16, u16)>,
    size_x: i32,
    size_y: i32,
) -> (int, int) {
    match terminal {
        Some((width, height)) if autosize => fitted_size(width, height),
        _ => (size_x as int, size_y as int),
    }
}

/// The fitted grid lies within the terminal and has four columns to each
/// row.
pub proof fn lemma_fitted_size(terminal_width: u16, terminal_height: u16)
    ensures
        fitted_size(terminal_width, terminal_height).0 == 4 * fitted_size(
            terminal_width,
            terminal_height,
        ).1,
        0 <= fitted_size(terminal_width, terminal_height).0 <= terminal_width,
        0 <= fitted_size(terminal_width, terminal_height).1 <= terminal_height,
{
}

/// No grid of four columns to each row that lies within the terminal has
/// more rows than the fitted one.
pub proof fn lemma_fitted_is_largest(terminal_width: u16, terminal_height: u16, rows: int)
    requires
        rows <= terminal_height,
        4 * rows <= terminal_width,
    ensures
        rows <= fitted_size(terminal_width, terminal_height).1,
{
}

/// Fits the glyph grid to a terminal of the given width and height.
pub fn compute_size(terminal_width: u16, terminal_height: u16) -> (size: (i32, i32))
    ensures
        size.0 == fitted_size(terminal_width, terminal_height).0,
        size.1 == fitted_size(terminal_width, terminal_height).1,
{
    let mut size_y: i32 = (terminal_width / COLUMNS_PER_ROW) as i32;
    let mut size_x: i32 = size_y * 4;
    if size_y > terminal_height as i32 {
        size_y = terminal_height as i32;
        size_x = size_y * 4;
    }
    (size_x, size_y)
}

/// Settles the size of the glyph grid from what the caller asked for and
/// from the terminal's size, where it could be detected.
pub fn resolve_size(
    autosize: bool,
    terminal: Option<(u16, u16)>,
    size_x: i32,
    size_y: i32,
) -> (size: (i32, i32))
    ensures
        size.0 == resolved_size(autosize, terminal, size_x, size_y).0,
        size.1 == resolved_size(autosize, terminal, size_x, size_y).1,
{
    if autosize {
        match terminal {
            Some((width, height)) => compute_size(width, height),
            None => (size_x, size_y),
        }
    } else {
        (size_x, size_y)
    }
}

/// Asks `terminal_size::terminal_size` for the width and height of the
/// terminal that the process is attached to. Nothing is claimed of the
/// answer: it depends on the terminal, and there may be none.
#[verifier::external_body]
fn terminal_dimensions() -> (found: Option<(u16, u16)>) {
    match terminal_size::terminal_size() {
        Some((terminal_size::Width(width), terminal_size::Height(height))) => Some((width, height)),
        None => None,
    }
}

/// Settles the size of the glyph grid, looking at the terminal only where
/// fitting is asked for. Without fitting the given size comes back
/// unchanged; with it, the result is what `resolve_size` gives for whatever
/// the terminal reported.
pub fn choose_size(autosize: bool, size_x: i32, size_y: i32) -> (size: (i32, i32))
    ensures
        !autosize ==> size == (size_x, size_y),
        exists|terminal: Option<(u16, u16)>|
            size.0 == (#[trigger] resolved_size(autosize, terminal, size_x, size_y)).0 && size.1
                == resolved_size(autosize, terminal, size_x, size_y).1,
{
    if autosize {
        let terminal = terminal_dimensions();
        let size = resolve_size(true, terminal, size_x, size_y);
        assert(size.0 == resolved_size(autosize, terminal, size_x, size_y).0);
        size
    } else {
        assert((size_x as int, size_y as int) == resolved_size(autosize, None, size_x, size_y));
        (size_x, size_y)
    }
}

} // verus!
