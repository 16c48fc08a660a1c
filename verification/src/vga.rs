//! The fixed geometry of the graphics mode the kernel draws in. Setting the
//! mode and pushing pixels is the display hardware's side and happens
//! outside this crate.

use vstd::prelude::*;

verus! {

/// Pixel height of the screen.
pub const WINDOW_HEIGHT: usize = 480;

/// Pixel width of the screen.
pub const WINDOW_WIDTH: usize = 640;

/// Pixel width and height of one terminal cell's glyph.
pub const GLYPH_SIZE: usize = 8;

/// Screen height in pixels.
pub fn height() -> (h: usize)
    ensures
        h == WINDOW_HEIGHT,
{
    WINDOW_HEIGHT
}

/// Screen width in pixels.
pub fn width() -> (w: usize)
    ensures
        w == WINDOW_WIDTH,
{
    WINDOW_WIDTH
}

/// The pixel rectangle of the terminal cell at `row`, `col`: the display
/// driver blanks and redraws exactly these pixels for one cell.
pub fn cell_rect(row: usize, col: usize) -> (r: (usize, usize))
    requires
        col * 8 <= usize::MAX,
        row * 8 <= usize::MAX,
    ensures
        r.0 == col * GLYPH_SIZE,
        r.1 == row * GLYPH_SIZE,
{
    (col * GLYPH_SIZE, row * GLYPH_SIZE)
}

/// The pixel rectangle of the cursor bar inside the cell at `row`, `col`:
/// six pixels wide, two high, near the cell's bottom.
pub fn cursor_rect(row: usize, col: usize) -> (r: (usize, usize, usize, usize))
    requires
        col * 8 + 1 <= usize::MAX,
        row * 8 + 6 <= usize::MAX,
    ensures
        r.0 == col * GLYPH_SIZE + 1,
        r.1 == row * GLYPH_SIZE + 6,
        r.2 == 6,
        r.3 == 2,
{
    (col * GLYPH_SIZE + 1, row * GLYPH_SIZE + 6, 6, 2)
}

} // verus!
