//! The text terminal: a grid of colored characters with a cursor, a write
//! position, and a scrolling mode.
//!
//! The grid is the screen's content; drawing it is the display driver's
//! business and happens outside this crate. Everything that decides *what*
//! stands in which cell — writing, line wrapping, scrolling, clearing — is
//! verified here against [`TtyView`].

use vstd::prelude::*;

verus! {

/// The sixteen colors of the planar graphics palette.
#[derive(Debug, Clone, Copy, PartialEq, Eq, Structural)]
pub enum Color {
    Black,
    Blue,
    Green,
    Cyan,
    Red,
    Magenta,
    Brown,
    LightGrey,
    DarkGrey,
    LightBlue,
    LightGreen,
    LightCyan,
    LightRed,
    Pink,
    Yellow,
    White,
}

/// One cell of the terminal grid: a character and the color it is shown in.
#[derive(Debug, Clone, Copy, PartialEq, Eq, Structural)]
pub struct Cell {
    pub color: Color,
    pub ch: char,
}

/// What happens when writing reaches the end of a line: `Scrolling` wraps
/// and scrolls, `Fixed` leaves the write position alone.
#[derive(Debug, Clone, Copy, PartialEq, Eq, Structural)]
pub enum TtyMode {
    Scrolling,
    Fixed,
}

/// The mathematical image of the terminal: the grid as a flat sequence in
/// row-major order, and the positions as unbounded integers.
#[verifier::ext_equal]
pub struct TtyView {
    pub cells: Seq<Cell>,
    pub width: int,
    pub height: int,
    pub cursor_row: int,
    pub cursor_col: int,
    pub row: int,
    pub col: int,
    pub mode: TtyMode,
    pub color: Color,
}

impl TtyView {
    /// The cell at `row`, `col` of the grid.
    pub open spec fn cell(self, row: int, col: int) -> Cell {
        self.cells[col + row * self.width]
    }

    /// The terminal invariant: the grid has exactly `width * height` cells
    /// and every recorded position lies on it.
    pub open spec fn wf(self) -> bool {
        &&& self.cells.len() == self.width * self.height
        &&& 1 <= self.width
        &&& 1 <= self.height
        &&& self.width * self.height <= usize::MAX
        &&& 0 <= self.cursor_row < self.height
        &&& 0 <= self.cursor_col < self.width
        &&& 0 <= self.row < self.height
        &&& 0 <= self.col < self.width
    }
}

/// A fresh cell as cleared cells are written: the current draw color and the
/// NUL character.
pub open spec fn spec_blank(color: Color) -> Cell {
    Cell { color, ch: '\0' }
}

/// Scrolling down by `amount` lines: the write position moves down and back
/// to the line start; if it would leave the grid, the content moves up by
/// just enough lines (at most a whole screen), the freed lines at the bottom
/// are blanked, and the position lands on the last line.
pub open spec fn spec_scroll(v: TtyView, amount: int) -> TtyView {
    let landing = v.row + amount;
    if landing < v.height {
        TtyView { row: landing, col: 0, ..v }
    } else {
        let offset = if landing - v.height + 1 < v.height {
            landing - v.height + 1
        } else {
            v.height
        };
        TtyView {
            row: v.height - 1,
            col: 0,
            cells: Seq::new(
                v.cells.len(),
                |k: int|
                    if k / v.width < v.height - offset {
                        v.cells[k + offset * v.width]
                    } else {
                        spec_blank(v.color)
                    },
            ),
            ..v
        }
    }
}

/// Writing one character: a newline scrolls one line (in `Scrolling` mode)
/// and prints nothing; any other character lands at the write position in
/// the draw color, and in `Scrolling` mode the position advances, wrapping
/// by a one-line scroll at the end of the line.
pub open spec fn spec_putchar(v: TtyView, c: char) -> TtyView {
    if c == '\n' {
        if v.mode is Scrolling {
            spec_scroll(v, 1)
        } else {
            v
        }
    } else {
        let written = TtyView {
            cells: v.cells.update(v.col + v.row * v.width, Cell { color: v.color, ch: c }),
            ..v
        };
        if v.mode is Scrolling {
            if v.col + 1 == v.width {
                spec_scroll(written, 1)
            } else {
                TtyView { col: v.col + 1, ..written }
            }
        } else {
            written
        }
    }
}

/// Writing a whole sequence of characters, one `spec_putchar` at a time.
pub open spec fn spec_write(v: TtyView, cs: Seq<char>) -> TtyView
    decreases cs.len(),
{
    if cs.len() == 0 {
        v
    } else {
        spec_putchar(spec_write(v, cs.drop_last()), cs.last())
    }
}

/// Writing distributes over concatenation.
pub proof fn lemma_write_concat(v: TtyView, a: Seq<char>, b: Seq<char>)
    ensures
        spec_write(v, a + b) == spec_write(spec_write(v, a), b),
    decreases b.len(),
{
    if b.len() == 0 {
        assert(a + b =~= a);
    } else {
        lemma_write_concat(v, a, b.drop_last());
        assert((a + b).drop_last() =~= a + b.drop_last());
        assert((a + b).last() == b.last());
    }
}

/// What one in-line character write does, cell by cell: with no wrap
/// pending, exactly the write position's cell changes and the position moves
/// one column right.
pub proof fn lemma_putchar_cells(v: TtyView, c: char)
    requires
        c != '\n',
        v.mode is Scrolling,
        v.col + 1 < v.width,
    ensures
        spec_putchar(v, c).cells == v.cells.update(
            v.col + v.row * v.width,
            Cell { color: v.color, ch: c },
        ),
        spec_putchar(v, c).col == v.col + 1,
        spec_putchar(v, c).row == v.row,
        spec_putchar(v, c).width == v.width,
        spec_putchar(v, c).height == v.height,
        spec_putchar(v, c).mode == v.mode,
        spec_putchar(v, c).color == v.color,
        spec_putchar(v, c).cursor_row == v.cursor_row,
        spec_putchar(v, c).cursor_col == v.cursor_col,
{
}

/// Writing never changes the grid's shape, the mode or the draw color.
pub proof fn lemma_write_fixed(v: TtyView, cs: Seq<char>)
    ensures
        spec_write(v, cs).width == v.width,
        spec_write(v, cs).height == v.height,
        spec_write(v, cs).mode == v.mode,
        spec_write(v, cs).color == v.color,
    decreases cs.len(),
{
    if cs.len() > 0 {
        lemma_write_fixed(v, cs.drop_last());
    }
}

/// A row-major index stays on the grid and hits exactly one cell.
pub proof fn lemma_grid_index(i: int, j: int, w: int, h: int)
    by (nonlinear_arith)
    requires
        0 <= i < h,
        0 <= j < w,
    ensures
        0 <= j + i * w < w * h,
        (j + i * w) / w == i,
        (j + i * w) % w == j,
{
}

/// Distinct grid positions have distinct row-major indices.
pub proof fn lemma_grid_injective(i1: int, j1: int, i2: int, j2: int, w: int)
    by (nonlinear_arith)
    requires
        0 <= j1 < w,
        0 <= j2 < w,
        0 <= i1,
        0 <= i2,
        (i1, j1) != (i2, j2),
    ensures
        j1 + i1 * w != j2 + i2 * w,
{
}

/// The terminal. `col`, `row`, `mode` and `color` are the write state and
/// may be set freely (within the grid); the grid and the cursor move only
/// through the methods.
pub struct Tty {
    pub buffer: Vec<Cell>,
    pub width: usize,
    pub height: usize,
    pub cursor_col: usize,
    pub cursor_row: usize,
    /// Column the next character is written at.
    pub col: usize,
    /// Row the next character is written at.
    pub row: usize,
    /// Current write mode.
    pub mode: TtyMode,
    /// Current draw color.
    pub color: Color,
}

impl View for Tty {
    type V = TtyView;

    open spec fn view(&self) -> TtyView {
        TtyView {
            cells: self.buffer@,
            width: self.width as int,
            height: self.height as int,
            cursor_row: self.cursor_row as int,
            cursor_col: self.cursor_col as int,
            row: self.row as int,
            col: self.col as int,
            mode: self.mode,
            color: self.color,
        }
    }
}

impl Tty {
    /// A cleared terminal of the given size, writing white from the top-left
    /// corner in scrolling mode.
    pub fn new(width: usize, height: usize) -> (t: Tty)
        requires
            1 <= width,
            1 <= height,
            width * height <= usize::MAX,
        ensures
            t@.wf(),
            t@.width == width,
            t@.height == height,
            t@.cursor_row == 0,
            t@.cursor_col == 0,
            t@.row == 0,
            t@.col == 0,
            t@.mode == TtyMode::Scrolling,
            t@.color == Color::White,
            forall|k: int| 0 <= k < t@.cells.len() ==> t@.cells[k] == spec_blank(Color::White),
    {
        let total: usize = width * height;
        let mut buffer: Vec<Cell> = Vec::new();
        while buffer.len() < total
            invariant
                buffer@.len() <= total,
                forall|k: int|
                    0 <= k < buffer@.len() ==> buffer@[k] == spec_blank(Color::White),
            decreases total - buffer@.len(),
        {
            buffer.push(Cell { color: Color::White, ch: '\0' });
        }
        Tty {
            buffer,
            width,
            height,
            cursor_col: 0,
            cursor_row: 0,
            col: 0,
            row: 0,
            mode: TtyMode::Scrolling,
            color: Color::White,
        }
    }

    /// Columns of the grid.
    pub fn width(&self) -> (w: usize)
        ensures
            w == self@.width,
    {
        self.width
    }

    /// Rows of the grid.
    pub fn height(&self) -> (h: usize)
        ensures
            h == self@.height,
    {
        self.height
    }

    /// The cell at `row`, `col`; what the display driver reads to draw.
    pub fn cell_at(&self, row: usize, col: usize) -> (c: Cell)
        requires
            self@.wf(),
            row < self@.height,
            col < self@.width,
        ensures
            c == self@.cell(row as int, col as int),
    {
        proof {
            lemma_grid_index(row as int, col as int, self@.width, self@.height);
        }
        self.buffer[col + row * self.width]
    }

    /// Scrolls down `amount` lines.
    pub fn scroll(&mut self, amount: usize)
        requires
            old(self)@.wf(),
            old(self)@.row + amount <= usize::MAX,
        ensures
            final(self)@ == spec_scroll(old(self)@, amount as int),
            final(self)@.wf(),
    {
        self.row = self.row + amount;
        self.col = 0;
        if self.row >= self.height {
            let offset_raw: usize = self.row - self.height + 1;
            let offset: usize = if offset_raw < self.height { offset_raw } else { self.height };
            self.row = self.height - 1;
            let ghost target = spec_scroll(old(self)@, amount as int);
            let mut i: usize = 0;
            while i < self.height - offset
                invariant
                    self@.wf(),
                    old(self)@.wf(),
                    1 <= offset <= self@.height,
                    i <= self@.height - offset,
                    self@.width == old(self)@.width,
                    self@.height == old(self)@.height,
                    self@.cells.len() == old(self)@.cells.len(),
                    self@.cursor_row == old(self)@.cursor_row,
                    self@.cursor_col == old(self)@.cursor_col,
                    self@.mode == old(self)@.mode,
                    self@.color == old(self)@.color,
                    self@.row == self@.height - 1,
                    self@.col == 0,
                    forall|k: int|
                        0 <= k < i * self@.width ==> #[trigger] self@.cells[k] == old(
                            self,
                        )@.cells[k + offset * self@.width],
                    forall|k: int|
                        i * self@.width <= k < self@.cells.len() ==> #[trigger] self@.cells[k]
                            == old(self)@.cells[k],
                decreases self@.height - offset - i,
            {
                let mut j: usize = 0;
                while j < self.width
                    invariant
                        self@.wf(),
                        old(self)@.wf(),
                        1 <= offset <= self@.height,
                        i < self@.height - offset,
                        j <= self@.width,
                        self@.width == old(self)@.width,
                        self@.height == old(self)@.height,
                        self@.cells.len() == old(self)@.cells.len(),
                        self@.cursor_row == old(self)@.cursor_row,
                        self@.cursor_col == old(self)@.cursor_col,
                        self@.mode == old(self)@.mode,
                        self@.color == old(self)@.color,
                        self@.row == self@.height - 1,
                        self@.col == 0,
                        forall|k: int|
                            0 <= k < j + i * self@.width ==> #[trigger] self@.cells[k] == old(
                                self,
                            )@.cells[k + offset * self@.width],
                        forall|k: int|
                            j + i * self@.width <= k < self@.cells.len() ==> #[trigger] self@
                                .cells[k] == old(self)@.cells[k],
                    decreases self@.width - j,
                {
                    proof {
                        lemma_grid_index(i as int, j as int, self@.width, self@.height);
                        lemma_grid_index(
                            (i + offset) as int,
                            j as int,
                            self@.width,
                            self@.height,
                        );
                        assert(j + (i + offset) * self@.width == (j + i * self@.width) + offset
                            * self@.width) by (nonlinear_arith);
                    }
                    let src = self.buffer[j + (i + offset) * self.width];
                    self.buffer.set(j + i * self.width, src);
                    j = j + 1;
                }
                proof {
                    assert((i + 1) * self@.width == i * self@.width + self@.width)
                        by (nonlinear_arith);
                }
                i = i + 1;
            }
            // Blank the lines freed at the bottom.
            while i < self.height
                invariant
                    self@.wf(),
                    old(self)@.wf(),
                    1 <= offset <= self@.height,
                    self@.height - offset <= i <= self@.height,
                    self@.width == old(self)@.width,
                    self@.height == old(self)@.height,
                    self@.cells.len() == old(self)@.cells.len(),
                    self@.cursor_row == old(self)@.cursor_row,
                    self@.cursor_col == old(self)@.cursor_col,
                    self@.mode == old(self)@.mode,
                    self@.color == old(self)@.color,
                    self@.row == self@.height - 1,
                    self@.col == 0,
                    forall|k: int|
                        0 <= k < (self@.height - offset) * self@.width ==> #[trigger] self@
                            .cells[k] == old(self)@.cells[k + offset * self@.width],
                    forall|k: int|
                        (self@.height - offset) * self@.width <= k < i * self@.width
                            ==> #[trigger] self@.cells[k] == spec_blank(old(self)@.color),
                    forall|k: int|
                        i * self@.width <= k < self@.cells.len() ==> #[trigger] self@.cells[k]
                            == old(self)@.cells[k],
                decreases self@.height - i,
            {
                let mut j: usize = 0;
                while j < self.width
                    invariant
                        self@.wf(),
                        old(self)@.wf(),
                        1 <= offset <= self@.height,
                        self@.height - offset <= i < self@.height,
                        j <= self@.width,
                        self@.width == old(self)@.width,
                        self@.height == old(self)@.height,
                        self@.cells.len() == old(self)@.cells.len(),
                        self@.cursor_row == old(self)@.cursor_row,
                        self@.cursor_col == old(self)@.cursor_col,
                        self@.mode == old(self)@.mode,
                        self@.color == old(self)@.color,
                        self@.row == self@.height - 1,
                        self@.col == 0,
                        forall|k: int|
                            0 <= k < (self@.height - offset) * self@.width ==> #[trigger] self@
                                .cells[k] == old(self)@.cells[k + offset * self@.width],
                        forall|k: int|
                            (self@.height - offset) * self@.width <= k < j + i * self@.width
                                ==> #[trigger] self@.cells[k] == spec_blank(old(self)@.color),
                        forall|k: int|
                            j + i * self@.width <= k < self@.cells.len() ==> #[trigger] self@
                                .cells[k] == old(self)@.cells[k],
                    decreases self@.width - j,
                {
                    proof {
                        lemma_grid_index(i as int, j as int, self@.width, self@.height);
                        assert((self@.height - offset) * self@.width <= i * self@.width)
                            by (nonlinear_arith)
                            requires self@.height - offset <= i, self@.width >= 1;
                    }
                    let blank = Cell { color: self.color, ch: '\0' };
                    self.buffer.set(j + i * self.width, blank);
                    j = j + 1;
                }
                proof {
                    assert((i + 1) * self@.width == i * self@.width + self@.width)
                        by (nonlinear_arith);
                }
                i = i + 1;
            }
            proof {
                let ghost w = self@.width;
                let ghost h = self@.height;
                assert(h * w == w * h) by (nonlinear_arith);
                assert(self@.cells.len() == w * h);
                assert forall|k: int| 0 <= k < self@.cells.len() implies self@.cells[k]
                    == target.cells[k] by {
                    vstd::arithmetic::div_mod::lemma_fundamental_div_mod(k, w);
                    vstd::arithmetic::div_mod::lemma_mod_bound(k, w);
                    let ki = k / w;
                    let kj = k % w;
                    assert(0 <= ki && ki < h) by (nonlinear_arith)
                        requires
                            0 <= k < w * h,
                            k == w * ki + kj,
                            0 <= kj < w,
                            w >= 1,
                    ;
                    if ki < h - offset {
                        assert(k < (h - offset) * w) by (nonlinear_arith)
                            requires
                                k == w * ki + kj,
                                ki < h - offset,
                                0 <= kj < w,
                                w >= 1,
                        ;
                    } else {
                        assert(k >= (h - offset) * w) by (nonlinear_arith)
                            requires
                                k == w * ki + kj,
                                ki >= h - offset,
                                0 <= kj,
                                w >= 1,
                        ;
                    }
                }
                assert(self@.cells =~= target.cells);
                assert(self@ =~= target);
            }
        }
    }

    /// Writes one character at the write position.
    pub fn putchar(&mut self, c: char)
        requires
            old(self)@.wf(),
        ensures
            final(self)@ == spec_putchar(old(self)@, c),
            final(self)@.wf(),
    {
        if c == '\n' {
            if self.mode == TtyMode::Scrolling {
                self.scroll(1);
            }
        } else {
            proof {
                lemma_grid_index(self@.row, self@.col, self@.width, self@.height);
            }
            let cell = Cell { color: self.color, ch: c };
            self.buffer.set(self.col + self.row * self.width, cell);
            if self.mode == TtyMode::Scrolling {
                self.col = self.col + 1;
                if self.col == self.width {
                    self.col = 0;
                    self.scroll(1);
                }
            }
            proof {
                assert(final(self)@ =~= spec_putchar(old(self)@, c));
            }
        }
    }

    /// Blanks the `rect_width` x `rect_height` rectangle whose top-left cell
    /// is `start_row`, `start_col`; everything else is untouched.
    pub fn clear_rect(
        &mut self,
        start_row: usize,
        start_col: usize,
        rect_width: usize,
        rect_height: usize,
    )
        requires
            old(self)@.wf(),
            start_row + rect_height <= old(self)@.height,
            start_col + rect_width <= old(self)@.width,
        ensures
            final(self)@.wf(),
            final(self)@.width == old(self)@.width,
            final(self)@.height == old(self)@.height,
            final(self)@.cursor_row == old(self)@.cursor_row,
            final(self)@.cursor_col == old(self)@.cursor_col,
            final(self)@.row == old(self)@.row,
            final(self)@.col == old(self)@.col,
            final(self)@.mode == old(self)@.mode,
            final(self)@.color == old(self)@.color,
            forall|i: int, j: int|
                start_row <= i < start_row + rect_height && start_col <= j < start_col
                    + rect_width ==> #[trigger] final(self)@.cell(i, j) == spec_blank(
                    old(self)@.color,
                ),
            forall|i: int, j: int|
                0 <= i < old(self)@.height && 0 <= j < old(self)@.width && !(start_row <= i
                    < start_row + rect_height && start_col <= j < start_col + rect_width)
                    ==> #[trigger] final(self)@.cell(i, j) == old(self)@.cell(i, j),
    {
        let mut i: usize = start_row;
        while i < start_row + rect_height
            invariant
                self@.wf(),
                old(self)@.wf(),
                start_row <= i <= start_row + rect_height,
                start_row + rect_height <= self@.height,
                start_col + rect_width <= self@.width,
                self@.width == old(self)@.width,
                self@.height == old(self)@.height,
                self@.cursor_row == old(self)@.cursor_row,
                self@.cursor_col == old(self)@.cursor_col,
                self@.row == old(self)@.row,
                self@.col == old(self)@.col,
                self@.mode == old(self)@.mode,
                self@.color == old(self)@.color,
                forall|r: int, s: int|
                    start_row <= r < i && start_col <= s < start_col + rect_width
                        ==> #[trigger] self@.cell(r, s) == spec_blank(old(self)@.color),
                forall|r: int, s: int|
                    0 <= r < self@.height && 0 <= s < self@.width && !(start_row <= r < i
                        && start_col <= s < start_col + rect_width) ==> #[trigger] self@.cell(
                        r,
                        s,
                    ) == old(self)@.cell(r, s),
            decreases start_row + rect_height - i,
        {
            let mut j: usize = start_col;
            while j < start_col + rect_width
                invariant
                    self@.wf(),
                    old(self)@.wf(),
                    start_row <= i < start_row + rect_height,
                    start_col <= j <= start_col + rect_width,
                    start_row + rect_height <= self@.height,
                    start_col + rect_width <= self@.width,
                    self@.width == old(self)@.width,
                    self@.height == old(self)@.height,
                    self@.cursor_row == old(self)@.cursor_row,
                    self@.cursor_col == old(self)@.cursor_col,
                    self@.row == old(self)@.row,
                    self@.col == old(self)@.col,
                    self@.mode == old(self)@.mode,
                    self@.color == old(self)@.color,
                    forall|r: int, s: int|
                        start_row <= r < i && start_col <= s < start_col + rect_width
                            ==> #[trigger] self@.cell(r, s) == spec_blank(old(self)@.color),
                    forall|s: int|
                        start_col <= s < j ==> #[trigger] self@.cell(i as int, s) == spec_blank(
                            old(self)@.color,
                        ),
                    forall|r: int, s: int|
                        0 <= r < self@.height && 0 <= s < self@.width && !(start_row <= r < i
                            && start_col <= s < start_col + rect_width) && !(r == i && start_col
                            <= s < j) ==> #[trigger] self@.cell(r, s) == old(self)@.cell(r, s),
                decreases start_col + rect_width - j,
            {
                proof {
                    lemma_grid_index(i as int, j as int, self@.width, self@.height);
                }
                let ghost prev = self@;
                let blank = Cell { color: self.color, ch: '\0' };
                self.buffer.set(j + i * self.width, blank);
                proof {
                    assert forall|r: int, s: int|
                        0 <= r < self@.height && 0 <= s < self@.width && (r, s) != (
                        i as int,
                        j as int,
                    ) implies #[trigger] self@.cell(r, s) == prev.cell(r, s) by {
                        lemma_grid_injective(r, s, i as int, j as int, self@.width);
                        lemma_grid_index(r, s, self@.width, self@.height);
                    }
                    assert(self@.cell(i as int, j as int) == spec_blank(old(self)@.color));
                }
                j = j + 1;
            }
            i = i + 1;
        }
    }

    /// Where the visible cursor stands.
    pub fn get_cursor(&self) -> (pos: (usize, usize))
        ensures
            pos.0 == self@.cursor_row,
            pos.1 == self@.cursor_col,
    {
        (self.cursor_row, self.cursor_col)
    }

    /// Moves the visible cursor. Redrawing the cell it leaves and the cell
    /// it enters is the display driver's business.
    pub fn set_cursor(&mut self, row: usize, col: usize)
        requires
            old(self)@.wf(),
            row < old(self)@.height,
            col < old(self)@.width,
        ensures
            final(self)@ == (TtyView {
                cursor_row: row as int,
                cursor_col: col as int,
                ..old(self)@
            }),
            final(self)@.wf(),
    {
        self.cursor_row = row;
        self.cursor_col = col;
        proof {
            assert(final(self)@ =~= TtyView {
                cursor_row: row as int,
                cursor_col: col as int,
                ..old(self)@
            });
        }
    }

    /// Writes every character of `s` in order.
    pub fn write_string(&mut self, s: &str)
        requires
            old(self)@.wf(),
        ensures
            final(self)@ == spec_write(old(self)@, s@),
            final(self)@.wf(),
    {
        let len = s.unicode_len();
        let mut i: usize = 0;
        while i < len
            invariant
                i <= len,
                len == s@.len(),
                self@ == spec_write(old(self)@, s@.subrange(0, i as int)),
                self@.wf(),
            decreases len - i,
        {
            let c = s.get_char(i);
            self.putchar(c);
            proof {
                let done = s@.subrange(0, i + 1);
                assert(done.drop_last() =~= s@.subrange(0, i as int));
            }
            i = i + 1;
        }
        proof {
            assert(s@.subrange(0, s@.len() as int) =~= s@);
        }
    }
}

} // verus!
