//! The terminal grid: rows of cells with a wrapping cursor, current drawing
//! attributes, a scroll region, scrollback history and an alternate screen.
use vstd::prelude::*;
use std::collections::VecDeque;
use crate::color::CellColor;
use crate::reflow;
use crate::reflow::{count_used, pad_paragraph, split_into, Joiner};
use crate::screen;
use crate::screen::{AltScreen, Line, Screen};

verus! {

/// Rows of history a new grid keeps.
pub const DEFAULT_SCROLLBACK_LINES: usize = 10_000;

/// Which mouse-reporting protocol the foreground app has enabled.
///
/// Scroll events are forwarded to the app when any mode other than `Off` is
/// active, encoded as button 64 (up) / 65 (down).
#[derive(Clone, Copy, Debug, PartialEq, Eq, Structural)]
pub enum MouseMode {
    /// No mouse reporting: the scroll wheel drives scrollback.
    Off,
    /// ?1000: report button press/release only.
    Normal,
    /// ?1002: report press/release and motion while a button is held.
    ButtonMotion,
    /// ?1003: report all motion events.
    AnyMotion,
}

impl Default for MouseMode {
    fn default() -> (m: MouseMode)
        ensures
            m == MouseMode::Off,
    {
        MouseMode::Off
    }
}

/// Terminal cursor shape, set by DECSCUSR (`CSI Ps SP q`).
#[derive(Clone, Copy, Debug, PartialEq, Eq, Structural)]
pub enum CursorShape {
    /// Filled block covering the full cell (modes 0, 1, 2). The default.
    Block,
    /// Thin horizontal bar at the bottom of the cell (modes 3, 4).
    Underline,
    /// Thin vertical bar at the left edge of the cell (modes 5, 6).
    Bar,
}

impl Default for CursorShape {
    fn default() -> (s: CursorShape)
        ensures
            s == CursorShape::Block,
    {
        CursorShape::Block
    }
}

/// One character cell.
#[derive(Clone, Copy, Debug, PartialEq, Eq, Structural)]
pub struct Cell {
    pub ch: char,
    pub fg: CellColor,
    pub bg: CellColor,
}

impl Cell {
    /// A space in the default colors.
    #[verifier::allow_in_spec]
    pub fn empty() -> Cell
        returns
            (Cell { ch: ' ', fg: CellColor::Default, bg: CellColor::Default }),
    {
        Cell { ch: ' ', fg: CellColor::Default, bg: CellColor::Default }
    }
}

impl Default for Cell {
    fn default() -> (c: Cell)
        ensures
            c == Cell::empty(),
    {
        Cell::empty()
    }
}

/// Cursor position and drawing attributes kept by DECSC for DECRC.
#[derive(Clone, Copy, Debug, PartialEq, Eq, Structural)]
pub struct SavedCursor {
    pub row: usize,
    pub col: usize,
    pub fg: CellColor,
    pub bg: CellColor,
    pub bold: bool,
    pub reverse: bool,
}

/// One row of cells plus a `wrapped` flag recording *why* the line ended.
///
/// `wrapped == true` means the text ran off the right edge and auto-wrapped
/// onto the next row: a "soft" break with no newline in the byte stream.
/// `false` means the row was terminated by an explicit newline (or never
/// filled). On resize soft-wrapped runs are rejoined and split again at the new
/// width.
pub(crate) struct Row {
    pub(crate) cells: Vec<Cell>,
    pub(crate) wrapped: bool,
}

impl View for Row {
    type V = Line;

    open(crate) spec fn view(&self) -> Line {
        Line { cells: self.cells@, wrapped: self.wrapped }
    }
}

/// The rows as the model has them.
pub(crate) open(crate) spec fn lines_of(rows: Seq<Row>) -> Seq<Line> {
    rows.map_values(|r: Row| r@)
}

impl Row {
    pub(crate) fn blank(len: usize, cell: Cell) -> (row: Row)
        ensures
            row@ == screen::blank_line(len as int, cell),
    {
        let mut cells: Vec<Cell> = Vec::new();
        while cells.len() < len
            invariant
                cells@.len() <= len,
                forall|c: int| 0 <= c < cells@.len() ==> cells@[c] == cell,
            decreases len - cells@.len(),
        {
            cells.push(cell);
        }
        let row = Row { cells, wrapped: false };
        assert(row@ =~= screen::blank_line(len as int, cell));
        row
    }

    /// Overwrite columns `lo..hi`.
    fn fill(&mut self, lo: usize, hi: usize, cell: Cell)
        requires
            hi <= old(self)@.cells.len() || hi <= lo,
        ensures
            final(self)@ == screen::filled(old(self)@, lo as int, hi as int, cell),
    {
        let ghost before = self@;
        let mut c: usize = lo;
        while c < hi
            invariant
                hi <= before.cells.len() || hi <= lo,
                lo <= c,
                c <= hi || hi <= lo,
                hi <= lo ==> c == lo,
                self.wrapped == before.wrapped,
                self.cells@.len() == before.cells.len(),
                forall|k: int|
                    0 <= k < before.cells.len() ==> self.cells@[k] == if lo <= k < c {
                        cell
                    } else {
                        before.cells[k]
                    },
            decreases hi - c,
        {
            self.cells[c] = cell;
            c = c + 1;
        }
        assert(self@ =~= screen::filled(before, lo as int, hi as int, cell));
    }

    /// Remove `n` cells at `start`; copies of `cell` come in from the right.
    fn delete(&mut self, start: usize, n: usize, cell: Cell)
        requires
            start + n <= old(self)@.cells.len(),
        ensures
            final(self)@.wrapped == old(self)@.wrapped,
            final(self)@.cells.len() == old(self)@.cells.len(),
            forall|c: int|
                0 <= c < old(self)@.cells.len() ==> #[trigger] final(self)@.cells[c] == if c < start {
                    old(self)@.cells[c]
                } else if c + n < old(self)@.cells.len() {
                    old(self)@.cells[c + n]
                } else {
                    cell
                },
    {
        let ghost before = self@;
        let len: usize = self.cells.len();
        let mut c: usize = start;
        while c < len - n
            invariant
                self.wrapped == before.wrapped,
                self.cells@.len() == before.cells.len() == len,
                start <= c <= len - n,
                n <= len,
                forall|k: int|
                    0 <= k < len ==> self.cells@[k] == if start <= k < c {
                        before.cells[k + n]
                    } else {
                        before.cells[k]
                    },
            decreases len - n - c,
        {
            let moved = self.cells[c + n];
            self.cells[c] = moved;
            c = c + 1;
        }
        self.fill(len - n, len, cell);
    }

    /// Make room for `n` copies of `cell` at `start`; what is pushed past the
    /// right edge is gone.
    fn insert(&mut self, start: usize, n: usize, cell: Cell)
        requires
            start + n <= old(self)@.cells.len(),
        ensures
            final(self)@.wrapped == old(self)@.wrapped,
            final(self)@.cells.len() == old(self)@.cells.len(),
            forall|c: int|
                0 <= c < old(self)@.cells.len() ==> #[trigger] final(self)@.cells[c] == if c < start {
                    old(self)@.cells[c]
                } else if c < start + n {
                    cell
                } else {
                    old(self)@.cells[c - n]
                },
    {
        let ghost before = self@;
        let len: usize = self.cells.len();
        let mut c: usize = len;
        while c > start + n
            invariant
                self.wrapped == before.wrapped,
                self.cells@.len() == before.cells.len() == len,
                start + n <= c <= len,
                forall|k: int|
                    0 <= k < len ==> self.cells@[k] == if c <= k {
                        before.cells[k - n]
                    } else {
                        before.cells[k]
                    },
            decreases c,
        {
            c = c - 1;
            let moved = self.cells[c - n];
            self.cells[c] = moved;
        }
        self.fill(start, start + n, cell);
    }
}


/// Rows cut or padded to `rows` rows of `cols` cells.
fn reshape(lines: &mut Vec<Row>, cols: usize, rows: usize, cell: Cell)
    ensures
        lines_of(final(lines)@) == screen::reshaped(
            lines_of(old(lines)@),
            cols as int,
            rows as int,
            cell,
        ),
{
    let ghost before = lines_of(lines@);
    if lines.len() > rows {
        lines.truncate(rows);
    }
    let mut r: usize = 0;
    let n: usize = lines.len();
    while r < n
        invariant
            n == lines@.len(),
            n == screen::lesser(before.len() as int, rows as int),
            r <= n,
            forall|k: int|
                0 <= k < r ==> (#[trigger] lines@[k])@ == screen::reshaped(
                    before,
                    cols as int,
                    rows as int,
                    cell,
                )[k],
            forall|k: int| r <= k < n ==> (#[trigger] lines@[k])@ == before[k],
        decreases n - r,
    {
        fit(&mut lines[r].cells, cols, cell);
        assert(lines@[r as int]@ =~~= screen::reshaped(
            before,
            cols as int,
            rows as int,
            cell,
        )[r as int]);
        r = r + 1;
    }
    while lines.len() < rows
        invariant
            screen::lesser(before.len() as int, rows as int) <= lines@.len() <= rows,
            forall|k: int|
                0 <= k < lines@.len() ==> (#[trigger] lines@[k])@ == screen::reshaped(
                    before,
                    cols as int,
                    rows as int,
                    cell,
                )[k],
        decreases rows - lines@.len(),
    {
        lines.push(Row::blank(cols, cell));
    }
    assert(lines_of(lines@) =~= screen::reshaped(before, cols as int, rows as int, cell));
}

/// A row's cells cut or padded to `len`.
fn fit(cells: &mut Vec<Cell>, len: usize, cell: Cell)
    ensures
        final(cells)@ == Seq::new(
            len as nat,
            |c: int|
                if c < old(cells)@.len() {
                    old(cells)@[c]
                } else {
                    cell
                },
        ),
{
    let ghost before = cells@;
    if cells.len() > len {
        cells.truncate(len);
    }
    while cells.len() < len
        invariant
            screen::lesser(before.len() as int, len as int) <= cells@.len() <= len,
            forall|c: int|
                0 <= c < cells@.len() ==> cells@[c] == if c < before.len() {
                    before[c]
                } else {
                    cell
                },
        decreases len - cells@.len(),
    {
        cells.push(cell);
    }
    assert(cells@ =~= Seq::new(
        len as nat,
        |c: int|
            if c < before.len() {
                before[c]
            } else {
                cell
            },
    ));
}

/// `n` fresh rows.
fn blank_rows(n: usize, cols: usize) -> (rows: Vec<Row>)
    ensures
        lines_of(rows@) == screen::blank_lines(n as int, cols as int, Cell::empty()),
{
    let mut rows: Vec<Row> = Vec::new();
    reshape(&mut rows, cols, n, Cell::empty());
    assert(lines_of(rows@) =~= screen::blank_lines(n as int, cols as int, Cell::empty()));
    rows
}

/// The main screen, put aside while the alternate screen is shown.
struct AltScreenSave {
    cells: Vec<Row>,
    cursor_row: usize,
    cursor_col: usize,
    fg: CellColor,
    bg: CellColor,
    bold: bool,
    reverse: bool,
    /// The main screen's saved cursor, held here so that the alternate screen
    /// has a slot of its own.
    main_saved: Option<SavedCursor>,
}

impl View for AltScreenSave {
    type V = AltScreen;

    closed spec fn view(&self) -> AltScreen {
        AltScreen {
            lines: lines_of(self.cells@),
            cursor_row: self.cursor_row as int,
            cursor_col: self.cursor_col as int,
            fg: self.fg,
            bg: self.bg,
            bold: self.bold,
            reverse: self.reverse,
            main_saved: self.main_saved,
        }
    }
}

/// Fixed-size character grid with a wrapping cursor and current attributes.
///
/// Its meaning is the [`Screen`] that `view` gives; `wf` is the invariant that
/// [`Grid::new`] establishes and every method keeps.
pub struct Grid {
    cols: usize,
    rows: usize,
    cells: Vec<Row>,
    cursor_row: usize,
    cursor_col: usize,
    current_fg: CellColor,
    current_bg: CellColor,
    bold: bool,
    reverse: bool,
    cursor_visible: bool,
    cursor_shape: CursorShape,
    saved: Option<SavedCursor>,
    /// When `Some`, the live screen is the alternate screen and the main screen
    /// waits here to be restored on exit.
    alt: Option<AltScreenSave>,
    scrollback: VecDeque<Row>,
    scrollback_max: usize,
    /// 0 = viewing the live screen. N>0 = scrolled up N lines into scrollback.
    view_offset: usize,
    /// DECSTBM scroll region, 0-based inclusive. Linefeed at the bottom margin
    /// scrolls only these rows. Scrollback is fed only when the region covers
    /// the entire screen.
    scroll_top: usize,
    scroll_bottom: usize,
    /// Which mouse-reporting mode is active (set by ?1000/1002/1003 h/l).
    pub mouse_mode: MouseMode,
    /// Whether the SGR mouse extension (?1006) is active.
    pub mouse_sgr: bool,
    /// DECCKM (?1). When set, the cursor keys transmit in *application* mode
    /// (`ESC O A` ...) instead of normal mode (`ESC [ A` ...).
    pub app_cursor_keys: bool,
    dirty: u64,
}

impl View for Grid {
    type V = Screen;

    closed spec fn view(&self) -> Screen {
        Screen {
            cols: self.cols as int,
            rows: self.rows as int,
            lines: lines_of(self.cells@),
            cursor_row: self.cursor_row as int,
            cursor_col: self.cursor_col as int,
            fg: self.current_fg,
            bg: self.current_bg,
            bold: self.bold,
            reverse: self.reverse,
            cursor_visible: self.cursor_visible,
            cursor_shape: self.cursor_shape,
            saved: self.saved,
            alt: match self.alt {
                Some(a) => Some(a@),
                None => None,
            },
            scrollback: lines_of(self.scrollback@),
            scrollback_max: self.scrollback_max as int,
            view_offset: self.view_offset as int,
            scroll_top: self.scroll_top as int,
            scroll_bottom: self.scroll_bottom as int,
            mouse_mode: self.mouse_mode,
            mouse_sgr: self.mouse_sgr,
            app_cursor_keys: self.app_cursor_keys,
            dirty: self.dirty,
        }
    }
}

impl Grid {
    /// The grid's invariant.
    pub open spec fn wf(&self) -> bool {
        self@.wf()
    }

    /// An empty grid. The bounds are those of memory: no vector is longer than
    /// `isize::MAX`.
    pub fn new(cols: usize, rows: usize) -> (grid: Grid)
        requires
            rows <= isize::MAX,
            rows > 0 ==> cols <= isize::MAX,
        ensures
            grid.wf(),
            grid@ == Screen::fresh(cols as int, rows as int),
    {
        let scrollback: VecDeque<Row> = VecDeque::new();
        let grid = Grid {
            cols,
            rows,
            cells: blank_rows(rows, cols),
            cursor_row: 0,
            cursor_col: 0,
            current_fg: CellColor::Default,
            current_bg: CellColor::Default,
            bold: false,
            reverse: false,
            cursor_visible: true,
            cursor_shape: CursorShape::Block,
            saved: None,
            alt: None,
            scrollback,
            scrollback_max: DEFAULT_SCROLLBACK_LINES,
            view_offset: 0,
            scroll_top: 0,
            scroll_bottom: rows.saturating_sub(1),
            mouse_mode: MouseMode::Off,
            mouse_sgr: false,
            app_cursor_keys: false,
            dirty: 1,
        };
        assert(grid@ =~~= Screen::fresh(cols as int, rows as int));
        grid
    }

    /// DECSTBM. 1-based row indices; 0 means "default" (top = 1, bottom = rows).
    /// Sequences that name a degenerate region (top >= bottom, out of bounds)
    /// are ignored. The cursor moves to home.
    pub fn set_scroll_region(&mut self, top_1based: usize, bottom_1based: usize)
        requires
            old(self).wf(),
        ensures
            final(self).wf(),
            final(self)@ == old(self)@.set_scroll_region(top_1based as int, bottom_1based as int),
    {
        let top: usize = if top_1based == 0 {
            0
        } else {
            top_1based - 1
        };
        let bottom: usize = if bottom_1based == 0 {
            self.rows.saturating_sub(1)
        } else {
            bottom_1based - 1
        };
        if bottom >= self.rows || top >= bottom {
            return ;
        }
        self.scroll_top = top;
        self.scroll_bottom = bottom;
        self.cursor_row = 0;
        self.cursor_col = 0;
        self.bump_dirty();
    }

    /// The scroll region's first and last row.
    pub fn scroll_region(&self) -> (region: (usize, usize))
        ensures
            region.0 == self@.scroll_top,
            region.1 == self@.scroll_bottom,
    {
        (self.scroll_top, self.scroll_bottom)
    }

    /// True when the scroll region covers every row: the only configuration
    /// under which lines scrolled off the top reach the user's history.
    fn region_is_full(&self) -> (full: bool)
        requires
            self.wf(),
        ensures
            full == self@.region_is_full(),
    {
        self.scroll_top == 0 && self.scroll_bottom + 1 == self.rows
    }

    /// Whether the app has the cursor shown (?25).
    pub fn cursor_visible(&self) -> (v: bool)
        ensures
            v == self@.cursor_visible,
    {
        self.cursor_visible
    }

    /// The cursor's shape.
    pub fn cursor_shape(&self) -> (shape: CursorShape)
        ensures
            shape == self@.cursor_shape,
    {
        self.cursor_shape
    }

    /// Set the cursor's shape.
    pub fn set_cursor_shape(&mut self, shape: CursorShape)
        requires
            old(self).wf(),
        ensures
            final(self).wf(),
            final(self)@ == (Screen { cursor_shape: shape, ..old(self)@ }),
    {
        self.cursor_shape = shape;
    }

    /// Show or hide the cursor.
    pub fn set_cursor_visible(&mut self, v: bool)
        requires
            old(self).wf(),
        ensures
            final(self).wf(),
            final(self)@ == old(self)@.set_cursor_visible(v),
    {
        if self.cursor_visible != v {
            self.cursor_visible = v;
            self.bump_dirty();
        }
    }

    /// Which mouse reporting is on.
    pub fn mouse_mode(&self) -> (mode: MouseMode)
        ensures
            mode == self@.mouse_mode,
    {
        self.mouse_mode
    }

    /// Whether mouse reports are in the SGR format.
    pub fn mouse_sgr(&self) -> (on: bool)
        ensures
            on == self@.mouse_sgr,
    {
        self.mouse_sgr
    }

    /// Set the mouse-reporting mode.
    pub fn set_mouse_mode(&mut self, mode: MouseMode)
        requires
            old(self).wf(),
        ensures
            final(self).wf(),
            final(self)@ == (Screen { mouse_mode: mode, ..old(self)@ }),
    {
        self.mouse_mode = mode;
    }

    /// Switch the SGR mouse encoding on or off.
    pub fn set_mouse_sgr(&mut self, on: bool)
        requires
            old(self).wf(),
        ensures
            final(self).wf(),
            final(self)@ == (Screen { mouse_sgr: on, ..old(self)@ }),
    {
        self.mouse_sgr = on;
    }

    /// Switch application cursor keys on or off.
    pub fn set_app_cursor_keys(&mut self, on: bool)
        requires
            old(self).wf(),
        ensures
            final(self).wf(),
            final(self)@ == (Screen { app_cursor_keys: on, ..old(self)@ }),
    {
        self.app_cursor_keys = on;
    }

    /// Whether the alternate screen is shown.
    pub fn is_alt_screen(&self) -> (alt: bool)
        ensures
            alt == (self@.alt is Some),
    {
        self.alt.is_some()
    }

    /// DECSC: remember the cursor and the drawing attributes.
    pub fn save_cursor(&mut self)
        requires
            old(self).wf(),
        ensures
            final(self).wf(),
            final(self)@ == old(self)@.save_cursor(),
    {
        self.saved = Some(
            SavedCursor {
                row: self.cursor_row,
                col: self.cursor_col,
                fg: self.current_fg,
                bg: self.current_bg,
                bold: self.bold,
                reverse: self.reverse,
            },
        );
    }

    /// DECRC: back to what [`Grid::save_cursor`] remembered, if anything.
    pub fn restore_cursor(&mut self)
        requires
            old(self).wf(),
        ensures
            final(self).wf(),
            final(self)@ == old(self)@.restore_cursor(),
    {
        if let Some(s) = self.saved {
            self.cursor_row = at_most(s.row, self.rows.saturating_sub(1));
            self.cursor_col = at_most(s.col, self.cols.saturating_sub(1));
            self.current_fg = s.fg;
            self.current_bg = s.bg;
            self.bold = s.bold;
            self.reverse = s.reverse;
            self.bump_dirty();
        }
    }

    /// Show a blank alternate screen and put the main screen aside. No effect
    /// when it is shown already.
    pub fn enter_alt_screen(&mut self)
        requires
            old(self).wf(),
        ensures
            final(self).wf(),
            final(self)@ == old(self)@.enter_alt_screen(),
    {
        if self.alt.is_some() {
            return ;
        }
        let mut cells = blank_rows(self.rows, self.cols);
        std::mem::swap(&mut self.cells, &mut cells);
        self.alt = Some(
            AltScreenSave {
                cells,
                cursor_row: self.cursor_row,
                cursor_col: self.cursor_col,
                fg: self.current_fg,
                bg: self.current_bg,
                bold: self.bold,
                reverse: self.reverse,
                main_saved: self.saved,
            },
        );
        self.saved = None;
        self.cursor_row = 0;
        self.cursor_col = 0;
        self.reset_attrs();
        self.scroll_top = 0;
        self.scroll_bottom = self.rows.saturating_sub(1);
        // The history belongs to the main screen: snap back to the live one.
        self.view_offset = 0;
        self.bump_dirty();
    }

    /// Back to the main screen as it was, with the cursor kept on it if the
    /// grid has shrunk meanwhile. No effect on the main screen.
    pub fn exit_alt_screen(&mut self)
        requires
            old(self).wf(),
        ensures
            final(self).wf(),
            final(self)@ == old(self)@.exit_alt_screen(),
    {
        if let Some(save) = self.alt.take() {
            self.cells = save.cells;
            self.cursor_row = at_most(save.cursor_row, self.rows.saturating_sub(1));
            self.cursor_col = at_most(save.cursor_col, self.cols.saturating_sub(1));
            self.current_fg = save.fg;
            self.current_bg = save.bg;
            self.bold = save.bold;
            self.reverse = save.reverse;
            self.saved = save.main_saved;
            self.scroll_top = 0;
            self.scroll_bottom = self.rows.saturating_sub(1);
            self.view_offset = 0;
            self.bump_dirty();
        }
    }

    /// Rows of history.
    pub fn scrollback_len(&self) -> (n: usize)
        ensures
            n == self@.scrollback.len(),
    {
        self.scrollback.len()
    }

    /// How many rows above the live screen the view is.
    pub fn view_offset(&self) -> (n: usize)
        ensures
            n == self@.view_offset,
    {
        self.view_offset
    }

    /// Set how many lines above the live bottom the user is viewing. Clamped.
    pub fn set_view_offset(&mut self, offset: usize)
        requires
            old(self).wf(),
        ensures
            final(self).wf(),
            final(self)@ == old(self)@.set_view_offset(offset as int),
    {
        let new_offset: usize = at_most(offset, self.scrollback.len());
        if new_offset != self.view_offset {
            self.view_offset = new_offset;
            self.bump_dirty();
        }
    }

    /// The most rows of history kept; 0 for no limit.
    pub fn scrollback_max(&self) -> (n: usize)
        ensures
            n == self@.scrollback_max,
    {
        self.scrollback_max
    }

    /// `n == 0` means "infinite": no trimming, lines accumulate. Any positive
    /// value is the upper bound, with the oldest lines dropped first.
    pub fn set_scrollback_max(&mut self, n: usize)
        requires
            old(self).wf(),
        ensures
            final(self).wf(),
            final(self)@ == old(self)@.set_scrollback_max(n as int),
    {
        self.scrollback_max = n;
        trim_history(&mut self.scrollback, n);
        self.view_offset = at_most(self.view_offset, self.scrollback.len());
        assert(self@ =~~= old(self)@.set_scrollback_max(n as int));
    }

    /// Total addressable logical rows: scrollback history plus the live screen.
    /// Logical row 0 is the oldest scrollback line; the last `rows` indices are
    /// the current screen, top to bottom. Unlike view rows, logical rows are
    /// stable under scrolling.
    pub fn logical_rows(&self) -> (n: usize)
        requires
            self.wf(),
            self@.scrollback.len() + self@.rows <= usize::MAX,
        ensures
            n == self@.all_lines().len(),
    {
        self.scrollback.len() + self.rows
    }

    /// Convert a view-relative row (0 = topmost visible) to its logical row.
    pub fn view_to_logical(&self, view_row: usize) -> (logical: usize)
        requires
            self.wf(),
            self@.view_to_logical(view_row as int) <= usize::MAX,
        ensures
            logical == self@.view_to_logical(view_row as int),
    {
        self.scrollback.len() - self.view_offset + view_row
    }

    /// Cell at an absolute logical row (see [`Grid::logical_rows`]).
    pub fn logical_cell(&self, logical: usize, col: usize) -> (cell: Cell)
        requires
            self.wf(),
        ensures
            cell == self@.logical_cell(logical as int, col as int),
    {
        let history: usize = self.scrollback.len();
        if logical < history {
            let row = &self.scrollback[logical];
            if col < row.cells.len() {
                row.cells[col]
            } else {
                Cell::empty()
            }
        } else if logical - history < self.rows && col < self.cols {
            self.cells[logical - history].cells[col]
        } else {
            Cell::empty()
        }
    }

    /// Whether an absolute logical row ends in a soft (auto) wrap, that is, its
    /// text continues on the next row.
    pub fn logical_row_wrapped(&self, logical: usize) -> (wrapped: bool)
        requires
            self.wf(),
        ensures
            wrapped == self@.logical_row_wrapped(logical as int),
    {
        let history: usize = self.scrollback.len();
        if logical < history {
            self.scrollback[logical].wrapped
        } else {
            logical - history < self.rows && self.cells[logical - history].wrapped
        }
    }

    /// Cell at view-relative position (0 = topmost visible row). When scrolled
    /// up, the top of the view shows old scrollback lines.
    pub fn visible_cell(&self, view_row: usize, col: usize) -> (cell: Cell)
        requires
            self.wf(),
        ensures
            cell == self@.visible_cell(view_row as int, col as int),
    {
        if view_row < self.view_offset {
            self.logical_cell(self.scrollback.len() - (self.view_offset - view_row), col)
        } else if view_row - self.view_offset < self.rows && col < self.cols {
            self.cells[view_row - self.view_offset].cells[col]
        } else {
            Cell::empty()
        }
    }

    /// Whether the view row at `view_row` ends in a soft (auto) wrap. Used to
    /// select or copy a whole logical line across its continuation rows.
    pub fn visible_row_wrapped(&self, view_row: usize) -> (wrapped: bool)
        requires
            self.wf(),
        ensures
            wrapped == self@.visible_row_wrapped(view_row as int),
    {
        if view_row < self.view_offset {
            self.logical_row_wrapped(self.scrollback.len() - (self.view_offset - view_row))
        } else {
            view_row - self.view_offset < self.rows && self.cells[view_row
                - self.view_offset].wrapped
        }
    }

    /// View-relative cursor position. `None` if scrolled out of view.
    pub fn visible_cursor(&self) -> (at: Option<(usize, usize)>)
        requires
            self.wf(),
        ensures
            match at {
                Some((row, col)) => self@.visible_cursor() == Some((row as int, col as int)),
                None => self@.visible_cursor() is None,
            },
    {
        if self.cursor_row < self.rows && self.view_offset < self.rows - self.cursor_row {
            Some((self.cursor_row + self.view_offset, self.cursor_col))
        } else {
            None
        }
    }

    /// Columns.
    pub fn cols(&self) -> (n: usize)
        ensures
            n == self@.cols,
    {
        self.cols
    }

    /// Rows on screen.
    pub fn rows(&self) -> (n: usize)
        ensures
            n == self@.rows,
    {
        self.rows
    }

    /// The cursor's row and column. The column is the width of the grid when
    /// the last column has just been written.
    pub fn cursor(&self) -> (at: (usize, usize))
        ensures
            at.0 == self@.cursor_row,
            at.1 == self@.cursor_col,
    {
        (self.cursor_row, self.cursor_col)
    }

    /// The cell at `row` and `col` of the live screen.
    pub fn cell(&self, row: usize, col: usize) -> (cell: Cell)
        requires
            self.wf(),
            row < self@.rows,
            col < self@.cols,
        ensures
            cell == self@.lines[row as int].cells[col as int],
    {
        self.cells[row].cells[col]
    }

    /// The cells of a row of the live screen.
    pub fn row(&self, row: usize) -> (cells: &[Cell])
        requires
            self.wf(),
            row < self@.rows,
        ensures
            cells@ == self@.lines[row as int].cells,
    {
        self.cells[row].cells.as_slice()
    }

    /// A counter that moves with every visible change.
    pub fn dirty_counter(&self) -> (d: u64)
        ensures
            d == self@.dirty,
    {
        self.dirty
    }

    /// The foreground that new text gets.
    pub fn current_fg(&self) -> (c: CellColor)
        ensures
            c == self@.fg,
    {
        self.current_fg
    }

    /// The background that new text gets.
    pub fn current_bg(&self) -> (c: CellColor)
        ensures
            c == self@.bg,
    {
        self.current_bg
    }

    /// Set the foreground.
    pub fn set_fg(&mut self, c: CellColor)
        requires
            old(self).wf(),
        ensures
            final(self).wf(),
            final(self)@ == (Screen { fg: c, ..old(self)@ }),
    {
        self.current_fg = c;
    }

    /// Set the background.
    pub fn set_bg(&mut self, c: CellColor)
        requires
            old(self).wf(),
        ensures
            final(self).wf(),
            final(self)@ == (Screen { bg: c, ..old(self)@ }),
    {
        self.current_bg = c;
    }

    /// Set the bold attribute.
    pub fn set_bold(&mut self, b: bool)
        requires
            old(self).wf(),
        ensures
            final(self).wf(),
            final(self)@ == (Screen { bold: b, ..old(self)@ }),
    {
        self.bold = b;
    }

    /// Set reverse video.
    pub fn set_reverse(&mut self, v: bool)
        requires
            old(self).wf(),
        ensures
            final(self).wf(),
            final(self)@ == (Screen { reverse: v, ..old(self)@ }),
    {
        self.reverse = v;
    }

    /// Back to the default attributes.
    pub fn reset_attrs(&mut self)
        ensures
            old(self).wf() ==> final(self).wf(),
            final(self)@ == old(self)@.reset_attrs(),
    {
        self.current_fg = CellColor::Default;
        self.current_bg = CellColor::Default;
        self.bold = false;
        self.reverse = false;
    }

    /// Change the size. The main screen is rewrapped: text that ran off the
    /// right edge is rejoined and split at the new width, and the view snaps to
    /// the live screen. The alternate screen is cut or padded, since the app
    /// that shows it repaints it; the history is left alone meanwhile.
    pub fn resize(&mut self, cols: usize, rows: usize)
        requires
            old(self).wf(),
            cols <= isize::MAX,
            rows <= isize::MAX,
        ensures
            final(self).wf(),
            final(self)@ == old(self)@.resize(cols as int, rows as int),
    {
        if cols == self.cols && rows == self.rows {
            return ;
        }
        if cols == 0 || rows == 0 {
            return ;
        }
        if self.alt.is_some() {
            self.resize_simple(cols, rows);
            return ;
        }
        self.reflow(cols, rows);
    }

    /// Cut or pad every row to the new size without rejoining wrapped lines.
    fn resize_simple(&mut self, cols: usize, rows: usize)
        requires
            old(self).wf(),
            0 < cols <= isize::MAX,
            0 < rows <= isize::MAX,
        ensures
            final(self).wf(),
            final(self)@ == old(self)@.resize_simple(cols as int, rows as int),
    {
        let blank = self.blank_cell();
        reshape(&mut self.cells, cols, rows, blank);
        if let Some(mut alt) = self.alt.take() {
            reshape(&mut alt.cells, cols, rows, Cell::empty());
            self.alt = Some(alt);
        }
        self.cols = cols;
        self.rows = rows;
        self.cursor_row = at_most(self.cursor_row, rows - 1);
        self.cursor_col = at_most(self.cursor_col, cols - 1);
        self.scroll_top = 0;
        self.scroll_bottom = rows - 1;
        self.bump_dirty();
        assert(self@ =~~= old(self)@.resize_simple(cols as int, rows as int));
    }

    /// The text as paragraphs, the cursor's own padded up to the cursor. With
    /// them comes the number of the cursor's paragraph, and how much of it
    /// stands on the rows above the cursor's.
    fn paragraphs(&self) -> (found: (Vec<Vec<Cell>>, usize, usize))
        requires
            self.wf(),
        ensures
            reflow::cells_of(found.0@) == self@.padded_paragraphs(),
            self@.rows > 0 ==> self@.cursor_place() == (
                found.1 as int,
                found.2 + self@.cursor_col,
            ),
    {
        let ghost s = self@;
        // Rows below the cursor and the last row with text are padding. Kept,
        // they would pin the prompt to the top after a grow.
        let used: usize = count_used(&self.cells);
        let down_to_cursor: usize = at_most(self.cursor_row + 1, self.cells.len());
        let content_rows: usize = if used > down_to_cursor {
            used
        } else {
            down_to_cursor
        };
        assert(content_rows == s.content_rows());

        let mut joiner = Joiner::new();
        let mut r: usize = 0;
        assert(s.content().take(0) =~= Seq::<Line>::empty());
        while r < self.scrollback.len()
            invariant
                s == self@,
                s.wf(),
                r <= self.scrollback@.len(),
                joiner@ == reflow::join(s.content().take(r as int)),
            decreases self.scrollback@.len() - r,
        {
            joiner.add(&self.scrollback[r], Ghost(s.content().take(r as int)));
            assert(s.content().take(r as int).push(self.scrollback@[r as int]@)
                =~= s.content().take(r + 1));
            r = r + 1;
        }
        let ghost history = s.scrollback.len();
        let mut cursor_paragraph: usize = 0;
        let mut cursor_before: usize = 0;
        r = 0;
        while r < content_rows
            invariant
                s == self@,
                s.wf(),
                history == s.scrollback.len(),
                r <= content_rows <= self.cells@.len(),
                content_rows == s.content_rows(),
                joiner@ == reflow::join(s.content().take(history + r)),
                s.cursor_row < r ==> {
                    let before = reflow::join(s.all_lines().take(history + s.cursor_row));
                    cursor_paragraph == before.done.len() && cursor_before == before.open.len()
                },
            decreases content_rows - r,
        {
            if r == self.cursor_row {
                cursor_paragraph = joiner.done.len();
                cursor_before = joiner.open.len();
                assert(s.content().take(history + r) =~= s.all_lines().take(history + r));
            }
            joiner.add(&self.cells[r], Ghost(s.content().take(history + r)));
            assert(s.content().take(history + r).push(self.cells@[r as int]@) =~= s.content().take(
                history + r + 1,
            ));
            r = r + 1;
        }
        assert(s.content().take(history + r) =~= s.content());
        let cursor_known = self.cells.len() > 0;
        let Joiner { done: mut paragraphs, open } = joiner;
        // The last row may be soft-wrapped, with nothing to end its paragraph.
        if open.len() > 0 || (cursor_known && cursor_paragraph == paragraphs.len()) {
            paragraphs.push(open);
        }
        proof {
            assert(reflow::cells_of(paragraphs@) =~= s.paragraphs());
        }
        if cursor_known {
            let ghost unpadded = paragraphs@;
            proof {
                reflow::lemma_cursor_paragraph(s);
                assert(s.paragraphs()[cursor_paragraph as int]
                    == unpadded[cursor_paragraph as int]@);
            }
            pad_paragraph(&mut paragraphs[cursor_paragraph], cursor_before, self.cursor_col);
            assert(reflow::cells_of(paragraphs@) =~= s.padded_paragraphs());
        }
        (paragraphs, cursor_paragraph, cursor_before)
    }

    /// The text as rows of `cols` columns, and the cursor's row and column
    /// among them.
    fn rewrap(&self, cols: usize) -> (found: (VecDeque<Row>, usize, usize))
        requires
            self.wf(),
            0 < cols <= isize::MAX,
        ensures
            lines_of(found.0@) == self@.rewrapped(cols as int),
            (found.1 as int, found.2 as int) == self@.rewrapped_cursor(cols as int),
    {
        let ghost s = self@;
        let (paragraphs, cursor_paragraph, cursor_before) = self.paragraphs();
        let ghost all = s.padded_paragraphs();
        let cursor_known = self.cells.len() > 0;
        let mut out: VecDeque<Row> = VecDeque::new();
        let mut cursor_row: usize = 0;
        let mut cursor_col: usize = 0;
        let mut p: usize = 0;
        proof {
            if s.rows > 0 {
                reflow::lemma_cursor_paragraph(s);
            }
            assert(all.take(0) =~= Seq::<Seq<Cell>>::empty());
            assert(lines_of(out@) =~= Seq::<Line>::empty());
        }
        while p < paragraphs.len()
            invariant
                s == self@,
                s.wf(),
                0 < cols <= isize::MAX,
                p <= paragraphs@.len(),
                all == s.padded_paragraphs(),
                reflow::cells_of(paragraphs@) == all,
                lines_of(out@) == reflow::wrap(all.take(p as int), cols as int),
                cursor_known == (s.rows > 0),
                cursor_known ==> cursor_paragraph < all.len() && s.cursor_place() == (
                    cursor_paragraph as int,
                    cursor_before + s.cursor_col,
                ) && all[cursor_paragraph as int].len() > cursor_before + s.cursor_col,
                cursor_known && cursor_paragraph < p ==> (cursor_row as int, cursor_col as int)
                    == s.rewrapped_cursor(cols as int),
            decreases paragraphs@.len() - p,
        {
            let first: usize = out.len();
            assert(all[p as int] == paragraphs@[p as int]@);
            assert(out@.len() == lines_of(out@).len());
            split_into(&mut out, &paragraphs[p], cols);
            assert(all.take(p + 1).drop_last() =~= all.take(p as int));
            if cursor_known && p == cursor_paragraph {
                assert(cursor_before + self.cursor_col < paragraphs[p as int].len());
                let offset: usize = cursor_before + self.cursor_col;
                proof {
                    assert(first + reflow::row_count(
                        all[p as int].len() as int,
                        cols as int,
                    ) == lines_of(out@).len() == out.len());
                    reflow::lemma_row_of_offset(
                        all[p as int].len() as int,
                        cols as int,
                        offset as int,
                    );
                }
                cursor_row = first + offset / cols;
                cursor_col = offset % cols;
            }
            p = p + 1;
        }
        assert(all.take(p as int) =~= all);
        if out.len() == 0 {
            out.push_back(Row::blank(cols, Cell::empty()));
            assert(lines_of(out@) =~= s.rewrapped(cols as int));
        }
        assert(lines_of(out@) == s.rewrapped(cols as int));
        if !cursor_known {
            cursor_row = out.len() - 1;
            cursor_col = 0;
        }
        (out, cursor_row, cursor_col)
    }

    /// Rejoin soft-wrapped runs into paragraphs, then split them at the new
    /// number of columns.
    fn reflow(&mut self, cols: usize, rows: usize)
        requires
            old(self).wf(),
            old(self)@.alt is None,
            0 < cols <= isize::MAX,
            0 < rows <= isize::MAX,
        ensures
            final(self).wf(),
            final(self)@ == old(self)@.reflow(cols as int, rows as int),
    {
        let ghost s = self@;
        let (mut out, cursor_row, cursor_col) = self.rewrap(cols);
        // The bottom rows are the screen, everything above is history.
        let total: usize = out.len();
        let start: usize = total.saturating_sub(rows);
        let mut cells = into_rows(out.split_off(start));
        assert(lines_of(cells@) =~= s.rewrapped(cols as int).skip(start as int));
        assert(lines_of(out@) =~= s.rewrapped(cols as int).take(start as int));
        pad(&mut cells, cols, rows);
        trim_history(&mut out, self.scrollback_max);
        self.cells = cells;
        self.scrollback = out;
        self.cols = cols;
        self.rows = rows;
        self.cursor_row = at_most(cursor_row.saturating_sub(start), rows - 1);
        self.cursor_col = cursor_col;
        self.scroll_top = 0;
        self.scroll_bottom = rows - 1;
        self.view_offset = 0;
        self.saved = None;
        self.bump_dirty();
        proof {
            assert(self@ =~~= s.reflow(cols as int, rows as int));
            reflow::lemma_wrap_wide(s.padded_paragraphs(), cols as int);
            assert(screen::all_wide(s.rewrapped(cols as int), cols as int));
            assert(screen::all_wide(self@.lines, cols as int));
        }
    }

    /// Place a printable char at the cursor and advance. A char that arrives
    /// when the row is full goes to the next one, and the full row is marked as
    /// running on into it.
    pub fn put_char(&mut self, ch: char)
        requires
            old(self).wf(),
            old(self)@.rows > 0,
            old(self)@.cols > 0,
        ensures
            final(self).wf(),
            final(self)@ == old(self)@.put_char(ch),
    {
        if self.cursor_col >= self.cols {
            let row: usize = self.cursor_row;
            self.cells[row].wrapped = true;
            assert(self@ =~~= old(self)@.soft_wrapped());
            self.linefeed();
            self.cursor_col = 0;
        }
        let ghost at = self@;
        let cell = self.styled(ch);
        let row: usize = self.cursor_row;
        let col: usize = self.cursor_col;
        self.cells[row].cells[col] = cell;
        self.cursor_col = col + 1;
        assert(self@ =~~= at.written(ch));
        self.bump_dirty();
    }

    /// Back to column 0.
    pub fn carriage_return(&mut self)
        requires
            old(self).wf(),
        ensures
            final(self).wf(),
            final(self)@ == old(self)@.carriage_return(),
    {
        self.cursor_col = 0;
        self.bump_dirty();
    }

    /// Down one row; at the bottom margin the scroll region moves up instead.
    pub fn linefeed(&mut self)
        requires
            old(self).wf(),
            old(self)@.rows > 0,
        ensures
            final(self).wf(),
            final(self)@ == old(self)@.linefeed(),
    {
        if self.cursor_row == self.scroll_bottom {
            self.shift_region_up(1);
        } else if self.cursor_row + 1 < self.rows {
            self.cursor_row = self.cursor_row + 1;
        }
        self.bump_dirty();
    }

    /// A row that left the top of the screen joins the history. The alternate
    /// screen's rows are transient and do not.
    fn push_scrollback(&mut self, line: Row)
        requires
            old(self)@.view_offset <= old(self)@.scrollback.len(),
            old(self)@.scrollback_max == 0 || old(self)@.scrollback.len() <= old(
                self,
            )@.scrollback_max,
        ensures
            final(self)@ == old(self)@.remembered(seq![line@]),
            final(self)@.scrollback.len() <= usize::MAX || old(self)@.alt is Some,
    {
        if self.alt.is_some() {
            return ;
        }
        self.scrollback.push_back(line);
        proof {
            assert(lines_of(self.scrollback@) =~= old(self)@.scrollback + seq![line@]);
        }
        // A view that is scrolled up stays anchored to the same rows.
        if self.view_offset > 0 {
            let held: usize = self.scrollback.len();
            self.view_offset = at_most(self.view_offset + 1, held);
        }
        trim_history(&mut self.scrollback, self.scrollback_max);
        self.view_offset = at_most(self.view_offset, self.scrollback.len());
        assert(self@ =~~= old(self)@.remembered(seq![line@]));
    }

    /// The scroll region moved up by `n` rows, a row at a time.
    fn shift_region_up(&mut self, n: usize)
        requires
            old(self).wf(),
            n <= old(self)@.scroll_bottom - old(self)@.scroll_top + 1,
            old(self)@.rows > 0 || n == 0,
        ensures
            final(self).wf(),
            final(self)@ == old(self)@.scrolled_up(n as int),
    {
        let blank = self.blank_cell();
        let full = self.region_is_full();
        let top: usize = self.scroll_top;
        let bottom: usize = self.scroll_bottom;
        let mut k: usize = 0;
        assert(self@ =~~= old(self)@.scrolled_up(0)) by {
            assert(self@.lines.subrange(top as int, top as int) =~= Seq::<Line>::empty());
            assert(self@.scrollback + Seq::<Line>::empty() =~= self@.scrollback);
        }
        while k < n
            invariant
                k <= n,
                n <= bottom - top + 1,
                old(self).wf(),
                old(self)@.rows > 0 || n == 0,
                self.wf(),
                self@ == old(self)@.scrolled_up(k as int),
                top == old(self)@.scroll_top,
                bottom == old(self)@.scroll_bottom,
                blank == old(self)@.blank(),
                full == old(self)@.region_is_full(),
            decreases n - k,
        {
            let ghost was = self@;
            let displaced = self.cells.remove(top);
            let ghost out = displaced@;
            assert(out == was.lines[top as int]);
            assert(lines_of(self.cells@) =~= was.lines.remove(top as int));
            if full {
                self.push_scrollback(displaced);
            }
            self.cells.insert(bottom, Row::blank(self.cols, blank));
            proof {
                lemma_scrolled_once_more(old(self)@, k as int);
                let fresh = screen::blank_line(old(self)@.cols, blank);
                assert(lines_of(self.cells@) =~= was.lines.remove(top as int).insert(
                    bottom as int,
                    fresh,
                ));
                assert(self@ =~~= old(self)@.scrolled_up(k + 1));
                assert(screen::all_wide(self@.lines, self@.cols));
            }
            k = k + 1;
        }
    }

    /// One column back, if there is one.
    pub fn backspace(&mut self)
        requires
            old(self).wf(),
        ensures
            final(self).wf(),
            final(self)@ == old(self)@.backspace(),
    {
        if self.cursor_col > 0 {
            self.cursor_col = self.cursor_col - 1;
            self.bump_dirty();
        }
    }

    /// On to the next tab stop.
    pub fn tab(&mut self)
        requires
            old(self).wf(),
            (old(self)@.cursor_col / 8 + 1) * 8 <= usize::MAX,
        ensures
            final(self).wf(),
            final(self)@ == old(self)@.tab(),
    {
        let next: usize = ((self.cursor_col / 8) + 1) * 8;
        self.cursor_col = at_most(next, self.cols.saturating_sub(1));
        self.bump_dirty();
    }

    /// CUU.
    pub fn cursor_up(&mut self, n: usize)
        requires
            old(self).wf(),
        ensures
            final(self).wf(),
            final(self)@ == old(self)@.cursor_up(n as int),
    {
        self.cursor_row = self.cursor_row.saturating_sub(n);
        self.bump_dirty();
    }

    /// CUD.
    pub fn cursor_down(&mut self, n: usize)
        requires
            old(self).wf(),
            old(self)@.cursor_row + n <= usize::MAX,
        ensures
            final(self).wf(),
            final(self)@ == old(self)@.cursor_down(n as int),
    {
        self.cursor_row = at_most(self.cursor_row + n, self.rows.saturating_sub(1));
        self.bump_dirty();
    }

    /// CUF.
    pub fn cursor_forward(&mut self, n: usize)
        requires
            old(self).wf(),
            old(self)@.cursor_col + n <= usize::MAX,
        ensures
            final(self).wf(),
            final(self)@ == old(self)@.cursor_forward(n as int),
    {
        self.cursor_col = at_most(self.cursor_col + n, self.cols.saturating_sub(1));
        self.bump_dirty();
    }

    /// CUB.
    pub fn cursor_back(&mut self, n: usize)
        requires
            old(self).wf(),
        ensures
            final(self).wf(),
            final(self)@ == old(self)@.cursor_back(n as int),
    {
        self.cursor_col = self.cursor_col.saturating_sub(n);
        self.bump_dirty();
    }

    /// CHA: 1-based column.
    pub fn cursor_to_column(&mut self, col_1based: usize)
        requires
            old(self).wf(),
        ensures
            final(self).wf(),
            final(self)@ == old(self)@.cursor_to_col(col_1based - 1),
    {
        self.cursor_col = at_most(col_1based.saturating_sub(1), self.cols.saturating_sub(1));
        self.bump_dirty();
    }

    /// VPA: 1-based row.
    pub fn cursor_to_row(&mut self, row_1based: usize)
        requires
            old(self).wf(),
        ensures
            final(self).wf(),
            final(self)@ == old(self)@.cursor_to_row(row_1based - 1),
    {
        self.cursor_row = at_most(row_1based.saturating_sub(1), self.rows.saturating_sub(1));
        self.bump_dirty();
    }

    /// CUP: 1-based row and column.
    pub fn set_cursor(&mut self, row_1based: usize, col_1based: usize)
        requires
            old(self).wf(),
        ensures
            final(self).wf(),
            final(self)@ == old(self)@.moved(row_1based - 1, col_1based - 1),
    {
        self.cursor_row = at_most(row_1based.saturating_sub(1), self.rows.saturating_sub(1));
        self.cursor_col = at_most(col_1based.saturating_sub(1), self.cols.saturating_sub(1));
        self.bump_dirty();
    }

    /// Overwrite columns `lo..hi` of the cursor's row with blanks.
    fn erase_span(&mut self, lo: usize, hi: usize)
        requires
            old(self).wf(),
            hi <= old(self)@.cols,
            old(self)@.rows > 0 || hi <= lo,
        ensures
            final(self).wf(),
            final(self)@ == old(self)@.erased(lo as int, hi as int),
    {
        let blank = self.blank_cell();
        let row: usize = self.cursor_row;
        if lo < hi {
            self.cells[row].fill(lo, hi, blank);
        }
        proof {
            let line = old(self)@.lines[row as int];
            if lo >= hi {
                assert(screen::filled(line, lo as int, hi as int, blank) =~= line);
            }
            assert(self@ =~~= old(self)@.erased(lo as int, hi as int));
        }
    }

    /// EL: erase to the end of the row (0), to its start (1) or all of it (2).
    pub fn erase_in_line(&mut self, mode: u16)
        requires
            old(self).wf(),
            old(self)@.rows > 0 || old(self)@.cols == 0 || mode > 2 || (mode == 0 && old(
                self,
            )@.cursor_col == old(self)@.cols),
        ensures
            final(self).wf(),
            final(self)@ == old(self)@.erase_in_line(mode as int),
    {
        match mode {
            0 => {
                self.erase_span(self.cursor_col, self.cols);
            },
            1 => {
                let end: usize = if self.cursor_col < self.cols {
                    self.cursor_col + 1
                } else {
                    self.cols
                };
                self.erase_span(0, end);
                proof {
                    lemma_fill_past_end(old(self)@, 0, old(self)@.cursor_col + 1);
                }
            },
            2 => {
                self.erase_span(0, self.cols);
            },
            _ => {},
        }
        self.bump_dirty();
    }

    /// Overwrite rows `lo..hi` with blanks.
    fn erase_rows(&mut self, lo: usize, hi: usize)
        requires
            old(self).wf(),
            hi <= old(self)@.rows,
        ensures
            final(self).wf(),
            final(self)@ == old(self)@.rows_erased(lo as int, hi as int),
    {
        let blank = self.blank_cell();
        let mut r: usize = lo;
        assert(self@ =~~= old(self)@.rows_erased(lo as int, lo as int));
        while r < hi
            invariant
                lo <= r,
                r <= hi || hi <= lo,
                hi <= lo ==> r == lo,
                hi <= old(self)@.rows,
                old(self).wf(),
                self.wf(),
                blank == old(self)@.blank(),
                self@ == old(self)@.rows_erased(lo as int, r as int),
            decreases hi - r,
        {
            assert(self@.lines[r as int].cells.len() == self.cols);
            let ghost was = self@.lines;
            self.cells[r].fill(0, self.cols, blank);
            assert(self@.lines =~= was.update(
                r as int,
                screen::filled(was[r as int], 0, old(self)@.cols, blank),
            ));
            assert(was[r as int] == old(self)@.lines[r as int]);
            assert(self@ =~~= old(self)@.rows_erased(lo as int, r + 1));
            r = r + 1;
        }
        assert(self@ =~~= old(self)@.rows_erased(lo as int, hi as int));
    }

    /// ED: erase to the end of the screen (0), to its start (1) or all of it
    /// (2 and 3).
    pub fn erase_in_display(&mut self, mode: u16)
        requires
            old(self).wf(),
            old(self)@.rows > 0 || old(self)@.cols == 0 || mode >= 2 || (mode == 0 && old(
                self,
            )@.cursor_col == old(self)@.cols),
        ensures
            final(self).wf(),
            final(self)@ == old(self)@.erase_in_display(mode as int),
    {
        match mode {
            0 => {
                self.erase_in_line(0);
                self.erase_rows(self.cursor_row + 1, self.rows);
            },
            1 => {
                self.erase_rows(0, self.cursor_row);
                self.erase_in_line(1);
            },
            2 | 3 => {
                self.erase_rows(0, self.rows);
            },
            _ => {},
        }
        self.bump_dirty();
    }

    /// DCH: remove `n` cells at the cursor; blanks come in from the right.
    pub fn delete_chars(&mut self, n: usize)
        requires
            old(self).wf(),
            old(self)@.rows > 0 || old(self)@.cursor_col == old(self)@.cols,
        ensures
            final(self).wf(),
            final(self)@ == old(self)@.delete_chars(n as int),
    {
        let row: usize = self.cursor_row;
        let start: usize = self.cursor_col;
        if start >= self.cols {
            return ;
        }
        let blank = self.blank_cell();
        assert(self@.lines[row as int].cells.len() == self.cols);
        self.cells[row].delete(start, at_most(n, self.cols - start), blank);
        self.bump_dirty();
        assert(self@.lines[row as int].cells =~= old(self)@.delete_chars(
            n as int,
        ).lines[row as int].cells);
        assert(self@ =~~= old(self)@.delete_chars(n as int));
    }

    /// ICH: make room for `n` blank cells at the cursor; cells pushed past the
    /// right edge are gone.
    pub fn insert_chars(&mut self, n: usize)
        requires
            old(self).wf(),
            old(self)@.rows > 0 || old(self)@.cursor_col == old(self)@.cols,
        ensures
            final(self).wf(),
            final(self)@ == old(self)@.insert_chars(n as int),
    {
        let row: usize = self.cursor_row;
        let start: usize = self.cursor_col;
        if start >= self.cols {
            return ;
        }
        let blank = self.blank_cell();
        assert(self@.lines[row as int].cells.len() == self.cols);
        self.cells[row].insert(start, at_most(n, self.cols - start), blank);
        self.bump_dirty();
        assert(self@.lines[row as int].cells =~= old(self)@.insert_chars(
            n as int,
        ).lines[row as int].cells);
        assert(self@ =~~= old(self)@.insert_chars(n as int));
    }

    /// ECH: blank out `n` cells at the cursor.
    pub fn erase_chars(&mut self, n: usize)
        requires
            old(self).wf(),
            old(self)@.cursor_col + n <= usize::MAX,
            old(self)@.rows > 0 || n == 0 || old(self)@.cursor_col == old(self)@.cols,
        ensures
            final(self).wf(),
            final(self)@ == old(self)@.erase_chars(n as int),
    {
        let start: usize = self.cursor_col;
        let end: usize = at_most(start + n, self.cols);
        self.erase_span(start, end);
        proof {
            lemma_fill_past_end(old(self)@, start as int, start + n);
        }
        self.bump_dirty();
    }

    /// SU: the scroll region moves up by `n` rows.
    pub fn scroll_up(&mut self, n: usize)
        requires
            old(self).wf(),
            old(self)@.rows > 0 || n == 0,
        ensures
            final(self).wf(),
            final(self)@ == old(self)@.scroll_up(n as int),
    {
        let n: usize = at_most(n, self.scroll_bottom - self.scroll_top + 1);
        self.shift_region_up(n);
        self.bump_dirty();
    }

    /// Rows `top..=bottom` moved down by `n`, a row at a time.
    fn shift_down(&mut self, top: usize, bottom: usize, n: usize)
        requires
            old(self).wf(),
            top <= bottom,
            n <= bottom - top + 1,
            bottom < old(self)@.rows || n == 0,
        ensures
            final(self).wf(),
            final(self)@ == (Screen {
                lines: screen::shifted_down(
                    old(self)@.lines,
                    top as int,
                    bottom as int,
                    n as int,
                    screen::blank_line(old(self)@.cols, old(self)@.blank()),
                ),
                ..old(self)@
            }),
    {
        let blank = self.blank_cell();
        let ghost fresh = screen::blank_line(old(self)@.cols, blank);
        let ghost lines = self@.lines;
        let mut k: usize = 0;
        assert(self@.lines =~= screen::shifted_down(lines, top as int, bottom as int, 0, fresh));
        while k < n
            invariant
                k <= n,
                top <= bottom,
                n <= bottom - top + 1,
                bottom < old(self)@.rows || n == 0,
                old(self).wf(),
                self.wf(),
                lines == old(self)@.lines,
                blank == old(self)@.blank(),
                fresh == screen::blank_line(old(self)@.cols, blank),
                self@ == (Screen {
                    lines: screen::shifted_down(lines, top as int, bottom as int, k as int, fresh),
                    ..old(self)@
                }),
            decreases n - k,
        {
            let ghost was = self@.lines;
            let _ = self.cells.remove(bottom);
            self.cells.insert(top, Row::blank(self.cols, blank));
            proof {
                assert(self@.lines =~= was.remove(bottom as int).insert(top as int, fresh));
                assert(self@.lines =~= screen::shifted_down(
                    lines,
                    top as int,
                    bottom as int,
                    k + 1,
                    fresh,
                ));
            }
            k = k + 1;
        }
    }

    /// SD: the scroll region moves down by `n` rows.
    pub fn scroll_down(&mut self, n: usize)
        requires
            old(self).wf(),
            old(self)@.rows > 0 || n == 0,
        ensures
            final(self).wf(),
            final(self)@ == old(self)@.scroll_down(n as int),
    {
        let n: usize = at_most(n, self.scroll_bottom - self.scroll_top + 1);
        self.shift_down(self.scroll_top, self.scroll_bottom, n);
        self.bump_dirty();
    }

    /// IL: insert `n` blank lines at the cursor row, shifting rows below
    /// downward within the current scroll region. Rows pushed past the bottom
    /// margin are discarded. No-op when the cursor is outside the region.
    pub fn insert_lines(&mut self, n: usize)
        requires
            old(self).wf(),
            old(self)@.rows > 0 || n == 0,
        ensures
            final(self).wf(),
            final(self)@ == old(self)@.insert_lines(n as int),
    {
        let row: usize = self.cursor_row;
        if row < self.scroll_top || row > self.scroll_bottom {
            return ;
        }
        let n: usize = at_most(n, self.scroll_bottom - row + 1);
        self.shift_down(row, self.scroll_bottom, n);
        self.bump_dirty();
    }

    /// DL: delete `n` lines starting at the cursor row, pulling rows below
    /// upward within the current scroll region; blanks fill in at the bottom
    /// margin. No-op when the cursor is outside the region.
    pub fn delete_lines(&mut self, n: usize)
        requires
            old(self).wf(),
            old(self)@.rows > 0 || n == 0,
        ensures
            final(self).wf(),
            final(self)@ == old(self)@.delete_lines(n as int),
    {
        let row: usize = self.cursor_row;
        let bottom: usize = self.scroll_bottom;
        if row < self.scroll_top || row > bottom {
            return ;
        }
        let n: usize = at_most(n, bottom - row + 1);
        let blank = self.blank_cell();
        let ghost fresh = screen::blank_line(old(self)@.cols, blank);
        let ghost lines = self@.lines;
        let mut k: usize = 0;
        assert(self@.lines =~= screen::shifted_up(lines, row as int, bottom as int, 0, fresh));
        while k < n
            invariant
                k <= n,
                row <= bottom,
                n <= bottom - row + 1,
                bottom < old(self)@.rows || n == 0,
                old(self).wf(),
                self.wf(),
                lines == old(self)@.lines,
                blank == old(self)@.blank(),
                fresh == screen::blank_line(old(self)@.cols, blank),
                self@ == (Screen {
                    lines: screen::shifted_up(lines, row as int, bottom as int, k as int, fresh),
                    ..old(self)@
                }),
            decreases n - k,
        {
            let ghost was = self@.lines;
            let _ = self.cells.remove(row);
            self.cells.insert(bottom, Row::blank(self.cols, blank));
            proof {
                assert(self@.lines =~= was.remove(row as int).insert(bottom as int, fresh));
                assert(self@.lines =~= screen::shifted_up(
                    lines,
                    row as int,
                    bottom as int,
                    k + 1,
                    fresh,
                ));
            }
            k = k + 1;
        }
        self.bump_dirty();
    }

    /// `ch` in the current colors, swapped in reverse video.
    fn styled(&self, ch: char) -> (cell: Cell)
        ensures
            cell == self@.styled(ch),
    {
        if self.reverse {
            Cell { ch, fg: self.current_bg, bg: self.current_fg }
        } else {
            Cell { ch, fg: self.current_fg, bg: self.current_bg }
        }
    }

    /// What erasing leaves behind.
    fn blank_cell(&self) -> (cell: Cell)
        ensures
            cell == self@.blank(),
    {
        self.styled(' ')
    }

    fn bump_dirty(&mut self)
        ensures
            final(self)@ == old(self)@.touched(),
    {
        self.dirty = self.dirty.wrapping_add(1);
    }
}

/// The smaller of two numbers.
fn at_most(a: usize, b: usize) -> (m: usize)
    ensures
        m == screen::lesser(a as int, b as int),
{
    if a <= b {
        a
    } else {
        b
    }
}

/// The rows in a vector, in the same order.
fn into_rows(rows: VecDeque<Row>) -> (v: Vec<Row>)
    ensures
        v@ == rows@,
{
    let mut left = rows;
    let mut v: Vec<Row> = Vec::new();
    assert(v@ + left@ =~= rows@);
    while left.len() > 0
        invariant
            v@ + left@ == rows@,
        decreases left@.len(),
    {
        if let Some(row) = left.pop_front() {
            v.push(row);
            assert(v@ + left@ =~= rows@);
        }
    }
    assert(v@ =~= rows@);
    v
}

/// Empty rows appended until there are `n`.
fn pad(rows: &mut Vec<Row>, cols: usize, n: usize)
    requires
        old(rows)@.len() <= n,
    ensures
        lines_of(final(rows)@) == lines_of(old(rows)@) + screen::blank_lines(
            n - old(rows)@.len(),
            cols as int,
            Cell::empty(),
        ),
{
    let ghost before = lines_of(rows@);
    while rows.len() < n
        invariant
            before.len() <= rows@.len() <= n,
            lines_of(rows@) == before + screen::blank_lines(
                rows@.len() - before.len(),
                cols as int,
                Cell::empty(),
            ),
        decreases n - rows@.len(),
    {
        let ghost was = lines_of(rows@);
        let row = Row::blank(cols, Cell::empty());
        let ghost line = row@;
        rows.push(row);
        assert(lines_of(rows@) =~= was.push(line));
        assert(was.push(line) =~= before + screen::blank_lines(
            rows@.len() - before.len(),
            cols as int,
            Cell::empty(),
        ));
    }
}

/// Drop the oldest rows beyond `max`; 0 is no limit.
fn trim_history(history: &mut VecDeque<Row>, max: usize)
    ensures
        lines_of(final(history)@) == screen::trimmed(lines_of(old(history)@), max as int),
{
    let ghost before = history@;
    if max != 0 {
        assert(history@ =~= before.skip(0));
        while history.len() > max
            invariant
                max > 0,
                history@.len() <= before.len(),
                history@.len() >= screen::lesser(max as int, before.len() as int),
                history@ == before.skip(before.len() - history@.len()),
            decreases history@.len(),
        {
            let _ = history.pop_front();
            assert(history@ =~= before.skip(before.len() - history@.len()));
        }
    }
    assert(lines_of(history@) =~= screen::trimmed(lines_of(before), max as int));
}

/// Erasing past the right edge is erasing up to it.
proof fn lemma_fill_past_end(s: Screen, lo: int, hi: int)
    requires
        s.wf(),
    ensures
        s.erased(lo, screen::lesser(hi, s.cols)) == s.erased(lo, hi),
{
    let line = s.lines[s.cursor_row];
    if s.rows > 0 {
        assert(screen::filled(line, lo, screen::lesser(hi, s.cols), s.blank()) =~= screen::filled(
            line,
            lo,
            hi,
            s.blank(),
        ));
    }
}

/// Scrolling by `k + 1` is scrolling by `k` and then by one more row.
proof fn lemma_scrolled_once_more(s: Screen, k: int)
    requires
        s.wf(),
        s.rows > 0,
        0 <= k <= s.scroll_bottom - s.scroll_top,
    ensures
        ({
            let was = s.scrolled_up(k);
            let gone = seq![was.lines[s.scroll_top]];
            &&& was.lines[s.scroll_top] == s.lines[s.scroll_top + k]
            &&& s.scrolled_up(k + 1).lines == was.lines.remove(s.scroll_top).insert(
                s.scroll_bottom,
                screen::blank_line(s.cols, s.blank()),
            )
            &&& s.region_is_full() ==> s.scrolled_up(k + 1).scrollback == was.remembered(
                gone,
            ).scrollback && s.scrolled_up(k + 1).view_offset == was.remembered(gone).view_offset
        }),
{
    let was = s.scrolled_up(k);
    let top = s.scroll_top;
    let gone = seq![was.lines[top]];
    assert(s.scrolled_up(k + 1).lines =~= was.lines.remove(top).insert(
        s.scroll_bottom,
        screen::blank_line(s.cols, s.blank()),
    ));
    if s.region_is_full() && s.alt is None {
        assert(s.lines.subrange(top, top + k + 1) =~= s.lines.subrange(top, top + k) + gone);
        assert(screen::trimmed(
            screen::trimmed(s.scrollback + s.lines.subrange(top, top + k), s.scrollback_max)
                + gone,
            s.scrollback_max,
        ) =~= screen::trimmed(
            s.scrollback + s.lines.subrange(top, top + k + 1),
            s.scrollback_max,
        ));
    }
}

} // verus!
