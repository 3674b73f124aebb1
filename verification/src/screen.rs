//! The mathematical model of the terminal grid.
//!
//! [`Screen`] is what a [`crate::grid::Grid`] denotes: rows of cells, a cursor,
//! the history above the screen and the modes that steer them. Each operation
//! of the grid is a function from `Screen` to `Screen` here.
use vstd::prelude::*;
use crate::color::CellColor;
use crate::grid::{Cell, CursorShape, MouseMode, SavedCursor};

verus! {

/// One row: its cells, and whether its text runs on into the next row (a soft
/// wrap) rather than having been ended by a newline.
#[verifier::ext_equal]
pub struct Line {
    pub cells: Seq<Cell>,
    pub wrapped: bool,
}

/// The main screen as it is put aside while the alternate screen is shown.
#[verifier::ext_equal]
pub struct AltScreen {
    pub lines: Seq<Line>,
    pub cursor_row: int,
    pub cursor_col: int,
    pub fg: CellColor,
    pub bg: CellColor,
    pub bold: bool,
    pub reverse: bool,
    pub main_saved: Option<SavedCursor>,
}

/// The state of a terminal grid.
#[verifier::ext_equal]
pub struct Screen {
    pub cols: int,
    pub rows: int,
    pub lines: Seq<Line>,
    pub cursor_row: int,
    pub cursor_col: int,
    pub fg: CellColor,
    pub bg: CellColor,
    pub bold: bool,
    pub reverse: bool,
    pub cursor_visible: bool,
    pub cursor_shape: CursorShape,
    pub saved: Option<SavedCursor>,
    pub alt: Option<AltScreen>,
    pub scrollback: Seq<Line>,
    pub scrollback_max: int,
    pub view_offset: int,
    pub scroll_top: int,
    pub scroll_bottom: int,
    pub mouse_mode: MouseMode,
    pub mouse_sgr: bool,
    pub app_cursor_keys: bool,
    pub dirty: u64,
}

/// The counter value after `d`, wrapping to zero.
pub open spec fn next_count(d: u64) -> u64 {
    if d == u64::MAX {
        0
    } else {
        (d + 1) as u64
    }
}

/// The smaller of two numbers.
pub open spec fn lesser(a: int, b: int) -> int {
    if a <= b {
        a
    } else {
        b
    }
}

/// `x` brought into `0..n`, or 0 where that range is empty.
pub open spec fn into_range(x: int, n: int) -> int {
    if x < 0 || n <= 0 {
        0
    } else {
        lesser(x, n - 1)
    }
}

/// A fresh row of `cols` copies of `cell`.
pub open spec fn blank_line(cols: int, cell: Cell) -> Line {
    Line { cells: Seq::new(cols as nat, |c: int| cell), wrapped: false }
}

/// `n` fresh rows.
pub open spec fn blank_lines(n: int, cols: int, cell: Cell) -> Seq<Line> {
    Seq::new(n as nat, |r: int| blank_line(cols, cell))
}

/// The row with columns `lo..hi` overwritten by `cell`.
pub open spec fn filled(line: Line, lo: int, hi: int, cell: Cell) -> Line {
    Line {
        cells: Seq::new(
            line.cells.len(),
            |c: int| if lo <= c < hi { cell } else { line.cells[c] },
        ),
        wrapped: line.wrapped,
    }
}

/// Every row has `cols` cells.
pub open spec fn all_wide(lines: Seq<Line>, cols: int) -> bool {
    forall|r: int| 0 <= r < lines.len() ==> (#[trigger] lines[r]).cells.len() == cols
}

/// The rows with those from `top` to `bottom` moved up by `n`: the first `n` of
/// them are gone and `n` copies of `fresh` stand at the bottom margin.
pub open spec fn shifted_up(lines: Seq<Line>, top: int, bottom: int, n: int, fresh: Line) -> Seq<
    Line,
> {
    Seq::new(
        lines.len(),
        |r: int|
            if r < top || r > bottom {
                lines[r]
            } else if r + n <= bottom {
                lines[r + n]
            } else {
                fresh
            },
    )
}

/// The rows with those from `top` to `bottom` moved down by `n`: the last `n` of
/// them are gone and `n` copies of `fresh` stand at the top margin.
pub open spec fn shifted_down(lines: Seq<Line>, top: int, bottom: int, n: int, fresh: Line) -> Seq<
    Line,
> {
    Seq::new(
        lines.len(),
        |r: int|
            if r < top || r > bottom {
                lines[r]
            } else if r - n >= top {
                lines[r - n]
            } else {
                fresh
            },
    )
}

/// The rows cut or padded to `rows` rows of `cols` cells each.
pub open spec fn reshaped(lines: Seq<Line>, cols: int, rows: int, cell: Cell) -> Seq<Line> {
    Seq::new(
        rows as nat,
        |r: int|
            if r < lines.len() {
                Line {
                    cells: Seq::new(
                        cols as nat,
                        |c: int|
                            if c < lines[r].cells.len() {
                                lines[r].cells[c]
                            } else {
                                cell
                            },
                    ),
                    wrapped: lines[r].wrapped,
                }
            } else {
                blank_line(cols, cell)
            },
    )
}

/// The newest `max` rows of the history; all of it when `max` is 0.
pub open spec fn trimmed(history: Seq<Line>, max: int) -> Seq<Line> {
    if max == 0 || history.len() <= max {
        history
    } else {
        history.skip(history.len() - max)
    }
}

impl Screen {
    /// The invariant that every operation keeps.
    pub open spec fn wf(self) -> bool {
        &&& 0 <= self.rows <= isize::MAX
        &&& 0 <= self.cols <= usize::MAX
        &&& self.rows > 0 ==> self.cols <= isize::MAX
        &&& self.lines.len() == self.rows
        &&& all_wide(self.lines, self.cols)
        &&& self.cursor_row == into_range(self.cursor_row, self.rows)
        &&& 0 <= self.cursor_col <= self.cols
        &&& 0 <= self.scroll_top <= self.scroll_bottom
        &&& self.scroll_bottom == into_range(self.scroll_bottom, self.rows)
        &&& 0 <= self.view_offset <= self.scrollback.len() <= usize::MAX
        &&& 0 <= self.scrollback_max <= usize::MAX
        &&& self.scrollback_max == 0 || self.scrollback.len() <= self.scrollback_max
        &&& self.alt matches Some(a) ==> {
            &&& a.lines.len() == self.rows
            &&& all_wide(a.lines, self.cols)
            &&& 0 <= a.cursor_row <= usize::MAX
            &&& 0 <= a.cursor_col <= usize::MAX
        }
    }

    /// An empty grid.
    pub open spec fn fresh(cols: int, rows: int) -> Screen {
        Screen {
            cols,
            rows,
            lines: blank_lines(rows, cols, Cell::empty()),
            cursor_row: 0,
            cursor_col: 0,
            fg: CellColor::Default,
            bg: CellColor::Default,
            bold: false,
            reverse: false,
            cursor_visible: true,
            cursor_shape: CursorShape::Block,
            saved: None,
            alt: None,
            scrollback: Seq::empty(),
            scrollback_max: 10_000,
            view_offset: 0,
            scroll_top: 0,
            scroll_bottom: into_range(rows - 1, rows),
            mouse_mode: MouseMode::Off,
            mouse_sgr: false,
            app_cursor_keys: false,
            dirty: 1,
        }
    }

    /// The same state, marked as changed.
    pub open spec fn touched(self) -> Screen {
        Screen { dirty: next_count(self.dirty), ..self }
    }

    /// The cell that erasing leaves behind: a space in the current colors.
    pub open spec fn blank(self) -> Cell {
        self.styled(' ')
    }

    /// `ch` in the current colors.
    pub open spec fn styled(self, ch: char) -> Cell {
        if self.reverse {
            Cell { ch, fg: self.bg, bg: self.fg }
        } else {
            Cell { ch, fg: self.fg, bg: self.bg }
        }
    }

    /// The scroll region is the whole screen.
    pub open spec fn region_is_full(self) -> bool {
        self.scroll_top == 0 && self.scroll_bottom + 1 == self.rows
    }

    /// The cursor moved to `row` and `col`, each brought onto the screen.
    pub open spec fn moved(self, row: int, col: int) -> Screen {
        Screen {
            cursor_row: into_range(row, self.rows),
            cursor_col: into_range(col, self.cols),
            ..self
        }.touched()
    }

    /// Row `r`, if there is one, replaced.
    pub open spec fn with_line(self, r: int, line: Line) -> Screen {
        Screen {
            lines: if 0 <= r < self.lines.len() {
                self.lines.update(r, line)
            } else {
                self.lines
            },
            ..self
        }
    }

    // ---- modes and attributes ----
    pub open spec fn set_scroll_region(self, top_1based: int, bottom_1based: int) -> Screen {
        let top = if top_1based == 0 {
            0
        } else {
            top_1based - 1
        };
        let bottom = if bottom_1based == 0 {
            into_range(self.rows - 1, self.rows)
        } else {
            bottom_1based - 1
        };
        if bottom >= self.rows || top >= bottom {
            self
        } else {
            Screen {
                scroll_top: top,
                scroll_bottom: bottom,
                cursor_row: 0,
                cursor_col: 0,
                ..self
            }.touched()
        }
    }

    pub open spec fn set_cursor_visible(self, v: bool) -> Screen {
        if self.cursor_visible != v {
            Screen { cursor_visible: v, ..self }.touched()
        } else {
            self
        }
    }

    pub open spec fn save_cursor(self) -> Screen {
        Screen {
            saved: Some(
                SavedCursor {
                    row: self.cursor_row as usize,
                    col: self.cursor_col as usize,
                    fg: self.fg,
                    bg: self.bg,
                    bold: self.bold,
                    reverse: self.reverse,
                },
            ),
            ..self
        }
    }

    pub open spec fn restore_cursor(self) -> Screen {
        match self.saved {
            Some(s) => Screen {
                cursor_row: into_range(s.row as int, self.rows),
                cursor_col: into_range(s.col as int, self.cols),
                fg: s.fg,
                bg: s.bg,
                bold: s.bold,
                reverse: s.reverse,
                ..self
            }.touched(),
            None => self,
        }
    }

    pub open spec fn reset_attrs(self) -> Screen {
        Screen {
            fg: CellColor::Default,
            bg: CellColor::Default,
            bold: false,
            reverse: false,
            ..self
        }
    }

    pub open spec fn enter_alt_screen(self) -> Screen {
        if self.alt is Some {
            self
        } else {
            Screen {
                lines: blank_lines(self.rows, self.cols, Cell::empty()),
                alt: Some(
                    AltScreen {
                        lines: self.lines,
                        cursor_row: self.cursor_row,
                        cursor_col: self.cursor_col,
                        fg: self.fg,
                        bg: self.bg,
                        bold: self.bold,
                        reverse: self.reverse,
                        main_saved: self.saved,
                    },
                ),
                saved: None,
                cursor_row: 0,
                cursor_col: 0,
                scroll_top: 0,
                scroll_bottom: into_range(self.rows - 1, self.rows),
                view_offset: 0,
                ..self.reset_attrs()
            }.touched()
        }
    }

    pub open spec fn exit_alt_screen(self) -> Screen {
        match self.alt {
            Some(a) => Screen {
                lines: a.lines,
                alt: None,
                cursor_row: into_range(a.cursor_row, self.rows),
                cursor_col: into_range(a.cursor_col, self.cols),
                fg: a.fg,
                bg: a.bg,
                bold: a.bold,
                reverse: a.reverse,
                saved: a.main_saved,
                scroll_top: 0,
                scroll_bottom: into_range(self.rows - 1, self.rows),
                view_offset: 0,
                ..self
            }.touched(),
            None => self,
        }
    }

    // ---- history ----
    /// The rows of the history followed by those of the screen, oldest first.
    pub open spec fn all_lines(self) -> Seq<Line> {
        self.scrollback + self.lines
    }

    pub open spec fn set_view_offset(self, offset: int) -> Screen {
        let wanted = lesser(offset, self.scrollback.len() as int);
        if wanted != self.view_offset {
            Screen { view_offset: wanted, ..self }.touched()
        } else {
            self
        }
    }

    pub open spec fn set_scrollback_max(self, n: int) -> Screen {
        let kept = trimmed(self.scrollback, n);
        Screen {
            scrollback_max: n,
            scrollback: kept,
            view_offset: lesser(self.view_offset, kept.len() as int),
            ..self
        }
    }

    /// `gone` rows left the top of the screen. On the main screen they join the
    /// history, and a view that is scrolled up keeps showing the same rows.
    pub open spec fn remembered(self, gone: Seq<Line>) -> Screen {
        if self.alt is Some {
            self
        } else {
            let history = trimmed(self.scrollback + gone, self.scrollback_max);
            Screen {
                scrollback: history,
                view_offset: if self.view_offset > 0 {
                    lesser(self.view_offset + gone.len(), history.len() as int)
                } else {
                    0
                },
                ..self
            }
        }
    }

    /// Index into [`Screen::all_lines`] of the row shown at `view_row`.
    pub open spec fn view_to_logical(self, view_row: int) -> int {
        self.scrollback.len() - self.view_offset + view_row
    }

    /// The cell at `col` of the row at `logical`; blank where there is none.
    pub open spec fn logical_cell(self, logical: int, col: int) -> Cell {
        let all = self.all_lines();
        if 0 <= logical < all.len() && 0 <= col < all[logical].cells.len() {
            all[logical].cells[col]
        } else {
            Cell::empty()
        }
    }

    pub open spec fn logical_row_wrapped(self, logical: int) -> bool {
        let all = self.all_lines();
        0 <= logical < all.len() && all[logical].wrapped
    }

    pub open spec fn visible_cell(self, view_row: int, col: int) -> Cell {
        self.logical_cell(self.view_to_logical(view_row), col)
    }

    pub open spec fn visible_row_wrapped(self, view_row: int) -> bool {
        self.logical_row_wrapped(self.view_to_logical(view_row))
    }

    pub open spec fn visible_cursor(self) -> Option<(int, int)> {
        if self.cursor_row + self.view_offset < self.rows {
            Some((self.cursor_row + self.view_offset, self.cursor_col))
        } else {
            None
        }
    }

    // ---- printing and scrolling ----
    /// The scroll region moved up by `n` rows; what leaves a full-height region
    /// goes to the history.
    pub open spec fn scrolled_up(self, n: int) -> Screen {
        let gone = self.lines.subrange(self.scroll_top, self.scroll_top + n);
        let base = if self.region_is_full() {
            self.remembered(gone)
        } else {
            self
        };
        Screen {
            lines: shifted_up(
                self.lines,
                self.scroll_top,
                self.scroll_bottom,
                n,
                blank_line(self.cols, self.blank()),
            ),
            ..base
        }
    }

    pub open spec fn linefeed(self) -> Screen {
        if self.cursor_row == self.scroll_bottom {
            self.scrolled_up(1).touched()
        } else if self.cursor_row + 1 < self.rows {
            Screen { cursor_row: self.cursor_row + 1, ..self }.touched()
        } else {
            self.touched()
        }
    }

    pub open spec fn carriage_return(self) -> Screen {
        Screen { cursor_col: 0, ..self }.touched()
    }

    /// The cursor's row marked as running on into the next one.
    pub open spec fn soft_wrapped(self) -> Screen {
        let line = self.lines[self.cursor_row];
        self.with_line(self.cursor_row, Line { wrapped: true, ..line })
    }

    /// `ch` written under the cursor, which moves one column on.
    pub open spec fn written(self, ch: char) -> Screen {
        let line = self.lines[self.cursor_row];
        Screen {
            cursor_col: self.cursor_col + 1,
            ..self.with_line(
                self.cursor_row,
                Line { cells: line.cells.update(self.cursor_col, self.styled(ch)), ..line },
            )
        }
    }

    pub open spec fn put_char(self, ch: char) -> Screen {
        let at = if self.cursor_col >= self.cols {
            Screen { cursor_col: 0, ..self.soft_wrapped().linefeed() }
        } else {
            self
        };
        at.written(ch).touched()
    }

    pub open spec fn backspace(self) -> Screen {
        if self.cursor_col > 0 {
            Screen { cursor_col: self.cursor_col - 1, ..self }.touched()
        } else {
            self
        }
    }

    /// On to the next multiple of eight, no further than the last column.
    pub open spec fn tab(self) -> Screen {
        Screen {
            cursor_col: into_range((self.cursor_col / 8 + 1) * 8, self.cols),
            ..self
        }.touched()
    }

    pub open spec fn cursor_to_row(self, row: int) -> Screen {
        Screen { cursor_row: into_range(row, self.rows), ..self }.touched()
    }

    pub open spec fn cursor_to_col(self, col: int) -> Screen {
        Screen { cursor_col: into_range(col, self.cols), ..self }.touched()
    }

    pub open spec fn cursor_up(self, n: int) -> Screen {
        self.cursor_to_row(self.cursor_row - n)
    }

    pub open spec fn cursor_down(self, n: int) -> Screen {
        self.cursor_to_row(self.cursor_row + n)
    }

    pub open spec fn cursor_forward(self, n: int) -> Screen {
        self.cursor_to_col(self.cursor_col + n)
    }

    /// Moving back leaves the column just past the last one where it is when
    /// `n` is 0.
    pub open spec fn cursor_back(self, n: int) -> Screen {
        Screen {
            cursor_col: if n > self.cursor_col {
                0
            } else {
                self.cursor_col - n
            },
            ..self
        }.touched()
    }

    pub open spec fn scroll_up(self, n: int) -> Screen {
        let by = lesser(n, self.scroll_bottom - self.scroll_top + 1);
        self.scrolled_up(by).touched()
    }

    pub open spec fn scroll_down(self, n: int) -> Screen {
        let by = lesser(n, self.scroll_bottom - self.scroll_top + 1);
        Screen {
            lines: shifted_down(
                self.lines,
                self.scroll_top,
                self.scroll_bottom,
                by,
                blank_line(self.cols, self.blank()),
            ),
            ..self
        }.touched()
    }

    /// The cursor is on a row of the scroll region.
    pub open spec fn in_region(self) -> bool {
        self.scroll_top <= self.cursor_row <= self.scroll_bottom
    }

    pub open spec fn insert_lines(self, n: int) -> Screen {
        if !self.in_region() {
            self
        } else {
            let by = lesser(n, self.scroll_bottom - self.cursor_row + 1);
            Screen {
                lines: shifted_down(
                    self.lines,
                    self.cursor_row,
                    self.scroll_bottom,
                    by,
                    blank_line(self.cols, self.blank()),
                ),
                ..self
            }.touched()
        }
    }

    pub open spec fn delete_lines(self, n: int) -> Screen {
        if !self.in_region() {
            self
        } else {
            let by = lesser(n, self.scroll_bottom - self.cursor_row + 1);
            Screen {
                lines: shifted_up(
                    self.lines,
                    self.cursor_row,
                    self.scroll_bottom,
                    by,
                    blank_line(self.cols, self.blank()),
                ),
                ..self
            }.touched()
        }
    }

    // ---- erasing and editing within rows ----
    /// Columns `lo..hi` of the cursor's row erased.
    pub open spec fn erased(self, lo: int, hi: int) -> Screen {
        self.with_line(
            self.cursor_row,
            filled(self.lines[self.cursor_row], lo, hi, self.blank()),
        )
    }

    pub open spec fn erase_in_line(self, mode: int) -> Screen {
        if mode == 0 {
            self.erased(self.cursor_col, self.cols).touched()
        } else if mode == 1 {
            self.erased(0, self.cursor_col + 1).touched()
        } else if mode == 2 {
            self.erased(0, self.cols).touched()
        } else {
            self.touched()
        }
    }

    /// Rows `lo..hi` erased over their whole width.
    pub open spec fn rows_erased(self, lo: int, hi: int) -> Screen {
        Screen {
            lines: Seq::new(
                self.lines.len(),
                |r: int|
                    if lo <= r < hi {
                        filled(self.lines[r], 0, self.cols, self.blank())
                    } else {
                        self.lines[r]
                    },
            ),
            ..self
        }
    }

    pub open spec fn erase_in_display(self, mode: int) -> Screen {
        if mode == 0 {
            self.erase_in_line(0).rows_erased(self.cursor_row + 1, self.rows).touched()
        } else if mode == 1 {
            self.rows_erased(0, self.cursor_row).erase_in_line(1).touched()
        } else if mode == 2 || mode == 3 {
            self.rows_erased(0, self.rows).touched()
        } else {
            self.touched()
        }
    }

    pub open spec fn delete_chars(self, n: int) -> Screen {
        let line = self.lines[self.cursor_row];
        if self.cursor_col >= self.cols {
            self
        } else {
            self.with_line(
                self.cursor_row,
                Line {
                    cells: Seq::new(
                        self.cols as nat,
                        |c: int|
                            if c < self.cursor_col {
                                line.cells[c]
                            } else if c + n < self.cols {
                                line.cells[c + n]
                            } else {
                                self.blank()
                            },
                    ),
                    ..line
                },
            ).touched()
        }
    }

    pub open spec fn insert_chars(self, n: int) -> Screen {
        let line = self.lines[self.cursor_row];
        if self.cursor_col >= self.cols {
            self
        } else {
            self.with_line(
                self.cursor_row,
                Line {
                    cells: Seq::new(
                        self.cols as nat,
                        |c: int|
                            if c < self.cursor_col {
                                line.cells[c]
                            } else if c < self.cursor_col + n {
                                self.blank()
                            } else {
                                line.cells[c - n]
                            },
                    ),
                    ..line
                },
            ).touched()
        }
    }

    pub open spec fn erase_chars(self, n: int) -> Screen {
        self.erased(self.cursor_col, self.cursor_col + n).touched()
    }

    /// Cut or padded to a new size, row by row.
    pub open spec fn resize_simple(self, cols: int, rows: int) -> Screen {
        Screen {
            lines: reshaped(self.lines, cols, rows, self.blank()),
            alt: match self.alt {
                Some(a) => Some(
                    AltScreen { lines: reshaped(a.lines, cols, rows, Cell::empty()), ..a },
                ),
                None => None,
            },
            cols,
            rows,
            cursor_row: into_range(self.cursor_row, rows),
            cursor_col: into_range(self.cursor_col, cols),
            scroll_top: 0,
            scroll_bottom: rows - 1,
            ..self
        }.touched()
    }
}

} // verus!
