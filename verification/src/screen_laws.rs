//! What each operation of the grid does, cell by cell.
//!
//! The laws speak of cells, rows and the cursor themselves, by their numbers,
//! and of what is the same before and after.
use vstd::prelude::*;
use crate::color::CellColor;
use crate::grid::{Cell, CursorShape, MouseMode};
use crate::reflow;
use crate::screen::{Line, Screen};

verus! {

// ---- cells ----
/// Text is written in the current colors, the other way round in reverse video,
/// and erasing leaves spaces in the same colors.
pub proof fn law_cells_take_the_current_colors(s: Screen, ch: char)
    ensures
        s.styled(ch).ch == ch,
        !s.reverse ==> s.styled(ch).fg == s.fg && s.styled(ch).bg == s.bg,
        s.reverse ==> s.styled(ch).fg == s.bg && s.styled(ch).bg == s.fg,
        s.blank().ch == ' ',
        s.blank().fg == s.styled(ch).fg,
        s.blank().bg == s.styled(ch).bg,
{
}

/// A cell that was never written is a space in the default colors.
pub proof fn law_the_empty_cell_is_a_plain_space()
    ensures
        Cell::empty().ch == ' ',
        Cell::empty().fg == CellColor::Default,
        Cell::empty().bg == CellColor::Default,
{
}

/// A new grid is empty everywhere, with the cursor at the top left, no history
/// and every mode off; all of it scrolls.
pub proof fn law_new_grid_is_empty(cols: int, rows: int, row: int, col: int)
    requires
        0 < cols,
        0 < rows,
        0 <= row < rows,
        0 <= col < cols,
    ensures
        ({
            let s = Screen::fresh(cols, rows);
            &&& s.cols == cols && s.rows == rows && s.lines.len() == rows
            &&& s.lines[row].cells.len() == cols && !s.lines[row].wrapped
            &&& s.lines[row].cells[col].ch == ' '
            &&& s.lines[row].cells[col].fg == CellColor::Default
            &&& s.lines[row].cells[col].bg == CellColor::Default
            &&& s.cursor_row == 0 && s.cursor_col == 0 && s.cursor_visible
            &&& s.cursor_shape == CursorShape::Block
            &&& s.fg == CellColor::Default && s.bg == CellColor::Default
            &&& !s.bold && !s.reverse
            &&& s.scrollback.len() == 0 && s.view_offset == 0 && s.scrollback_max == 10_000
            &&& s.alt is None && s.saved is None
            &&& s.scroll_top == 0 && s.scroll_bottom == rows - 1
            &&& s.mouse_mode == MouseMode::Off && !s.mouse_sgr && !s.app_cursor_keys
        }),
{
}

/// A change is noticed: the counter is another one afterwards.
pub proof fn law_changes_are_counted(s: Screen)
    ensures
        s.touched().dirty != s.dirty,
        s.touched() == (Screen { dirty: s.touched().dirty, ..s }),
{
}

// ---- erasing ----
/// Erasing in the display. Mode 0 erases from the cursor to the end of the last
/// row, mode 1 from the start of the first row up to and with the cursor, modes
/// 2 and 3 everything; another mode erases nothing. Cells that are not erased,
/// the rows' soft wraps and all else stay as they were.
pub proof fn law_erase_in_display(s: Screen, mode: int, row: int, col: int)
    requires
        s.wf(),
        0 <= row < s.rows,
        0 <= col < s.cols,
    ensures
        ({
            let after = s.erase_in_display(mode);
            let before_cursor = row < s.cursor_row || (row == s.cursor_row && col
                < s.cursor_col);
            let after_cursor = row > s.cursor_row || (row == s.cursor_row && col > s.cursor_col);
            let now = after.lines[row].cells[col];
            let was = s.lines[row].cells[col];
            &&& mode == 0 ==> now == if before_cursor { was } else { s.blank() }
            &&& mode == 1 ==> now == if after_cursor { was } else { s.blank() }
            &&& mode == 2 || mode == 3 ==> now == s.blank()
            &&& mode < 0 || mode > 3 ==> now == was
            &&& after.lines.len() == s.lines.len()
            &&& after.lines[row].cells.len() == s.cols
            &&& after.lines[row].wrapped == s.lines[row].wrapped
            &&& after == Screen { lines: after.lines, dirty: after.dirty, ..s }
        }),
{
}

/// Erasing in the line: as in the display, within the cursor's row.
pub proof fn law_erase_in_line(s: Screen, mode: int, row: int, col: int)
    requires
        s.wf(),
        0 <= row < s.rows,
        0 <= col < s.cols,
    ensures
        ({
            let after = s.erase_in_line(mode);
            let now = after.lines[row].cells[col];
            let was = s.lines[row].cells[col];
            &&& row != s.cursor_row ==> now == was
            &&& row == s.cursor_row && mode == 0 ==> now == if col < s.cursor_col {
                was
            } else {
                s.blank()
            }
            &&& row == s.cursor_row && mode == 1 ==> now == if col > s.cursor_col {
                was
            } else {
                s.blank()
            }
            &&& row == s.cursor_row && mode == 2 ==> now == s.blank()
            &&& mode < 0 || mode > 2 ==> now == was
            &&& after.lines.len() == s.lines.len()
            &&& after.lines[row].cells.len() == s.cols
            &&& after.lines[row].wrapped == s.lines[row].wrapped
            &&& after == Screen { lines: after.lines, dirty: after.dirty, ..s }
        }),
{
}

/// Erasing before the cursor and from it on is erasing everything.
pub proof fn law_two_halves_erase_everything(s: Screen, row: int, col: int)
    requires
        s.wf(),
        0 <= row < s.rows,
        0 <= col < s.cols,
    ensures
        s.erase_in_display(0).erase_in_display(1).lines[row].cells[col] == s.erase_in_display(
            2,
        ).lines[row].cells[col],
        s.erase_in_line(0).erase_in_line(1).lines[row].cells[col] == s.erase_in_line(
            2,
        ).lines[row].cells[col],
{
}

/// Erasing `n` characters blanks the cursor's cell and those right of it, `n` in
/// all or to the end of the row, and moves nothing.
pub proof fn law_erase_chars(s: Screen, n: int, row: int, col: int)
    requires
        s.wf(),
        0 <= n,
        0 <= row < s.rows,
        0 <= col < s.cols,
    ensures
        ({
            let after = s.erase_chars(n);
            let erased = row == s.cursor_row && s.cursor_col <= col && col - s.cursor_col < n;
            &&& after.lines[row].cells[col] == if erased {
                s.blank()
            } else {
                s.lines[row].cells[col]
            }
            &&& after.lines.len() == s.lines.len()
            &&& after.lines[row].cells.len() == s.cols
            &&& after.lines[row].wrapped == s.lines[row].wrapped
            &&& after == Screen { lines: after.lines, dirty: after.dirty, ..s }
        }),
{
}

// ---- editing within a row ----
/// Deleting `n` characters pulls the text right of them up to the cursor, and
/// blanks come in at the end of the row. What is left of the cursor, and every
/// other row, stays.
pub proof fn law_delete_chars(s: Screen, n: int, row: int, col: int)
    requires
        s.wf(),
        0 <= n,
        s.cursor_col < s.cols,
        0 <= row < s.rows,
        0 <= col < s.cols,
    ensures
        ({
            let after = s.delete_chars(n);
            let was = s.lines[row].cells;
            let now = after.lines[row].cells;
            &&& row != s.cursor_row || col < s.cursor_col ==> now[col] == was[col]
            &&& row == s.cursor_row && col >= s.cursor_col + n ==> now[col - n] == was[col]
            &&& row == s.cursor_row && col >= s.cursor_col && col >= s.cols - n ==> now[col]
                == s.blank()
            &&& now.len() == s.cols
            &&& after.lines.len() == s.lines.len()
            &&& after.lines[row].wrapped == s.lines[row].wrapped
            &&& after == Screen { lines: after.lines, dirty: after.dirty, ..s }
        }),
{
}

/// Inserting `n` characters puts blanks at the cursor and pushes the text right
/// of it, as far as it fits. What is left of the cursor, and every other row,
/// stays.
pub proof fn law_insert_chars(s: Screen, n: int, row: int, col: int)
    requires
        s.wf(),
        0 <= n,
        s.cursor_col < s.cols,
        0 <= row < s.rows,
        0 <= col < s.cols,
    ensures
        ({
            let after = s.insert_chars(n);
            let was = s.lines[row].cells;
            let now = after.lines[row].cells;
            &&& row != s.cursor_row || col < s.cursor_col ==> now[col] == was[col]
            &&& row == s.cursor_row && s.cursor_col <= col && col + n < s.cols ==> now[col + n]
                == was[col]
            &&& row == s.cursor_row && s.cursor_col <= col < s.cursor_col + n ==> now[col]
                == s.blank()
            &&& now.len() == s.cols
            &&& after.lines.len() == s.lines.len()
            &&& after.lines[row].wrapped == s.lines[row].wrapped
            &&& after == Screen { lines: after.lines, dirty: after.dirty, ..s }
        }),
{
}

/// Past the last column there is nothing to insert or delete.
pub proof fn law_no_editing_past_the_last_column(s: Screen, n: int)
    requires
        s.wf(),
        s.cursor_col == s.cols,
    ensures
        s.delete_chars(n) == s,
        s.insert_chars(n) == s,
{
}

// ---- moving rows ----
/// A row of blanks that does not run on.
pub open spec fn is_fresh(line: Line, s: Screen) -> bool {
    &&& line.cells.len() == s.cols
    &&& forall|c: int| 0 <= c < s.cols ==> line.cells[c] == s.blank()
    &&& !line.wrapped
}

/// Scrolling up by `n`: of the region's rows, the first `n` leave at the top
/// margin, the others move up by `n` and fresh rows come in at the bottom
/// margin. Rows outside the region and the cursor stay.
pub proof fn law_scroll_up(s: Screen, n: int, row: int)
    requires
        s.wf(),
        s.rows > 0,
        0 <= n,
        0 <= row < s.rows,
    ensures
        ({
            let after = s.scroll_up(n);
            let inside = s.scroll_top <= row <= s.scroll_bottom;
            &&& !inside ==> after.lines[row] == s.lines[row]
            &&& inside && row - n >= s.scroll_top ==> after.lines[row - n] == s.lines[row]
            &&& inside && row + n > s.scroll_bottom ==> is_fresh(after.lines[row], s)
            &&& after.lines.len() == s.lines.len()
            &&& after == Screen {
                lines: after.lines,
                scrollback: after.scrollback,
                view_offset: after.view_offset,
                dirty: after.dirty,
                ..s
            }
        }),
{
}

/// Scrolling down by `n`: of the region's rows, the last `n` are gone, the
/// others move down by `n` and fresh rows come in at the top margin. Rows
/// outside the region, the history and the cursor stay.
pub proof fn law_scroll_down(s: Screen, n: int, row: int)
    requires
        s.wf(),
        s.rows > 0,
        0 <= n,
        0 <= row < s.rows,
    ensures
        ({
            let after = s.scroll_down(n);
            let inside = s.scroll_top <= row <= s.scroll_bottom;
            &&& !inside ==> after.lines[row] == s.lines[row]
            &&& inside && row + n <= s.scroll_bottom ==> after.lines[row + n] == s.lines[row]
            &&& inside && row - n < s.scroll_top ==> is_fresh(after.lines[row], s)
            &&& after.lines.len() == s.lines.len()
            &&& after == Screen { lines: after.lines, dirty: after.dirty, ..s }
        }),
{
}

/// Inserting `n` lines: from the cursor's row to the bottom margin the rows move
/// down by `n`, and fresh rows come in at the cursor's. Nothing happens outside
/// the scroll region.
pub proof fn law_insert_lines(s: Screen, n: int, row: int)
    requires
        s.wf(),
        s.rows > 0,
        0 <= n,
        0 <= row < s.rows,
    ensures
        ({
            let after = s.insert_lines(n);
            let works = s.scroll_top <= s.cursor_row <= s.scroll_bottom;
            let inside = works && s.cursor_row <= row <= s.scroll_bottom;
            &&& !works ==> after == s
            &&& !inside ==> after.lines[row] == s.lines[row]
            &&& inside && row + n <= s.scroll_bottom ==> after.lines[row + n] == s.lines[row]
            &&& inside && row < s.cursor_row + n ==> is_fresh(after.lines[row], s)
            &&& after.lines.len() == s.lines.len()
            &&& after == Screen { lines: after.lines, dirty: after.dirty, ..s }
        }),
{
}

/// Deleting `n` lines: the rows below them, down to the bottom margin, move up
/// to the cursor's, and fresh rows come in at the bottom margin. Nothing happens
/// outside the scroll region, and nothing goes to the history.
pub proof fn law_delete_lines(s: Screen, n: int, row: int)
    requires
        s.wf(),
        s.rows > 0,
        0 <= n,
        0 <= row < s.rows,
    ensures
        ({
            let after = s.delete_lines(n);
            let works = s.scroll_top <= s.cursor_row <= s.scroll_bottom;
            let inside = works && s.cursor_row <= row <= s.scroll_bottom;
            &&& !works ==> after == s
            &&& !inside ==> after.lines[row] == s.lines[row]
            &&& inside && row - n >= s.cursor_row ==> after.lines[row - n] == s.lines[row]
            &&& inside && row + n > s.scroll_bottom ==> is_fresh(after.lines[row], s)
            &&& after.lines.len() == s.lines.len()
            &&& after == Screen { lines: after.lines, dirty: after.dirty, ..s }
        }),
{
}

/// What scrolls off the top of the whole main screen is appended to the history,
/// oldest row first; what scrolls in a part of the screen, or on the alternate
/// one, is not remembered.
pub proof fn law_history_is_appended_to(s: Screen, n: int, k: int)
    requires
        s.wf(),
        s.rows > 0,
        0 <= n,
        s.scrollback_max == 0 || s.scrollback.len() + n <= s.scrollback_max,
        0 <= k < n,
        k < s.rows,
    ensures
        ({
            let after = s.scroll_up(n);
            let whole = s.scroll_top == 0 && s.scroll_bottom == s.rows - 1;
            let gone = if n < s.rows { n } else { s.rows };
            &&& whole && s.alt is None ==> {
                &&& after.scrollback.len() == s.scrollback.len() + gone
                &&& after.scrollback[s.scrollback.len() + k] == s.lines[k]
                &&& forall|i: int|
                    0 <= i < s.scrollback.len() ==> after.scrollback[i] == s.scrollback[i]
            }
            &&& !whole || s.alt is Some ==> after.scrollback == s.scrollback
        }),
{
}

/// A bound on the history drops its oldest rows, and no more than it must; none
/// are dropped without a bound.
pub proof fn law_history_is_bounded(s: Screen, max: int, i: int)
    requires
        s.wf(),
        0 <= max,
    ensures
        ({
            let after = s.set_scrollback_max(max);
            let (was, now) = (s.scrollback, after.scrollback);
            &&& after.scrollback_max == max
            &&& max == 0 ==> now == was
            &&& max > 0 ==> now.len() <= max
            &&& now.len() < was.len() ==> now.len() == max
            &&& 0 <= i < now.len() ==> now[i] == was[was.len() - now.len() + i]
            &&& after.view_offset <= now.len()
            &&& s.view_offset <= now.len() ==> after.view_offset == s.view_offset
            &&& after == Screen {
                scrollback: now,
                scrollback_max: max,
                view_offset: after.view_offset,
                ..s
            }
        }),
{
}

// ---- the view ----
/// The top of a view that is scrolled up shows the newest rows of the history,
/// the rest of it the top of the screen.
pub proof fn law_view_shows_history_above_the_screen(s: Screen, row: int, col: int)
    requires
        s.wf(),
        0 <= row < s.rows,
        0 <= col < s.cols,
    ensures
        row >= s.view_offset ==> {
            &&& s.visible_cell(row, col) == s.lines[row - s.view_offset].cells[col]
            &&& s.visible_row_wrapped(row) == s.lines[row - s.view_offset].wrapped
        },
        row < s.view_offset ==> {
            let line = s.scrollback[s.scrollback.len() - s.view_offset + row];
            &&& s.visible_row_wrapped(row) == line.wrapped
            &&& col < line.cells.len() ==> s.visible_cell(row, col) == line.cells[col]
            &&& col >= line.cells.len() ==> s.visible_cell(row, col) == Cell::empty()
        },
{
}

/// The view can be scrolled up to the oldest row of the history and no further.
pub proof fn law_view_offset_is_set(s: Screen, offset: int)
    requires
        s.wf(),
        0 <= offset,
    ensures
        ({
            let after = s.set_view_offset(offset);
            &&& offset <= s.scrollback.len() ==> after.view_offset == offset
            &&& offset > s.scrollback.len() ==> after.view_offset == s.scrollback.len()
            &&& after == Screen { view_offset: after.view_offset, dirty: after.dirty, ..s }
            &&& after.view_offset != s.view_offset ==> after.dirty != s.dirty
        }),
{
}

/// Rows are numbered from the oldest of the history down to the last on screen.
pub proof fn law_logical_rows_are_history_then_screen(s: Screen, row: int, col: int)
    requires
        s.wf(),
        0 <= row < s.rows,
        0 <= col < s.cols,
    ensures
        s.logical_cell(s.scrollback.len() + row, col) == s.lines[row].cells[col],
        s.logical_row_wrapped(s.scrollback.len() + row) == s.lines[row].wrapped,
        s.view_offset == 0 ==> s.view_to_logical(row) == s.scrollback.len() + row,
        s.view_to_logical(row) + s.view_offset == s.scrollback.len() + row,
        forall|k: int|
            0 <= k < s.scrollback.len() && col < s.scrollback[k].cells.len()
                ==> #[trigger] s.logical_cell(k, col) == s.scrollback[k].cells[col],
        forall|k: int|
            k >= s.scrollback.len() + s.rows ==> #[trigger] s.logical_cell(k, col)
                == Cell::empty(),
{
}

// ---- the cursor ----
/// The cursor moves by as many rows or columns as it is told, and stops at the
/// edge of the screen. Nothing else moves.
pub proof fn law_cursor_moves_by_steps(s: Screen, n: int)
    requires
        s.wf(),
        s.rows > 0,
        s.cols > 0,
        0 <= n,
    ensures
        s.cursor_up(n).cursor_row == if n <= s.cursor_row { s.cursor_row - n } else { 0 },
        s.cursor_down(n).cursor_row == if s.cursor_row + n < s.rows {
            s.cursor_row + n
        } else {
            s.rows - 1
        },
        s.cursor_forward(n).cursor_col == if s.cursor_col + n < s.cols {
            s.cursor_col + n
        } else {
            s.cols - 1
        },
        s.cursor_back(n).cursor_col == if n <= s.cursor_col { s.cursor_col - n } else { 0 },
        s.cursor_up(n) == (Screen {
            cursor_row: s.cursor_up(n).cursor_row,
            dirty: s.cursor_up(n).dirty,
            ..s
        }),
        s.cursor_down(n) == (Screen {
            cursor_row: s.cursor_down(n).cursor_row,
            dirty: s.cursor_down(n).dirty,
            ..s
        }),
        s.cursor_forward(n) == (Screen {
            cursor_col: s.cursor_forward(n).cursor_col,
            dirty: s.cursor_forward(n).dirty,
            ..s
        }),
        s.cursor_back(n) == (Screen {
            cursor_col: s.cursor_back(n).cursor_col,
            dirty: s.cursor_back(n).dirty,
            ..s
        }),
{
}

/// The cursor goes to the row and column that it is told, or to the last one
/// where there are fewer. Nothing else moves.
pub proof fn law_cursor_goes_where_it_is_told(s: Screen, row: int, col: int)
    requires
        s.wf(),
        s.rows > 0,
        s.cols > 0,
        0 <= row,
        0 <= col,
    ensures
        ({
            let to_row = if row < s.rows { row } else { s.rows - 1 };
            let to_col = if col < s.cols { col } else { s.cols - 1 };
            let both = s.moved(row, col);
            &&& both == Screen {
                cursor_row: to_row,
                cursor_col: to_col,
                dirty: both.dirty,
                ..s
            }
            &&& s.cursor_to_row(row) == Screen {
                cursor_row: to_row,
                dirty: both.dirty,
                ..s
            }
            &&& s.cursor_to_col(col) == Screen {
                cursor_col: to_col,
                dirty: both.dirty,
                ..s
            }
        }),
{
}

/// A tab goes to the next column whose number is a multiple of eight, or to the
/// last column where there is none before it.
pub proof fn law_tab_stops_are_every_eight_columns(s: Screen, stop: int)
    requires
        s.wf(),
        s.cols > 0,
    ensures
        ({
            let to = s.tab().cursor_col;
            &&& 0 <= to < s.cols
            &&& to != s.cols - 1 ==> to % 8 == 0 && s.cursor_col < to <= s.cursor_col + 8
            &&& to % 8 != 0 || to <= s.cursor_col ==> to == s.cols - 1
            &&& stop % 8 == 0 && s.cursor_col < stop < s.cols ==> to <= stop
            &&& s.tab() == Screen { cursor_col: to, dirty: s.tab().dirty, ..s }
        }),
{
}

/// A backspace moves the cursor one column left, and not past the first; a
/// carriage return moves it to the first column. Neither erases anything.
pub proof fn law_backspace_and_return(s: Screen)
    requires
        s.wf(),
    ensures
        s.cursor_col > 0 ==> s.backspace().cursor_col + 1 == s.cursor_col,
        s.cursor_col == 0 ==> s.backspace() == s,
        s.backspace() == (Screen {
            cursor_col: s.backspace().cursor_col,
            dirty: s.backspace().dirty,
            ..s
        }),
        s.carriage_return() == (Screen {
            cursor_col: 0,
            dirty: s.carriage_return().dirty,
            ..s
        }),
{
}

/// A line feed moves the cursor down one row. On the bottom margin the region
/// scrolls up by one row under it instead, and on the last row below the region
/// nothing moves. The column stays.
pub proof fn law_linefeed(s: Screen, row: int)
    requires
        s.wf(),
        s.rows > 0,
        0 <= row < s.rows,
    ensures
        ({
            let after = s.linefeed();
            &&& after.cursor_col == s.cursor_col
            &&& s.cursor_row != s.scroll_bottom && s.cursor_row + 1 < s.rows ==> after == Screen {
                cursor_row: s.cursor_row + 1,
                dirty: after.dirty,
                ..s
            }
            &&& s.cursor_row != s.scroll_bottom && s.cursor_row + 1 == s.rows ==> after == Screen {
                dirty: after.dirty,
                ..s
            }
            &&& s.cursor_row == s.scroll_bottom ==> {
                &&& after.cursor_row == s.cursor_row
                &&& s.scroll_top < row <= s.scroll_bottom ==> after.lines[row - 1] == s.lines[row]
                &&& row == s.scroll_bottom ==> is_fresh(after.lines[row], s)
                &&& row < s.scroll_top || row > s.scroll_bottom ==> after.lines[row]
                    == s.lines[row]
                &&& after.scroll_top == s.scroll_top && after.scroll_bottom == s.scroll_bottom
                &&& after.fg == s.fg && after.bg == s.bg
                &&& after.bold == s.bold && after.reverse == s.reverse
            }
        }),
{
}

/// Printing. While there is room in the row, the character goes under the cursor
/// and the cursor moves one column on; no other cell changes.
pub proof fn law_printing_in_a_row(s: Screen, ch: char, row: int, col: int)
    requires
        s.wf(),
        s.rows > 0,
        s.cursor_col < s.cols,
        0 <= row < s.rows,
        0 <= col < s.cols,
    ensures
        ({
            let after = s.put_char(ch);
            let here = row == s.cursor_row && col == s.cursor_col;
            &&& here ==> after.lines[row].cells[col].ch == ch
            &&& here && !s.reverse ==> after.lines[row].cells[col].fg == s.fg
                && after.lines[row].cells[col].bg == s.bg
            &&& here && s.reverse ==> after.lines[row].cells[col].fg == s.bg
                && after.lines[row].cells[col].bg == s.fg
            &&& !here ==> after.lines[row].cells[col] == s.lines[row].cells[col]
            &&& after.lines[row].wrapped == s.lines[row].wrapped
            &&& after.lines[row].cells.len() == s.cols
            &&& after.lines.len() == s.lines.len()
            &&& after == Screen {
                lines: after.lines,
                cursor_col: s.cursor_col + 1,
                dirty: after.dirty,
                ..s
            }
        }),
{
}

/// Printing in a full row goes on in the first column of the next one. The full
/// row keeps its text and is marked as running on.
pub proof fn law_printing_wraps(s: Screen, ch: char, row: int, col: int)
    requires
        s.wf(),
        s.cursor_col == s.cols,
        s.cols > 0,
        s.cursor_row != s.scroll_bottom,
        s.cursor_row + 1 < s.rows,
        0 <= row < s.rows,
        0 <= col < s.cols,
    ensures
        ({
            let after = s.put_char(ch);
            let here = row == s.cursor_row + 1 && col == 0;
            &&& after.cursor_row == s.cursor_row + 1 && after.cursor_col == 1
            &&& after.lines[row].cells[col] == if here {
                s.styled(ch)
            } else {
                s.lines[row].cells[col]
            }
            &&& after.lines[row].wrapped == (row == s.cursor_row || s.lines[row].wrapped)
            &&& after.scrollback == s.scrollback
        }),
{
}

/// Printing in a full row on the bottom margin scrolls the region: the full row
/// moves up, marked as running on, and the text goes on in the fresh row.
pub proof fn law_printing_wraps_at_the_bottom(s: Screen, ch: char, row: int, col: int)
    requires
        s.wf(),
        s.cursor_col == s.cols,
        s.cols > 0,
        s.rows > 0,
        s.cursor_row == s.scroll_bottom,
        0 <= row < s.rows,
        0 <= col < s.cols,
    ensures
        ({
            let after = s.put_char(ch);
            let b = s.scroll_bottom;
            &&& after.cursor_row == b && after.cursor_col == 1
            &&& row == b ==> after.lines[b].cells[col] == if col == 0 {
                s.styled(ch)
            } else {
                s.blank()
            }
            &&& row == b ==> !after.lines[b].wrapped
            &&& s.scroll_top < row < b ==> after.lines[row - 1] == s.lines[row]
            &&& s.scroll_top < b ==> after.lines[b - 1].cells == s.lines[b].cells
                && after.lines[b - 1].wrapped
            &&& row < s.scroll_top || row > b ==> after.lines[row] == s.lines[row]
        }),
{
}

// ---- modes ----
/// Setting the scroll region, counted from 1: the cursor goes to the top left of
/// the screen. A 0 stands for the first or the last row; a region of less than
/// two rows, or one that does not fit, is refused.
pub proof fn law_scroll_region_is_set(s: Screen, top: int, bottom: int)
    requires
        s.wf(),
        s.rows > 0,
        0 <= top,
        0 <= bottom,
    ensures
        ({
            let after = s.set_scroll_region(top, bottom);
            let first = if top == 0 { 1 } else { top };
            let last = if bottom == 0 { s.rows } else { bottom };
            if first < last <= s.rows {
                after == Screen {
                    scroll_top: first - 1,
                    scroll_bottom: last - 1,
                    cursor_row: 0,
                    cursor_col: 0,
                    dirty: after.dirty,
                    ..s
                }
            } else {
                after == s
            }
        }),
{
}

/// The cursor is shown or hidden as asked, and nothing else changes.
pub proof fn law_cursor_visibility_is_set(s: Screen, v: bool)
    ensures
        s.set_cursor_visible(v) == (Screen {
            cursor_visible: v,
            dirty: s.set_cursor_visible(v).dirty,
            ..s
        }),
        s.cursor_visible != v ==> s.set_cursor_visible(v).dirty != s.dirty,
{
}

/// Resetting the attributes: default colors, neither bold nor reverse.
pub proof fn law_attributes_are_reset(s: Screen)
    ensures
        s.reset_attrs() == (Screen {
            fg: CellColor::Default,
            bg: CellColor::Default,
            bold: false,
            reverse: false,
            ..s
        }),
{
}

/// The alternate screen starts empty, with the cursor at the top left, plain
/// attributes and all of it scrolling. The history is still there, out of view.
/// Entering it twice, or leaving it when it is not shown, does nothing.
pub proof fn law_alternate_screen_starts_empty(s: Screen, row: int, col: int)
    requires
        s.wf(),
        0 <= row < s.rows,
        0 <= col < s.cols,
    ensures
        s.alt is Some ==> s.enter_alt_screen() == s,
        s.alt is None ==> s.exit_alt_screen() == s,
        s.alt is None ==> ({
            let after = s.enter_alt_screen();
            &&& after.alt is Some
            &&& after.lines.len() == s.rows && after.lines[row].cells.len() == s.cols
            &&& after.lines[row].cells[col] == Cell::empty() && !after.lines[row].wrapped
            &&& after.cursor_row == 0 && after.cursor_col == 0
            &&& after.fg == CellColor::Default && after.bg == CellColor::Default
            &&& !after.bold && !after.reverse
            &&& after.saved is None
            &&& after.scroll_top == 0 && after.scroll_bottom == s.rows - 1
            &&& after.view_offset == 0
            &&& after.scrollback == s.scrollback
            &&& after.cols == s.cols && after.rows == s.rows
            &&& after.cursor_visible == s.cursor_visible
            &&& after.mouse_mode == s.mouse_mode && after.mouse_sgr == s.mouse_sgr
            &&& after.app_cursor_keys == s.app_cursor_keys
        }),
{
}

/// Back on the main screen all of it scrolls and the live screen is in view. A
/// cursor that was put aside past the last column is on it.
pub proof fn law_leaving_the_alternate_screen(s: Screen)
    requires
        s.wf(),
        s.rows > 0,
        s.cols > 0,
        s.alt is Some,
    ensures
        ({
            let a = s.alt->0;
            let after = s.exit_alt_screen();
            &&& after.alt is None && after.lines == a.lines
            &&& after.cursor_row == if a.cursor_row < s.rows { a.cursor_row } else { s.rows - 1 }
            &&& after.cursor_col == if a.cursor_col < s.cols { a.cursor_col } else { s.cols - 1 }
            &&& after.fg == a.fg && after.bg == a.bg
            &&& after.bold == a.bold && after.reverse == a.reverse
            &&& after.saved == a.main_saved
            &&& after.scroll_top == 0 && after.scroll_bottom == s.rows - 1
            &&& after.view_offset == 0
            &&& after.scrollback == s.scrollback
            &&& after.mouse_mode == s.mouse_mode && after.app_cursor_keys == s.app_cursor_keys
        }),
{
}

/// Saving the cursor changes nothing that can be seen, and restoring it without
/// having saved changes nothing at all.
pub proof fn law_saving_is_silent(s: Screen)
    ensures
        s.save_cursor() == (Screen { saved: s.save_cursor().saved, ..s }),
        s.save_cursor().saved is Some,
        s.saved is None ==> s.restore_cursor() == s,
{
}

/// Restoring the cursor brings back its row and column, or the last ones where
/// the screen has become smaller, with the colors and attributes of then.
pub proof fn law_restoring_the_cursor(s: Screen)
    requires
        s.wf(),
        s.rows > 0,
        s.cols > 0,
        s.saved is Some,
    ensures
        ({
            let c = s.saved->0;
            let after = s.restore_cursor();
            after == Screen {
                cursor_row: if c.row < s.rows { c.row as int } else { s.rows - 1 },
                cursor_col: if c.col < s.cols { c.col as int } else { s.cols - 1 },
                fg: c.fg,
                bg: c.bg,
                bold: c.bold,
                reverse: c.reverse,
                dirty: after.dirty,
                ..s
            }
        }),
{
}

// ---- a new size ----
/// After a resize the grid has the size that was asked for, all of it scrolls,
/// and the cursor is on it. The main screen is shown as it is now and forgets
/// where a cursor was saved. A size without cells, or the one it has, changes
/// nothing.
pub proof fn law_resize_gives_the_size(s: Screen, cols: int, rows: int)
    requires
        s.wf(),
        0 <= cols,
        0 <= rows,
    ensures
        ({
            let after = s.resize(cols, rows);
            if cols == 0 || rows == 0 || (cols == s.cols && rows == s.rows) {
                after == s
            } else {
                &&& after.cols == cols && after.rows == rows
                &&& after.scroll_top == 0 && after.scroll_bottom == rows - 1
                &&& 0 <= after.cursor_row < rows
                &&& after.fg == s.fg && after.bg == s.bg
                &&& after.bold == s.bold && after.reverse == s.reverse
                &&& after.cursor_visible == s.cursor_visible
                &&& after.cursor_shape == s.cursor_shape
                &&& after.mouse_mode == s.mouse_mode && after.mouse_sgr == s.mouse_sgr
                &&& after.app_cursor_keys == s.app_cursor_keys
                &&& after.scrollback_max == s.scrollback_max
                &&& s.alt is None ==> after.view_offset == 0 && after.alt is None
                &&& s.alt is None ==> after.saved is None
                &&& s.alt is Some ==> after.view_offset == s.view_offset && after.saved == s.saved
                &&& s.alt is Some ==> after.scrollback == s.scrollback
                &&& after.dirty != s.dirty
            }
        }),
{
}

/// A resize of the alternate screen cuts or pads: what fits stays where it is,
/// the rest is blank, and the cursor comes onto the screen.
pub proof fn law_alternate_screen_is_cut_or_padded(
    s: Screen,
    cols: int,
    rows: int,
    row: int,
    col: int,
)
    requires
        s.wf(),
        s.alt is Some,
        0 < cols,
        0 < rows,
        cols != s.cols || rows != s.rows,
        0 <= row < rows,
        0 <= col < cols,
    ensures
        ({
            let after = s.resize(cols, rows);
            let kept = row < s.rows && col < s.cols;
            &&& after.lines.len() == rows && after.lines[row].cells.len() == cols
            &&& after.lines[row].cells[col] == if kept {
                s.lines[row].cells[col]
            } else {
                s.blank()
            }
            &&& after.alt is Some
            &&& after.alt->0.lines[row].cells[col] == if kept {
                s.alt->0.lines[row].cells[col]
            } else {
                Cell::empty()
            }
            &&& after.cursor_row == if s.cursor_row < rows { s.cursor_row } else { rows - 1 }
            &&& after.cursor_col == if s.cursor_col < cols { s.cursor_col } else { cols - 1 }
            &&& after.alt->0.cursor_row == s.alt->0.cursor_row
            &&& after.alt->0.cursor_col == s.alt->0.cursor_col
            &&& after.alt->0.fg == s.alt->0.fg && after.alt->0.bg == s.alt->0.bg
            &&& after.alt->0.main_saved == s.alt->0.main_saved
        }),
{
}

/// The content of the screen goes down to the cursor's row or the last row with
/// text, whichever is lower. What is below is blank.
pub proof fn law_content_ends_at_the_text_or_the_cursor(s: Screen, row: int, col: int)
    requires
        s.wf(),
        s.rows > 0,
        0 <= row < s.rows,
        0 <= col < s.cols,
    ensures
        ({
            let n = s.content().len() - s.scrollback.len();
            &&& s.content() == s.all_lines().take(s.content().len() as int)
            &&& s.cursor_row < n <= s.rows
            &&& row >= n ==> s.lines[row].cells[col] == Cell::empty()
            &&& n > s.cursor_row + 1 ==> exists|c: int|
                0 <= c < s.cols && #[trigger] s.lines[n - 1].cells[c] != Cell::empty()
        }),
{
    let n = s.content_rows();
    reflow::lemma_used_rows(s.lines);
    lemma_last_used_row(s.lines);
    assert(s.content() =~= s.all_lines().take(s.content().len() as int));
    if row >= n {
        assert(reflow::is_blank(s.lines[row].cells));
    }
    if n > s.cursor_row + 1 {
        assert(!reflow::is_blank(s.lines[n - 1].cells));
    }
}

proof fn lemma_last_used_row(lines: Seq<Line>)
    ensures
        reflow::used_rows(lines) > 0 ==> !reflow::is_blank(
            lines[reflow::used_rows(lines) - 1].cells,
        ),
    decreases lines.len(),
{
    if lines.len() > 0 && reflow::is_blank(lines.last().cells) {
        lemma_last_used_row(lines.drop_last());
        reflow::lemma_used_rows(lines.drop_last());
    }
}

/// After a resize of the main screen the last of the rewrapped rows are on the
/// screen, and those before them in the history, as many as it may hold. Rows are
/// blank at the end of the screen, and none in the history, when there are fewer
/// than the screen has.
pub proof fn law_last_rows_are_shown(s: Screen, cols: int, rows: int)
    requires
        s.wf(),
        s.alt is None,
        0 < cols,
        0 < rows,
        cols != s.cols || rows != s.rows,
    ensures
        ({
            let after = s.resize(cols, rows);
            let all = s.rewrapped(cols);
            &&& all.len() >= rows ==> after.lines == all.skip(all.len() - rows)
            &&& all.len() <= rows ==> {
                &&& after.scrollback.len() == 0
                &&& after.lines.take(all.len() as int) == all
                &&& forall|r: int, c: int|
                    all.len() <= r < rows && 0 <= c < cols ==> #[trigger] after.lines[r].cells[c]
                        == Cell::empty()
            }
            &&& all.len() >= rows ==> {
                let n = all.len() - rows;
                let history = if s.scrollback_max == 0 || n <= s.scrollback_max {
                    n
                } else {
                    s.scrollback_max
                };
                after.all_lines() == all.skip(n - history)
            }
        }),
{
    let after = s.resize(cols, rows);
    let all = s.rewrapped(cols);
    if all.len() >= rows {
        let n = all.len() - rows;
        let history = if s.scrollback_max == 0 || n <= s.scrollback_max {
            n
        } else {
            s.scrollback_max
        };
        assert(after.lines =~= all.skip(all.len() - rows));
        assert(after.all_lines() =~= all.skip(n - history));
    }
    if all.len() <= rows {
        assert(after.lines.take(all.len() as int) =~= all);
        assert(all.take(0).len() == 0);
    }
}

} // verus!
