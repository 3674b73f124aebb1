//! What holds of the grid as a whole.
//!
//! Each law is a proof function over the model: its parameters are what the law
//! speaks of, its `ensures` is the law.
use vstd::prelude::*;
use crate::grid::Cell;
use crate::reflow;
use crate::screen;
use crate::screen::{Line, Screen};
use crate::vt;
use crate::vt::{Charset, Event, Vt};

verus! {

// ---- the text that a resize keeps ----
/// The paragraphs without the empty ones at the end.
pub open spec fn without_empty_tail(paragraphs: Seq<Seq<Cell>>) -> Seq<Seq<Cell>>
    decreases paragraphs.len(),
{
    if paragraphs.len() > 0 && paragraphs.last().len() == 0 {
        without_empty_tail(paragraphs.drop_last())
    } else {
        paragraphs
    }
}

/// Each paragraph without the blanks at its end.
pub open spec fn trimmed_each(paragraphs: Seq<Seq<Cell>>) -> Seq<Seq<Cell>> {
    paragraphs.map_values(|p: Seq<Cell>| reflow::trim(p))
}

/// The text that the rows hold, whatever their width: its paragraphs, without
/// blanks at their ends and without empty paragraphs at the end.
pub open spec fn text(lines: Seq<Line>) -> Seq<Seq<Cell>> {
    let joined = reflow::join(lines);
    without_empty_tail(trimmed_each(joined.done.push(joined.open)))
}

proof fn lemma_trim_blanks(cells: Seq<Cell>, blanks: Seq<Cell>)
    requires
        reflow::is_blank(blanks),
    ensures
        reflow::trim(cells + blanks) == reflow::trim(cells),
    decreases blanks.len(),
{
    if blanks.len() == 0 {
        assert(cells + blanks =~= cells);
    } else {
        assert((cells + blanks).drop_last() =~= cells + blanks.drop_last());
        assert((cells + blanks).last() == blanks.last());
        lemma_trim_blanks(cells, blanks.drop_last());
    }
}

proof fn lemma_trim_splits(cells: Seq<Cell>)
    ensures
        reflow::trim(cells).len() <= cells.len(),
        reflow::is_blank(cells.skip(reflow::trim(cells).len() as int)),
        reflow::trim(cells) == cells.take(reflow::trim(cells).len() as int),
        cells == reflow::trim(cells) + cells.skip(reflow::trim(cells).len() as int),
    decreases cells.len(),
{
    let kept = reflow::trim(cells);
    if cells.len() > 0 && cells.last() == Cell::empty() {
        let shorter = cells.drop_last();
        lemma_trim_splits(shorter);
        assert forall|c: int| 0 <= c < cells.len() - kept.len() implies cells.skip(
            kept.len() as int,
        )[c] == Cell::empty() by {
            if c < shorter.len() - kept.len() {
                assert(cells.skip(kept.len() as int)[c] == shorter.skip(kept.len() as int)[c]);
            }
        }
        assert(shorter.take(kept.len() as int) =~= cells.take(kept.len() as int));
        assert(cells =~= kept + cells.skip(kept.len() as int));
    } else {
        assert(cells.take(kept.len() as int) =~= cells);
        assert(cells =~= kept + cells.skip(kept.len() as int));
    }
}

proof fn lemma_trim_tail_first(open: Seq<Cell>, cells: Seq<Cell>)
    ensures
        reflow::trim(open + reflow::trim(cells)) == reflow::trim(open + cells),
{
    let kept = reflow::trim(cells);
    let rest = cells.skip(kept.len() as int);
    lemma_trim_splits(cells);
    lemma_trim_blanks(open + kept, rest);
    assert((open + kept) + rest =~= open + cells);
}

proof fn lemma_blank_row_adds_no_text(lines: Seq<Line>, row: Line)
    requires
        reflow::is_blank(row.cells),
    ensures
        text(lines.push(row)) == text(lines),
{
    let joined = reflow::join(lines);
    let more = reflow::join(lines.push(row));
    assert(lines.push(row).drop_last() =~= lines);
    let before = trimmed_each(joined.done.push(joined.open));
    let after = trimmed_each(more.done.push(more.open));
    lemma_trim_blanks(joined.open, row.cells);
    if row.wrapped {
        assert(after =~= before);
    } else {
        lemma_trim_tail_first(joined.open, row.cells);
        assert(after.drop_last() =~= before);
        assert(after.last().len() == 0);
    }
}

proof fn lemma_blank_rows_add_no_text(lines: Seq<Line>, rows: Seq<Line>)
    requires
        forall|r: int| 0 <= r < rows.len() ==> reflow::is_blank((#[trigger] rows[r]).cells),
    ensures
        text(lines + rows) == text(lines),
    decreases rows.len(),
{
    if rows.len() == 0 {
        assert(lines + rows =~= lines);
    } else {
        lemma_blank_rows_add_no_text(lines, rows.drop_last());
        lemma_blank_row_adds_no_text(lines + rows.drop_last(), rows.last());
        assert((lines + rows.drop_last()).push(rows.last()) =~= lines + rows);
    }
}

/// The first `k` rows of a paragraph, read after whole paragraphs, are the
/// start of one more.
proof fn lemma_join_part(lines: Seq<Line>, cells: Seq<Cell>, cols: int, k: int)
    requires
        cols > 0,
        reflow::join(lines).open.len() == 0,
        0 <= k < reflow::row_count(cells.len() as int, cols),
    ensures
        reflow::join(lines + reflow::split(cells, cols).take(k)) == (reflow::Joined {
            done: reflow::join(lines).done,
            open: cells.take(k * cols),
        }),
        0 <= k * cols <= cells.len(),
    decreases k,
{
    let rows = reflow::split(cells, cols);
    if k == 0 {
        assert(lines + rows.take(0) =~= lines);
        assert(0 * cols == 0) by (nonlinear_arith);
        assert(reflow::join(lines).open =~= cells.take(0));
    } else {
        lemma_join_part(lines, cells, cols, k - 1);
        reflow::lemma_row_count(cells.len() as int, cols, k);
        let all = lines + rows.take(k);
        assert(all.drop_last() =~= lines + rows.take(k - 1));
        assert(all.last() == rows[k - 1]);
        assert((k - 1) * cols + cols == k * cols) by (nonlinear_arith);
        assert(cells.take((k - 1) * cols) + rows[k - 1].cells =~= cells.take(k * cols));
    }
}

/// A paragraph split into rows and read back is the paragraph, but for blanks
/// at its end.
proof fn lemma_join_split(lines: Seq<Line>, cells: Seq<Cell>, cols: int)
    requires
        cols > 0,
        reflow::join(lines).open.len() == 0,
    ensures
        ({
            let read = reflow::join(lines + reflow::split(cells, cols));
            &&& read.open.len() == 0
            &&& read.done.len() == reflow::join(lines).done.len() + 1
            &&& read.done.drop_last() == reflow::join(lines).done
            &&& reflow::trim(read.done.last()) == reflow::trim(cells)
        }),
{
    let n = reflow::row_count(cells.len() as int, cols);
    let rows = reflow::split(cells, cols);
    if cells.len() > 0 {
        reflow::lemma_row_count(cells.len() as int, cols, 0);
        reflow::lemma_row_count(cells.len() as int, cols, n - 1);
        reflow::lemma_row_count(cells.len() as int, cols, n);
    }
    lemma_join_part(lines, cells, cols, n - 1);
    let all = lines + rows;
    assert(all.drop_last() =~= lines + rows.take(n - 1));
    assert(all.last() == rows[n - 1]);
    let open = cells.take((n - 1) * cols);
    let last = rows[n - 1].cells;
    lemma_trim_tail_first(open, last);
    assert((n - 1) * cols + cols == n * cols) by (nonlinear_arith);
    let padding = (open + last).skip(cells.len() as int);
    assert(open + last =~= cells + padding) by {
        if cells.len() == 0 {
            assert((n - 1) * cols == 0) by (nonlinear_arith)
                requires
                    n == 1,
            ;
        }
    }
    assert(reflow::is_blank(padding));
    lemma_trim_blanks(cells, padding);
    assert(reflow::join(all).done.drop_last() =~= reflow::join(lines).done);
}

/// Paragraphs wrapped and read back are the paragraphs, but for blanks at their
/// ends.
proof fn lemma_join_wrap(paragraphs: Seq<Seq<Cell>>, cols: int)
    requires
        cols > 0,
    ensures
        reflow::join(reflow::wrap(paragraphs, cols)).open.len() == 0,
        trimmed_each(reflow::join(reflow::wrap(paragraphs, cols)).done) == trimmed_each(
            paragraphs,
        ),
    decreases paragraphs.len(),
{
    let read = reflow::join(reflow::wrap(paragraphs, cols)).done;
    if paragraphs.len() > 0 {
        let fewer = paragraphs.drop_last();
        lemma_join_wrap(fewer, cols);
        lemma_join_split(reflow::wrap(fewer, cols), paragraphs.last(), cols);
        let before = reflow::join(reflow::wrap(fewer, cols)).done;
        assert(trimmed_each(before).len() == trimmed_each(fewer).len());
        assert forall|i: int| 0 <= i < paragraphs.len() implies trimmed_each(read)[i]
            == trimmed_each(paragraphs)[i] by {
            if i < fewer.len() {
                assert(trimmed_each(before)[i] == trimmed_each(fewer)[i]);
                assert(read.drop_last()[i] == before[i]);
            }
        }
        assert(trimmed_each(read) =~= trimmed_each(paragraphs));
    } else {
        assert(trimmed_each(read) =~= trimmed_each(paragraphs));
    }
}

/// The padding up to the cursor is no text.
proof fn lemma_padding_is_no_text(s: Screen)
    requires
        s.wf(),
    ensures
        trimmed_each(s.padded_paragraphs()) == trimmed_each(s.paragraphs()),
{
    if s.rows > 0 {
        reflow::lemma_cursor_paragraph(s);
        let (p, offset) = s.cursor_place();
        let cells = s.paragraphs()[p];
        let padding = reflow::padded(cells, offset + 1).skip(cells.len() as int);
        assert(reflow::padded(cells, offset + 1) =~= cells + padding);
        lemma_trim_blanks(cells, padding);
        assert(trimmed_each(s.padded_paragraphs()) =~= trimmed_each(s.paragraphs()));
    }
}

proof fn lemma_rewrapped_text(s: Screen, cols: int)
    requires
        s.wf(),
        cols > 0,
    ensures
        text(s.rewrapped(cols)) == text(s.all_lines()),
{
    let content = s.content();
    let joined = reflow::join(content);
    let paragraphs = s.paragraphs();
    let full = joined.done.push(joined.open);
    // Blank rows below the content hold no text.
    reflow::lemma_used_rows(s.lines);
    let below = s.lines.skip(s.content_rows());
    assert(s.all_lines() =~= content + below);
    assert forall|r: int| 0 <= r < below.len() implies reflow::is_blank(
        (#[trigger] below[r]).cells,
    ) by {
        assert(below[r] == s.lines[s.content_rows() + r]);
    }
    lemma_blank_rows_add_no_text(content, below);
    // Nor does an empty last paragraph.
    assert(without_empty_tail(trimmed_each(full)) == without_empty_tail(
        trimmed_each(paragraphs),
    )) by {
        if joined.open.len() == 0 {
            assert(trimmed_each(full).drop_last() =~= trimmed_each(joined.done));
            assert(trimmed_each(full).last().len() == 0);
        }
    }
    lemma_padding_is_no_text(s);
    let rows = reflow::wrap(s.padded_paragraphs(), cols);
    let read = reflow::join(rows);
    lemma_join_wrap(s.padded_paragraphs(), cols);
    assert(text(rows) == without_empty_tail(trimmed_each(paragraphs))) by {
        let all = trimmed_each(read.done.push(read.open));
        assert(all.drop_last() =~= trimmed_each(read.done));
        assert(all.last().len() == 0);
    }
    if rows.len() == 0 {
        let blank = screen::blank_line(cols, Cell::empty());
        lemma_blank_row_adds_no_text(rows, blank);
        assert(rows.push(blank) =~= s.rewrapped(cols));
    }
}

/// Resizing the main screen keeps the text: whatever the new size, the
/// paragraphs of the history and the screen together are the same before and
/// after. (A bounded history drops its oldest rows; here it has room.)
pub proof fn law_resize_keeps_text(s: Screen, cols: int, rows: int)
    requires
        s.wf(),
        s.alt is None,
        0 <= cols,
        0 <= rows,
        s.scrollback_max == 0 || s.first_shown(cols, rows) <= s.scrollback_max,
    ensures
        text(s.resize(cols, rows).all_lines()) == text(s.all_lines()),
{
    let after = s.resize(cols, rows);
    if after != s {
        let all = s.rewrapped(cols);
        let start = s.first_shown(cols, rows);
        let padding = screen::blank_lines(rows - (all.len() - start), cols, Cell::empty());
        lemma_rewrapped_text(s, cols);
        lemma_blank_rows_add_no_text(all, padding);
        assert(after.all_lines() =~= all + padding);
    }
}

/// Fewer paragraphs take the first of the rows that more of them take.
proof fn lemma_wrap_prefix(paragraphs: Seq<Seq<Cell>>, p: int, cols: int)
    requires
        0 <= p <= paragraphs.len(),
    ensures
        reflow::wrap(paragraphs.take(p), cols).len() <= reflow::wrap(paragraphs, cols).len(),
        reflow::wrap(paragraphs, cols).take(reflow::wrap(paragraphs.take(p), cols).len() as int)
            == reflow::wrap(paragraphs.take(p), cols),
    decreases paragraphs.len() - p,
{
    let few = reflow::wrap(paragraphs.take(p), cols);
    let all = reflow::wrap(paragraphs, cols);
    if p == paragraphs.len() {
        assert(paragraphs.take(p) =~= paragraphs);
        assert(all.take(few.len() as int) =~= few);
    } else {
        lemma_wrap_prefix(paragraphs, p + 1, cols);
        let one_more = reflow::wrap(paragraphs.take(p + 1), cols);
        assert(paragraphs.take(p + 1).drop_last() =~= paragraphs.take(p));
        assert(one_more == few + reflow::split(paragraphs[p], cols));
        assert(all.take(few.len() as int) =~= all.take(one_more.len() as int).take(
            few.len() as int,
        ));
        assert(one_more.take(few.len() as int) =~= few);
    }
}

/// Resizing the main screen leaves the cursor at its place in the text, that
/// is, in the same paragraph and at the same offset within it, wherever the row
/// it is then on is not above the new screen.
pub proof fn law_resize_keeps_cursor(s: Screen, cols: int, rows: int)
    requires
        s.wf(),
        s.alt is None,
        s.rows > 0,
        0 <= cols,
        0 <= rows,
        s.scrollback_max == 0 || s.first_shown(cols, rows) <= s.scrollback_max,
        s.resize(cols, rows) == s || s.rewrapped_cursor(cols).0 >= s.first_shown(cols, rows),
    ensures
        s.resize(cols, rows).cursor_place() == s.cursor_place(),
{
    let after = s.resize(cols, rows);
    if after != s {
        let (p, offset) = s.cursor_place();
        let paragraphs = s.padded_paragraphs();
        let all = s.rewrapped(cols);
        let start = s.first_shown(cols, rows);
        reflow::lemma_cursor_paragraph(s);
        let before = reflow::wrap(paragraphs.take(p), cols);
        let cells = paragraphs[p];
        let k = offset / cols;
        assert(cells.len() > offset);
        reflow::lemma_row_of_offset(cells.len() as int, cols, offset);
        // The cursor's row follows the rows of the paragraphs before its own.
        lemma_wrap_prefix(paragraphs, p + 1, cols);
        let through = reflow::wrap(paragraphs.take(p + 1), cols);
        assert(paragraphs.take(p + 1).drop_last() =~= paragraphs.take(p));
        assert(through == before + reflow::split(cells, cols));
        let row = before.len() + k;
        assert(s.rewrapped_cursor(cols) == (row as int, offset % cols));
        let padding = screen::blank_lines(rows - (all.len() - start), cols, Cell::empty());
        assert(after.all_lines() =~= all + padding);
        assert(after.scrollback.len() + after.cursor_row == row);
        assert(after.all_lines().take(row as int) =~= all.take(through.len() as int).take(
            row as int,
        ));
        assert(through.take(row as int) =~= before + reflow::split(cells, cols).take(k));
        lemma_join_wrap(paragraphs.take(p), cols);
        assert(trimmed_each(reflow::join(before).done).len() == trimmed_each(
            paragraphs.take(p),
        ).len());
        lemma_join_part(before, cells, cols, k);
    }
}

// ---- what a resize keeps, cell by cell ----
/// The cells that are not empty, in order.
pub open spec fn ink_in(cells: Seq<Cell>) -> Seq<Cell>
    decreases cells.len(),
{
    if cells.len() == 0 {
        Seq::empty()
    } else if cells.last() == Cell::empty() {
        ink_in(cells.drop_last())
    } else {
        ink_in(cells.drop_last()).push(cells.last())
    }
}

/// The cells of the rows that are not empty, in reading order.
pub open spec fn ink(lines: Seq<Line>) -> Seq<Cell>
    decreases lines.len(),
{
    if lines.len() == 0 {
        Seq::empty()
    } else {
        ink(lines.drop_last()) + ink_in(lines.last().cells)
    }
}

spec fn ink_of_all(paragraphs: Seq<Seq<Cell>>) -> Seq<Cell>
    decreases paragraphs.len(),
{
    if paragraphs.len() == 0 {
        Seq::empty()
    } else {
        ink_of_all(paragraphs.drop_last()) + ink_in(paragraphs.last())
    }
}

proof fn lemma_ink_joins(a: Seq<Cell>, b: Seq<Cell>)
    ensures
        ink_in(a + b) == ink_in(a) + ink_in(b),
    decreases b.len(),
{
    if b.len() == 0 {
        assert(a + b =~= a);
        assert(ink_in(a) + ink_in(b) =~= ink_in(a));
    } else {
        lemma_ink_joins(a, b.drop_last());
        assert((a + b).drop_last() =~= a + b.drop_last());
        assert((a + b).last() == b.last());
        assert(ink_in(a + b) =~= ink_in(a) + ink_in(b));
    }
}

proof fn lemma_ink_of_trimmed(cells: Seq<Cell>)
    ensures
        ink_in(reflow::trim(cells)) == ink_in(cells),
    decreases cells.len(),
{
    if cells.len() > 0 && cells.last() == Cell::empty() {
        lemma_ink_of_trimmed(cells.drop_last());
    }
}

proof fn lemma_ink_of_blanks(cells: Seq<Cell>)
    requires
        reflow::is_blank(cells),
    ensures
        ink_in(cells) == Seq::<Cell>::empty(),
    decreases cells.len(),
{
    if cells.len() > 0 {
        lemma_ink_of_blanks(cells.drop_last());
    }
}

proof fn lemma_ink_of_joined(lines: Seq<Line>)
    ensures
        ink_of_all(reflow::join(lines).done) + ink_in(reflow::join(lines).open) == ink(lines),
    decreases lines.len(),
{
    let now = reflow::join(lines);
    if lines.len() > 0 {
        let before = reflow::join(lines.drop_last());
        let row = lines.last();
        lemma_ink_of_joined(lines.drop_last());
        if row.wrapped {
            lemma_ink_joins(before.open, row.cells);
        } else {
            lemma_ink_joins(before.open, reflow::trim(row.cells));
            lemma_ink_of_trimmed(row.cells);
            assert(now.done.drop_last() =~= before.done);
            assert(now.open =~= Seq::<Cell>::empty());
        }
        assert(ink_of_all(now.done) + ink_in(now.open) =~= ink(lines));
    } else {
        assert(ink_of_all(now.done) + ink_in(now.open) =~= ink(lines));
    }
}

proof fn lemma_ink_by_trimmed(a: Seq<Seq<Cell>>, b: Seq<Seq<Cell>>)
    requires
        trimmed_each(a) == trimmed_each(b),
    ensures
        ink_of_all(a) == ink_of_all(b),
    decreases a.len(),
{
    assert(trimmed_each(a).len() == a.len() && trimmed_each(b).len() == b.len());
    if a.len() > 0 {
        let (x, y) = (a.drop_last(), b.drop_last());
        assert forall|i: int| 0 <= i < x.len() implies trimmed_each(x)[i] == trimmed_each(y)[i] by {
            assert(trimmed_each(a)[i] == trimmed_each(b)[i]);
        }
        assert(trimmed_each(x) =~= trimmed_each(y));
        lemma_ink_by_trimmed(x, y);
        assert(trimmed_each(a)[a.len() - 1] == trimmed_each(b)[b.len() - 1]);
        lemma_ink_of_trimmed(a.last());
        lemma_ink_of_trimmed(b.last());
    }
}

proof fn lemma_blank_rows_add_no_ink(lines: Seq<Line>, rows: Seq<Line>)
    requires
        forall|r: int| 0 <= r < rows.len() ==> reflow::is_blank((#[trigger] rows[r]).cells),
    ensures
        ink(lines + rows) == ink(lines),
    decreases rows.len(),
{
    if rows.len() == 0 {
        assert(lines + rows =~= lines);
    } else {
        lemma_blank_rows_add_no_ink(lines, rows.drop_last());
        assert((lines + rows).drop_last() =~= lines + rows.drop_last());
        assert((lines + rows).last() == rows.last());
        lemma_ink_of_blanks(rows.last().cells);
        assert(ink(lines) + Seq::<Cell>::empty() =~= ink(lines));
    }
}

proof fn lemma_rewrapped_ink(s: Screen, cols: int)
    requires
        s.wf(),
        cols > 0,
    ensures
        ink(s.rewrapped(cols)) == ink(s.all_lines()),
{
    let content = s.content();
    let joined = reflow::join(content);
    reflow::lemma_used_rows(s.lines);
    let below = s.lines.skip(s.content_rows());
    assert(s.all_lines() =~= content + below);
    assert forall|r: int| 0 <= r < below.len() implies reflow::is_blank(
        (#[trigger] below[r]).cells,
    ) by {
        assert(below[r] == s.lines[s.content_rows() + r]);
    }
    lemma_blank_rows_add_no_ink(content, below);
    lemma_ink_of_joined(content);
    assert(ink_of_all(s.paragraphs()) == ink(content)) by {
        assert(joined.done.push(joined.open).drop_last() =~= joined.done);
        if joined.open.len() == 0 {
            assert(ink_of_all(joined.done) + ink_in(joined.open) =~= ink_of_all(joined.done));
        }
    }
    lemma_padding_is_no_text(s);
    lemma_ink_by_trimmed(s.padded_paragraphs(), s.paragraphs());
    let rows = reflow::wrap(s.padded_paragraphs(), cols);
    lemma_join_wrap(s.padded_paragraphs(), cols);
    lemma_ink_by_trimmed(reflow::join(rows).done, s.padded_paragraphs());
    lemma_ink_of_joined(rows);
    assert(ink_in(reflow::join(rows).open) =~= Seq::<Cell>::empty());
    assert(ink_of_all(reflow::join(rows).done) + Seq::<Cell>::empty() =~= ink_of_all(
        reflow::join(rows).done,
    ));
    if rows.len() == 0 {
        let blank = seq![screen::blank_line(cols, Cell::empty())];
        lemma_blank_rows_add_no_ink(rows, blank);
        assert(rows + blank =~= s.rewrapped(cols));
    }
}

/// Resizing the main screen loses no character, adds none and keeps them in
/// reading order, each in its colors. (A bounded history drops its oldest rows;
/// here it has room.)
pub proof fn law_resize_keeps_every_character(s: Screen, cols: int, rows: int)
    requires
        s.wf(),
        s.alt is None,
        0 <= cols,
        0 <= rows,
        s.scrollback_max == 0 || s.first_shown(cols, rows) <= s.scrollback_max,
    ensures
        ink(s.resize(cols, rows).all_lines()) == ink(s.all_lines()),
{
    let after = s.resize(cols, rows);
    if after != s {
        let all = s.rewrapped(cols);
        let start = s.first_shown(cols, rows);
        let padding = screen::blank_lines(rows - (all.len() - start), cols, Cell::empty());
        lemma_rewrapped_ink(s, cols);
        lemma_blank_rows_add_no_ink(all, padding);
        assert(after.all_lines() =~= all + padding);
    }
}

/// Where the cell at a row and column is in its paragraph, once the rows up to
/// `m` are read.
proof fn lemma_cell_in_paragraph(lines: Seq<Line>, at: int, col: int, m: int)
    requires
        0 <= at < m <= lines.len(),
        0 <= col < lines[at].cells.len(),
    ensures
        ({
            let before = reflow::join(lines.take(at));
            let now = reflow::join(lines.take(m));
            let p = before.done.len() as int;
            let offset = before.open.len() + col;
            let cell = lines[at].cells[col];
            &&& p <= now.done.len()
            &&& p == now.done.len() ==> offset < now.open.len() && now.open[offset] == cell
            &&& p < now.done.len() ==> if offset < now.done[p].len() {
                now.done[p][offset] == cell
            } else {
                cell == Cell::empty()
            }
        }),
    decreases m,
{
    let before = reflow::join(lines.take(at));
    let offset = before.open.len() + col;
    assert(lines.take(m).drop_last() =~= lines.take(m - 1));
    assert(lines.take(m).last() == lines[m - 1]);
    if m == at + 1 {
        lemma_trim_splits(lines[at].cells);
        let kept = reflow::trim(lines[at].cells);
        if col >= kept.len() {
            let rest = lines[at].cells.skip(kept.len() as int);
            assert(rest[col - kept.len()] == lines[at].cells[col]);
        }
    } else {
        lemma_cell_in_paragraph(lines, at, col, m - 1);
    }
}

/// The cell under the cursor stays under it when the main screen is resized,
/// wherever the row it is then on is not above the new screen.
pub proof fn law_resize_keeps_the_cell_under_the_cursor(s: Screen, cols: int, rows: int)
    requires
        s.wf(),
        s.alt is None,
        s.rows > 0,
        s.cursor_col < s.cols,
        0 < cols,
        0 < rows,
        s.resize(cols, rows) == s || s.rewrapped_cursor(cols).0 >= s.first_shown(cols, rows),
    ensures
        ({
            let after = s.resize(cols, rows);
            &&& after.cursor_col < after.cols
            &&& after.lines[after.cursor_row].cells[after.cursor_col]
                == s.lines[s.cursor_row].cells[s.cursor_col]
        }),
{
    let after = s.resize(cols, rows);
    if after != s {
        let content = s.content();
        let at = s.scrollback.len() + s.cursor_row;
        let (p, offset) = s.cursor_place();
        let paragraphs = s.padded_paragraphs();
        reflow::lemma_used_rows(s.lines);
        reflow::lemma_cursor_paragraph(s);
        assert(s.all_lines().take(at) =~= content.take(at));
        assert(content[at] == s.lines[s.cursor_row]);
        lemma_cell_in_paragraph(content, at, s.cursor_col, content.len() as int);
        assert(content.take(content.len() as int) =~= content);
        let cells = paragraphs[p];
        assert(cells.len() > offset);
        assert(cells[offset] == s.lines[s.cursor_row].cells[s.cursor_col]);
        let k = offset / cols;
        reflow::lemma_row_of_offset(cells.len() as int, cols, offset);
        let before = reflow::wrap(paragraphs.take(p), cols);
        lemma_wrap_prefix(paragraphs, p + 1, cols);
        let through = reflow::wrap(paragraphs.take(p + 1), cols);
        assert(paragraphs.take(p + 1).drop_last() =~= paragraphs.take(p));
        assert(through == before + reflow::split(cells, cols));
        let row = before.len() + k;
        let all = s.rewrapped(cols);
        let start = s.first_shown(cols, rows);
        assert(s.rewrapped_cursor(cols) == (row as int, offset % cols));
        assert(all.take(through.len() as int)[row as int] == through[row as int]);
        assert(all[row as int] == reflow::split(cells, cols)[k]);
        assert(all[row as int].cells[offset % cols] == cells[offset]);
        assert(after.cursor_row == row - start);
        assert(after.lines[after.cursor_row] == all[row as int]);
    }
}

/// Rows that do not run on are paragraphs of their own.
proof fn lemma_join_of_hard_breaks(lines: Seq<Line>)
    requires
        forall|r: int| 0 <= r < lines.len() ==> !(#[trigger] lines[r]).wrapped,
    ensures
        reflow::join(lines).open.len() == 0,
        reflow::join(lines).done.len() == lines.len(),
        forall|r: int|
            0 <= r < lines.len() ==> #[trigger] reflow::join(lines).done[r] == reflow::trim(
                lines[r].cells,
            ),
    decreases lines.len(),
{
    if lines.len() > 0 {
        let fewer = lines.drop_last();
        lemma_join_of_hard_breaks(fewer);
        let before = reflow::join(fewer);
        assert(before.open + reflow::trim(lines.last().cells) =~= reflow::trim(
            lines.last().cells,
        ));
        assert forall|r: int| 0 <= r < lines.len() implies #[trigger] reflow::join(lines).done[r]
            == reflow::trim(lines[r].cells) by {
            if r < fewer.len() {
                assert(fewer[r] == lines[r]);
                assert(reflow::join(lines).done[r] == before.done[r]);
            }
        }
    }
}

/// Paragraphs that fit take one row each.
proof fn lemma_wrap_of_short(paragraphs: Seq<Seq<Cell>>, cols: int)
    requires
        cols > 0,
        forall|r: int| 0 <= r < paragraphs.len() ==> (#[trigger] paragraphs[r]).len() <= cols,
    ensures
        reflow::wrap(paragraphs, cols).len() == paragraphs.len(),
        forall|r: int|
            0 <= r < paragraphs.len() ==> #[trigger] reflow::wrap(paragraphs, cols)[r]
                == reflow::split(paragraphs[r], cols)[0],
    decreases paragraphs.len(),
{
    if paragraphs.len() > 0 {
        let fewer = paragraphs.drop_last();
        lemma_wrap_of_short(fewer, cols);
        let last = paragraphs.last();
        assert(last.len() <= cols);
        assert(reflow::row_count(last.len() as int, cols) == 1) by {
            if last.len() > 0 {
                assert((last.len() + cols - 1) / cols == 1) by (nonlinear_arith)
                    requires
                        0 < last.len() <= cols,
                ;
            }
        }
        assert forall|r: int| 0 <= r < paragraphs.len() implies #[trigger] reflow::wrap(
            paragraphs,
            cols,
        )[r] == reflow::split(paragraphs[r], cols)[0] by {
            if r < fewer.len() {
                assert(fewer[r] == paragraphs[r]);
                assert(reflow::wrap(paragraphs, cols)[r] == reflow::wrap(fewer, cols)[r]);
            }
        }
    }
}

/// The text of a row fits into this many columns.
pub open spec fn fits(line: Line, cols: int) -> bool {
    forall|c: int| cols <= c < line.cells.len() ==> line.cells[c] == Cell::empty()
}

proof fn lemma_trim_of_fitting(line: Line, cols: int)
    requires
        fits(line, cols),
        cols >= 0,
    ensures
        reflow::trim(line.cells).len() <= cols,
{
    let kept = reflow::trim(line.cells);
    lemma_trim_splits(line.cells);
    if kept.len() > cols {
        assert(kept.last() == line.cells[kept.len() - 1]);
        lemma_trim_ends_in_ink(line.cells);
    }
}

proof fn lemma_trim_ends_in_ink(cells: Seq<Cell>)
    ensures
        reflow::trim(cells).len() > 0 ==> reflow::trim(cells).last() != Cell::empty(),
    decreases cells.len(),
{
    if cells.len() > 0 && cells.last() == Cell::empty() {
        lemma_trim_ends_in_ink(cells.drop_last());
    }
}

/// Rows that were ended by newlines stay rows of their own: where none runs on
/// and all fit into the new width, each keeps its place and its cells, and the
/// columns that come in are empty.
pub proof fn law_resize_keeps_hard_breaks(s: Screen, cols: int, row: int, col: int)
    requires
        s.wf(),
        s.rows > 0,
        0 < cols,
        s.cursor_col < cols,
        forall|r: int|
            0 <= r < s.content().len() ==> !(#[trigger] s.content()[r]).wrapped && fits(
                s.content()[r],
                cols,
            ),
        0 <= row < s.content().len(),
        0 <= col < cols,
    ensures
        s.rewrapped(cols).len() == s.content().len(),
        !s.rewrapped(cols)[row].wrapped,
        s.rewrapped(cols)[row].cells[col] == if col < s.content()[row].cells.len() {
            s.content()[row].cells[col]
        } else {
            Cell::empty()
        },
        s.rewrapped_cursor(cols) == (s.scrollback.len() + s.cursor_row, s.cursor_col),
{
    let content = s.content();
    let at = s.scrollback.len() + s.cursor_row;
    reflow::lemma_used_rows(s.lines);
    reflow::lemma_cursor_paragraph(s);
    lemma_join_of_hard_breaks(content);
    let head = content.take(at);
    assert(s.all_lines().take(at) =~= head);
    assert forall|r: int| 0 <= r < head.len() implies !(#[trigger] head[r]).wrapped by {
        assert(head[r] == content[r]);
    }
    lemma_join_of_hard_breaks(head);
    assert(s.cursor_place() == (at as int, s.cursor_col));
    let paragraphs = s.padded_paragraphs();
    assert(s.paragraphs() == reflow::join(content).done);
    assert forall|r: int| 0 <= r < paragraphs.len() implies (#[trigger] paragraphs[r]).len()
        <= cols by {
        assert(!content[r].wrapped);
        lemma_trim_of_fitting(content[r], cols);
        assert(s.paragraphs()[r] == reflow::trim(content[r].cells));
    }
    lemma_wrap_of_short(paragraphs, cols);
    assert(reflow::wrap(paragraphs, cols)[row] == reflow::split(paragraphs[row], cols)[0]);
    let cells = paragraphs[row];
    lemma_trim_splits(content[row].cells);
    let kept = reflow::trim(content[row].cells);
    assert(s.paragraphs()[row] == kept);
    if kept.len() <= col < content[row].cells.len() {
        let rest = content[row].cells.skip(kept.len() as int);
        assert(rest[col - kept.len()] == content[row].cells[col]);
    }
    assert(0 * cols == 0) by (nonlinear_arith);
    assert(cells.len() <= cols);
    assert(reflow::row_count(cells.len() as int, cols) == 1) by {
        if cells.len() > 0 {
            assert((cells.len() + cols - 1) / cols == 1) by (nonlinear_arith)
                requires
                    0 < cells.len() <= cols,
            ;
        }
    }
    let few = paragraphs.take(at as int);
    assert forall|r: int| 0 <= r < few.len() implies (#[trigger] few[r]).len() <= cols by {
        assert(few[r] == paragraphs[r]);
    }
    lemma_wrap_of_short(few, cols);
    assert(s.cursor_col / cols == 0 && s.cursor_col % cols == s.cursor_col) by (nonlinear_arith)
        requires
            0 <= s.cursor_col < cols,
    ;
}

/// A row that is too long is cut into rows of the new width, one after the
/// other: character `k` of a paragraph is in row `k / cols` and column
/// `k % cols` of them, and each of these rows but the last runs on.
pub proof fn law_paragraphs_are_cut_in_order(cells: Seq<Cell>, cols: int, k: int)
    requires
        cols > 0,
        0 <= k < cells.len(),
    ensures
        ({
            let rows = reflow::split(cells, cols);
            &&& (rows.len() - 1) * cols < cells.len() <= rows.len() * cols
            &&& rows[k / cols].cells.len() == cols
            &&& rows[k / cols].cells[k % cols] == cells[k]
            &&& rows[k / cols].wrapped == (k / cols + 1 < rows.len())
        }),
{
    let n = reflow::row_count(cells.len() as int, cols);
    reflow::lemma_row_of_offset(cells.len() as int, cols, k);
    reflow::lemma_row_count(cells.len() as int, cols, n - 1);
    reflow::lemma_row_count(cells.len() as int, cols, n);
}

// ---- history ----
/// Logical rows are stable under scrolling: when the whole screen scrolls up by
/// `n`, every row keeps its number (the history has room), and `n` fresh rows
/// follow.
pub proof fn law_scrolling_keeps_logical_rows(s: Screen, n: int)
    requires
        s.wf(),
        s.alt is None,
        s.region_is_full(),
        0 <= n <= s.rows,
        s.scrollback_max == 0 || s.scrollback.len() + n <= s.scrollback_max,
    ensures
        s.scroll_up(n).all_lines() == s.all_lines() + screen::blank_lines(
            n,
            s.cols,
            s.blank(),
        ),
        s.scroll_up(n).scrollback == s.scrollback + s.lines.take(n),
{
    let after = s.scroll_up(n);
    assert(s.lines.subrange(0, n) =~= s.lines.take(n));
    assert(after.all_lines() =~= s.all_lines() + screen::blank_lines(n, s.cols, s.blank()));
}

/// A line feed on the last row adds one logical row and leaves every other where
/// it was (the history is not bounded).
pub proof fn law_linefeed_keeps_logical_rows(s: Screen, logical: int, col: int)
    requires
        s.wf(),
        s.alt is None,
        s.scrollback_max == 0,
        s.region_is_full(),
        s.rows > 0,
        s.cursor_row == s.rows - 1,
        0 <= logical < s.all_lines().len(),
    ensures
        s.linefeed().all_lines().len() == s.linefeed().scrollback.len() + s.linefeed().rows,
        s.linefeed().all_lines().len() == s.all_lines().len() + 1,
        s.linefeed().logical_cell(logical, col) == s.logical_cell(logical, col),
        s.linefeed().logical_row_wrapped(logical) == s.logical_row_wrapped(logical),
{
    law_scrolling_keeps_logical_rows(s, 1);
    assert(s.linefeed().all_lines() =~= s.scroll_up(1).all_lines());
    assert(s.linefeed().all_lines()[logical] == s.all_lines()[logical]);
}

/// The cursor is in view just when its row is, and the view then shows the
/// cursor's cell where it says that the cursor is.
pub proof fn law_visible_cursor_is_on_its_cell(s: Screen)
    requires
        s.wf(),
        s.rows > 0,
    ensures
        s.visible_cursor() is None <==> s.cursor_row + s.view_offset >= s.rows,
        s.visible_cursor() matches Some((row, col)) ==> {
            &&& row == s.cursor_row + s.view_offset
            &&& col == s.cursor_col
            &&& col < s.cols ==> s.visible_cell(row, col) == s.lines[s.cursor_row].cells[col]
        },
{
}

/// A view that is scrolled up stays anchored: it shows the same rows after the
/// screen has scrolled as before.
pub proof fn law_scrolled_view_stays(s: Screen, n: int, view_row: int)
    requires
        s.wf(),
        s.alt is None,
        s.region_is_full(),
        0 <= n <= s.rows,
        s.scrollback_max == 0 || s.scrollback.len() + n <= s.scrollback_max,
        s.view_offset > 0,
        0 <= view_row < s.rows,
    ensures
        s.scroll_up(n).view_to_logical(view_row) == s.view_to_logical(view_row),
        s.scroll_up(n).all_lines()[s.scroll_up(n).view_to_logical(view_row)]
            == s.all_lines()[s.view_to_logical(view_row)],
{
    law_scrolling_keeps_logical_rows(s, n);
}

/// A view of the live screen stays on it.
pub proof fn law_live_view_stays_live(s: Screen, n: int)
    requires
        s.wf(),
        s.view_offset == 0,
        n >= 0,
    ensures
        s.scroll_up(n).view_offset == 0,
        s.linefeed().view_offset == 0,
        s.rows > 0 ==> forall|row: int|
            0 <= row < s.rows ==> #[trigger] s.all_lines()[s.view_to_logical(row)] == s.lines[row],
{
}

/// An unbounded history loses nothing, a bounded one keeps the newest rows.
pub proof fn law_history_keeps_the_newest(s: Screen, n: int)
    requires
        s.wf(),
        s.alt is None,
        s.region_is_full(),
        0 <= n <= s.rows,
    ensures
        ({
            let all = s.scrollback + s.lines.take(n);
            let kept = s.scroll_up(n).scrollback;
            if s.scrollback_max == 0 {
                kept == all
            } else {
                kept.len() == screen::lesser(all.len() as int, s.scrollback_max) && kept
                    == all.skip(all.len() - kept.len())
            }
        }),
{
    assert(s.lines.subrange(0, n) =~= s.lines.take(n));
    let all = s.scrollback + s.lines.take(n);
    assert(all.skip(0) =~= all);
}

/// Scrolling a region that is not the whole screen moves nothing outside it and
/// leaves the history as it is.
pub proof fn law_partial_region_is_contained(s: Screen, n: int, row: int)
    requires
        s.wf(),
        s.rows > 0,
        n >= 0,
        !s.region_is_full(),
        0 <= row < s.scroll_top || s.scroll_bottom < row < s.rows,
    ensures
        s.scroll_up(n).lines[row] == s.lines[row],
        s.scroll_down(n).lines[row] == s.lines[row],
        s.linefeed().lines[row] == s.lines[row],
        s.insert_lines(n).lines[row] == s.lines[row],
        s.delete_lines(n).lines[row] == s.lines[row],
        s.scroll_up(n).scrollback == s.scrollback,
        s.scroll_down(n).scrollback == s.scrollback,
        s.linefeed().scrollback == s.scrollback,
        s.insert_lines(n).scrollback == s.scrollback,
        s.delete_lines(n).scrollback == s.scrollback,
{
}

// ---- the alternate screen ----
/// What happens on the alternate screen touches neither the history nor the
/// main screen that was put aside.
pub proof fn law_alt_screen_is_transient(s: Screen, ch: char, n: int)
    requires
        s.wf(),
        s.rows > 0,
        s.cols > 0,
        s.alt is Some,
        n >= 0,
    ensures
        s.put_char(ch).scrollback == s.scrollback && s.put_char(ch).alt == s.alt,
        s.linefeed().scrollback == s.scrollback && s.linefeed().alt == s.alt,
        s.scroll_up(n).scrollback == s.scrollback && s.scroll_up(n).alt == s.alt,
        s.scroll_down(n).scrollback == s.scrollback && s.scroll_down(n).alt == s.alt,
        s.erase_in_display(n).scrollback == s.scrollback && s.erase_in_display(n).alt == s.alt,
        s.insert_lines(n).scrollback == s.scrollback && s.insert_lines(n).alt == s.alt,
        s.delete_lines(n).scrollback == s.scrollback && s.delete_lines(n).alt == s.alt,
{
}

/// Leaving the alternate screen gives the main screen back: its rows, its
/// colors and attributes, its saved cursor, and the cursor where it was (a
/// cursor past the last column is back on it). `t` is whatever the alternate
/// screen has become.
pub proof fn law_alt_screen_round_trip(s: Screen, t: Screen)
    requires
        s.wf(),
        s.alt is None,
        t.alt == s.enter_alt_screen().alt,
        t.rows == s.rows,
        t.cols == s.cols,
    ensures
        t.exit_alt_screen().lines == s.lines,
        t.exit_alt_screen().cursor_row == s.cursor_row,
        t.exit_alt_screen().cursor_col == screen::into_range(s.cursor_col, s.cols),
        t.exit_alt_screen().fg == s.fg,
        t.exit_alt_screen().bg == s.bg,
        t.exit_alt_screen().bold == s.bold,
        t.exit_alt_screen().reverse == s.reverse,
        t.exit_alt_screen().saved == s.saved,
        t.exit_alt_screen().alt is None,
        t.exit_alt_screen().scrollback == t.scrollback,
{
}

/// A resize while the alternate screen is shown leaves the history alone and
/// keeps what of the main screen still fits.
pub proof fn law_resize_under_alt_screen(s: Screen, cols: int, rows: int, row: int, col: int)
    requires
        s.wf(),
        s.alt is Some,
        0 < cols,
        0 < rows,
        0 <= row < rows,
        row < s.rows,
        0 <= col < cols,
        col < s.cols,
    ensures
        s.resize(cols, rows).scrollback == s.scrollback,
        s.resize(cols, rows).exit_alt_screen().lines[row].cells[col]
            == s.alt->0.lines[row].cells[col],
        s.resize(cols, rows).lines[row].cells[col] == s.lines[row].cells[col],
{
}

// ---- cursor and cells ----
/// Restoring the cursor gives back what was saved, whatever `t` the screen has
/// become meanwhile (a cursor past the last column is back on it).
pub proof fn law_save_restore_cursor(s: Screen, t: Screen)
    requires
        s.wf(),
        t.saved == s.save_cursor().saved,
        t.rows == s.rows,
        t.cols == s.cols,
    ensures
        t.restore_cursor().cursor_row == s.cursor_row,
        t.restore_cursor().cursor_col == screen::into_range(s.cursor_col, s.cols),
        t.restore_cursor().fg == s.fg,
        t.restore_cursor().bg == s.bg,
        t.restore_cursor().bold == s.bold,
        t.restore_cursor().reverse == s.reverse,
        t.restore_cursor().lines == t.lines,
{
}

/// A printed character is in the cell just left of the cursor, and every other
/// cell of the row is as it was, unless the row was full: then the text goes on
/// in the next row, and the full one says so.
pub proof fn law_printed_char_is_there(s: Screen, ch: char)
    requires
        s.wf(),
        s.rows > 0,
        s.cols > 0,
    ensures
        ({
            let after = s.put_char(ch);
            let line = after.lines[after.cursor_row];
            &&& after.cursor_col > 0
            &&& line.cells[after.cursor_col - 1] == s.styled(ch)
            &&& s.cursor_col < s.cols ==> after.cursor_row == s.cursor_row && after.cursor_col
                == s.cursor_col + 1 && after.lines == s.lines.update(
                s.cursor_row,
                Line {
                    cells: s.lines[s.cursor_row].cells.update(s.cursor_col, s.styled(ch)),
                    wrapped: s.lines[s.cursor_row].wrapped,
                },
            )
            &&& s.cursor_col == s.cols && s.cursor_row < s.scroll_bottom ==> after.cursor_row
                == s.cursor_row + 1 && after.cursor_col == 1
                && after.lines[s.cursor_row].wrapped && after.lines[s.cursor_row].cells
                == s.lines[s.cursor_row].cells
        }),
{
}

/// Lines inserted and deleted again leave the rows above the bottom margin as
/// they were; the ones that were pushed past it come back blank.
pub proof fn law_insert_then_delete_lines(s: Screen, n: int, row: int)
    requires
        s.wf(),
        s.rows > 0,
        s.in_region(),
        0 <= n <= s.scroll_bottom - s.cursor_row + 1,
        0 <= row < s.rows,
    ensures
        s.insert_lines(n).delete_lines(n).lines[row] == if s.scroll_bottom - n < row
            <= s.scroll_bottom {
            screen::blank_line(s.cols, s.blank())
        } else {
            s.lines[row]
        },
{
}

/// Cells inserted and deleted again leave the row as it was, but for the cells
/// that were pushed past the right edge.
pub proof fn law_insert_then_delete_chars(s: Screen, n: int, col: int)
    requires
        s.wf(),
        s.rows > 0,
        s.cursor_col < s.cols,
        0 <= n <= s.cols - s.cursor_col,
        0 <= col < s.cols,
    ensures
        s.insert_chars(n).delete_chars(n).lines[s.cursor_row].cells[col] == if col >= s.cols - n {
            s.blank()
        } else {
            s.lines[s.cursor_row].cells[col]
        },
{
}

// ---- the interpreter ----
/// It does not matter how a stream of events is cut: doing the first part and
/// then the second is doing both at once.
pub proof fn law_events_compose(t: Vt, first: Seq<Event>, second: Seq<Event>)
    ensures
        t.perform_all(first + second) == t.perform_all(first).perform_all(second),
    decreases second.len(),
{
    if second.len() == 0 {
        assert(first + second =~= first);
    } else {
        assert((first + second).drop_last() =~= first + second.drop_last());
        law_events_compose(t, first, second.drop_last());
    }
}

proof fn lemma_private_modes_are_silent(t: Vt, params: Seq<Seq<u16>>, set: bool)
    ensures
        t.private_modes(params, set).responses == t.responses,
        t.private_modes(params, set).g0 == t.g0,
        t.private_modes(params, set).g1 == t.g1,
        t.private_modes(params, set).active == t.active,
    decreases params.len(),
{
    if params.len() > 0 {
        lemma_private_modes_are_silent(t, params.drop_last(), set);
    }
}

/// What the terminal owes to the app is only added to, and only by a request
/// for a report.
pub proof fn law_responses_only_grow(t: Vt, event: Event)
    ensures
        t.responses.is_prefix_of(t.perform(event).responses),
        t.perform(event).responses != t.responses ==> {
            &&& event matches Event::Csi { params, intermediates, action }
            &&& intermediates.len() == 0
            &&& action == 'c' || (action == 'n' && vt::param(params, 0) == Some(6u16))
        },
{
    match event {
        Event::Csi { params, intermediates, action } => {
            if intermediates.len() > 0 && intermediates == seq![0x3fu8] {
                lemma_private_modes_are_silent(t, params, action == 'h');
            }
        },
        _ => {},
    }
}

/// Only an escape sequence designates a character set: printing, controls and
/// control sequences leave both as they are.
pub proof fn law_charsets_change_by_escape_only(t: Vt, event: Event)
    requires
        !(event is Esc),
    ensures
        t.perform(event).g0 == t.g0,
        t.perform(event).g1 == t.g1,
{
    match event {
        Event::Csi { params, intermediates, action } => {
            if intermediates.len() > 0 && intermediates == seq![0x3fu8] {
                lemma_private_modes_are_silent(t, params, action == 'h');
            }
        },
        _ => {},
    }
}

/// With ASCII in both sets, characters are printed as they come.
pub proof fn law_ascii_prints_unchanged(t: Vt, c: char)
    requires
        t.g0 == Charset::Ascii,
        t.g1 == Charset::Ascii,
    ensures
        t.perform(Event::Print(c)).screen == t.screen.put_char(c),
{
}

/// SGR changes colors and attributes and nothing else on the screen.
pub proof fn law_sgr_changes_attributes_only(s: Screen, codes: Seq<u16>)
    ensures
        ({
            let after = vt::sgr_codes(s, codes);
            after == Screen {
                fg: after.fg,
                bg: after.bg,
                bold: after.bold,
                reverse: after.reverse,
                ..s
            }
        }),
    decreases codes.len(),
{
    if codes.len() > 0 {
        let rest = codes.skip(1);
        match vt::extended_color(rest) {
            Some((color, used)) if codes[0] == 38 => {
                law_sgr_changes_attributes_only(Screen { fg: color, ..s }, rest.skip(used));
            },
            Some((color, used)) if codes[0] == 48 => {
                law_sgr_changes_attributes_only(Screen { bg: color, ..s }, rest.skip(used));
            },
            _ => {
                law_sgr_changes_attributes_only(vt::sgr_code(s, codes[0]), rest);
            },
        }
    }
}

/// Mode 1049 set and reset: the main screen, its cursor and its attributes come
/// back, whatever `t` the alternate screen has become. (A cursor past the last
/// column is back on it.)
pub proof fn law_mode_1049_round_trip(s: Screen, t: Screen)
    requires
        s.wf(),
        s.alt is None,
        t.alt == vt::screen_mode(s, 1049, true).alt,
        t.rows == s.rows,
        t.cols == s.cols,
    ensures
        vt::screen_mode(t, 1049, false).lines == s.lines,
        vt::screen_mode(t, 1049, false).cursor_row == s.cursor_row,
        vt::screen_mode(t, 1049, false).cursor_col == screen::into_range(s.cursor_col, s.cols),
        vt::screen_mode(t, 1049, false).fg == s.fg,
        vt::screen_mode(t, 1049, false).bg == s.bg,
        vt::screen_mode(t, 1049, false).bold == s.bold,
        vt::screen_mode(t, 1049, false).reverse == s.reverse,
        vt::screen_mode(t, 1049, false).alt is None,
{
}

} // verus!
