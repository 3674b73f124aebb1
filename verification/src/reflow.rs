//! Rewrapping text at a new width.
//!
//! Rows joined by soft wraps are one *paragraph*. On resize the paragraphs are
//! recovered from the rows, and split again at the new number of columns.
use vstd::prelude::*;
use std::collections::VecDeque;
use crate::grid;
use crate::grid::{Cell, Row};
use crate::screen;
use crate::screen::{Line, Screen};

verus! {

/// Rows read so far: the paragraphs that a hard break has ended, and the text
/// of the one that is still open.
#[verifier::ext_equal]
pub struct Joined {
    pub done: Seq<Seq<Cell>>,
    pub open: Seq<Cell>,
}

/// The cells without the empty ones at the end.
pub open spec fn trim(cells: Seq<Cell>) -> Seq<Cell>
    decreases cells.len(),
{
    if cells.len() > 0 && cells.last() == Cell::empty() {
        trim(cells.drop_last())
    } else {
        cells
    }
}

/// The paragraphs that the rows hold. A soft-wrapped row is content over its
/// whole width; the blanks at the end of a paragraph's last row are not.
pub open spec fn join(lines: Seq<Line>) -> Joined
    decreases lines.len(),
{
    if lines.len() == 0 {
        Joined { done: Seq::empty(), open: Seq::empty() }
    } else {
        let before = join(lines.drop_last());
        let row = lines.last();
        if row.wrapped {
            Joined { done: before.done, open: before.open + row.cells }
        } else {
            Joined { done: before.done.push(before.open + trim(row.cells)), open: Seq::empty() }
        }
    }
}

/// Where column `col` of row `row` is in the text: the number of its paragraph,
/// and the offset within it.
pub open spec fn place(lines: Seq<Line>, row: int, col: int) -> (int, int) {
    let before = join(lines.take(row));
    (before.done.len() as int, before.open.len() + col)
}

/// The cells, with empty ones after them to make up `n`.
pub open spec fn padded(cells: Seq<Cell>, n: int) -> Seq<Cell> {
    if cells.len() < n {
        cells + Seq::new((n - cells.len()) as nat, |c: int| Cell::empty())
    } else {
        cells
    }
}

/// Rows that `n` cells take at `cols` columns. No cells take one row.
pub open spec fn row_count(n: int, cols: int) -> int {
    if n <= 0 {
        1
    } else {
        (n + cols - 1) / cols
    }
}

/// A paragraph as rows of `cols` columns. Every row but the last runs on into
/// the next, and the last is padded.
pub open spec fn split(cells: Seq<Cell>, cols: int) -> Seq<Line> {
    Seq::new(
        row_count(cells.len() as int, cols) as nat,
        |k: int|
            Line {
                cells: Seq::new(
                    cols as nat,
                    |c: int|
                        if k * cols + c < cells.len() {
                            cells[k * cols + c]
                        } else {
                            Cell::empty()
                        },
                ),
                wrapped: k + 1 < row_count(cells.len() as int, cols),
            },
    )
}

/// All the paragraphs as rows of `cols` columns.
pub open spec fn wrap(paragraphs: Seq<Seq<Cell>>, cols: int) -> Seq<Line>
    decreases paragraphs.len(),
{
    if paragraphs.len() == 0 {
        Seq::empty()
    } else {
        wrap(paragraphs.drop_last(), cols) + split(paragraphs.last(), cols)
    }
}

/// Nothing but empty cells.
pub open spec fn is_blank(cells: Seq<Cell>) -> bool {
    forall|c: int| 0 <= c < cells.len() ==> cells[c] == Cell::empty()
}

/// The number of rows up to and including the last that is not blank.
pub open spec fn used_rows(lines: Seq<Line>) -> int
    decreases lines.len(),
{
    if lines.len() > 0 && is_blank(lines.last().cells) {
        used_rows(lines.drop_last())
    } else {
        lines.len() as int
    }
}

impl Screen {
    /// How many of the rows on screen are content: down to the last row that is
    /// not blank, and at least down to the cursor.
    pub open spec fn content_rows(self) -> int {
        let used = used_rows(self.lines);
        let down_to_cursor = screen::lesser(self.cursor_row + 1, self.lines.len() as int);
        if used > down_to_cursor {
            used
        } else {
            down_to_cursor
        }
    }

    /// The history and the content of the screen.
    pub open spec fn content(self) -> Seq<Line> {
        self.scrollback + self.lines.take(self.content_rows())
    }

    /// Where the cursor is in the text.
    pub open spec fn cursor_place(self) -> (int, int) {
        place(
            self.all_lines(),
            self.scrollback.len() + self.cursor_row,
            self.cursor_col,
        )
    }

    /// The text as paragraphs. The last one is there, even without any text, if
    /// the cursor is in it.
    pub open spec fn paragraphs(self) -> Seq<Seq<Cell>> {
        let joined = join(self.content());
        if joined.open.len() > 0 || (self.rows > 0 && self.cursor_place().0 == joined.done.len()) {
            joined.done.push(joined.open)
        } else {
            joined.done
        }
    }

    /// The paragraphs that a resize splits: the cursor's own is padded until it
    /// has a cell at the cursor, so that the cursor has a place among its rows.
    pub open spec fn padded_paragraphs(self) -> Seq<Seq<Cell>> {
        if self.rows == 0 {
            self.paragraphs()
        } else {
            let (p, offset) = self.cursor_place();
            self.paragraphs().update(p, padded(self.paragraphs()[p], offset + 1))
        }
    }

    /// The text as rows of `cols` columns, at least one.
    pub open spec fn rewrapped(self, cols: int) -> Seq<Line> {
        let rows = wrap(self.padded_paragraphs(), cols);
        if rows.len() == 0 {
            seq![screen::blank_line(cols, Cell::empty())]
        } else {
            rows
        }
    }

    /// Row and column of the cursor among the rewrapped rows: at its offset in
    /// its paragraph.
    pub open spec fn rewrapped_cursor(self, cols: int) -> (int, int) {
        if self.rows == 0 {
            (self.rewrapped(cols).len() - 1, 0)
        } else {
            let (p, offset) = self.cursor_place();
            let first = wrap(self.padded_paragraphs().take(p), cols).len();
            (first + offset / cols, offset % cols)
        }
    }

    /// The first of the rewrapped rows that is on screen: the last `rows` are.
    pub open spec fn first_shown(self, cols: int, rows: int) -> int {
        let n = self.rewrapped(cols).len();
        if n > rows {
            n - rows
        } else {
            0
        }
    }

    /// The text rewrapped at a new size. The last rows are the screen, the rest
    /// the history.
    pub open spec fn reflow(self, cols: int, rows: int) -> Screen {
        let all = self.rewrapped(cols);
        let start = self.first_shown(cols, rows);
        let (row, col) = self.rewrapped_cursor(cols);
        Screen {
            cols,
            rows,
            lines: all.skip(start) + screen::blank_lines(
                rows - (all.len() - start),
                cols,
                Cell::empty(),
            ),
            scrollback: screen::trimmed(all.take(start), self.scrollback_max),
            cursor_row: screen::into_range(row - start, rows),
            cursor_col: col,
            scroll_top: 0,
            scroll_bottom: rows - 1,
            view_offset: 0,
            saved: None,
            ..self
        }.touched()
    }

    /// A new size. Nothing happens when it is the old one or has no cells. The
    /// alternate screen is cut or padded, the main screen rewrapped.
    pub open spec fn resize(self, cols: int, rows: int) -> Screen {
        if (cols == self.cols && rows == self.rows) || cols == 0 || rows == 0 {
            self
        } else if self.alt is Some {
            self.resize_simple(cols, rows)
        } else {
            self.reflow(cols, rows)
        }
    }
}

/// Executable counterpart of [`Joined`].
pub(crate) struct Joiner {
    pub(crate) done: Vec<Vec<Cell>>,
    pub(crate) open: Vec<Cell>,
}

/// The paragraphs as the model has them.
pub(crate) open(crate) spec fn cells_of(paragraphs: Seq<Vec<Cell>>) -> Seq<Seq<Cell>> {
    paragraphs.map_values(|p: Vec<Cell>| p@)
}

impl View for Joiner {
    type V = Joined;

    open(crate) spec fn view(&self) -> Joined {
        Joined { done: cells_of(self.done@), open: self.open@ }
    }
}

impl Joiner {
    pub(crate) fn new() -> (j: Joiner)
        ensures
            j@ == join(Seq::empty()),
    {
        let j = Joiner { done: Vec::new(), open: Vec::new() };
        assert(j@ =~= join(Seq::empty()));
        j
    }

    /// Read one more row.
    pub(crate) fn add(&mut self, row: &Row, before: Ghost<Seq<Line>>)
        requires
            old(self)@ == join(before@),
        ensures
            final(self)@ == join(before@.push(row@)),
    {
        assert(before@.push(row@).drop_last() =~= before@);
        if row.wrapped {
            self.open.extend_from_slice(row.cells.as_slice());
            assert(self@ =~= join(before@.push(row@)));
        } else {
            let end: usize = trimmed_len(&row.cells);
            let mut cells: Vec<Cell> = Vec::new();
            std::mem::swap(&mut self.open, &mut cells);
            let ghost opened = cells@;
            let mut c: usize = 0;
            while c < end
                invariant
                    c <= end <= row.cells@.len(),
                    cells@ == opened + row.cells@.take(c as int),
                decreases end - c,
            {
                cells.push(row.cells[c]);
                c = c + 1;
                assert(cells@ =~= opened + row.cells@.take(c as int));
            }
            self.done.push(cells);
            assert(self@ =~= join(before@.push(row@)));
        }
    }
}

/// The number of cells that [`trim`] keeps.
fn trimmed_len(cells: &Vec<Cell>) -> (end: usize)
    ensures
        end <= cells@.len(),
        cells@.take(end as int) == trim(cells@),
{
    let mut end: usize = cells.len();
    assert(cells@.take(end as int) =~= cells@);
    while end > 0 && cells[end - 1] == Cell::empty()
        invariant
            end <= cells@.len(),
            trim(cells@.take(end as int)) == trim(cells@),
        decreases end,
    {
        assert(cells@.take(end as int).drop_last() =~= cells@.take(end - 1));
        end = end - 1;
    }
    end
}

/// Whether a row has nothing but empty cells.
pub(crate) fn blank_row(cells: &Vec<Cell>) -> (blank: bool)
    ensures
        blank == is_blank(cells@),
{
    let mut c: usize = 0;
    while c < cells.len()
        invariant
            c <= cells@.len(),
            forall|k: int| 0 <= k < c ==> cells@[k] == Cell::empty(),
        decreases cells@.len() - c,
    {
        if cells[c] != Cell::empty() {
            return false;
        }
        c = c + 1;
    }
    true
}

/// Executable [`used_rows`].
pub(crate) fn count_used(rows: &Vec<Row>) -> (used: usize)
    ensures
        used == used_rows(grid::lines_of(rows@)),
        used <= rows@.len(),
{
    let mut n: usize = rows.len();
    let ghost lines = grid::lines_of(rows@);
    assert(lines.take(n as int) =~= lines);
    while n > 0
        invariant
            n <= rows@.len(),
            lines == grid::lines_of(rows@),
            used_rows(lines.take(n as int)) == used_rows(lines),
        decreases n,
    {
        if !blank_row(&rows[n - 1].cells) {
            return n;
        }
        assert(lines.take(n as int).drop_last() =~= lines.take(n - 1));
        n = n - 1;
    }
    0
}

/// Row `k` of a paragraph starts within its `n` cells just when it is one of
/// its rows.
pub proof fn lemma_row_count(n: int, cols: int, k: int)
    requires
        cols > 0,
        n > 0,
        k >= 0,
    ensures
        row_count(n, cols) > 0,
        k * cols < n <==> k < row_count(n, cols),
{
    let q = row_count(n, cols);
    assert(q * cols >= n && (q - 1) * cols < n && q > 0) by (nonlinear_arith)
        requires
            cols > 0,
            n > 0,
            q == (n + cols - 1) / cols,
    ;
    if k < q {
        assert(k * cols <= (q - 1) * cols) by (nonlinear_arith)
            requires
                k <= q - 1,
                cols > 0,
        ;
    } else {
        assert(k * cols >= q * cols) by (nonlinear_arith)
            requires
                k >= q,
                cols > 0,
        ;
    }
}

/// A cell of a paragraph stands on one of its rows.
pub proof fn lemma_row_of_offset(n: int, cols: int, offset: int)
    requires
        cols > 0,
        0 <= offset < n,
    ensures
        0 <= offset / cols < row_count(n, cols),
        0 <= offset % cols < cols,
        (offset / cols) * cols + offset % cols == offset,
{
    let k = offset / cols;
    vstd::arithmetic::div_mod::lemma_fundamental_div_mod(offset, cols);
    vstd::arithmetic::div_mod::lemma_mod_bound(offset, cols);
    assert(k >= 0 && k * cols + offset % cols == offset && k * cols <= offset) by (nonlinear_arith)
        requires
            cols > 0,
            0 <= offset,
            k == offset / cols,
            offset == cols * (offset / cols) + offset % cols,
            0 <= offset % cols,
    ;
    lemma_row_count(n, cols, k);
}

/// The rows past the used ones are blank.
pub proof fn lemma_used_rows(lines: Seq<Line>)
    ensures
        0 <= used_rows(lines) <= lines.len(),
        forall|r: int|
            used_rows(lines) <= r < lines.len() ==> is_blank((#[trigger] lines[r]).cells),
    decreases lines.len(),
{
    if lines.len() > 0 && is_blank(lines.last().cells) {
        lemma_used_rows(lines.drop_last());
        assert forall|r: int| used_rows(lines) <= r < lines.len() implies is_blank(
            (#[trigger] lines[r]).cells,
        ) by {
            if r < lines.len() - 1 {
                assert(lines.drop_last()[r] == lines[r]);
            }
        }
    }
}

/// Wrapped rows have the width that they were wrapped at.
pub proof fn lemma_wrap_wide(paragraphs: Seq<Seq<Cell>>, cols: int)
    requires
        cols > 0,
    ensures
        screen::all_wide(wrap(paragraphs, cols), cols),
    decreases paragraphs.len(),
{
    if paragraphs.len() > 0 {
        lemma_wrap_wide(paragraphs.drop_last(), cols);
    }
}

/// As rows are read, the number of ended paragraphs only grows, and so does the
/// text of the open one, until it is ended.
proof fn lemma_join_grows(lines: Seq<Line>, n: int, m: int)
    requires
        0 <= n <= m <= lines.len(),
    ensures
        ({
            let early = join(lines.take(n));
            let late = join(lines.take(m));
            let open = early.done.len() as int;
            &&& open <= late.done.len()
            &&& open == late.done.len() ==> early.open.len() <= late.open.len()
            &&& open < late.done.len() ==> early.open.len() <= late.done[open].len()
        }),
    decreases m - n,
{
    if n < m {
        assert(lines.take(m).drop_last() =~= lines.take(m - 1));
        lemma_join_grows(lines, n, m - 1);
    }
}

/// The cursor is in one of the paragraphs, and what stands of it on the rows
/// above the cursor's is part of that paragraph.
pub proof fn lemma_cursor_paragraph(s: Screen)
    requires
        s.wf(),
        s.rows > 0,
    ensures
        0 <= s.cursor_place().0 < s.paragraphs().len(),
        s.cursor_place().1 - s.cursor_col <= s.paragraphs()[s.cursor_place().0].len(),
{
    lemma_used_rows(s.lines);
    let at = s.scrollback.len() + s.cursor_row;
    assert(s.all_lines().take(at) =~= s.content().take(at));
    assert(s.content().take(s.content().len() as int) =~= s.content());
    lemma_join_grows(s.content(), at, s.content().len() as int);
}

/// Pad a paragraph until it has a cell at `before + col`.
pub(crate) fn pad_paragraph(cells: &mut Vec<Cell>, before: usize, col: usize)
    requires
        before <= old(cells)@.len(),
    ensures
        final(cells)@ == padded(old(cells)@, before + col + 1),
{
    let ghost text = cells@;
    while cells.len() - before <= col
        invariant
            before <= text.len() <= cells@.len(),
            cells@.len() > text.len() ==> cells@.len() <= before + col + 1,
            cells@ == padded(text, cells@.len() as int),
        decreases before + col + 1 - cells@.len(),
    {
        cells.push(Cell::empty());
        assert(cells@ =~= padded(text, cells@.len() as int));
    }
    assert(cells@ =~= padded(text, before + col + 1));
}

/// Append a paragraph's rows.
pub(crate) fn split_into(out: &mut VecDeque<Row>, cells: &Vec<Cell>, cols: usize)
    requires
        cols > 0,
    ensures
        grid::lines_of(final(out)@) == grid::lines_of(old(out)@) + split(cells@, cols as int),
{
    let ghost before = grid::lines_of(out@);
    let ghost rows = split(cells@, cols as int);
    let len: usize = cells.len();
    if len == 0 {
        out.push_back(Row::blank(cols, Cell::empty()));
        assert(rows[0] =~~= screen::blank_line(cols as int, Cell::empty())) by {
            assert(0 * cols == 0) by (nonlinear_arith);
        }
        assert(grid::lines_of(out@) =~= before + rows);
        return ;
    }
    proof {
        lemma_row_count(len as int, cols as int, 0);
    }
    let mut start: usize = 0;
    let ghost mut k: int = 0;
    assert(0 * cols == 0) by (nonlinear_arith);
    assert(grid::lines_of(out@) =~= before + rows.take(0));
    let mut more = true;
    while more
        invariant
            cols > 0,
            len == cells@.len(),
            len > 0,
            rows == split(cells@, cols as int),
            0 <= k <= rows.len(),
            more ==> k < rows.len() && start == k * cols,
            !more ==> k == rows.len(),
            grid::lines_of(out@) == before + rows.take(k),
        decreases rows.len() - k,
    {
        proof {
            lemma_row_count(len as int, cols as int, k);
            lemma_row_count(len as int, cols as int, k + 1);
        }
        let wrapped = len - start > cols;
        let mut row: Vec<Cell> = Vec::new();
        let mut c: usize = 0;
        while c < cols
            invariant
                c <= cols,
                row@.len() == c,
                start < len,
                len == cells@.len(),
                forall|j: int|
                    0 <= j < c ==> row@[j] == if start + j < len {
                        cells@[start + j]
                    } else {
                        Cell::empty()
                    },
            decreases cols - c,
        {
            if c < len - start {
                row.push(cells[start + c]);
            } else {
                row.push(Cell::empty());
            }
            c = c + 1;
        }
        proof {
            assert((k + 1) * cols == k * cols + cols) by (nonlinear_arith);
            assert(wrapped == (k + 1 < rows.len()));
        }
        let row = Row { cells: row, wrapped };
        assert(row@ =~~= rows[k]);
        let ghost was = grid::lines_of(out@);
        out.push_back(row);
        assert(grid::lines_of(out@) =~= was.push(rows[k]));
        assert(was.push(rows[k]) =~= before + rows.take(k + 1));
        more = wrapped;
        if wrapped {
            start = start + cols;
        }
        proof {
            k = k + 1;
        }
    }
    assert(rows.take(k) =~= rows);
}

} // verus!
