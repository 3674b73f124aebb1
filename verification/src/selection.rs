//! Text selection: what a drag, a double or a triple click selects, and the
//! text that is copied.
use vstd::prelude::*;
use crate::grid::Grid;
use crate::screen;
use crate::screen::Screen;
use crate::text;
use crate::text::{string_of, stripped_end, Strip};

verus! {

/// A drag-to-select range over visible (view-relative) cell coordinates, as
/// row and column. Either end may be the earlier one.
#[derive(Clone, Copy, Debug, PartialEq, Eq)]
pub struct Selection {
    pub anchor: (usize, usize),
    pub active: (usize, usize),
}

/// `a` does not come after `b` in reading order.
pub open spec fn not_after(a: (usize, usize), b: (usize, usize)) -> bool {
    a.0 < b.0 || (a.0 == b.0 && a.1 <= b.1)
}

impl Selection {
    /// The end that comes first in reading order.
    pub open spec fn start(self) -> (usize, usize) {
        if not_after(self.anchor, self.active) {
            self.anchor
        } else {
            self.active
        }
    }

    /// The end that comes last in reading order.
    pub open spec fn end(self) -> (usize, usize) {
        if not_after(self.anchor, self.active) {
            self.active
        } else {
            self.anchor
        }
    }

    /// The cell lies between the two ends in reading order, or is one of them.
    pub open spec fn covers(self, cell: (usize, usize)) -> bool {
        not_after(self.start(), cell) && not_after(cell, self.end())
    }

    /// True when `(row, col)` falls inside the linear (reading-order) span
    /// between the two ends, inclusive on both.
    pub fn contains(&self, row: usize, col: usize) -> (inside: bool)
        ensures
            inside == self.covers((row, col)),
    {
        let ((sr, sc), (er, ec)) = self.ordered();
        if row < sr || row > er {
            return false;
        }
        if sr == er {
            col >= sc && col <= ec
        } else if row == sr {
            col >= sc
        } else if row == er {
            col <= ec
        } else {
            true
        }
    }

    /// Start and end in reading order.
    pub fn ordered(&self) -> (ends: ((usize, usize), (usize, usize)))
        ensures
            ends == (self.start(), self.end()),
    {
        let (ar, ac) = self.anchor;
        let (br, bc) = self.active;
        if ar < br || (ar == br && ac <= bc) {
            (self.anchor, self.active)
        } else {
            (self.active, self.anchor)
        }
    }
}

/// A selection is the same whichever end was put down first.
pub proof fn law_selection_has_no_direction(a: (usize, usize), b: (usize, usize))
    ensures
        ({
            let forth = Selection { anchor: a, active: b };
            let back = Selection { anchor: b, active: a };
            forth.start() == back.start() && forth.end() == back.end()
        }),
{
}

/// Both ends of a selection are in it, and it has no gaps.
pub proof fn law_selection_is_a_span(
    s: Selection,
    a: (usize, usize),
    b: (usize, usize),
    c: (usize, usize),
)
    ensures
        s.covers(s.anchor),
        s.covers(s.active),
        s.covers(a) && s.covers(c) && not_after(a, b) && not_after(b, c) ==> s.covers(b),
{
}

// ---- words ----
/// Whether `char::is_alphanumeric` holds of `c`.
pub uninterp spec fn alphanumeric(c: char) -> bool;

/// A letter or digit of ASCII.
pub open spec fn ascii_alphanumeric(c: char) -> bool {
    'a' <= c <= 'z' || 'A' <= c <= 'Z' || '0' <= c <= '9'
}

/// `char::is_alphanumeric`: Unicode's letters and numbers. Of ASCII those are
/// the letters and digits; which they are beyond ASCII is not said here.
#[verifier::external_body]
fn is_alphanumeric(c: char) -> (yes: bool)
    ensures
        yes == alphanumeric(c),
        (c as u32) < 128 ==> yes == ascii_alphanumeric(c),
{
    c.is_alphanumeric()
}

/// Punctuation that is common in paths, URLs and identifiers.
pub open spec fn word_punctuation(c: char) -> bool {
    ||| c == '_'
    ||| c == '-'
    ||| c == '.'
    ||| c == '/'
    ||| c == ':'
    ||| c == '~'
    ||| c == '@'
    ||| c == '%'
    ||| c == '+'
    ||| c == '='
    ||| c == ','
    ||| c == '#'
}

/// Characters that count as part of a word for double-click selection. Beyond
/// alphanumerics this includes the punctuation common in paths, URLs, and
/// identifiers, so double-clicking a path or flag grabs the whole token.
pub fn is_word_char(c: char) -> (yes: bool)
    ensures
        yes == (alphanumeric(c) || word_punctuation(c)),
        (c as u32) < 128 ==> yes == (ascii_alphanumeric(c) || word_punctuation(c)),
{
    is_alphanumeric(c) || is_word_punctuation(c)
}

/// Executable [`word_punctuation`].
pub fn is_word_punctuation(c: char) -> (yes: bool)
    ensures
        yes == word_punctuation(c),
{
    match c {
        '_' | '-' | '.' | '/' | ':' | '~' | '@' | '%' | '+' | '=' | ',' | '#' => true,
        _ => false,
    }
}

/// `start..=end` is the longest run of word characters through `col`, or just
/// `col` if there is none there.
pub open spec fn is_word_span(word: Seq<bool>, col: int, start: int, end: int) -> bool {
    if word[col] {
        &&& 0 <= start <= col <= end < word.len()
        &&& forall|c: int| start <= c <= end ==> word[c]
        &&& start > 0 ==> !word[start - 1]
        &&& end + 1 < word.len() ==> !word[end + 1]
    } else {
        start == col && end == col
    }
}

/// First and last column of the word at `col`, given which columns hold word
/// characters.
pub fn word_span(word: &Vec<bool>, col: usize) -> (span: (usize, usize))
    requires
        col < word@.len(),
    ensures
        is_word_span(word@, col as int, span.0 as int, span.1 as int),
{
    if !word[col] {
        return (col, col);
    }
    let mut start: usize = col;
    while start > 0 && word[start - 1]
        invariant
            start <= col < word@.len(),
            forall|c: int| start <= c <= col ==> word@[c],
        decreases start,
    {
        start = start - 1;
    }
    let last: usize = word.len() - 1;
    let mut end: usize = col;
    while end < last && word[end + 1]
        invariant
            last == word@.len() - 1,
            col <= end <= last,
            forall|c: int| col <= c <= end ==> word@[c],
        decreases word@.len() - end,
    {
        end = end + 1;
    }
    (start, end)
}

/// There is only one such run.
pub proof fn law_word_span_is_unique(
    word: Seq<bool>,
    col: int,
    start: int,
    end: int,
    other_start: int,
    other_end: int,
)
    requires
        0 <= col < word.len(),
        is_word_span(word, col, start, end),
        is_word_span(word, col, other_start, other_end),
    ensures
        start == other_start,
        end == other_end,
{
    if word[col] {
        if start < other_start {
            assert(word[other_start - 1]);
        }
        if other_start < start {
            assert(word[start - 1]);
        }
        if end < other_end {
            assert(word[end + 1]);
        }
        if other_end < end {
            assert(word[other_end + 1]);
        }
    }
}

/// Which columns of a row of the view hold word characters.
pub open spec fn word_cells(s: Screen, row: int) -> Seq<bool> {
    Seq::new(
        s.cols as nat,
        |c: int|
            alphanumeric(s.visible_cell(row, c).ch) || word_punctuation(
                s.visible_cell(row, c).ch,
            ),
    )
}

/// The selection is the word at a cell.
pub open spec fn is_word_at(screen: Screen, row: usize, col: usize, s: Selection) -> bool {
    &&& s.anchor.0 == row
    &&& s.active.0 == row
    &&& is_word_span(
        word_cells(screen, row as int),
        col as int,
        s.anchor.1 as int,
        s.active.1 as int,
    )
}

/// Double-click: the word under `(row, col)`. A word is a run of word
/// characters; clicking another cell selects just that cell. Off the grid
/// nothing is selected.
pub fn select_word(grid: &Grid, row: usize, col: usize) -> (selected: Option<Selection>)
    requires
        grid.wf(),
    ensures
        match selected {
            Some(s) => col < grid@.cols && is_word_at(grid@, row, col, s),
            None => col >= grid@.cols,
        },
{
    let cols: usize = grid.cols();
    if col >= cols {
        return None;
    }
    let mut word: Vec<bool> = Vec::new();
    while word.len() < cols
        invariant
            grid.wf(),
            cols == grid@.cols,
            word@.len() <= cols,
            forall|c: int|
                0 <= c < word@.len() ==> word@[c] == #[trigger] word_cells(grid@, row as int)[c],
        decreases cols - word@.len(),
    {
        let ch = grid.visible_cell(row, word.len()).ch;
        word.push(is_word_char(ch));
    }
    assert(word@ =~= word_cells(grid@, row as int));
    let (start, end) = word_span(&word, col);
    Some(Selection { anchor: (row, start), active: (row, end) })
}

// ---- lines ----
/// Rows `start..=end` of the view are the ones that soft wraps join to `row`.
pub open spec fn is_line_span(s: Screen, row: int, start: int, end: int) -> bool {
    &&& 0 <= start <= row <= end < s.rows
    &&& forall|r: int| start <= r < end ==> #[trigger] s.visible_row_wrapped(r)
    &&& start > 0 ==> !s.visible_row_wrapped(start - 1)
    &&& end + 1 < s.rows ==> !s.visible_row_wrapped(end)
}

/// `col` is the last column of the row that does not hold a space, or the first
/// column if they all do.
pub open spec fn is_last_text_column(s: Screen, row: int, col: int) -> bool {
    &&& 0 <= col < s.cols
    &&& forall|c: int| col < c < s.cols ==> (#[trigger] s.visible_cell(row, c)).ch == ' '
    &&& col > 0 ==> s.visible_cell(row, col).ch != ' '
}

/// The selection is the whole line that a row is part of, to its last text.
pub open spec fn is_line_at(screen: Screen, row: usize, s: Selection) -> bool {
    &&& s.anchor.1 == 0
    &&& is_line_span(screen, row as int, s.anchor.0 as int, s.active.0 as int)
    &&& is_last_text_column(screen, s.active.0 as int, s.active.1 as int)
}

/// Triple-click: the whole line through `row`, across soft-wrapped rows and
/// without the blanks at its end. Off the grid nothing is selected.
pub fn select_line(grid: &Grid, row: usize) -> (selected: Option<Selection>)
    requires
        grid.wf(),
    ensures
        match selected {
            Some(s) => row < grid@.rows && grid@.cols > 0 && is_line_at(grid@, row, s),
            None => row >= grid@.rows || grid@.cols == 0,
        },
{
    let rows: usize = grid.rows();
    let cols: usize = grid.cols();
    if cols == 0 || row >= rows {
        return None;
    }
    let mut start: usize = row;
    while start > 0 && grid.visible_row_wrapped(start - 1)
        invariant
            grid.wf(),
            start <= row < grid@.rows,
            forall|r: int| start <= r < row ==> #[trigger] grid@.visible_row_wrapped(r),
        decreases start,
    {
        start = start - 1;
    }
    let mut end: usize = row;
    while end + 1 < rows && grid.visible_row_wrapped(end)
        invariant
            grid.wf(),
            rows == grid@.rows,
            row <= end < rows,
            forall|r: int| row <= r < end ==> #[trigger] grid@.visible_row_wrapped(r),
        decreases rows - end,
    {
        end = end + 1;
    }
    let mut last: usize = cols - 1;
    while last > 0 && grid.visible_cell(end, last).ch == ' '
        invariant
            grid.wf(),
            end < grid@.rows,
            last < cols == grid@.cols,
            forall|c: int|
                last < c < cols ==> (#[trigger] grid@.visible_cell(end as int, c)).ch == ' ',
        decreases last,
    {
        last = last - 1;
    }
    Some(Selection { anchor: (start, 0), active: (end, last) })
}

/// All of the view. Nothing when the grid has no cells.
pub fn select_all(grid: &Grid) -> (selected: Option<Selection>)
    requires
        grid.wf(),
    ensures
        match selected {
            Some(s) => {
                &&& s.anchor == (0usize, 0usize)
                &&& s.active.0 == grid@.rows - 1
                &&& s.active.1 == grid@.cols - 1
            },
            None => grid@.rows == 0 || grid@.cols == 0,
        },
{
    let rows: usize = grid.rows();
    let cols: usize = grid.cols();
    if rows == 0 || cols == 0 {
        return None;
    }
    Some(Selection { anchor: (0, 0), active: (rows - 1, cols - 1) })
}

// ---- dragging ----
/// The selection after a drag that began over `anchor` has come to `active`, each
/// None where it is over no cell. A drag over an earlier selection moves that
/// one's end.
pub open spec fn after_drag(
    selection: Option<Selection>,
    anchor: Option<(usize, usize)>,
    active: Option<(usize, usize)>,
) -> Option<Selection> {
    let base = match (selection, anchor) {
        (Some(s), _) => Some(s),
        (None, Some(a)) => Some(Selection { anchor: a, active: a }),
        (None, None) => None,
    };
    match (base, active) {
        (Some(s), Some(a)) => Some(Selection { anchor: s.anchor, active: a }),
        _ => base,
    }
}

/// Executable [`after_drag`].
pub fn dragged(
    selection: Option<Selection>,
    anchor: Option<(usize, usize)>,
    active: Option<(usize, usize)>,
) -> (selected: Option<Selection>)
    ensures
        selected == after_drag(selection, anchor, active),
{
    let base = match selection {
        Some(s) => Some(s),
        None => match anchor {
            Some(a) => Some(Selection { anchor: a, active: a }),
            None => None,
        },
    };
    match (base, active) {
        (Some(s), Some(a)) => Some(Selection { anchor: s.anchor, active: a }),
        _ => base,
    }
}

/// What a press of the left button selects.
#[derive(Clone, Copy, Debug, PartialEq, Eq, Structural)]
pub enum Press {
    /// Nothing: it begins a fresh drag.
    Clear,
    /// The word under the pointer.
    Word,
    /// The line under the pointer.
    Line,
}

/// The last press, to tell double and triple clicks by: its time in
/// milliseconds, its cell, and how many presses in a row it was (1 to 3, then
/// over again; 0 before the first).
#[derive(Clone, Copy, Debug, PartialEq, Eq, Structural)]
pub struct Clicks {
    pub time: u32,
    pub row: usize,
    pub col: usize,
    pub count: u8,
}

impl Clicks {
    /// No press yet.
    pub fn new() -> (clicks: Clicks)
        ensures
            clicks == (Clicks { time: 0, row: 0, col: 0, count: 0 }),
    {
        Clicks { time: 0, row: 0, col: 0, count: 0 }
    }

    /// A press at `now` on the same cell, no more than `limit` after the last.
    /// The clock wraps around.
    pub open spec fn consecutive(self, now: u32, row: usize, col: usize, limit: u32) -> bool {
        &&& self.row == row
        &&& self.col == col
        &&& (now - self.time) % 0x1_0000_0000 <= limit
    }

    /// The presses in a row after one more.
    pub open spec fn pressed(self, now: u32, row: usize, col: usize, limit: u32) -> Clicks {
        let count = if !self.consecutive(now, row, col, limit) || self.count == 3 {
            1u8
        } else {
            (self.count + 1) as u8
        };
        Clicks { time: now, row, col, count }
    }

    /// What the last press selects: 1 clears, 2 selects the word, 3 the line.
    pub open spec fn selects(self) -> Press {
        if self.count == 2 {
            Press::Word
        } else if self.count == 3 {
            Press::Line
        } else {
            Press::Clear
        }
    }

    /// A press: 1 clears, 2 selects the word, 3 the line, then over again.
    pub fn press(&mut self, now: u32, row: usize, col: usize, limit: u32) -> (press: Press)
        requires
            old(self).count <= 3,
        ensures
            *final(self) == old(self).pressed(now, row, col, limit),
            press == final(self).selects(),
    {
        let elapsed: u32 = now.wrapping_sub(self.time);
        let consecutive = self.row == row && self.col == col && elapsed <= limit;
        let count: u8 = if !consecutive || self.count == 3 {
            1
        } else {
            self.count + 1
        };
        *self = Clicks { time: now, row, col, count };
        if count == 2 {
            Press::Word
        } else if count == 3 {
            Press::Line
        } else {
            Press::Clear
        }
    }
}

// ---- the text that is copied ----
/// The characters of columns `from..=to` of a row of the view.
pub open spec fn row_text(s: Screen, row: int, from: int, to: int) -> Seq<char> {
    Seq::new((to - from + 1) as nat, |i: int| s.visible_cell(row, from + i).ch)
}

/// A selection brought onto the grid: first row, first column, last row, last
/// column.
pub open spec fn on_grid(s: Screen, selection: Selection) -> (int, int, int, int) {
    let er = screen::lesser(selection.end().0 as int, s.rows - 1);
    let ec = screen::lesser(selection.end().1 as int, s.cols - 1);
    let sr = screen::lesser(selection.start().0 as int, er);
    let sc = screen::lesser(
        selection.start().1 as int,
        if sr == er {
            ec
        } else {
            s.cols - 1
        },
    );
    (sr, sc, er, ec)
}

/// What row `row` of a selection adds to the copied text. A row that runs on
/// into the next is joined to it; another one loses the blanks at its end and
/// is ended by a newline, unless it is the last.
pub open spec fn copied_row(s: Screen, span: (int, int, int, int), row: int) -> Seq<char> {
    let (sr, sc, er, ec) = span;
    let from = if row == sr {
        sc
    } else {
        0
    };
    let to = if row == er {
        ec
    } else {
        s.cols - 1
    };
    let line = row_text(s, row, from, to);
    if row < er && s.visible_row_wrapped(row) {
        line
    } else if row < er {
        text::strip_end(line, Strip::White).push('\n')
    } else {
        text::strip_end(line, Strip::White)
    }
}

/// The text of the rows of a selection before row `end`.
pub open spec fn copied_rows(s: Screen, span: (int, int, int, int), end: int) -> Seq<char>
    decreases end - span.0,
{
    if end <= span.0 {
        Seq::empty()
    } else {
        copied_rows(s, span, end - 1) + copied_row(s, span, end - 1)
    }
}

/// The text of a selection.
pub open spec fn copied_text(s: Screen, selection: Selection) -> Seq<char> {
    if s.rows == 0 || s.cols == 0 {
        Seq::empty()
    } else {
        let span = on_grid(s, selection);
        copied_rows(s, span, span.2 + 1)
    }
}

fn at_most(a: usize, b: usize) -> (m: usize)
    ensures
        m == screen::lesser(a as int, b as int),
{
    if a <= b {
        a
    } else {
        b
    }
}

/// The characters of the selection, for the clipboard. Trailing blanks of each
/// row are trimmed and rows are joined with newlines, but a soft-wrapped row
/// goes on without one.
pub fn selection_text(grid: &Grid, selection: Selection) -> (copied: String)
    requires
        grid.wf(),
    ensures
        copied@ == copied_text(grid@, selection),
{
    let ((sr, sc), (er, ec)) = selection.ordered();
    let cols: usize = grid.cols();
    let rows: usize = grid.rows();
    if rows == 0 || cols == 0 {
        return String::new();
    }
    let er: usize = at_most(er, rows - 1);
    let ec: usize = at_most(ec, cols - 1);
    let sr: usize = at_most(sr, er);
    let sc: usize = at_most(
        sc,
        if sr == er {
            ec
        } else {
            cols - 1
        },
    );
    let ghost span = on_grid(grid@, selection);
    assert(span == (sr as int, sc as int, er as int, ec as int));
    let mut out: Vec<char> = Vec::new();
    let mut r: usize = sr;
    while r <= er
        invariant
            grid.wf(),
            cols == grid@.cols > 0,
            sr <= r <= er + 1,
            sr <= er < grid@.rows,
            sc < cols,
            ec < cols,
            sr == er ==> sc <= ec,
            span == (sr as int, sc as int, er as int, ec as int),
            out@ == copied_rows(grid@, span, r as int),
        decreases er + 1 - r,
    {
        let from: usize = if r == sr {
            sc
        } else {
            0
        };
        let to: usize = if r == er {
            ec
        } else {
            cols - 1
        };
        let mut line: Vec<char> = Vec::new();
        let mut c: usize = from;
        while c <= to
            invariant
                grid.wf(),
                r < grid@.rows,
                from <= c <= to + 1,
                to < cols == grid@.cols,
                line@.len() == c - from,
                forall|i: int|
                    0 <= i < c - from ==> line@[i] == grid@.visible_cell(r as int, from + i).ch,
            decreases to + 1 - c,
        {
            line.push(grid.visible_cell(r, c).ch);
            c = c + 1;
        }
        assert(line@ =~= row_text(grid@, r as int, from as int, to as int));
        let ghost before = out@;
        if r < er && grid.visible_row_wrapped(r) {
            out.extend_from_slice(line.as_slice());
        } else {
            out.extend_from_slice(stripped_end(line.as_slice(), Strip::White));
            if r < er {
                out.push('\n');
            }
        }
        assert(out@ =~= before + copied_row(grid@, span, r as int));
        r = r + 1;
    }
    string_of(out.as_slice())
}

// ---- laws of selecting ----
/// What a selection from one cell to a later one covers: within a row the
/// columns between the two, else the first row from its column on, the last row
/// up to its column, and the rows between them whole.
pub proof fn law_covered_cells(
    a: (usize, usize),
    b: (usize, usize),
    row: usize,
    col: usize,
)
    ensures
        ({
            let s = Selection { anchor: a, active: b };
            &&& a.0 == b.0 && a.1 <= b.1 ==> (s.covers((row, col)) <==> row == a.0 && a.1 <= col
                <= b.1)
            &&& a.0 == b.0 && a.1 > b.1 ==> (s.covers((row, col)) <==> row == a.0 && b.1 <= col
                <= a.1)
            &&& a.0 < b.0 ==> (s.covers((row, col)) <==> (row == a.0 && col >= a.1) || (a.0 < row
                < b.0) || (row == b.0 && col <= b.1))
            &&& a.0 > b.0 ==> (s.covers((row, col)) <==> (row == b.0 && col >= b.1) || (b.0 < row
                < a.0) || (row == a.0 && col <= a.1))
        }),
{
}

/// The punctuation that belongs to words is this.
pub proof fn law_word_punctuation(c: char)
    ensures
        word_punctuation(c) <==> "_-./:~@%+=,#"@.contains(c),
{
    reveal_strlit("_-./:~@%+=,#");
    let all = "_-./:~@%+=,#"@;
    assert(all.len() == 12);
    assert(all[0] == '_' && all[1] == '-' && all[2] == '.' && all[3] == '/');
    assert(all[4] == ':' && all[5] == '~' && all[6] == '@' && all[7] == '%');
    assert(all[8] == '+' && all[9] == '=' && all[10] == ',' && all[11] == '#');
}

/// A column belongs to the word at `col` just when everything from the one to
/// the other is part of a word.
pub proof fn law_word_span_is_the_run(word: Seq<bool>, col: int, start: int, end: int, c: int)
    requires
        0 <= col < word.len(),
        is_word_span(word, col, start, end),
        0 <= c < word.len(),
    ensures
        word[col] ==> (start <= c <= end <==> (forall|k: int|
            c <= k <= col || col <= k <= c ==> #[trigger] word[k])),
        !word[col] ==> (start <= c <= end <==> c == col),
{
    if word[col] {
        if c < start {
            assert(!word[start - 1]);
        }
        if c > end {
            assert(!word[end + 1]);
        }
    }
}

/// A row of the view belongs to the line of `row` just when every row from the
/// upper to the one above the lower of the two runs on into the next.
pub proof fn law_line_span_is_the_run(s: Screen, row: int, start: int, end: int, r: int)
    requires
        is_line_span(s, row, start, end),
        0 <= r < s.rows,
    ensures
        start <= r <= end <==> (forall|k: int|
            r <= k < row || row <= k < r ==> #[trigger] s.visible_row_wrapped(k)),
{
    if r < start {
        assert(!s.visible_row_wrapped(start - 1));
    }
    if r > end {
        assert(!s.visible_row_wrapped(end));
    }
}

/// There is only one last column with text.
pub proof fn law_last_text_column_is_unique(s: Screen, row: int, a: int, b: int)
    requires
        is_last_text_column(s, row, a),
        is_last_text_column(s, row, b),
    ensures
        a == b,
{
    if a < b {
        assert(s.visible_cell(row, b).ch == ' ');
    }
    if b < a {
        assert(s.visible_cell(row, a).ch == ' ');
    }
}

/// A drag keeps the end that was put down first and moves the other one to the
/// pointer. A drag that is nowhere on the grid selects nothing new.
pub proof fn law_drag_moves_one_end(
    before: Option<Selection>,
    anchor: Option<(usize, usize)>,
    active: Option<(usize, usize)>,
)
    ensures
        ({
            let after = after_drag(before, anchor, active);
            &&& before matches Some(s) ==> after is Some && after->0.anchor == s.anchor
            &&& before is None && anchor is Some ==> after is Some && after->0.anchor == anchor->0
            &&& before is None && anchor is None ==> after is None
            &&& after is Some && active is Some ==> after->0.active == active->0
            &&& active is None && before is Some ==> after == before
            &&& active is None && before is None && anchor is Some ==> after->0.active == anchor->0
        }),
{
}

/// Presses on one cell in quick succession clear, select the word, select the
/// line, and so on again. A press elsewhere, or one that comes late, is the
/// first of its row.
pub proof fn law_presses_in_a_row(
    clicks: Clicks,
    now: u32,
    row: usize,
    col: usize,
    limit: u32,
)
    requires
        clicks.count <= 3,
    ensures
        ({
            let after = clicks.pressed(now, row, col, limit);
            let since = if now >= clicks.time {
                now - clicks.time
            } else {
                now - clicks.time + 0x1_0000_0000
            };
            let again = clicks.row == row && clicks.col == col && since <= limit;
            &&& after.time == now && after.row == row && after.col == col
            &&& 1 <= after.count <= 3
            &&& !again ==> after.selects() == Press::Clear
            &&& again && clicks.count == 0 ==> after.selects() == Press::Clear
            &&& again && clicks.count == 1 ==> after.selects() == Press::Word
            &&& again && clicks.count == 2 ==> after.selects() == Press::Line
            &&& again && clicks.count == 3 ==> after.selects() == Press::Clear && after.count == 1
        }),
{
    assert((now - clicks.time) % 0x1_0000_0000 == if now >= clicks.time {
        now - clicks.time
    } else {
        now - clicks.time + 0x1_0000_0000
    });
}

// ---- laws of copying ----
/// The selection from one cell to another.
pub open spec fn between(a: (int, int), b: (int, int)) -> Selection {
    Selection { anchor: (a.0 as usize, a.1 as usize), active: (b.0 as usize, b.1 as usize) }
}

proof fn lemma_strip_end(s: Seq<char>)
    ensures
        ({
            let t = text::strip_end(s, Strip::White);
            &&& t.len() <= s.len()
            &&& t == s.take(t.len() as int)
            &&& forall|i: int| t.len() <= i < s.len() ==> text::is_white(#[trigger] s[i])
            &&& t.len() > 0 ==> !text::is_white(t.last())
        }),
    decreases s.len(),
{
    let t = text::strip_end(s, Strip::White);
    if s.len() > 0 && text::is_white(s.last()) {
        let shorter = s.drop_last();
        lemma_strip_end(shorter);
        assert(shorter.take(t.len() as int) =~= s.take(t.len() as int));
        assert forall|i: int| t.len() <= i < s.len() implies text::is_white(#[trigger] s[i]) by {
            if i < s.len() - 1 {
                assert(shorter[i] == s[i]);
            }
        }
    } else {
        assert(s.take(s.len() as int) =~= s);
    }
}

/// Copying within one row gives the characters of the cells from the first to
/// the last column, all of them but for the blanks at the end.
pub proof fn law_copying_within_a_row(s: Screen, row: int, a: int, b: int)
    requires
        s.wf(),
        0 <= row < s.rows,
        0 <= a <= b < s.cols,
    ensures
        ({
            let t = copied_text(s, between((row, a), (row, b)));
            &&& t.len() <= b - a + 1
            &&& forall|i: int| 0 <= i < t.len() ==> #[trigger] t[i] == s.visible_cell(
                row,
                a + i,
            ).ch
            &&& forall|c: int|
                a + t.len() <= c <= b ==> text::is_white((#[trigger] s.visible_cell(row, c)).ch)
            &&& t.len() > 0 ==> !text::is_white(t.last())
        }),
{
    reveal_with_fuel(copied_rows, 3);
    let t = copied_text(s, between((row, a), (row, b)));
    let line = row_text(s, row, a, b);
    lemma_strip_end(line);
    assert(t =~= text::strip_end(line, Strip::White));
    assert forall|c: int| a + t.len() <= c <= b implies text::is_white(
        (#[trigger] s.visible_cell(row, c)).ch,
    ) by {
        assert(line[c - a] == s.visible_cell(row, c).ch);
    }
    assert forall|i: int| 0 <= i < t.len() implies #[trigger] t[i] == s.visible_cell(row, a + i).ch by {
        assert(t[i] == line[i]);
    }
}

proof fn lemma_rows_from(s: Screen, span: (int, int, int, int), next: (int, int, int, int), end: int)
    requires
        span.0 + 1 <= end <= span.2 + 1,
        next == (span.0 + 1, 0int, span.2, span.3),
        span.0 < span.2,
    ensures
        copied_rows(s, span, end) == copied_row(s, span, span.0) + copied_rows(s, next, end),
    decreases end - span.0,
{
    if end == span.0 + 1 {
        assert(copied_rows(s, span, span.0) =~= Seq::<char>::empty());
        assert(copied_rows(s, next, end) =~= Seq::<char>::empty());
        assert(copied_rows(s, span, end) =~= copied_row(s, span, span.0));
    } else {
        lemma_rows_from(s, span, next, end - 1);
        assert(copied_row(s, span, end - 1) == copied_row(s, next, end - 1));
        assert(copied_rows(s, span, end) =~= copied_row(s, span, span.0) + copied_rows(s, next, end));
    }
}

/// Copying over several rows: the first row to its end, then the rest from the
/// start of the next row. In between comes a newline, unless the first row runs
/// on into the next: then its blanks are kept and nothing comes in between.
pub proof fn law_copying_over_rows(s: Screen, a: (int, int), b: (int, int))
    requires
        s.wf(),
        0 <= a.0 < b.0 < s.rows,
        0 <= a.1 < s.cols,
        0 <= b.1 < s.cols,
    ensures
        ({
            let whole = copied_text(s, between(a, b));
            let first = copied_text(s, between(a, (a.0, s.cols - 1)));
            let rest = copied_text(s, between((a.0 + 1, 0), b));
            if s.visible_row_wrapped(a.0) {
                &&& whole.len() == (s.cols - a.1) + rest.len()
                &&& whole.skip(s.cols - a.1) == rest
                &&& forall|i: int|
                    0 <= i < s.cols - a.1 ==> #[trigger] whole[i] == s.visible_cell(
                        a.0,
                        a.1 + i,
                    ).ch
            } else {
                whole == first.push('\n') + rest
            }
        }),
{
    reveal_with_fuel(copied_rows, 3);
    let span = on_grid(s, between(a, b));
    let next = on_grid(s, between((a.0 + 1, 0), b));
    let one = on_grid(s, between(a, (a.0, s.cols - 1)));
    assert(span == (a.0, a.1, b.0, b.1));
    assert(next == (a.0 + 1, 0int, b.0, b.1));
    assert(one == (a.0, a.1, a.0, s.cols - 1));
    lemma_rows_from(s, span, next, b.0 + 1);
    let whole = copied_text(s, between(a, b));
    let first = copied_text(s, between(a, (a.0, s.cols - 1)));
    let rest = copied_text(s, between((a.0 + 1, 0), b));
    let line = row_text(s, a.0, a.1, s.cols - 1);
    assert(first =~= text::strip_end(line, Strip::White));
    assert(whole == copied_row(s, span, a.0) + rest);
    if s.visible_row_wrapped(a.0) {
        assert(copied_row(s, span, a.0) == line);
        assert(whole.skip(s.cols - a.1) =~= rest);
    }
}

/// The characters of the first `n` cells of a row of the view that a selection
/// covers.
pub open spec fn covered_in_row(s: Screen, selection: Selection, row: int, n: int) -> Seq<char>
    decreases n,
{
    if n <= 0 {
        Seq::empty()
    } else {
        let before = covered_in_row(s, selection, row, n - 1);
        if selection.covers((row as usize, (n - 1) as usize)) {
            before.push(s.visible_cell(row, n - 1).ch)
        } else {
            before
        }
    }
}

/// The characters of the cells of the first `n` rows of the view that a
/// selection covers, in reading order.
pub open spec fn covered_text(s: Screen, selection: Selection, n: int) -> Seq<char>
    decreases n,
{
    if n <= 0 {
        Seq::empty()
    } else {
        covered_text(s, selection, n - 1) + covered_in_row(s, selection, n - 1, s.cols)
    }
}

proof fn lemma_strip_keeps_ink(s: Seq<char>)
    ensures
        text::without_white(text::strip_end(s, Strip::White)) == text::without_white(s),
    decreases s.len(),
{
    if s.len() > 0 && text::is_white(s.last()) {
        lemma_strip_keeps_ink(s.drop_last());
    }
}

proof fn lemma_covered_in_row(
    s: Screen,
    selection: Selection,
    row: int,
    from: int,
    to: int,
    n: int,
)
    requires
        0 <= row <= usize::MAX,
        0 <= from <= to + 1,
        to < s.cols <= usize::MAX,
        0 <= n <= s.cols,
        forall|c: int|
            0 <= c < s.cols ==> (#[trigger] selection.covers((row as usize, c as usize)) <==> from
                <= c <= to),
    ensures
        covered_in_row(s, selection, row, n) == row_text(
            s,
            row,
            from,
            if n - 1 < to {
                if n - 1 < from - 1 {
                    from - 1
                } else {
                    n - 1
                }
            } else {
                to
            },
        ),
    decreases n,
{
    let upto = |n: int| if n - 1 < to {
        if n - 1 < from - 1 {
            from - 1
        } else {
            n - 1
        }
    } else {
        to
    };
    if n > 0 {
        lemma_covered_in_row(s, selection, row, from, to, n - 1);
        assert(selection.covers((row as usize, (n - 1) as usize)) <==> from <= n - 1 <= to);
        assert(covered_in_row(s, selection, row, n) =~= row_text(s, row, from, upto(n)));
    } else {
        assert(covered_in_row(s, selection, row, n) =~= row_text(s, row, from, upto(n)));
    }
}

proof fn lemma_copied_row_ink(s: Screen, selection: Selection, row: int)
    requires
        s.wf(),
        s.cols > 0,
        selection.start().1 < s.cols,
        selection.end().0 < s.rows,
        selection.start().0 <= row <= selection.end().0,
    ensures
        text::without_white(copied_row(s, on_grid(s, selection), row)) == text::without_white(
            covered_in_row(s, selection, row, s.cols),
        ),
{
    let (sr, sc, er, ec) = on_grid(s, selection);
    let from = if row == sr { sc } else { 0 };
    let to = if row == er { ec } else { s.cols - 1 };
    let line = row_text(s, row, from, to);
    assert forall|c: int| 0 <= c < s.cols implies (#[trigger] selection.covers(
        (row as usize, c as usize),
    ) <==> from <= c <= to) by {}
    lemma_covered_in_row(s, selection, row, from, to, s.cols);
    assert(covered_in_row(s, selection, row, s.cols) == line);
    lemma_strip_keeps_ink(line);
    let stripped = text::strip_end(line, Strip::White);
    assert(stripped.push('\n').drop_last() =~= stripped);
}

proof fn lemma_uncovered_row(s: Screen, selection: Selection, row: int, n: int)
    requires
        0 <= row <= usize::MAX,
        n <= usize::MAX,
        row < selection.start().0 || row > selection.end().0,
    ensures
        covered_in_row(s, selection, row, n) == Seq::<char>::empty(),
    decreases n,
{
    if n > 0 {
        lemma_uncovered_row(s, selection, row, n - 1);
    }
}

proof fn lemma_copied_ink(s: Screen, selection: Selection, n: int)
    requires
        s.wf(),
        s.cols > 0,
        selection.start().1 < s.cols,
        selection.end().0 < s.rows,
        0 <= n <= s.rows,
    ensures
        text::without_white(
            copied_rows(
                s,
                on_grid(s, selection),
                if n <= selection.end().0 + 1 {
                    n
                } else {
                    selection.end().0 + 1
                },
            ),
        ) == text::without_white(covered_text(s, selection, n)),
    decreases n,
{
    let span = on_grid(s, selection);
    if n > 0 {
        lemma_copied_ink(s, selection, n - 1);
        let before = covered_text(s, selection, n - 1);
        let row = covered_in_row(s, selection, n - 1, s.cols);
        text::law_white_space_is_left_out(before, row, ' ');
        if n - 1 < selection.start().0 || n - 1 > selection.end().0 {
            lemma_uncovered_row(s, selection, n - 1, s.cols);
            assert(before + row =~= before);
        } else {
            lemma_copied_row_ink(s, selection, n - 1);
            text::law_white_space_is_left_out(
                copied_rows(s, span, n - 1),
                copied_row(s, span, n - 1),
                ' ',
            );
        }
    }
}

/// What is copied is what is covered: apart from blanks and newlines, the copied
/// text has the characters of just those cells of the view that the selection
/// covers, in reading order.
pub proof fn law_copied_is_what_is_covered(s: Screen, selection: Selection)
    requires
        s.wf(),
        s.cols > 0,
        selection.start().1 < s.cols,
        selection.end().0 < s.rows,
    ensures
        text::without_white(copied_text(s, selection)) == text::without_white(
            covered_text(s, selection, s.rows),
        ),
{
    lemma_copied_ink(s, selection, s.rows);
}

/// The word at a cell is made of the characters in view: where the cell holds a
/// word character so do all cells of the word, and the cells before and after it
/// do not; where it holds another one, the word is that cell.
pub proof fn law_words_are_made_of_word_characters(
    screen: Screen,
    row: usize,
    col: usize,
    s: Selection,
    c: int,
)
    requires
        0 <= screen.cols,
        col < screen.cols,
        0 <= c < screen.cols,
        is_word_at(screen, row, col, s),
    ensures
        ({
            let here = screen.visible_cell(row as int, col as int).ch;
            let there = screen.visible_cell(row as int, c).ch;
            let word_here = alphanumeric(here) || word_punctuation(here);
            let word_there = alphanumeric(there) || word_punctuation(there);
            &&& s.anchor.0 == row && s.active.0 == row
            &&& s.anchor.1 <= col <= s.active.1 < screen.cols
            &&& !word_here ==> s.anchor.1 == col && s.active.1 == col
            &&& word_here && s.anchor.1 <= c <= s.active.1 ==> word_there
            &&& word_here && (c + 1 == s.anchor.1 || c == s.active.1 + 1) ==> !word_there
        }),
{
    let word = word_cells(screen, row as int);
    assert(word[c] == (alphanumeric(screen.visible_cell(row as int, c).ch) || word_punctuation(
        screen.visible_cell(row as int, c).ch,
    )));
    assert(word[col as int] == (alphanumeric(screen.visible_cell(row as int, col as int).ch)
        || word_punctuation(screen.visible_cell(row as int, col as int).ch)));
}

/// The line at a row begins in the first column of its first row and ends with
/// the last character of its last row that is no space. The rows in between run
/// on, and those around it do not run on into it.
pub proof fn law_lines_end_with_text(screen: Screen, row: usize, s: Selection, c: int)
    requires
        is_line_at(screen, row, s),
        0 <= c < screen.cols,
    ensures
        s.anchor.1 == 0,
        s.anchor.0 <= row <= s.active.0 < screen.rows,
        s.active.1 < screen.cols,
        c > s.active.1 ==> screen.visible_cell(s.active.0 as int, c).ch == ' ',
        s.active.1 > 0 ==> screen.visible_cell(s.active.0 as int, s.active.1 as int).ch != ' ',
        s.anchor.0 <= row < s.active.0 ==> screen.visible_row_wrapped(row as int),
        s.anchor.0 > 0 ==> !screen.visible_row_wrapped(s.anchor.0 - 1),
        s.active.0 + 1 < screen.rows ==> !screen.visible_row_wrapped(s.active.0 as int),
{
}

} // verus!
