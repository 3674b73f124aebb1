//! What control sequences do to the screen, by the numbers they carry.
use vstd::prelude::*;
use crate::screen::Screen;
use crate::vt;
use crate::vt::{Event, Vt};

verus! {

/// A number that is missing or 0 counts as 1.
pub open spec fn count(n: u16) -> int {
    if n == 0 {
        1
    } else {
        n as int
    }
}

/// A control sequence with one number.
pub open spec fn sequence(n: u16, action: char) -> Event {
    Event::Csi { params: seq![seq![n]], intermediates: Seq::empty(), action }
}

/// A control sequence with two numbers.
pub open spec fn sequence2(n: u16, m: u16, action: char) -> Event {
    Event::Csi { params: seq![seq![n], seq![m]], intermediates: Seq::empty(), action }
}

/// A control sequence without a number.
pub open spec fn bare(action: char) -> Event {
    Event::Csi { params: Seq::empty(), intermediates: Seq::empty(), action }
}

/// The screen after an event.
#[verifier::opaque]
pub open spec fn after(t: Vt, event: Event) -> Screen {
    t.perform(event).screen
}

/// A plain sequence acts on the screen alone, by its first two numbers.
proof fn lemma_plain_sequence(t: Vt, n: u16, m: u16, action: char)
    requires
        action != 'm',
        action != 'n',
        action != 'c',
    ensures
        after(t, sequence(n, action)) == vt::screen_csi(t.screen, Some(n), None, action),
        after(t, sequence2(n, m, action)) == vt::screen_csi(t.screen, Some(n), Some(m), action),
        after(t, bare(action)) == vt::screen_csi(t.screen, None, None, action),
{
    reveal(after);
    assert(seq![seq![n]][0][0] == n);
    assert(seq![seq![n], seq![m]][0][0] == n && seq![seq![n], seq![m]][1][0] == m);
}

/// `A` moves the cursor up, `B` and `e` down, by as many rows as the number says
/// and no further than the edge. The column and the rows stay.
pub proof fn law_sequences_up_and_down(t: Vt, n: u16)
    requires
        t.screen.wf(),
        t.screen.rows > 0,
    ensures
        ({
            let s = t.screen;
            let k = count(n);
            let up = after(t, sequence(n, 'A'));
            let down = after(t, sequence(n, 'B'));
            &&& up.cursor_row == if k <= s.cursor_row { s.cursor_row - k } else { 0 }
            &&& down.cursor_row == if s.cursor_row + k < s.rows {
                s.cursor_row + k
            } else {
                s.rows - 1
            }
            &&& up.cursor_col == s.cursor_col && down.cursor_col == s.cursor_col
            &&& up.lines == s.lines && down.lines == s.lines
            &&& after(t, sequence(n, 'e')) == down
        }),
{
    lemma_plain_sequence(t, n, 0, 'A');
    lemma_plain_sequence(t, n, 0, 'B');
    lemma_plain_sequence(t, n, 0, 'e');
}

/// `C` and `a` move the cursor right and `D` left, by as many columns as the
/// number says and no further than the edge. The row and the rows' cells stay.
pub proof fn law_sequences_right_and_left(t: Vt, n: u16)
    requires
        t.screen.wf(),
        t.screen.cols > 0,
    ensures
        ({
            let s = t.screen;
            let k = count(n);
            let right = after(t, sequence(n, 'C'));
            let left = after(t, sequence(n, 'D'));
            &&& right.cursor_col == if s.cursor_col + k < s.cols {
                s.cursor_col + k
            } else {
                s.cols - 1
            }
            &&& left.cursor_col == if k <= s.cursor_col { s.cursor_col - k } else { 0 }
            &&& right.cursor_row == s.cursor_row && left.cursor_row == s.cursor_row
            &&& right.lines == s.lines && left.lines == s.lines
            &&& after(t, sequence(n, 'a')) == right
        }),
{
    lemma_plain_sequence(t, n, 0, 'C');
    lemma_plain_sequence(t, n, 0, 'D');
    lemma_plain_sequence(t, n, 0, 'a');
}

/// `E` and `F` move the cursor down and up, and to the first column.
pub proof fn law_sequences_to_other_lines(t: Vt, n: u16)
    requires
        t.screen.wf(),
        t.screen.rows > 0,
    ensures
        ({
            let s = t.screen;
            let k = count(n);
            let down = after(t, sequence(n, 'E'));
            let up = after(t, sequence(n, 'F'));
            &&& down.cursor_row == if s.cursor_row + k < s.rows {
                s.cursor_row + k
            } else {
                s.rows - 1
            }
            &&& up.cursor_row == if k <= s.cursor_row { s.cursor_row - k } else { 0 }
            &&& up.cursor_col == 0 && down.cursor_col == 0
            &&& up.lines == s.lines && down.lines == s.lines
        }),
{
    lemma_plain_sequence(t, n, 0, 'E');
    lemma_plain_sequence(t, n, 0, 'F');
}

/// `G` and a backquote name a column, counted from 1, and `d` a row.
pub proof fn law_sequences_to_a_column_or_row(t: Vt, n: u16)
    requires
        t.screen.wf(),
        t.screen.rows > 0,
        t.screen.cols > 0,
    ensures
        ({
            let s = t.screen;
            let across = after(t, sequence(n, 'G'));
            let down = after(t, sequence(n, 'd'));
            &&& across.cursor_col == if count(n) <= s.cols { count(n) - 1 } else { s.cols - 1 }
            &&& across.cursor_row == s.cursor_row
            &&& down.cursor_row == if count(n) <= s.rows { count(n) - 1 } else { s.rows - 1 }
            &&& down.cursor_col == s.cursor_col
            &&& across.lines == s.lines && down.lines == s.lines
            &&& after(t, sequence(n, '`')) == across
        }),
{
    lemma_plain_sequence(t, n, 0, 'G');
    lemma_plain_sequence(t, n, 0, 'd');
    lemma_plain_sequence(t, n, 0, '`');
}

/// `H` and `f` name a row and a column, counted from 1.
pub proof fn law_sequences_to_a_place(t: Vt, n: u16, m: u16)
    requires
        t.screen.wf(),
        t.screen.rows > 0,
        t.screen.cols > 0,
    ensures
        ({
            let s = t.screen;
            let to = after(t, sequence2(n, m, 'H'));
            &&& to.cursor_row == if count(n) <= s.rows { count(n) - 1 } else { s.rows - 1 }
            &&& to.cursor_col == if count(m) <= s.cols { count(m) - 1 } else { s.cols - 1 }
            &&& to.lines == s.lines
            &&& after(t, sequence2(n, m, 'f')) == to
        }),
{
    lemma_plain_sequence(t, n, m, 'H');
    lemma_plain_sequence(t, n, m, 'f');
}

/// The sequences that erase, with the number as it is: `J` in the display and
/// `K` in the line. `X` erases that many characters.
pub proof fn law_sequences_that_erase(t: Vt, n: u16)
    ensures
        after(t, sequence(n, 'J')) == t.screen.erase_in_display(n as int),
        after(t, sequence(n, 'K')) == t.screen.erase_in_line(n as int),
        after(t, sequence(n, 'X')) == t.screen.erase_chars(count(n)),
{
    lemma_plain_sequence(t, n, 0, 'J');
    lemma_plain_sequence(t, n, 0, 'K');
    lemma_plain_sequence(t, n, 0, 'X');
}

/// The sequences that edit within a row: `P` deletes and `@` inserts characters.
pub proof fn law_sequences_that_edit_a_row(t: Vt, n: u16)
    ensures
        after(t, sequence(n, 'P')) == t.screen.delete_chars(count(n)),
        after(t, sequence(n, '@')) == t.screen.insert_chars(count(n)),
{
    lemma_plain_sequence(t, n, 0, 'P');
    lemma_plain_sequence(t, n, 0, '@');
}

/// The sequences that edit rows: `L` inserts and `M` deletes lines.
pub proof fn law_sequences_that_edit_lines(t: Vt, n: u16)
    ensures
        after(t, sequence(n, 'L')) == t.screen.insert_lines(count(n)),
        after(t, sequence(n, 'M')) == t.screen.delete_lines(count(n)),
{
    lemma_plain_sequence(t, n, 0, 'L');
    lemma_plain_sequence(t, n, 0, 'M');
}

/// The sequences that scroll: `S` up and `T` down.
pub proof fn law_sequences_that_scroll(t: Vt, n: u16)
    ensures
        after(t, sequence(n, 'S')) == t.screen.scroll_up(count(n)),
        after(t, sequence(n, 'T')) == t.screen.scroll_down(count(n)),
{
    lemma_plain_sequence(t, n, 0, 'S');
    lemma_plain_sequence(t, n, 0, 'T');
}

/// `r` sets the scroll region from its two numbers, `s` saves and `u` restores
/// the cursor.
pub proof fn law_sequences_for_region_and_cursor(t: Vt, n: u16, m: u16)
    ensures
        after(t, sequence2(n, m, 'r')) == t.screen.set_scroll_region(n as int, m as int),
        after(t, bare('r')) == t.screen.set_scroll_region(0, 0),
        after(t, bare('s')) == t.screen.save_cursor(),
        after(t, bare('u')) == t.screen.restore_cursor(),
{
    lemma_plain_sequence(t, n, m, 'r');
    lemma_plain_sequence(t, n, m, 's');
    lemma_plain_sequence(t, n, m, 'u');
}

/// What a number that is missing counts as is what 0 counts as.
pub proof fn law_missing_numbers_are_zero(params: Seq<Seq<u16>>, i: int, default: int)
    requires
        i >= params.len() || params[i].len() == 0,
        0 <= i,
    ensures
        vt::param(params, i) is None,
        vt::or_default(vt::param(params, i), default) == vt::or_default(Some(0u16), default),
        vt::or_default(Some(0u16), default) == default,
        vt::or_zero(vt::param(params, i)) == 0,
{
}

/// A number that is there and is not 0 counts as itself, and of its subparameters
/// the first counts.
pub proof fn law_numbers_count(params: Seq<Seq<u16>>, i: int, default: int)
    requires
        0 <= i < params.len(),
        params[i].len() > 0,
    ensures
        vt::or_zero(vt::param(params, i)) == params[i][0],
        params[i][0] != 0 ==> vt::or_default(vt::param(params, i), default) == params[i][0],
{
}

/// These sequences change nothing but the screen.
pub proof fn law_sequences_are_silent(t: Vt, n: u16, m: u16, action: char)
    requires
        action != 'm',
        action != 'n',
        action != 'c',
    ensures
        t.perform(sequence2(n, m, action)).responses == t.responses,
        t.perform(sequence2(n, m, action)).g0 == t.g0,
        t.perform(sequence2(n, m, action)).g1 == t.g1,
        t.perform(sequence2(n, m, action)).active == t.active,
        t.perform(sequence2(n, m, action)).bracketed_paste == t.bracketed_paste,
{
    assert(seq![seq![n], seq![m]][0][0] == n && seq![seq![n], seq![m]][1][0] == m);
}

/// A final byte that means nothing changes nothing.
pub proof fn law_unknown_sequences_do_nothing(
    t: Vt,
    params: Seq<Seq<u16>>,
    intermediates: Seq<u8>,
    action: char,
)
    ensures
        intermediates.len() == 0 && !seq![
            'A', 'B', 'C', 'D', 'E', 'F', 'G', 'H', 'J', 'K', 'L', 'M', 'P', 'S', 'T', 'X', '@',
            '`', 'a', 'c', 'd', 'e', 'f', 'm', 'n', 'r', 's', 'u',
        ].contains(action) ==> t.perform(Event::Csi { params, intermediates, action }) == t,
        intermediates.len() > 1 ==> t.perform(Event::Csi { params, intermediates, action }) == t,
        intermediates.len() == 1 && intermediates[0] != 0x3f && !(intermediates[0] == 0x20
            && action == 'q') ==> t.perform(Event::Csi { params, intermediates, action }) == t,
        intermediates.len() == 1 && intermediates[0] == 0x3f && action != 'h' && action != 'l'
            ==> t.perform(Event::Csi { params, intermediates, action }) == t,
{
    let known = seq![
        'A', 'B', 'C', 'D', 'E', 'F', 'G', 'H', 'J', 'K', 'L', 'M', 'P', 'S', 'T', 'X', '@', '`',
        'a', 'c', 'd', 'e', 'f', 'm', 'n', 'r', 's', 'u',
    ];
    assert(known[0] == 'A' && known[1] == 'B' && known[2] == 'C' && known[3] == 'D');
    assert(known[4] == 'E' && known[5] == 'F' && known[6] == 'G' && known[7] == 'H');
    assert(known[8] == 'J' && known[9] == 'K' && known[10] == 'L' && known[11] == 'M');
    assert(known[12] == 'P' && known[13] == 'S' && known[14] == 'T' && known[15] == 'X');
    assert(known[16] == '@' && known[17] == '`' && known[18] == 'a' && known[19] == 'c');
    assert(known[20] == 'd' && known[21] == 'e' && known[22] == 'f' && known[23] == 'm');
    assert(known[24] == 'n' && known[25] == 'r' && known[26] == 's' && known[27] == 'u');
    assert(seq![0x3fu8][0] == 0x3f && seq![0x20u8][0] == 0x20);
}

} // verus!
