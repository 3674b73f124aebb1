//! What controls, escape sequences and requests for reports do.
use vstd::prelude::*;
use crate::grid::CursorShape;
use crate::parser;
use crate::screen::Screen;
use crate::sequence_laws;
use crate::text;
use crate::vt;
use crate::vt::{ActiveCharset, Charset, Event, Vt};

verus! {

/// The controls: backspace, tab, the three that feed a line, carriage return,
/// and the two that choose a character set. The others do nothing.
pub proof fn law_controls(t: Vt, byte: u8)
    ensures
        ({
            let after = t.perform(Event::Execute(byte));
            let s = t.screen;
            &&& byte == 8 ==> after == Vt { screen: s.backspace(), ..t }
            &&& byte == 9 ==> after == Vt { screen: s.tab(), ..t }
            &&& 10 <= byte <= 12 ==> after == Vt { screen: s.linefeed(), ..t }
            &&& byte == 13 ==> after == Vt { screen: s.carriage_return(), ..t }
            &&& byte == 14 ==> after == Vt { active: ActiveCharset::G1, ..t }
            &&& byte == 15 ==> after == Vt { active: ActiveCharset::G0, ..t }
            &&& byte < 8 || byte > 15 ==> after == t
        }),
{
}

/// `ESC 7` and `ESC 8` save and restore the cursor; `ESC (` and `ESC )`
/// designate a character set to G0 and G1: `0` is line drawing, anything else
/// ASCII. Other escape sequences do nothing.
pub proof fn law_escape_sequences(t: Vt, byte: u8, intermediates: Seq<u8>)
    ensures
        ({
            let bare = Seq::<u8>::empty();
            let at = |i: Seq<u8>, b: u8| t.perform(Event::Esc { intermediates: i, byte: b });
            let set = if byte == 0x30 { Charset::DecGraphics } else { Charset::Ascii };
            &&& at(bare, 0x37) == Vt { screen: t.screen.save_cursor(), ..t }
            &&& at(bare, 0x38) == Vt { screen: t.screen.restore_cursor(), ..t }
            &&& byte != 0x37 && byte != 0x38 ==> at(bare, byte) == t
            &&& at(seq![0x28u8], byte) == Vt { g0: set, ..t }
            &&& at(seq![0x29u8], byte) == Vt { g1: set, ..t }
            &&& intermediates.len() > 1 ==> at(intermediates, byte) == t
            &&& intermediates.len() == 1 && intermediates[0] != 0x28 && intermediates[0] != 0x29
                ==> at(intermediates, byte) == t
        }),
{
    assert(seq![0x28u8][0] == 0x28 && seq![0x29u8][0] == 0x29);
    assert(seq![0x28u8] != seq![0x29u8]);
}

/// Characters go through the active set. Line drawing changes only the
/// characters from the underscore to the tilde, and no two of them are drawn
/// alike.
pub proof fn law_line_drawing(t: Vt, a: char, b: char)
    ensures
        ({
            let set = if t.active == ActiveCharset::G0 { t.g0 } else { t.g1 };
            &&& set == Charset::Ascii ==> t.print(a).screen == t.screen.put_char(a)
            &&& set == Charset::DecGraphics ==> t.print(a).screen == t.screen.put_char(
                vt::dec_graphics(a),
            )
            &&& t.print(a) == Vt { screen: t.print(a).screen, ..t }
        }),
        !('_' <= a <= '~') ==> vt::dec_graphics(a) == a,
        '_' <= a <= '~' && '_' <= b <= '~' && vt::dec_graphics(a) == vt::dec_graphics(b) ==> a
            == b,
{
}

/// Where a box-drawing character has arms: up, down, left and right.
pub open spec fn arms(c: char) -> Option<(bool, bool, bool, bool)> {
    match c {
        '\u{2500}' => Some((false, false, true, true)),
        '\u{2502}' => Some((true, true, false, false)),
        '\u{250c}' => Some((false, true, false, true)),
        '\u{2510}' => Some((false, true, true, false)),
        '\u{2514}' => Some((true, false, false, true)),
        '\u{2518}' => Some((true, false, true, false)),
        '\u{251c}' => Some((true, true, false, true)),
        '\u{2524}' => Some((true, true, true, false)),
        '\u{252c}' => Some((false, true, true, true)),
        '\u{2534}' => Some((true, false, true, true)),
        '\u{253c}' => Some((true, true, true, true)),
        _ => None,
    }
}

/// The letters of line drawing: `q` and `x` are the lines, `l`, `k`, `m` and `j`
/// the corners from the top left to the bottom right, `t`, `u`, `w` and `v` the
/// tees that point right, left, down and up, and `n` the crossing. No other
/// letter is a piece of a box.
pub proof fn law_box_pieces(c: char)
    ensures
        ({
            let piece = arms(vt::dec_graphics(c));
            let up = seq!['x', 'm', 'j', 't', 'u', 'v', 'n'].contains(c);
            let down = seq!['x', 'l', 'k', 't', 'u', 'w', 'n'].contains(c);
            let left = seq!['q', 'k', 'j', 'u', 'w', 'v', 'n'].contains(c);
            let right = seq!['q', 'l', 'm', 't', 'w', 'v', 'n'].contains(c);
            &&& up || down || left || right ==> piece == Some((up, down, left, right))
            &&& c <= '~' && !(up || down || left || right) ==> piece is None
        }),
{
    let u = seq!['x', 'm', 'j', 't', 'u', 'v', 'n'];
    let d = seq!['x', 'l', 'k', 't', 'u', 'w', 'n'];
    let l = seq!['q', 'k', 'j', 'u', 'w', 'v', 'n'];
    let r = seq!['q', 'l', 'm', 't', 'w', 'v', 'n'];
    assert(u[0] == 'x' && u[1] == 'm' && u[2] == 'j' && u[3] == 't' && u[4] == 'u' && u[5] == 'v'
        && u[6] == 'n');
    assert(d[0] == 'x' && d[1] == 'l' && d[2] == 'k' && d[3] == 't' && d[4] == 'u' && d[5] == 'w'
        && d[6] == 'n');
    assert(l[0] == 'q' && l[1] == 'k' && l[2] == 'j' && l[3] == 'u' && l[4] == 'w' && l[5] == 'v'
        && l[6] == 'n');
    assert(r[0] == 'q' && r[1] == 'l' && r[2] == 'm' && r[3] == 't' && r[4] == 'w' && r[5] == 'v'
        && r[6] == 'n');
}

/// The other symbols of line drawing: the diamond, the checkerboard, degree and
/// plus-minus signs, the pictures of a newline and a vertical tab, the scan lines
/// from the highest to the lowest, the comparisons, pi, the pound sign and the
/// middle dot. The underscore is blank.
pub proof fn law_line_drawing_symbols(c: char)
    requires
        c <= '~',
    ensures
        vt::dec_graphics(c) == '\u{25c6}' <==> c == '`',
        vt::dec_graphics(c) == '\u{2592}' <==> c == 'a',
        vt::dec_graphics(c) == '\u{b0}' <==> c == 'f',
        vt::dec_graphics(c) == '\u{b1}' <==> c == 'g',
        vt::dec_graphics(c) == '\u{2424}' <==> c == 'h',
        vt::dec_graphics(c) == '\u{240b}' <==> c == 'i',
        vt::dec_graphics(c) == '\u{23ba}' <==> c == 'o',
        vt::dec_graphics(c) == '\u{23bb}' <==> c == 'p',
        vt::dec_graphics(c) == '\u{23bc}' <==> c == 'r',
        vt::dec_graphics(c) == '\u{23bd}' <==> c == 's',
        vt::dec_graphics(c) == '\u{2264}' <==> c == 'y',
        vt::dec_graphics(c) == '\u{2265}' <==> c == 'z',
        vt::dec_graphics(c) == '\u{3c0}' <==> c == '{',
        vt::dec_graphics(c) == '\u{2260}' <==> c == '|',
        vt::dec_graphics(c) == '\u{a3}' <==> c == '}',
        vt::dec_graphics(c) == '\u{b7}' <==> c == '~',
        vt::dec_graphics(c) == ' ' <==> c == '_' || c == ' ',
        'b' <= c <= 'e' ==> vt::dec_graphics(c) == c,
{
}

/// The number that decimal digits stand for.
pub open spec fn number(digits: Seq<u8>) -> int
    decreases digits.len(),
{
    if digits.len() == 0 {
        0
    } else {
        number(digits.drop_last()) * 10 + (digits.last() - 0x30)
    }
}

/// Decimal digits read back as the number, are digits, and do not start with a
/// zero unless that is all.
pub proof fn law_decimal_reads_back(n: nat)
    ensures
        number(text::decimal(n)) == n,
        text::decimal(n).len() > 0,
        forall|i: int| 0 <= i < text::decimal(n).len() ==> 0x30 <= #[trigger] text::decimal(n)[i] <= 0x39,
        n > 0 ==> text::decimal(n)[0] != 0x30,
    decreases n,
{
    let d = text::decimal(n);
    if n >= 10 {
        law_decimal_reads_back(n / 10);
        assert(d.drop_last() =~= text::decimal(n / 10));
        assert(d.last() == (48 + n % 10) as u8);
        assert forall|i: int| 0 <= i < d.len() implies 0x30 <= #[trigger] d[i] <= 0x39 by {
            if i < d.len() - 1 {
                assert(d[i] == text::decimal(n / 10)[i]);
            }
        }
        assert(d[0] == text::decimal(n / 10)[0]);
    } else {
        assert(d.drop_last() =~= Seq::<u8>::empty());
        assert(number(d.drop_last()) == 0);
        assert(d.last() == (48 + n) as u8);
    }
}

/// A request for the cursor's position is answered with the row and the column,
/// counted from 1, between `ESC [`, a semicolon and `R`; nothing else changes.
pub proof fn law_position_report(t: Vt)
    requires
        t.screen.wf(),
    ensures
        ({
            let after = t.perform(sequence_laws::sequence(6, 'n'));
            let row = text::decimal((t.screen.cursor_row + 1) as nat);
            let col = text::decimal((t.screen.cursor_col + 1) as nat);
            let report = after.responses.skip(t.responses.len() as int);
            &&& after == Vt { responses: after.responses, ..t }
            &&& after.responses.take(t.responses.len() as int) == t.responses
            &&& report.len() == 4 + row.len() + col.len()
            &&& report[0] == 0x1b && report[1] == 0x5b
            &&& report.subrange(2, 2 + row.len() as int) == row
            &&& report[2 + row.len() as int] == 0x3b
            &&& report.subrange(3 + row.len() as int, 3 + row.len() + col.len() as int) == col
            &&& report.last() == 0x52
        }),
{
    let after = t.perform(sequence_laws::sequence(6, 'n'));
    let row = text::decimal((t.screen.cursor_row + 1) as nat);
    let col = text::decimal((t.screen.cursor_col + 1) as nat);
    let report = after.responses.skip(t.responses.len() as int);
    let whole = seq![0x1bu8, 0x5b] + row + seq![0x3bu8] + col + seq![0x52u8];
    assert(report =~= whole);
    assert(whole.subrange(2, 2 + row.len() as int) =~= row);
    assert(whole.subrange(3 + row.len() as int, 3 + row.len() + col.len() as int) =~= col);
    assert(after.responses.take(t.responses.len() as int) =~= t.responses);
}

/// A request for another status is not answered; one for the device attributes
/// is answered the same way whatever its number.
pub proof fn law_other_reports(t: Vt, n: u16, m: u16)
    ensures
        n != 6 ==> t.perform(sequence_laws::sequence(n, 'n')) == t,
        t.perform(sequence_laws::sequence(n, 'c')) == t.perform(sequence_laws::sequence(m, 'c')),
        t.perform(sequence_laws::sequence(n, 'c')) == (Vt {
            responses: t.perform(sequence_laws::sequence(n, 'c')).responses,
            ..t
        }),
        ({
            let answer = t.perform(sequence_laws::sequence(n, 'c')).responses.skip(t.responses.len() as int);
            &&& answer.len() == 7
            &&& answer[0] == 0x1b && answer[1] == 0x5b && answer[2] == 0x3f
            &&& answer[3] == 0x31 && answer[4] == 0x3b && answer[5] == 0x32
            &&& answer[6] == 0x63
        }),
{
}

/// The cursor's shape: 0 to 2 a block, 3 and 4 an underline, 5 and 6 a bar;
/// another number changes nothing.
pub proof fn law_cursor_shapes(t: Vt, n: u16)
    ensures
        ({
            let after = t.perform(
                Event::Csi { params: seq![seq![n]], intermediates: seq![0x20u8], action: 'q' },
            );
            &&& n <= 2 ==> after == Vt {
                screen: Screen { cursor_shape: CursorShape::Block, ..t.screen },
                ..t
            }
            &&& n == 3 || n == 4 ==> after == Vt {
                screen: Screen { cursor_shape: CursorShape::Underline, ..t.screen },
                ..t
            }
            &&& n == 5 || n == 6 ==> after == Vt {
                screen: Screen { cursor_shape: CursorShape::Bar, ..t.screen },
                ..t
            }
            &&& n > 6 ==> after == t
        }),
{
    assert(seq![0x20u8][0] == 0x20 && seq![0x3fu8][0] == 0x3f);
}

/// Of seven-bit bytes without an escape, each is an event of its own, in order:
/// those below the space are controls, the others characters.
pub proof fn law_plain_bytes(bytes: Seq<u8>, i: int)
    requires
        parser::is_plain(bytes),
        0 <= i < bytes.len(),
    ensures
        parser::plain_events(bytes).len() == bytes.len(),
        bytes[i] < 32 ==> parser::plain_events(bytes)[i] == Event::Execute(bytes[i]),
        bytes[i] >= 32 ==> parser::plain_events(bytes)[i] == Event::Print(bytes[i] as char),
        bytes[i] != 0x1b && bytes[i] < 128,
{
}

} // verus!
