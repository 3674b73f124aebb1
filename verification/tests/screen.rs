//! What holds of the screen as a whole, and escape sequences one by one.
use skyterm::parser::{Action, Performer};
use skyterm::theme::{CellColor, Color};
use skyterm::{CursorShape, Grid, MouseMode, Parser};

fn fed(cols: usize, rows: usize, bytes: &[u8]) -> (Grid, Parser) {
    let mut g = Grid::new(cols, rows);
    let mut p = Parser::new();
    p.advance(&mut g, bytes);
    (g, p)
}

fn lines(g: &Grid) -> Vec<String> {
    (0..g.rows())
        .map(|r| g.row(r).iter().map(|c| c.ch).collect::<String>().trim_end().to_string())
        .collect()
}

/// Everything that is remembered, rows joined where they were wrapped.
fn text(g: &Grid) -> String {
    let mut out = String::new();
    for r in 0..g.logical_rows() {
        let row: String = (0..g.cols()).map(|c| g.logical_cell(r, c).ch).collect();
        if g.logical_row_wrapped(r) {
            out.push_str(&row);
        } else {
            out.push_str(row.trim_end());
            out.push('\n');
        }
    }
    out.trim_end().to_string()
}

#[test]
fn resizing_keeps_the_text() {
    let (mut g, _) = fed(10, 4, b"first line is long\r\nsecond\r\n\r\nthird one here too");
    let before = text(&g);
    for (cols, rows) in [(3, 2), (40, 10), (7, 1), (10, 4), (1, 1), (80, 24)] {
        g.resize(cols, rows);
        assert_eq!(text(&g), before, "{cols} x {rows}");
    }
}

#[test]
fn resizing_keeps_the_cursor_on_its_character() {
    let (mut g, mut p) = fed(10, 4, b"hello world again");
    g.resize(5, 4);
    p.advance(&mut g, b"!");
    assert_eq!(text(&g), "hello world again!");
    g.resize(30, 4);
    assert_eq!(lines(&g)[0], "hello world again!");
    assert_eq!(g.cursor(), (0, 18));
}

#[test]
fn resizing_keeps_the_cursor_behind_text_that_fills_its_rows() {
    let (mut g, mut p) = fed(20, 3, b"HELLOWORLD12");
    g.resize(4, 3);
    assert_eq!(lines(&g), ["OWOR", "LD12", ""]);
    assert_eq!(g.scrollback_len(), 1);
    assert_eq!(g.cursor(), (2, 0));
    p.advance(&mut g, b"3");
    assert_eq!(text(&g), "HELLOWORLD123");
    g.resize(20, 3);
    assert_eq!(lines(&g)[0], "HELLOWORLD123");
    assert_eq!(g.cursor(), (0, 13));
}

#[test]
fn resizing_keeps_a_cursor_to_the_right_of_its_text() {
    let (mut g, _) = fed(20, 4, b"ab\x1b[1;11H");
    assert_eq!(g.cursor(), (0, 10));
    g.resize(4, 4);
    assert_eq!(lines(&g), ["ab", "", "", ""]);
    assert_eq!(g.cursor(), (2, 2));
    g.resize(20, 4);
    assert_eq!(g.cursor(), (0, 10));
    assert_eq!(text(&g), "ab");
}

#[test]
fn resizing_keeps_a_cursor_on_an_empty_line() {
    let (mut g, _) = fed(8, 4, b"ab\r\n\x1b[2;6H");
    g.resize(4, 4);
    assert_eq!(g.cursor(), (2, 1));
    g.resize(8, 4);
    assert_eq!(g.cursor(), (1, 5));
    assert_eq!(lines(&g), ["ab", "", "", ""]);
}

#[test]
fn a_scrolled_view_stays_where_it_is() {
    let (mut g, mut p) = fed(4, 2, b"a\r\nb\r\nc\r\nd");
    g.set_view_offset(2);
    assert_eq!(g.visible_cell(0, 0).ch, 'a');
    p.advance(&mut g, b"\r\ne\r\nf");
    assert_eq!(g.view_offset(), 4);
    assert_eq!(g.visible_cell(0, 0).ch, 'a');
    g.set_view_offset(99);
    assert_eq!(g.view_offset(), g.scrollback_len());
    g.set_view_offset(0);
    p.advance(&mut g, b"\r\ng");
    assert_eq!(g.view_offset(), 0);
}

#[test]
fn history_keeps_the_newest_rows() {
    let mut g = Grid::new(2, 1);
    g.set_scrollback_max(3);
    let mut p = Parser::new();
    p.advance(&mut g, b"a\r\nb\r\nc\r\nd\r\ne");
    assert_eq!(g.scrollback_len(), 3);
    assert_eq!(g.logical_cell(0, 0).ch, 'b');
    g.set_scrollback_max(1);
    assert_eq!(g.scrollback_len(), 1);
    assert_eq!(g.logical_cell(0, 0).ch, 'd');
}

#[test]
fn the_alternate_screen_leaves_no_trace() {
    let (mut g, mut p) = fed(6, 3, b"one\r\ntwo\x1b[?1049h\x1b[2;3H\x1b[31mxyz");
    g.resize(8, 3);
    p.advance(&mut g, b"\x1b[?1049l");
    assert_eq!(lines(&g), vec!["one", "two", ""]);
    assert_eq!(g.cursor(), (1, 3));
    assert_eq!(g.scrollback_len(), 0);
    // Leaving it twice does nothing.
    p.advance(&mut g, b"\x1b[?1049l");
    assert_eq!(lines(&g), vec!["one", "two", ""]);
}

#[test]
fn saved_cursors_come_back_with_their_colors() {
    let (mut g, mut p) = fed(10, 3, b"\x1b[2;4H\x1b[31;7m\x1b7\x1b[H\x1b[0m\x1b8");
    assert_eq!(g.cursor(), (1, 3));
    p.advance(&mut g, b"x");
    assert_eq!(g.cell(1, 3).bg, CellColor::Palette(1));
    let (g, _) = fed(10, 3, b"\x1b[2;4H\x1b[s\x1b[H\x1b[u");
    assert_eq!(g.cursor(), (1, 3));
}

#[test]
fn inserted_lines_and_characters_can_be_deleted() {
    let (mut g, _) = fed(4, 3, b"ab\r\ncd\x1b[1;1H");
    let before = lines(&g);
    g.insert_lines(1);
    assert_eq!(lines(&g), vec!["", "ab", "cd"]);
    g.delete_lines(1);
    assert_eq!(lines(&g), before);
    g.insert_chars(2);
    assert_eq!(lines(&g)[0], "  ab");
    g.delete_chars(2);
    assert_eq!(lines(&g), before);
    g.erase_chars(1);
    assert_eq!(lines(&g)[0], " b");
}

#[test]
fn erasing() {
    let start: &[u8] = b"abc\r\ndef\r\nghi\x1b[2;2H";
    let after = |bytes: &[u8]| {
        let (mut g, mut p) = fed(3, 3, start);
        p.advance(&mut g, bytes);
        lines(&g)
    };
    assert_eq!(after(b"\x1b[K"), vec!["abc", "d", "ghi"]);
    assert_eq!(after(b"\x1b[1K"), vec!["abc", "  f", "ghi"]);
    assert_eq!(after(b"\x1b[2K"), vec!["abc", "", "ghi"]);
    assert_eq!(after(b"\x1b[J"), vec!["abc", "d", ""]);
    assert_eq!(after(b"\x1b[1J"), vec!["", "  f", "ghi"]);
    assert_eq!(after(b"\x1b[2J"), vec!["", "", ""]);
    assert_eq!(after(b"\x1b[9K"), vec!["abc", "def", "ghi"]);
}

#[test]
fn moving() {
    let (mut g, mut p) = fed(10, 5, b"\x1b[3;3H\x1b[A");
    assert_eq!(g.cursor(), (1, 2));
    p.advance(&mut g, b"\x1b[2B\x1b[3C\x1b[D");
    assert_eq!(g.cursor(), (3, 4));
    p.advance(&mut g, b"\x1b[99;99H");
    assert_eq!(g.cursor(), (4, 9));
    p.advance(&mut g, b"\x1b[2d\x1b[7G");
    assert_eq!(g.cursor(), (1, 6));
    p.advance(&mut g, b"\r\t");
    assert_eq!(g.cursor(), (1, 8));
    p.advance(&mut g, b"\x08\x08");
    assert_eq!(g.cursor(), (1, 6));
    p.advance(&mut g, b"\x1b[;H");
    assert_eq!(g.cursor(), (0, 0));
}

#[test]
fn scrolling_sequences() {
    let (g, _) = fed(2, 3, b"a\r\nb\r\nc\x1b[S");
    assert_eq!(lines(&g), vec!["b", "c", ""]);
    let (g, _) = fed(2, 3, b"a\r\nb\r\nc\x1b[T");
    assert_eq!(lines(&g), vec!["", "a", "b"]);
    // A region that makes no sense is ignored.
    let (g, _) = fed(2, 3, b"\x1b[3;2r");
    assert_eq!(g.scroll_region(), (0, 2));
}

#[test]
fn attributes() {
    let (g, _) = fed(8, 1, b"\x1b[1;31ma\x1b[22mb\x1b[39;44mc\x1b[7md\x1b[27;49me\x1b[91;102mf");
    // Bold is remembered and changes no color.
    assert_eq!(g.cell(0, 0).fg, CellColor::Palette(1));
    assert_eq!(g.cell(0, 1).fg, CellColor::Palette(1));
    assert_eq!((g.cell(0, 2).fg, g.cell(0, 2).bg), (CellColor::Default, CellColor::Palette(4)));
    assert_eq!(g.cell(0, 3).fg, CellColor::Palette(4));
    assert_eq!((g.cell(0, 4).fg, g.cell(0, 4).bg), (CellColor::Default, CellColor::Default));
    assert_eq!((g.cell(0, 5).fg, g.cell(0, 5).bg), (CellColor::Palette(9), CellColor::Palette(10)));
    let (g, _) = fed(8, 1, b"\x1b[48;2;1;2;3ma\x1b[38:5:200mb");
    assert_eq!(g.cell(0, 0).bg, CellColor::Rgb(Color::rgb(1, 2, 3)));
    assert_eq!(g.cell(0, 1).ch, 'b');
}

#[test]
fn modes() {
    let (mut g, mut p) = fed(4, 1, b"\x1b[?1;1002;1006;2004h");
    assert!(g.app_cursor_keys);
    assert!(g.mouse_sgr);
    assert_eq!(g.mouse_mode, MouseMode::ButtonMotion);
    assert!(p.bracketed_paste());
    p.advance(&mut g, b"\x1b[?1;1002;1006;2004l");
    assert!(!g.app_cursor_keys && !g.mouse_sgr && !p.bracketed_paste());
    assert_eq!(g.mouse_mode, MouseMode::Off);
    p.advance(&mut g, b"\x1b[?1000h");
    assert_eq!(g.mouse_mode, MouseMode::Normal);
    p.advance(&mut g, b"\x1b[?1003h");
    assert_eq!(g.mouse_mode, MouseMode::AnyMotion);
    p.advance(&mut g, b"\x1b[4 q");
    assert_eq!(g.cursor_shape(), CursorShape::Underline);
    p.advance(&mut g, b"\x1b[6 q");
    assert_eq!(g.cursor_shape(), CursorShape::Bar);
    p.advance(&mut g, b"\x1b[0 q");
    assert_eq!(g.cursor_shape(), CursorShape::Block);
}

#[test]
fn bytes_can_be_split_over_calls() {
    let bytes = "h\u{e9}l\u{251c}\x1b[1;31mx\x1b[2;2Hy".as_bytes();
    let (whole, _) = fed(8, 2, bytes);
    let mut g = Grid::new(8, 2);
    let mut p = Parser::new();
    for b in bytes {
        p.advance(&mut g, &[*b]);
    }
    for r in 0..2 {
        assert_eq!(g.row(r), whole.row(r));
    }
    assert_eq!(g.cursor(), whole.cursor());
    assert_eq!(g.cell(0, 1).ch, '\u{e9}');
}

#[test]
fn actions_work_without_the_byte_parser() {
    let mut g = Grid::new(6, 2);
    let mut p = Performer::new();
    p.perform(&mut g, &Action::Print('h'));
    p.perform_all(&mut g, &vec![
        Action::Print('i'),
        Action::Execute(b'\r'),
        Action::Execute(b'\n'),
        Action::Csi { params: vec![vec![6]], intermediates: vec![], action: 'n' },
    ]);
    assert_eq!(lines(&g), vec!["hi", ""]);
    assert_eq!(p.take_responses(), b"\x1b[2;1R");
    assert!(p.take_responses().is_empty());
}

#[test]
fn changes_are_counted() {
    let (mut g, mut p) = fed(4, 1, b"a");
    let before = g.dirty_counter();
    p.advance(&mut g, b"b");
    assert_ne!(g.dirty_counter(), before);
}

#[test]
fn nothing_is_drawn_twice_at_the_last_column() {
    let (mut g, mut p) = fed(3, 2, b"abc");
    // The cursor waits past the last column until the next character.
    assert_eq!(g.cursor(), (0, 3));
    p.advance(&mut g, b"d");
    assert_eq!(lines(&g), vec!["abc", "d"]);
    assert!(g.visible_row_wrapped(0));
    assert!(!g.visible_row_wrapped(1));
}

#[test]
fn answers_wait_until_they_are_taken() {
    let (mut g, mut p) = fed(4, 2, b"\x1b[6n");
    p.advance(&mut g, b"ab\x1b[6n");
    assert_eq!(p.take_responses(), b"\x1b[1;1R\x1b[1;3R");
    assert!(p.take_responses().is_empty());
}

#[test]
fn scrolling_keeps_every_row() {
    let (mut g, mut p) = fed(3, 2, b"a\r\nb");
    let before = g.logical_rows();
    p.advance(&mut g, b"\r\nc");
    assert_eq!(g.logical_rows(), before + 1);
    let column: String = (0..g.logical_rows()).map(|r| g.logical_cell(r, 0).ch).collect();
    assert_eq!(column, "abc");
}

#[test]
fn a_line_feed_adds_one_logical_row() {
    let (mut g, _) = fed(3, 2, b"abc\r\nde");
    let before: Vec<_> = (0..2).map(|r| g.logical_cell(r, 0)).collect();
    assert_eq!(g.logical_rows(), 2);
    g.linefeed();
    assert_eq!(g.logical_rows(), 3);
    assert_eq!(g.logical_rows(), g.scrollback_len() + g.rows());
    for (r, cell) in before.iter().enumerate() {
        assert_eq!(g.logical_cell(r, 0), *cell);
    }
}

#[test]
fn the_view_shows_the_cursor_on_its_cell() {
    let (mut g, mut p) = fed(4, 3, b"a\r\nb\r\nc\r\nd\x1b[1;1H");
    assert_eq!(g.visible_cursor(), Some((0, 0)));
    g.set_view_offset(1);
    assert_eq!(g.visible_cursor(), Some((1, 0)));
    assert_eq!(g.visible_cell(1, 0), g.cell(0, 0));
    assert_eq!(g.visible_cell(0, 0).ch, 'a');
    g.set_view_offset(0);
    p.advance(&mut g, b"\x1b[3;1H");
    g.set_view_offset(1);
    assert_eq!(g.visible_cursor(), None);
    assert_eq!(g.visible_cell(usize::MAX, 0).ch, ' ');
    assert!(!g.visible_row_wrapped(usize::MAX));
}
