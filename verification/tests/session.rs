//! A terminal session: output, typing, pasting and the mouse.
use skyterm::metrics::PtySize;
use skyterm::selection::Selection;
use skyterm::session::Session;

fn session(output: &[u8]) -> Session {
    let mut s = Session::new(10, 3, (8, 16));
    s.feed(output);
    s
}

#[test]
fn output_is_answered() {
    let mut s = Session::new(10, 3, (8, 16));
    assert!(s.feed(b"hi").is_empty());
    assert_eq!(s.feed(b"\x1b[6n"), b"\x1b[1;3R");
    assert!(s.feed(b"").is_empty());
    assert_eq!(s.grid.cell(0, 1).ch, 'i');
}

#[test]
fn typing_shows_the_live_screen() {
    let mut s = session(b"a\r\nb\r\nc\r\nd");
    s.scroll_to(0);
    assert_eq!(s.grid.view_offset(), 1);
    s.select_all();
    assert!(s.typed());
    assert_eq!(s.grid.view_offset(), 0);
    assert!(s.selection.is_none());
    assert!(!s.typed());
    s.scroll_to(99);
    assert_eq!(s.grid.view_offset(), 0);
}

#[test]
fn pasting() {
    let mut s = session(b"a\r\nb\r\nc\r\nd");
    s.scroll_to(0);
    assert!(s.paste("").is_empty());
    assert_eq!(s.grid.view_offset(), 1);
    assert_eq!(s.paste("x\ny"), b"x\ny");
    assert_eq!(s.grid.view_offset(), 0);
    s.feed(b"\x1b[?2004h");
    assert_eq!(s.paste("x"), b"\x1b[200~x\x1b[201~");
}

#[test]
fn clicks_select() {
    let mut s = session(b"one two");
    assert!(s.press(Some((0, 5)), false, true, 100, 400).is_empty());
    assert!(s.selection.is_none());
    s.press(Some((0, 5)), false, true, 200, 400);
    assert_eq!(s.selected_text().as_deref(), Some("two"));
    assert_eq!(s.release(Some((0, 5)), false), (Vec::new(), true));
    s.press(Some((0, 5)), false, true, 300, 400);
    assert_eq!(s.selected_text().as_deref(), Some("one two"));
    // Without click selection, and over no cell, a press clears.
    s.press(Some((0, 5)), false, false, 400, 400);
    assert!(s.selection.is_none());
    s.select_all();
    s.press(None, false, true, 500, 400);
    assert!(s.selected_text().is_none());
}

#[test]
fn drags_select() {
    let mut s = session(b"one two");
    assert!(s.drag(Some((0, 0)), Some((0, 2)), false).is_empty());
    assert_eq!(s.selected_text().as_deref(), Some("one"));
    s.drag(Some((0, 0)), Some((1, 2)), false);
    let at = s.selection.map(|s: Selection| (s.anchor, s.active));
    assert_eq!(at, Some(((0, 0), (1, 2))));
    // Blank cells make no text.
    let mut empty = session(b"");
    empty.drag(Some((1, 1)), Some((1, 4)), false);
    assert!(empty.selection.is_some());
    assert!(empty.selected_text().is_none());
}

#[test]
fn mouse_reports_go_to_the_application() {
    let mut s = session(b"\x1b[?1000;1006h");
    assert_eq!(s.press(Some((1, 2)), false, true, 0, 400), b"\x1b[<0;3;2M");
    assert_eq!(s.release(Some((1, 2)), false), (b"\x1b[<0;3;2m".to_vec(), false));
    assert!(s.press(None, false, true, 0, 400).is_empty());
    // Motion only if it was asked for.
    assert!(s.drag(Some((1, 2)), Some((1, 3)), false).is_empty());
    s.feed(b"\x1b[?1002h");
    assert_eq!(s.drag(Some((1, 2)), Some((1, 3)), false), b"\x1b[<32;4;2M");
    assert!(s.selection.is_none());
    // Shift selects all the same.
    assert!(s.drag(Some((1, 2)), Some((1, 3)), true).is_empty());
    assert!(s.selection.is_some());
}

#[test]
fn fitting_tells_the_child() {
    let mut s = session(b"one two");
    let size = PtySize { cols: 5, rows: 2, pixel_width: 40, pixel_height: 32 };
    assert_eq!(s.fit(40, 32), Some(size));
    assert_eq!(s.fit(41, 33), None);
    assert_eq!(s.grid.row(1).iter().map(|c| c.ch).collect::<String>(), "wo   ");
}
