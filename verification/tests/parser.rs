//! The interpreter of escape sequences.
use skyterm::theme::{CellColor, Color};
use skyterm::{Grid, Parser};

#[test]
fn prints_ascii() {
    let mut g = Grid::new(20, 2);
    let mut p = Parser::new();
    p.advance(&mut g, b"hello");
    let row: String = g.row(0)[..5].iter().map(|c| c.ch).collect();
    assert_eq!(row, "hello");
}

#[test]
fn handles_cr_lf() {
    let mut g = Grid::new(10, 3);
    let mut p = Parser::new();
    p.advance(&mut g, b"abc\r\nxyz");
    assert_eq!(
        &g.row(0)[..3].iter().map(|c| c.ch).collect::<String>(),
        "abc"
    );
    assert_eq!(
        &g.row(1)[..3].iter().map(|c| c.ch).collect::<String>(),
        "xyz"
    );
}

#[test]
fn cursor_back_then_overwrite() {
    let mut g = Grid::new(10, 1);
    let mut p = Parser::new();
    p.advance(&mut g, b"hello\x1b[4DOO");
    let s: String = g.row(0)[..5].iter().map(|c| c.ch).collect();
    assert_eq!(s, "hOOlo");
}

#[test]
fn erase_to_end_of_line() {
    let mut g = Grid::new(10, 1);
    let mut p = Parser::new();
    p.advance(&mut g, b"abcdef\x1b[4G\x1b[K");
    let s: String = g.row(0).iter().map(|c| c.ch).collect();
    assert_eq!(s, "abc       ");
}

#[test]
fn sgr_truecolor_fg() {
    let mut g = Grid::new(4, 1);
    let mut p = Parser::new();
    p.advance(&mut g, b"\x1b[38;2;255;128;64mX");
    let cell = g.cell(0, 0);
    assert_eq!(cell.ch, 'X');
    assert_eq!(cell.fg, CellColor::Rgb(Color::rgb(255, 128, 64)));
}

#[test]
fn sgr_256color_bg_and_reset() {
    let mut g = Grid::new(4, 1);
    let mut p = Parser::new();
    p.advance(&mut g, b"\x1b[48;5;9mA\x1b[0mB");
    assert_eq!(g.cell(0, 0).bg, CellColor::Palette(9));
    assert_eq!(g.cell(0, 1).bg, CellColor::Default);
}

#[test]
fn dec_private_mode_swallowed() {
    let mut g = Grid::new(4, 1);
    let mut p = Parser::new();
    p.advance(&mut g, b"\x1b[?2004hX");
    assert_eq!(g.cell(0, 0).ch, 'X');
}

#[test]
fn cup_then_print() {
    let mut g = Grid::new(10, 5);
    let mut p = Parser::new();
    p.advance(&mut g, b"\x1b[3;5HX");
    assert_eq!(g.cell(2, 4).ch, 'X');
}

#[test]
fn cursor_visibility_toggles() {
    let mut g = Grid::new(4, 1);
    let mut p = Parser::new();
    assert!(g.cursor_visible());
    p.advance(&mut g, b"\x1b[?25l");
    assert!(!g.cursor_visible());
    p.advance(&mut g, b"\x1b[?25h");
    assert!(g.cursor_visible());
}

#[test]
fn alt_screen_swap_round_trip() {
    let mut g = Grid::new(4, 1);
    let mut p = Parser::new();
    p.advance(&mut g, b"main");
    // Enter alt — main should be saved, alt is blank
    p.advance(&mut g, b"\x1b[?1049h");
    assert!(g.is_alt_screen());
    assert_eq!(g.row(0).iter().map(|c| c.ch).collect::<String>(), "    ");
    p.advance(&mut g, b"alt!");
    assert_eq!(g.row(0).iter().map(|c| c.ch).collect::<String>(), "alt!");
    // Exit — main content comes back
    p.advance(&mut g, b"\x1b[?1049l");
    assert!(!g.is_alt_screen());
    assert_eq!(g.row(0).iter().map(|c| c.ch).collect::<String>(), "main");
}

#[test]
fn alt_screen_does_not_pollute_scrollback() {
    let mut g = Grid::new(4, 2);
    let mut p = Parser::new();
    p.advance(&mut g, b"\x1b[?1049h");
    // Cause lots of linefeeds in alt screen — none should hit scrollback.
    for _ in 0..50 {
        p.advance(&mut g, b"x\r\n");
    }
    assert_eq!(g.scrollback_len(), 0);
}

#[test]
fn dsr_cursor_position_response() {
    let mut g = Grid::new(20, 5);
    let mut p = Parser::new();
    p.advance(&mut g, b"\x1b[3;5H\x1b[6n");
    let resp = p.take_responses();
    assert_eq!(resp, b"\x1b[3;5R");
}

#[test]
fn primary_device_attributes_response() {
    let mut g = Grid::new(4, 1);
    let mut p = Parser::new();
    p.advance(&mut g, b"\x1b[c");
    let resp = p.take_responses();
    assert_eq!(resp, b"\x1b[?1;2c");
}

#[test]
fn dec_graphics_translates_box_drawing() {
    let mut g = Grid::new(10, 1);
    let mut p = Parser::new();
    // Switch G0 to DEC graphics, print 'l q q k', switch back.
    p.advance(&mut g, b"\x1b(0lqqk\x1b(B");
    let s: String = g.row(0)[..4].iter().map(|c| c.ch).collect();
    assert_eq!(s, "┌──┐");
}

#[test]
fn so_si_shift_between_g0_g1() {
    let mut g = Grid::new(8, 1);
    let mut p = Parser::new();
    // Designate G1 = DEC graphics, switch active to G1 via SO, print, SI back.
    p.advance(&mut g, b"\x1b)0X\x0elqj\x0fY");
    let s: String = g.row(0)[..5].iter().map(|c| c.ch).collect();
    assert_eq!(s, "X┌─┘Y");
}

#[test]
fn decsc_decrc_save_restore_cursor() {
    let mut g = Grid::new(10, 2);
    let mut p = Parser::new();
    // Move to (1,5), save, move elsewhere, restore.
    p.advance(&mut g, b"\x1b[2;5H\x1b7\x1b[1;1H\x1b8");
    assert_eq!(g.cursor(), (1, 4)); // 1-based 2,5 -> 0-based (1,4)
}
