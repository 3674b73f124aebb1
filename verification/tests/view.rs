//! Selection, sizes and what is drawn.
use std::collections::HashMap;

use skyterm::atlas::Atlas;
use skyterm::commands::{SplitDir, Zoom};
use skyterm::metrics::{
    cell_at, cursor_shown, divider_position, drop_edge, drop_margins, fit_to_pixels,
    initial_font_size, new_font_size, next_phase, scroll_range, snap_to_bottom, split_size, window_size, zoomed, Margins, PtySize,
};
use skyterm::render::{frame, selection_bg, Block, Glyph};
use skyterm::selection::{
    dragged, is_word_char, select_all, select_line, select_word, selection_text, word_span, Clicks,
    Press, Selection,
};
use skyterm::theme::{CellColor, Color, Theme};
use skyterm::{CursorShape, Grid};

fn typed(cols: usize, rows: usize, text: &str) -> Grid {
    let mut g = Grid::new(cols, rows);
    for c in text.chars() {
        if c == '\n' {
            g.linefeed();
            g.carriage_return();
        } else {
            g.put_char(c);
        }
    }
    g
}

fn span(anchor: (usize, usize), active: (usize, usize)) -> Selection {
    Selection { anchor, active }
}

#[test]
fn a_selection_has_no_direction() {
    let there = span((1, 4), (3, 2));
    let back = span((3, 2), (1, 4));
    assert_eq!(there.ordered(), back.ordered());
    for row in 0..5 {
        for col in 0..8 {
            assert_eq!(there.contains(row, col), back.contains(row, col));
        }
    }
    assert!(!there.contains(1, 3));
    assert!(there.contains(1, 7));
    assert!(there.contains(2, 0));
    assert!(there.contains(3, 2));
    assert!(!there.contains(3, 3));
}

#[test]
fn words_have_letters_digits_and_some_punctuation() {
    for c in ['a', 'Z', '7', 'é', '_', '-', '.', '/', '~'] {
        assert!(is_word_char(c), "{c}");
    }
    for c in [' ', '(', ')', '|', '"', '\''] {
        assert!(!is_word_char(c), "{c}");
    }
}

#[test]
fn double_click_selects_the_word() {
    let g = typed(20, 2, "ls /tmp/x (y)");
    assert_eq!(word_span(&vec![true, true, false, true], 1), (0, 1));
    let word = select_word(&g, 0, 5).unwrap();
    assert_eq!(word.ordered(), ((0, 3), (0, 8)));
    assert_eq!(selection_text(&g, word), "/tmp/x");
    // A character that is in no word is selected alone.
    let paren = select_word(&g, 0, 10).unwrap();
    assert_eq!(paren.ordered(), ((0, 10), (0, 10)));
}

#[test]
fn triple_click_selects_the_whole_line() {
    let g = typed(4, 3, "abcdef\nx");
    let line = select_line(&g, 1).unwrap();
    assert_eq!(selection_text(&g, line), "abcdef");
    let line = select_line(&g, 2).unwrap();
    assert_eq!(selection_text(&g, line), "x");
}

#[test]
fn copied_rows_are_trimmed_and_joined() {
    let g = typed(6, 3, "ab\ncd\nef");
    let all = select_all(&g).unwrap();
    assert_eq!(all.ordered(), ((0, 0), (2, 5)));
    assert_eq!(selection_text(&g, all), "ab\ncd\nef");
    assert_eq!(selection_text(&g, span((0, 1), (1, 0))), "b\nc");
    // Beyond the grid there is nothing.
    assert_eq!(selection_text(&g, span((2, 0), (90, 90))), "ef");
}

#[test]
fn dragging_moves_the_end() {
    assert_eq!(dragged(None, Some((1, 2)), None).unwrap().ordered(), ((1, 2), (1, 2)));
    let s = dragged(Some(span((1, 2), (1, 2))), None, Some((0, 5))).unwrap();
    assert_eq!((s.anchor, s.active), ((1, 2), (0, 5)));
    assert!(dragged(None, None, Some((0, 0))).is_none());
}

#[test]
fn clicks_are_counted_on_one_cell() {
    let mut c = Clicks::new();
    assert_eq!(c.press(1000, 1, 1, 400), Press::Clear);
    assert_eq!(c.press(1200, 1, 1, 400), Press::Word);
    assert_eq!(c.press(1400, 1, 1, 400), Press::Line);
    assert_eq!(c.press(1500, 1, 1, 400), Press::Clear);
    assert_eq!(c.press(1600, 1, 2, 400), Press::Clear);
    assert_eq!(c.press(2001, 1, 2, 400), Press::Clear);
    // The clock wraps around.
    let mut c = Clicks { time: u32::MAX, row: 0, col: 0, count: 1 };
    assert_eq!(c.press(5, 0, 0, 400), Press::Word);
}

#[test]
fn the_grid_fills_the_area() {
    let mut g = Grid::new(10, 3);
    let size = fit_to_pixels(&mut g, 805, 404, 8, 16).unwrap();
    assert_eq!(
        size,
        PtySize { cols: 100, rows: 25, pixel_width: 805, pixel_height: 404 }
    );
    assert_eq!((g.cols(), g.rows()), (100, 25));
    assert!(fit_to_pixels(&mut g, 806, 405, 8, 16).is_none());
    assert!(fit_to_pixels(&mut g, 0, 405, 8, 16).is_none());
    assert!(fit_to_pixels(&mut g, 800, 400, 0, 16).is_none());
    let small = fit_to_pixels(&mut g, 3, 3, 8, 16).unwrap();
    assert_eq!((small.cols, small.rows), (1, 1));
}

#[test]
fn points_are_in_cells() {
    assert_eq!(cell_at(17, 33, 8, 16, 80, 24), Some((2, 2)));
    assert_eq!(cell_at(9999, 9999, 8, 16, 80, 24), Some((23, 79)));
    assert_eq!(cell_at(1, 1, 0, 16, 80, 24), None);
    assert_eq!(cell_at(1, 1, 8, 16, 0, 24), None);
}

#[test]
fn sizes_of_windows_splits_and_drop_targets() {
    assert_eq!(window_size(8, 16), Some((800, 480)));
    assert_eq!(window_size(u32::MAX, 16), None);
    assert_eq!(split_size(80, 24), (80, 24));
    assert_eq!(split_size(4, 1), (10, 3));
    assert_eq!(divider_position(101), Some(50));
    assert_eq!(divider_position(1), None);
    assert_eq!(
        drop_margins(SplitDir::Left, 100, 60),
        Margins { start: 0, end: 50, top: 0, bottom: 0 }
    );
    assert_eq!(
        drop_margins(SplitDir::Down, 100, 60),
        Margins { start: 0, end: 0, top: 30, bottom: 0 }
    );
    assert_eq!(drop_edge(true, true, false), SplitDir::Left);
    assert_eq!(drop_edge(true, false, true), SplitDir::Right);
    assert_eq!(drop_edge(false, true, true), SplitDir::Up);
    assert_eq!(drop_edge(false, false, false), SplitDir::Down);
}

#[test]
fn font_sizes_have_limits() {
    assert_eq!(zoomed(16, Zoom::In), 17);
    assert_eq!(zoomed(zoomed(16, Zoom::In), Zoom::Out), 16);
    assert_eq!(zoomed(72, Zoom::In), 72);
    assert_eq!(zoomed(6, Zoom::Out), 6);
    assert_eq!(zoomed(40, Zoom::Reset), 16);
    assert_eq!(new_font_size(16, 16), None);
    assert_eq!(new_font_size(16, 1), Some(6));
    assert_eq!(new_font_size(72, 500), None);
    assert_eq!(initial_font_size(None), 16);
    assert_eq!(initial_font_size(Some(20)), 20);
    assert_eq!(initial_font_size(Some(500)), 72);
    assert_eq!(initial_font_size(Some(0)), 6);
}

#[test]
fn the_scrollbar_follows_the_view() {
    let mut g = typed(4, 2, "a\nb\nc\nd");
    let r = scroll_range(&g);
    assert_eq!((r.upper, r.page, r.value, r.visible), (4, 2, 2, true));
    g.set_view_offset(1);
    assert_eq!(scroll_range(&g).value, 1);
    assert!(snap_to_bottom(&mut g));
    assert!(!snap_to_bottom(&mut g));
    assert_eq!(g.view_offset(), 0);
}

#[test]
fn only_the_focused_cursor_blinks() {
    assert!(cursor_shown(false, true, false));
    assert!(!cursor_shown(true, true, false));
    assert!(cursor_shown(true, false, false));
    assert!(!next_phase(true, true));
    assert!(next_phase(false, true));
}

fn letters() -> Atlas {
    let mut locations = HashMap::new();
    locations.insert('?' as u32, 0);
    locations.insert('a' as u32, 1);
    locations.insert('b' as u32, 2);
    Atlas {
        pixels: Vec::new(),
        width: 0,
        height: 0,
        cell_w: 1,
        cell_h: 1,
        glyphs_per_row: 32,
        locations,
        fallback_slot: 0,
    }
}

#[test]
fn a_frame_has_glyphs_for_characters() {
    let theme = Theme::skyterm_dark();
    let g = typed(4, 1, "a b~");
    let f = frame(&g, None, &theme, false, &letters());
    assert_eq!(f.clear, theme.bg);
    assert!(f.blocks.is_empty());
    assert!(f.cursor.is_none());
    let slots: Vec<(usize, u32)> = f.glyphs.iter().map(|g| (g.col, g.slot)).collect();
    assert_eq!(slots, vec![(0, 1), (2, 2), (3, 0)]);
    assert_eq!(
        f.glyphs[0],
        Glyph { row: 0, col: 0, slot: 1, fg: theme.fg, bg: theme.bg }
    );
}

#[test]
fn selection_wins_over_the_background() {
    let theme = Theme::skyterm_dark();
    let mut g = Grid::new(3, 1);
    g.set_bg(CellColor::Rgb(Color::rgb(1, 2, 3)));
    g.put_char('a');
    g.put_char('b');
    let f = frame(&g, Some(span((0, 1), (0, 2))), &theme, false, &letters());
    assert_eq!(
        f.blocks,
        vec![
            Block { row: 0, col: 0, color: Color::rgb(1, 2, 3) },
            Block { row: 0, col: 1, color: selection_bg() },
            Block { row: 0, col: 2, color: selection_bg() },
        ]
    );
    assert_eq!(f.glyphs[0].bg, Color::rgb(1, 2, 3));
    assert_eq!(f.glyphs[1].bg, selection_bg());
    assert_eq!(selection_bg(), Color::rgb(0x3a, 0x5e, 0x8e));
}

#[test]
fn a_block_cursor_inverts_its_cell() {
    let theme = Theme::skyterm_dark();
    let mut g = typed(4, 1, "ab");
    g.set_cursor(1, 1);
    let f = frame(&g, None, &theme, true, &letters());
    let mark = f.cursor.unwrap();
    assert_eq!((mark.row, mark.col, mark.shape), (0, 0, CursorShape::Block));
    assert_eq!(mark.color, theme.cursor);
    assert_eq!((f.glyphs[0].fg, f.glyphs[0].bg), (theme.bg, theme.cursor));
    assert_eq!((f.glyphs[1].fg, f.glyphs[1].bg), (theme.fg, theme.bg));
    g.set_cursor_shape(CursorShape::Bar);
    let f = frame(&g, None, &theme, true, &letters());
    assert_eq!(f.cursor.unwrap().shape, CursorShape::Bar);
    assert_eq!((f.glyphs[0].fg, f.glyphs[0].bg), (theme.fg, theme.bg));
    // Hidden in the off phase, by the application, and past the last column.
    assert!(frame(&g, None, &theme, false, &letters()).cursor.is_none());
    g.set_cursor_visible(false);
    assert!(frame(&g, None, &theme, true, &letters()).cursor.is_none());
    let full = typed(2, 1, "ab");
    assert!(frame(&full, None, &theme, true, &letters()).cursor.is_none());
}
