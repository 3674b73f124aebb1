//! The grid: printing, erasing, scrolling and resizing.
use skyterm::Grid;

#[test]
fn put_advances_cursor() {
    let mut g = Grid::new(10, 3);
    g.put_char('h');
    g.put_char('i');
    assert_eq!(g.cell(0, 0).ch, 'h');
    assert_eq!(g.cell(0, 1).ch, 'i');
    assert_eq!(g.cursor(), (0, 2));
}

#[test]
fn wrap_to_next_row() {
    let mut g = Grid::new(3, 3);
    for c in "abcdef".chars() {
        g.put_char(c);
    }
    assert_eq!(g.cell(0, 0).ch, 'a');
    assert_eq!(g.cell(1, 0).ch, 'd');
    assert_eq!(g.cell(1, 2).ch, 'f');
}

#[test]
fn linefeed_at_bottom_scrolls() {
    let mut g = Grid::new(3, 2);
    g.put_char('a');
    g.put_char('b');
    g.linefeed();
    g.carriage_return();
    g.put_char('c');
    g.put_char('d');
    g.linefeed();
    assert_eq!(g.cell(0, 0).ch, 'c');
    assert_eq!(g.cell(0, 1).ch, 'd');
    assert_eq!(g.cell(1, 0).ch, ' ');
    assert_eq!(g.cursor().0, 1);
}

#[test]
fn erase_in_line_after_cursor() {
    let mut g = Grid::new(5, 1);
    for c in "abcde".chars() {
        g.put_char(c);
    }
    g.set_cursor(1, 3); // 1-based
    g.erase_in_line(0);
    let s: String = g.row(0).iter().map(|c| c.ch).collect();
    assert_eq!(s, "ab   ");
}

#[test]
fn scrollback_max_zero_means_infinite() {
    let mut g = Grid::new(3, 2);
    g.set_scrollback_max(0);
    for _ in 0..50 {
        g.linefeed();
        g.carriage_return();
    }
    // Each linefeed at the bottom of a full-screen region scrolls one
    // blank line into history. With "infinite" set, none should be
    // dropped.
    assert_eq!(g.scrollback_len(), 49);
}

#[test]
fn set_scrollback_max_to_zero_does_not_drop_existing() {
    let mut g = Grid::new(3, 2);
    // Fill with finite cap first.
    g.set_scrollback_max(10);
    for _ in 0..20 {
        g.linefeed();
        g.carriage_return();
    }
    assert_eq!(g.scrollback_len(), 10);
    // Switching to infinite must not wipe what we already had.
    g.set_scrollback_max(0);
    assert_eq!(g.scrollback_len(), 10);
}

#[test]
fn scroll_pushes_to_scrollback_and_view_offset_shows_old_rows() {
    let mut g = Grid::new(3, 2);
    for c in "AB".chars() {
        g.put_char(c);
    }
    g.linefeed();
    g.carriage_return();
    for c in "CD".chars() {
        g.put_char(c);
    }
    g.linefeed(); // scrolls "AB" into scrollback
    g.carriage_return();
    for c in "EF".chars() {
        g.put_char(c);
    }
    assert_eq!(g.scrollback_len(), 1);
    // view_offset 0 → live screen: row 0 = "CD", row 1 = "EF"
    assert_eq!(g.visible_cell(0, 0).ch, 'C');
    assert_eq!(g.visible_cell(1, 0).ch, 'E');
    // view_offset 1 → top row from scrollback ("AB"), bottom row live ("CD")
    g.set_view_offset(1);
    assert_eq!(g.visible_cell(0, 0).ch, 'A');
    assert_eq!(g.visible_cell(0, 1).ch, 'B');
    assert_eq!(g.visible_cell(1, 0).ch, 'C');
}

#[test]
fn linefeed_within_region_does_not_touch_rows_above_top() {
    let mut g = Grid::new(3, 5);
    // Fill rows with row-number markers so we can see what scrolled.
    for r in 0..5 {
        g.set_cursor(r + 1, 1);
        for c in 0..3 {
            g.put_char((b'0' + r as u8 + c as u8) as char);
        }
    }
    // Pin rows 0..=1 with scroll region [3..=5] (1-based).
    g.set_scroll_region(3, 5);
    // Move into the region's bottom margin and feed lines — header rows
    // (0,1) must stay untouched, region must scroll.
    g.set_cursor(5, 1);
    let header_before: Vec<char> = (0..3).map(|c| g.cell(0, c).ch).collect();
    let row1_before: Vec<char> = (0..3).map(|c| g.cell(1, c).ch).collect();
    for _ in 0..4 {
        g.linefeed();
    }
    let header_after: Vec<char> = (0..3).map(|c| g.cell(0, c).ch).collect();
    let row1_after: Vec<char> = (0..3).map(|c| g.cell(1, c).ch).collect();
    assert_eq!(header_before, header_after);
    assert_eq!(row1_before, row1_after);
    // Region rows should now all be blank — we scrolled enough times.
    for r in 2..5 {
        assert_eq!(g.row(r).iter().map(|c| c.ch).collect::<String>(), "   ");
    }
}

#[test]
fn partial_region_scroll_does_not_pollute_scrollback() {
    let mut g = Grid::new(3, 4);
    g.set_scroll_region(2, 4);
    g.set_cursor(4, 1);
    for _ in 0..10 {
        g.linefeed();
    }
    assert_eq!(g.scrollback_len(), 0);
}

#[test]
fn insert_and_delete_lines_within_region() {
    let mut g = Grid::new(2, 5);
    // Mark rows A..E.
    for (i, ch) in ['A', 'B', 'C', 'D', 'E'].into_iter().enumerate() {
        g.set_cursor(i + 1, 1);
        g.put_char(ch);
    }
    g.set_scroll_region(2, 4); // rows 1..=3 (0-based)
    g.set_cursor(2, 1); // cursor at row 1 (the 'B' row)
    g.insert_lines(1);
    // After IL: row0 = A (outside region), row1 = blank, row2 = B, row3 = C, row4 = E.
    // D was pushed past scroll_bottom and discarded.
    let col0: String = (0..5).map(|r| g.cell(r, 0).ch).collect();
    assert_eq!(col0, "A BCE");
    g.delete_lines(1);
    // DL removes the blank at row1, shifting B,C up; row3 fills blank.
    let col0: String = (0..5).map(|r| g.cell(r, 0).ch).collect();
    assert_eq!(col0, "ABC E");
}

#[test]
fn set_scroll_region_reset_with_zeros() {
    let mut g = Grid::new(2, 4);
    g.set_scroll_region(2, 3);
    assert_eq!(g.scroll_region(), (1, 2));
    g.set_scroll_region(0, 0);
    assert_eq!(g.scroll_region(), (0, 3));
}

#[test]
fn alt_screen_resets_scroll_region() {
    let mut g = Grid::new(2, 4);
    g.set_scroll_region(2, 3);
    // Simulate alt enter; region should snap back to full.
    g.enter_alt_screen();
    assert_eq!(g.scroll_region(), (0, 3));
    // Set a region inside alt, exit — should reset again.
    g.set_scroll_region(1, 2);
    g.exit_alt_screen();
    assert_eq!(g.scroll_region(), (0, 3));
}

#[test]
fn delete_chars_shifts_left() {
    let mut g = Grid::new(6, 1);
    for c in "abcdef".chars() {
        g.put_char(c);
    }
    g.set_cursor(1, 2);
    g.delete_chars(2);
    let s: String = g.row(0).iter().map(|c| c.ch).collect();
    assert_eq!(s, "adef  ");
}

// ── reflow on resize ──────────────────────────────────────────────────

fn type_str(g: &mut Grid, s: &str) {
    for ch in s.chars() {
        if ch == '\n' {
            g.linefeed();
            g.carriage_return();
        } else {
            g.put_char(ch);
        }
    }
}

fn row_str(g: &Grid, r: usize) -> String {
    g.row(r)
        .iter()
        .map(|c| c.ch)
        .collect::<String>()
        .trim_end()
        .to_string()
}

#[test]
fn reflow_widening_rejoins_wrapped_line() {
    let mut g = Grid::new(10, 4);
    type_str(&mut g, "HELLOWORLD12");
    // Auto-wrapped at the 10-col edge.
    assert_eq!(row_str(&g, 0), "HELLOWORLD");
    assert_eq!(row_str(&g, 1), "12");

    g.resize(20, 4);
    // The two halves rejoin into one logical line at the wider width.
    assert_eq!(row_str(&g, 0), "HELLOWORLD12");
    assert_eq!(row_str(&g, 1), "");
    // Cursor stays attached to the same text position.
    assert_eq!(g.cursor(), (0, 12));
}

#[test]
fn reflow_narrowing_splits_line() {
    let mut g = Grid::new(20, 4);
    type_str(&mut g, "HELLOWORLD12");
    assert_eq!(row_str(&g, 0), "HELLOWORLD12");

    g.resize(4, 4);
    assert_eq!(row_str(&g, 0), "HELL");
    assert_eq!(row_str(&g, 1), "OWOR");
    assert_eq!(row_str(&g, 2), "LD12");
}

#[test]
fn reflow_preserves_hard_newlines() {
    let mut g = Grid::new(10, 5);
    type_str(&mut g, "line one\nline two");
    g.resize(40, 5);
    // A real newline must NOT be rejoined into the previous line.
    assert_eq!(row_str(&g, 0), "line one");
    assert_eq!(row_str(&g, 1), "line two");
}

#[test]
fn reflow_rejoins_across_scrollback_boundary() {
    // A single 12-char auto-wrapped line, half scrolled into history.
    let mut g = Grid::new(4, 2);
    type_str(&mut g, "ABCDEFGHIJKL");
    assert_eq!(g.scrollback_len(), 1); // "ABCD" scrolled off
    assert_eq!(row_str(&g, 0), "EFGH");
    assert_eq!(row_str(&g, 1), "IJKL");

    g.resize(12, 4);
    // Widening pulls the whole logical line back onto one screen row.
    assert_eq!(g.scrollback_len(), 0);
    assert_eq!(row_str(&g, 0), "ABCDEFGHIJKL");
}

#[test]
fn reflow_in_alt_screen_does_not_rejoin() {
    let mut g = Grid::new(4, 3);
    g.enter_alt_screen();
    type_str(&mut g, "ABCDEF"); // wraps within the alt screen
    // Alt screen is pad/truncate only — resizing must not panic or reflow.
    g.resize(8, 3);
    assert_eq!(g.cols(), 8);
    assert_eq!(g.rows(), 3);
    assert!(g.is_alt_screen());
}
