//! A terminal session: the grid and its interpreter, the mouse, and what is
//! selected. What goes to the child process is handed out as bytes.
use vstd::prelude::*;
use crate::commands;
use crate::commands::{encode_mouse, forwards_mouse, reports_motion, MouseAction};
use crate::grid::{Grid, MouseMode};
use crate::input;
use crate::input::encode_paste;
use crate::metrics;
use crate::metrics::{fit_to_pixels, snap_to_bottom, PtySize};
use crate::parser;
use crate::parser::Parser;
use crate::screen::Screen;
use crate::selection;
use crate::selection::{
    dragged,
    select_all,
    select_line,
    select_word,
    selection_text,
    Clicks,
    Press,
    Selection,
};
use crate::text;

verus! {

/// A terminal session.
pub struct Session {
    pub grid: Grid,
    pub parser: Parser,
    /// What the user has selected, in cells of the view.
    pub selection: Option<Selection>,
    pub clicks: Clicks,
    /// The size of a cell in pixels.
    pub cell_dims: (u32, u32),
}

/// The bytes that report the left button at a cell; none where it is over no
/// cell.
pub open spec fn button_report(
    screen: Screen,
    action: MouseAction,
    cell: Option<(usize, usize)>,
) -> Seq<u8> {
    match cell {
        Some((row, col)) => commands::mouse_bytes(
            screen.mouse_sgr,
            0,
            action,
            col as int,
            row as int,
        ),
        None => Seq::empty(),
    }
}

/// A press of the left button that is not reported to the app changed the
/// selection from `before` to `after`.
pub open spec fn press_selects(
    screen: Screen,
    press: Press,
    row: usize,
    col: usize,
    before: Option<Selection>,
    after: Option<Selection>,
) -> bool {
    match press {
        Press::Clear => after is None,
        Press::Word => if col < screen.cols {
            after is Some && selection::is_word_at(screen, row, col, after->0)
        } else {
            after == before
        },
        Press::Line => if row < screen.rows && screen.cols > 0 {
            after is Some && selection::is_line_at(screen, row, after->0)
        } else {
            after == before
        },
    }
}

/// The cell can be reported: its row and column have a successor.
pub open spec fn reportable(cell: Option<(usize, usize)>) -> bool {
    cell matches Some((row, col)) ==> row < usize::MAX && col < usize::MAX
}

impl Session {
    /// The invariant that every operation keeps.
    pub open spec fn wf(self) -> bool {
        self.grid.wf() && self.parser.wf() && self.clicks.count <= 3
    }

    /// A session that has seen nothing yet.
    pub fn new(cols: u16, rows: u16, cell_dims: (u32, u32)) -> (s: Session)
        ensures
            s.wf(),
            s.grid@ == Screen::fresh(cols as int, rows as int),
            s.parser.fed() == Seq::<Seq<u8>>::empty(),
            forall|screen: Screen| #[trigger]
                s.parser.with(screen) == (crate::vt::Vt {
                    screen,
                    responses: Seq::empty(),
                    g0: crate::vt::Charset::Ascii,
                    g1: crate::vt::Charset::Ascii,
                    active: crate::vt::ActiveCharset::G0,
                    bracketed_paste: false,
                }),
            s.selection is None,
            s.clicks == (Clicks { time: 0, row: 0, col: 0, count: 0 }),
            s.cell_dims == cell_dims,
    {
        Session {
            grid: Grid::new(cols as usize, rows as usize),
            parser: Parser::new(),
            selection: None,
            clicks: Clicks::new(),
            cell_dims,
        }
    }

    /// Interpret output of the child. Returns what it is owed in reply: the
    /// answers to what it asked.
    pub fn feed(&mut self, bytes: &[u8]) -> (reply: Vec<u8>)
        requires
            old(self).wf(),
            old(self).grid@.rows > 0,
            old(self).grid@.cols > 0,
        ensures
            final(self).wf(),
            final(self).grid@.rows == old(self).grid@.rows,
            final(self).grid@.cols == old(self).grid@.cols,
            final(self).parser.fed() == old(self).parser.fed().push(bytes@),
            final(self).selection == old(self).selection,
            final(self).clicks == old(self).clicks,
            final(self).cell_dims == old(self).cell_dims,
            ({
                let after = old(self).parser.with(old(self).grid@).perform_all(
                    parser::vte_events(old(self).parser.fed(), bytes@),
                );
                &&& reply@ == after.responses
                &&& final(self).parser.with(final(self).grid@) == (crate::vt::Vt {
                    responses: Seq::empty(),
                    ..after
                })
            }),
    {
        self.parser.advance(&mut self.grid, bytes);
        let ghost screen = self.grid@;
        let ghost between = self.parser;
        let reply = self.parser.take_responses();
        assert(between.with(screen).responses == reply@);
        reply
    }

    /// The user typed: the selection goes, and the live screen is shown. Says
    /// whether that moved the view.
    pub fn typed(&mut self) -> (moved: bool)
        requires
            old(self).wf(),
        ensures
            final(self).wf(),
            final(self).grid@ == old(self).grid@.set_view_offset(0),
            final(self).selection is None,
            final(self).parser == old(self).parser,
            final(self).clicks == old(self).clicks,
            final(self).cell_dims == old(self).cell_dims,
            moved == (old(self).grid@.view_offset > 0),
    {
        self.selection = None;
        snap_to_bottom(&mut self.grid)
    }

    /// The bytes of pasted text. The live screen is shown, unless there is no
    /// text.
    pub fn paste(&mut self, text: &str) -> (bytes: Vec<u8>)
        requires
            old(self).wf(),
        ensures
            final(self).wf(),
            final(self).parser == old(self).parser,
            final(self).selection == old(self).selection,
            final(self).clicks == old(self).clicks,
            final(self).cell_dims == old(self).cell_dims,
            if text@.len() == 0 {
                bytes@ == Seq::<u8>::empty() && final(self).grid@ == old(self).grid@
            } else {
                &&& final(self).grid@ == old(self).grid@.set_view_offset(0)
                &&& bytes@ == input::paste_bytes(
                    text@,
                    old(self).parser.with(old(self).grid@).bracketed_paste,
                )
            },
    {
        if crate::text::chars_of(text).len() == 0 {
            return Vec::new();
        }
        snap_to_bottom(&mut self.grid);
        let bracketed = self.parser.bracketed_paste();
        let ghost screen = old(self).grid@;
        assert(bracketed == self.parser.with(screen).bracketed_paste);
        encode_paste(text, bracketed)
    }

    /// Fit the grid to an area of pixels. Returns the size to tell the child, if
    /// it changed.
    pub fn fit(&mut self, w: i32, h: i32) -> (changed: Option<PtySize>)
        requires
            old(self).wf(),
        ensures
            final(self).wf(),
            final(self).parser == old(self).parser,
            final(self).selection == old(self).selection,
            final(self).clicks == old(self).clicks,
            final(self).cell_dims == old(self).cell_dims,
            ({
                let size = metrics::size_in_pixels(
                    w as int,
                    h as int,
                    old(self).cell_dims.0 as int,
                    old(self).cell_dims.1 as int,
                );
                if size is None || (size->0.cols == old(self).grid@.cols % 65536 && size->0.rows
                    == old(self).grid@.rows % 65536) {
                    changed is None && final(self).grid@ == old(self).grid@
                } else {
                    changed == size && final(self).grid@ == old(self).grid@.resize(
                        size->0.cols as int,
                        size->0.rows as int,
                    )
                }
            }),
    {
        let (cell_w, cell_h): (u32, u32) = self.cell_dims;
        fit_to_pixels(&mut self.grid, w, h, cell_w, cell_h)
    }

    fn report(&self, action: MouseAction, cell: Option<(usize, usize)>) -> (bytes: Vec<u8>)
        requires
            reportable(cell),
        ensures
            bytes@ == button_report(self.grid@, action, cell),
    {
        match cell {
            Some((row, col)) => encode_mouse(self.grid.mouse_sgr(), 0, action, col, row),
            None => Vec::new(),
        }
    }

    /// The left button was pressed over a cell, or over none. The press is
    /// reported to an app that reports the mouse, unless Shift is held; else it
    /// selects. One press clears the selection, two in a row select a word and
    /// three a line, if `click_select` is on. Returns what goes to the child.
    pub fn press(
        &mut self,
        cell: Option<(usize, usize)>,
        shift: bool,
        click_select: bool,
        now: u32,
        limit: u32,
    ) -> (bytes: Vec<u8>)
        requires
            old(self).wf(),
            reportable(cell),
            cell matches Some((row, col)) ==> row < old(self).grid@.rows,
        ensures
            final(self).wf(),
            final(self).grid == old(self).grid,
            final(self).parser == old(self).parser,
            final(self).cell_dims == old(self).cell_dims,
            if old(self).grid@.mouse_mode != MouseMode::Off && !shift {
                &&& bytes@ == button_report(old(self).grid@, MouseAction::Press, cell)
                &&& final(self).selection == old(self).selection
                &&& final(self).clicks == old(self).clicks
            } else {
                &&& bytes@ == Seq::<u8>::empty()
                &&& match cell {
                    Some((row, col)) => if click_select {
                        &&& final(self).clicks == old(self).clicks.pressed(now, row, col, limit)
                        &&& press_selects(
                            old(self).grid@,
                            final(self).clicks.selects(),
                            row,
                            col,
                            old(self).selection,
                            final(self).selection,
                        )
                    } else {
                        final(self).selection is None && final(self).clicks == old(self).clicks
                    },
                    None => final(self).selection is None && final(self).clicks
                        == old(self).clicks,
                }
            },
    {
        if forwards_mouse(self.grid.mouse_mode(), shift) {
            return self.report(MouseAction::Press, cell);
        }
        let (row, col): (usize, usize) = match cell {
            Some(at) => at,
            None => {
                self.selection = None;
                return Vec::new();
            },
        };
        if !click_select {
            self.selection = None;
            return Vec::new();
        }
        match self.clicks.press(now, row, col, limit) {
            Press::Clear => {
                self.selection = None;
            },
            Press::Word => {
                if let Some(word) = select_word(&self.grid, row, col) {
                    self.selection = Some(word);
                }
            },
            Press::Line => {
                if let Some(line) = select_line(&self.grid, row) {
                    self.selection = Some(line);
                }
            },
        }
        Vec::new()
    }

    /// The pointer was dragged from one cell to another, each None where it is
    /// over no cell. Returns what goes to the child: the motion, if it asked for
    /// that.
    pub fn drag(
        &mut self,
        anchor: Option<(usize, usize)>,
        active: Option<(usize, usize)>,
        shift: bool,
    ) -> (bytes: Vec<u8>)
        requires
            old(self).wf(),
            reportable(active),
        ensures
            final(self).wf(),
            final(self).grid == old(self).grid,
            final(self).parser == old(self).parser,
            final(self).clicks == old(self).clicks,
            final(self).cell_dims == old(self).cell_dims,
            ({
                let mode = old(self).grid@.mouse_mode;
                if mode != MouseMode::Off && !shift {
                    &&& final(self).selection == old(self).selection
                    &&& bytes@ == if mode == MouseMode::ButtonMotion || mode
                        == MouseMode::AnyMotion {
                        button_report(old(self).grid@, MouseAction::Motion, active)
                    } else {
                        Seq::empty()
                    }
                } else {
                    &&& bytes@ == Seq::<u8>::empty()
                    &&& final(self).selection == selection::after_drag(
                        old(self).selection,
                        anchor,
                        active,
                    )
                }
            }),
    {
        if forwards_mouse(self.grid.mouse_mode(), shift) {
            if reports_motion(self.grid.mouse_mode()) {
                return self.report(MouseAction::Motion, active);
            }
            return Vec::new();
        }
        self.selection = dragged(self.selection, anchor, active);
        Vec::new()
    }

    /// The left button was released over a cell, or over none. Returns what goes
    /// to the child, and whether there is a selection to be copied.
    pub fn release(&self, cell: Option<(usize, usize)>, shift: bool) -> (done: (Vec<u8>, bool))
        requires
            reportable(cell),
        ensures
            if self.grid@.mouse_mode != MouseMode::Off && !shift {
                done.0@ == button_report(self.grid@, MouseAction::Release, cell) && !done.1
            } else {
                done.0@ == Seq::<u8>::empty() && done.1 == (self.selection is Some)
            },
    {
        if forwards_mouse(self.grid.mouse_mode(), shift) {
            (self.report(MouseAction::Release, cell), false)
        } else {
            (Vec::new(), self.selection.is_some())
        }
    }

    /// Select everything in view.
    pub fn select_all(&mut self)
        requires
            old(self).wf(),
        ensures
            final(self).wf(),
            final(self).grid == old(self).grid,
            final(self).parser == old(self).parser,
            final(self).clicks == old(self).clicks,
            final(self).cell_dims == old(self).cell_dims,
            final(self).selection == if old(self).grid@.rows == 0 || old(self).grid@.cols == 0 {
                old(self).selection
            } else {
                Some(
                    Selection {
                        anchor: (0, 0),
                        active: (
                            (old(self).grid@.rows - 1) as usize,
                            (old(self).grid@.cols - 1) as usize,
                        ),
                    },
                )
            },
    {
        if let Some(all) = select_all(&self.grid) {
            self.selection = Some(all);
        }
    }

    /// The selected text, if there is any.
    pub fn selected_text(&self) -> (text: Option<String>)
        requires
            self.wf(),
        ensures
            match text {
                Some(t) => {
                    &&& self.selection is Some
                    &&& t@ == selection::copied_text(self.grid@, self.selection->0)
                    &&& t@.len() > 0
                },
                None => self.selection is None || selection::copied_text(
                    self.grid@,
                    self.selection->0,
                ).len() == 0,
            },
    {
        let selection = match self.selection {
            Some(s) => s,
            None => {
                return None;
            },
        };
        let text = selection_text(&self.grid, selection);
        if crate::text::chars_of(text.as_str()).len() == 0 {
            None
        } else {
            Some(text)
        }
    }

    /// Scroll the view so that it starts this many rows after the oldest row of
    /// the history, or at the live screen if there are fewer.
    pub fn scroll_to(&mut self, top_row: usize)
        requires
            old(self).wf(),
        ensures
            final(self).wf(),
            final(self).parser == old(self).parser,
            final(self).selection == old(self).selection,
            final(self).clicks == old(self).clicks,
            final(self).cell_dims == old(self).cell_dims,
            final(self).grid@ == old(self).grid@.set_view_offset(
                if top_row <= old(self).grid@.scrollback.len() {
                    old(self).grid@.scrollback.len() - top_row
                } else {
                    0
                },
            ),
    {
        let history: usize = self.grid.scrollback_len();
        self.grid.set_view_offset(
            if top_row <= history {
                history - top_row
            } else {
                0
            },
        );
    }
}

// ---- laws ----
/// Scrolling to a row of the history shows it at the top.
pub proof fn law_scrolling_to_a_row_shows_it(screen: Screen, top_row: int)
    requires
        screen.wf(),
        0 <= top_row <= screen.scrollback.len(),
    ensures
        screen.set_view_offset(screen.scrollback.len() - top_row).view_to_logical(0) == top_row,
{
}

/// A button over a cell is reported as the left one, at that cell, with the
/// column before the row and both counted from 1; over no cell it is not
/// reported.
pub proof fn law_left_button_is_reported(
    screen: Screen,
    action: MouseAction,
    row: usize,
    col: usize,
)
    ensures
        button_report(screen, action, None) == Seq::<u8>::empty(),
        !screen.mouse_sgr && row < 222 && col < 222 ==> {
            let bytes = button_report(screen, action, Some((row, col)));
            &&& bytes.len() == 6 && bytes[0] == 0x1b && bytes[1] == 0x5b && bytes[2] == 0x4d
            &&& bytes[3] == match action {
                MouseAction::Press => 32int,
                MouseAction::Release => 35,
                MouseAction::Motion => 64,
            }
            &&& bytes[4] == 33 + col && bytes[5] == 33 + row
        },
        screen.mouse_sgr ==> {
            let place = seq![0x3bu8] + text::decimal((col + 1) as nat) + seq![0x3bu8]
                + text::decimal((row + 1) as nat);
            let button = match action {
                MouseAction::Motion => 32nat,
                _ => 0nat,
            };
            button_report(screen, action, Some((row, col))) == seq![0x1bu8, 0x5b, 0x3c]
                + text::decimal(button) + place + seq![
                if action == MouseAction::Release {
                    0x6du8
                } else {
                    0x4du8
                },
            ]
        },
{
    commands::law_x10_reports(0, col as int, row as int);
    commands::law_sgr_reports(0, col as int, row as int);
    let at = |action: MouseAction| commands::mouse_bytes(
        false,
        0,
        action,
        col as int,
        row as int,
    );
    assert(button_report(screen, action, None) =~= Seq::<u8>::empty());
}

/// What a press selects holds the cell that was pressed: after two presses in
/// its row, from the first to the last column of the word, and after three all
/// of its line.
pub proof fn law_press_selects_what_is_under_it(
    screen: Screen,
    row: usize,
    col: usize,
    before: Option<Selection>,
    after: Option<Selection>,
)
    requires
        row < screen.rows,
        col < screen.cols,
    ensures
        press_selects(screen, Press::Clear, row, col, before, after) == (after is None),
        press_selects(screen, Press::Word, row, col, before, after) ==> {
            &&& after is Some
            &&& after->0.anchor.0 == row && after->0.active.0 == row
            &&& after->0.anchor.1 <= col <= after->0.active.1
        },
        press_selects(screen, Press::Line, row, col, before, after) ==> {
            &&& after is Some
            &&& after->0.anchor.0 <= row <= after->0.active.0
            &&& after->0.anchor.1 == 0
        },
{
}

} // verus!
