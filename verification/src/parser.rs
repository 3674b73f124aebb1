//! The escape-sequence interpreter: bytes from the app in, changes to the grid
//! and bytes for the app out.
use vstd::prelude::*;
use vte::Parser as Automaton;
use vte::{Params, Perform};
use crate::color::{CellColor, Color};
use crate::grid::{CursorShape, Grid, MouseMode};
use crate::screen::Screen;
use crate::text::push_decimal;
use crate::vt;
use crate::vt::{ActiveCharset, Charset, Event, Vt};

verus! {

/// What the byte-level state machine found, as it reports it.
#[derive(Debug)]
pub enum Action {
    Print(char),
    Execute(u8),
    Csi { params: Vec<Vec<u16>>, intermediates: Vec<u8>, action: char },
    Esc { intermediates: Vec<u8>, byte: u8 },
}

/// The parameters as the model has them.
pub open spec fn params_of(params: Seq<Vec<u16>>) -> Seq<Seq<u16>> {
    params.map_values(|p: Vec<u16>| p@)
}

impl View for Action {
    type V = Event;

    open spec fn view(&self) -> Event {
        match *self {
            Action::Print(c) => Event::Print(c),
            Action::Execute(byte) => Event::Execute(byte),
            Action::Csi { params, intermediates, action } => Event::Csi {
                params: params_of(params@),
                intermediates: intermediates@,
                action,
            },
            Action::Esc { intermediates, byte } => Event::Esc {
                intermediates: intermediates@,
                byte,
            },
        }
    }
}

/// The actions as the model has them.
pub open spec fn events_of(actions: Seq<Action>) -> Seq<Event> {
    actions.map_values(|a: Action| a@)
}

// ---- the byte-level state machine ----
/// `vte::Parser`, the state machine that finds escape sequences in bytes.
#[verifier::external_type_specification]
#[verifier::external_body]
pub struct ExAutomaton<const N: usize>(Automaton<N>);

/// `vte::Params`, the parameters of a control sequence.
#[verifier::external_type_specification]
#[verifier::external_body]
pub struct ExParams(Params);

/// What `vte::Parser` is like after it was fed these chunks of bytes, one call
/// of `advance` each, from the start.
pub uninterp spec fn vte_after(chunks: Seq<Seq<u8>>) -> Automaton;

/// The events that `vte::Parser` reports for `bytes` when it was fed `chunks`
/// before. Bytes may be split over two calls, and some splits change what is
/// reported, so that the chunks matter and not just their bytes.
pub uninterp spec fn vte_events(chunks: Seq<Seq<u8>>, bytes: Seq<u8>) -> Seq<Event>;

/// Seven-bit bytes without an escape among them.
pub open spec fn is_plain(bytes: Seq<u8>) -> bool {
    forall|i: int| 0 <= i < bytes.len() ==> #[trigger] bytes[i] < 0x80 && bytes[i] != 0x1b
}

/// The events for seven-bit bytes without an escape: controls are executed, the
/// rest is printed.
pub open spec fn plain_events(bytes: Seq<u8>) -> Seq<Event> {
    bytes.map_values(
        |b: u8|
            if b < 0x20 {
                Event::Execute(b)
            } else {
                Event::Print(b as char)
            },
    )
}

/// `vte::Parser::new`: the state machine before it has seen a byte.
#[verifier::external_body]
fn automaton_new() -> (automaton: Automaton)
    ensures
        automaton == vte_after(Seq::empty()),
{
    Automaton::new()
}

/// `vte::Parser::advance`: reports what is in `bytes`. The report and the state
/// it leaves depend on the bytes and on the chunks that came before. Device
/// control strings and operating system commands are not recorded. Nothing is
/// said here of how bytes make up a sequence, other than that plain bytes after
/// plain bytes make up none.
#[verifier::external_body]
fn automaton_advance(automaton: &mut Automaton, bytes: &[u8]) -> (actions: Vec<Action>)
    ensures
        forall|chunks: Seq<Seq<u8>>|
            *old(automaton) == #[trigger] vte_after(chunks) ==> *final(automaton) == vte_after(
                chunks.push(bytes@),
            ) && events_of(actions@) == vte_events(chunks, bytes@),
        forall|chunks: Seq<Seq<u8>>|
            *old(automaton) == #[trigger] vte_after(chunks) && is_plain(bytes@) && (forall|i: int|
                0 <= i < chunks.len() ==> is_plain(#[trigger] chunks[i])) ==> events_of(actions@)
                == plain_events(bytes@),
{
    let mut recorder = Recorder { actions: Vec::new() };
    automaton.advance(&mut recorder, bytes);
    recorder.actions
}

/// The numbers that a `vte::Params` holds.
pub uninterp spec fn vte_params(params: Params) -> Seq<Seq<u16>>;

/// `vte::Params::iter`: each parameter with its subparameters, in order.
#[verifier::external_body]
fn params_list(params: &Params) -> (list: Vec<Vec<u16>>)
    ensures
        params_of(list@) == vte_params(*params),
{
    params.iter().map(|p| p.to_vec()).collect()
}

/// Takes down what the state machine reports.
pub struct Recorder {
    actions: Vec<Action>,
}

impl View for Recorder {
    type V = Seq<Event>;

    closed spec fn view(&self) -> Seq<Event> {
        events_of(self.actions@)
    }
}

impl Recorder {
    fn record(&mut self, action: Action)
        ensures
            final(self)@ == old(self)@.push(action@),
    {
        self.actions.push(action);
        assert(self@ =~= old(self)@.push(action@));
    }
}

impl Perform for Recorder {
    fn print(&mut self, c: char)
        ensures
            final(self)@ == old(self)@.push(Event::Print(c)),
    {
        self.record(Action::Print(c));
    }

    fn execute(&mut self, byte: u8)
        ensures
            final(self)@ == old(self)@.push(Event::Execute(byte)),
    {
        self.record(Action::Execute(byte));
    }

    fn csi_dispatch(&mut self, params: &Params, intermediates: &[u8], ignore: bool, action: char)
        ensures
            final(self)@ == old(self)@.push(
                Event::Csi { params: vte_params(*params), intermediates: intermediates@, action },
            ),
    {
        let params = params_list(params);
        let intermediates = vstd::slice::slice_to_vec(intermediates);
        self.record(Action::Csi { params, intermediates, action });
    }

    fn esc_dispatch(&mut self, intermediates: &[u8], ignore: bool, byte: u8)
        ensures
            final(self)@ == old(self)@.push(Event::Esc { intermediates: intermediates@, byte }),
    {
        let intermediates = vstd::slice::slice_to_vec(intermediates);
        self.record(Action::Esc { intermediates, byte });
    }
}

// ---- the interpreter ----
/// The interpreter's own state: what it owes to the app, and its modes.
pub struct Performer {
    /// The bytes owed to the app.
    pub responses: Vec<u8>,
    pub g0: Charset,
    pub g1: Charset,
    pub active: ActiveCharset,
    pub bracketed_paste: bool,
}

/// The DEC Special Graphics character that stands for `c`.
fn dec_graphics_map(c: char) -> (mapped: char)
    ensures
        mapped == vt::dec_graphics(c),
{
    match c {
        '_' => ' ',
        '`' => '\u{25c6}',
        'a' => '\u{2592}',
        'f' => '\u{b0}',
        'g' => '\u{b1}',
        'h' => '\u{2424}',
        'i' => '\u{240b}',
        'j' => '\u{2518}',
        'k' => '\u{2510}',
        'l' => '\u{250c}',
        'm' => '\u{2514}',
        'n' => '\u{253c}',
        'o' => '\u{23ba}',
        'p' => '\u{23bb}',
        'q' => '\u{2500}',
        'r' => '\u{23bc}',
        's' => '\u{23bd}',
        't' => '\u{251c}',
        'u' => '\u{2524}',
        'v' => '\u{2534}',
        'w' => '\u{252c}',
        'x' => '\u{2502}',
        'y' => '\u{2264}',
        'z' => '\u{2265}',
        '{' => '\u{3c0}',
        '|' => '\u{2260}',
        '}' => '\u{a3}',
        '~' => '\u{b7}',
        _ => c,
    }
}

/// The color at `from`, behind a code 38 or 48, and how many codes it takes.
fn parse_extended_color(codes: &Vec<u16>, from: usize) -> (found: Option<(CellColor, usize)>)
    requires
        from <= codes@.len(),
    ensures
        match found {
            Some((color, used)) => vt::extended_color(codes@.skip(from as int)) == Some(
                (color, used as int),
            ) && from + used <= codes@.len(),
            None => vt::extended_color(codes@.skip(from as int)) is None,
        },
{
    let ghost rest = codes@.skip(from as int);
    let len: usize = codes.len() - from;
    if len >= 2 && codes[from] == 5 {
        Some((CellColor::Palette(low_byte(codes[from + 1])), 2))
    } else if len >= 5 && codes[from] == 2 && codes[from + 1] == 0 {
        let color = Color::rgb(
            low_byte(codes[from + 2]),
            low_byte(codes[from + 3]),
            low_byte(codes[from + 4]),
        );
        Some((CellColor::Rgb(color), 4))
    } else if len >= 4 && codes[from] == 2 {
        let color = Color::rgb(
            low_byte(codes[from + 1]),
            low_byte(codes[from + 2]),
            low_byte(codes[from + 3]),
        );
        Some((CellColor::Rgb(color), 3))
    } else {
        None
    }
}

fn low_byte(v: u16) -> (b: u8)
    ensures
        b == vt::low_byte(v),
{
    (v % 256) as u8
}

/// The first number of parameter `i`, if there is one.
fn param(params: &Vec<Vec<u16>>, i: usize) -> (v: Option<u16>)
    ensures
        v == vt::param(params_of(params@), i as int),
{
    if i < params.len() && params[i].len() > 0 {
        Some(params[i][0])
    } else {
        None
    }
}

fn or_default(v: Option<u16>, default: usize) -> (n: usize)
    ensures
        n == vt::or_default(v, default as int),
{
    match v {
        Some(n) if n != 0 => n as usize,
        _ => default,
    }
}

fn or_zero(v: Option<u16>) -> (n: u16)
    ensures
        n == vt::or_zero(v),
{
    match v {
        Some(n) => n,
        None => 0,
    }
}

/// Whether the bytes are just this one.
fn is_only(bytes: &Vec<u8>, byte: u8) -> (only: bool)
    ensures
        only == (bytes@ == seq![byte]),
{
    let only = bytes.len() == 1 && bytes[0] == byte;
    proof {
        if only {
            assert(bytes@ =~= seq![byte]);
        }
    }
    only
}

/// The final bytes of sequences that move the cursor.
pub(crate) open(crate) spec fn is_motion(action: char) -> bool {
    seq!['A', 'B', 'e', 'C', 'a', 'D', 'E', 'F', 'G', '`', 'd', 'H', 'f'].contains(action)
}

/// The final bytes of sequences that erase or move cells.
pub(crate) open(crate) spec fn is_edit(action: char) -> bool {
    seq!['J', 'K', 'P', '@', 'X'].contains(action)
}

/// The final bytes of sequences that move rows, set the scroll region, or save
/// or restore the cursor.
pub(crate) open(crate) spec fn is_row_edit(action: char) -> bool {
    seq!['L', 'M', 'S', 'T', 'r', 's', 'u'].contains(action)
}

impl Performer {
    /// The terminal that this interpreter and `screen` make up.
    pub open spec fn with(self, screen: Screen) -> Vt {
        Vt {
            screen,
            responses: self.responses@,
            g0: self.g0,
            g1: self.g1,
            active: self.active,
            bracketed_paste: self.bracketed_paste,
        }
    }

    /// Nothing owed, both character sets ASCII, G0 active, no mode set.
    pub fn new() -> (p: Performer)
        ensures
            forall|screen: Screen| #[trigger]
                p.with(screen) == (Vt {
                    screen,
                    responses: Seq::empty(),
                    g0: Charset::Ascii,
                    g1: Charset::Ascii,
                    active: ActiveCharset::G0,
                    bracketed_paste: false,
                }),
    {
        Performer {
            responses: Vec::new(),
            g0: Charset::Ascii,
            g1: Charset::Ascii,
            active: ActiveCharset::G0,
            bracketed_paste: false,
        }
    }

    fn print(&self, grid: &mut Grid, c: char)
        requires
            old(grid).wf(),
            old(grid)@.rows > 0,
            old(grid)@.cols > 0,
        ensures
            final(grid).wf(),
            final(grid)@.rows == old(grid)@.rows,
            final(grid)@.cols == old(grid)@.cols,
            self.with(final(grid)@) == self.with(old(grid)@).print(c),
    {
        let charset = match self.active {
            ActiveCharset::G0 => self.g0,
            ActiveCharset::G1 => self.g1,
        };
        let translated = match charset {
            Charset::Ascii => c,
            Charset::DecGraphics => dec_graphics_map(c),
        };
        grid.put_char(translated);
    }

    fn execute(&mut self, grid: &mut Grid, byte: u8)
        requires
            old(grid).wf(),
            old(grid)@.rows > 0,
            old(grid)@.cols > 0,
        ensures
            final(grid).wf(),
            final(grid)@.rows == old(grid)@.rows,
            final(grid)@.cols == old(grid)@.cols,
            final(self).with(final(grid)@) == old(self).with(old(grid)@).execute(byte),
    {
        match byte {
            0x08 => grid.backspace(),
            0x09 => grid.tab(),
            0x0a | 0x0b | 0x0c => grid.linefeed(),
            0x0d => grid.carriage_return(),
            0x0e => {
                self.active = ActiveCharset::G1;
            },
            0x0f => {
                self.active = ActiveCharset::G0;
            },
            _ => {},
        }
    }

    fn handle_sgr(grid: &mut Grid, params: &Vec<Vec<u16>>)
        requires
            old(grid).wf(),
        ensures
            final(grid).wf(),
            final(grid)@.rows == old(grid)@.rows,
            final(grid)@.cols == old(grid)@.cols,
            final(grid)@ == vt::sgr(old(grid)@, params_of(params@)),
    {
        let ghost all = params_of(params@);
        let mut codes: Vec<u16> = Vec::new();
        let mut i: usize = 0;
        assert(all.take(0) =~= Seq::<Seq<u16>>::empty());
        while i < params.len()
            invariant
                i <= params@.len(),
                all == params_of(params@),
                codes@ == vt::flat(all.take(i as int)),
            decreases params@.len() - i,
        {
            codes.extend_from_slice(params[i].as_slice());
            assert(all.take(i + 1).drop_last() =~= all.take(i as int));
            i = i + 1;
            assert(codes@ =~= vt::flat(all.take(i as int)));
        }
        assert(all.take(i as int) =~= all);
        if codes.len() == 0 {
            grid.reset_attrs();
            return ;
        }
        let mut at: usize = 0;
        assert(codes@.skip(0) =~= codes@);
        while at < codes.len()
            invariant
                at <= codes@.len(),
                grid.wf(),
                grid@.rows == old(grid)@.rows,
                grid@.cols == old(grid)@.cols,
                vt::sgr_codes(grid@, codes@.skip(at as int)) == vt::sgr_codes(old(grid)@, codes@),
            decreases codes@.len() - at,
        {
            let code: u16 = codes[at];
            let extended = if code == 38 || code == 48 {
                parse_extended_color(&codes, at + 1)
            } else {
                None
            };
            let ghost rest = codes@.skip(at + 1);
            proof {
                assert(codes@.skip(at as int).skip(1) =~= rest);
            }
            at = at + 1;
            match extended {
                Some((color, used)) => {
                    if code == 38 {
                        grid.set_fg(color);
                    } else {
                        grid.set_bg(color);
                    }
                    assert(rest.skip(used as int) =~= codes@.skip(at + used));
                    at = at + used;
                },
                None => {
                    Self::set_attribute(grid, code);
                },
            }
        }
        assert(codes@.skip(at as int) =~= Seq::<u16>::empty());
    }

    /// One SGR code without further parameters.
    fn set_attribute(grid: &mut Grid, code: u16)
        requires
            old(grid).wf(),
        ensures
            final(grid).wf(),
            final(grid)@ == vt::sgr_code(old(grid)@, code),
    {
        match code {
            0 => grid.reset_attrs(),
            1 => grid.set_bold(true),
            7 => grid.set_reverse(true),
            22 => grid.set_bold(false),
            27 => grid.set_reverse(false),
            30..=37 => grid.set_fg(CellColor::Palette((code - 30) as u8)),
            39 => grid.set_fg(CellColor::Default),
            40..=47 => grid.set_bg(CellColor::Palette((code - 40) as u8)),
            49 => grid.set_bg(CellColor::Default),
            90..=97 => grid.set_fg(CellColor::Palette((code - 90 + 8) as u8)),
            100..=107 => grid.set_bg(CellColor::Palette((code - 100 + 8) as u8)),
            _ => {},
        }
    }

    fn screen_mode(grid: &mut Grid, code: u16, set: bool)
        requires
            old(grid).wf(),
        ensures
            final(grid).wf(),
            final(grid)@.rows == old(grid)@.rows,
            final(grid)@.cols == old(grid)@.cols,
            final(grid)@ == vt::screen_mode(old(grid)@, code, set),
    {
        match code {
            1 => grid.set_app_cursor_keys(set),
            25 => grid.set_cursor_visible(set),
            47 | 1047 => {
                if set {
                    grid.enter_alt_screen();
                } else {
                    grid.exit_alt_screen();
                }
            },
            1000 => grid.set_mouse_mode(
                if set {
                    MouseMode::Normal
                } else {
                    MouseMode::Off
                },
            ),
            1002 => grid.set_mouse_mode(
                if set {
                    MouseMode::ButtonMotion
                } else {
                    MouseMode::Off
                },
            ),
            1003 => grid.set_mouse_mode(
                if set {
                    MouseMode::AnyMotion
                } else {
                    MouseMode::Off
                },
            ),
            1006 => grid.set_mouse_sgr(set),
            1048 => {
                if set {
                    grid.save_cursor();
                } else {
                    grid.restore_cursor();
                }
            },
            1049 => {
                if set {
                    grid.save_cursor();
                    grid.enter_alt_screen();
                } else {
                    grid.exit_alt_screen();
                    grid.restore_cursor();
                }
            },
            _ => {},
        }
    }

    fn private_mode(&mut self, grid: &mut Grid, code: u16, set: bool)
        requires
            old(grid).wf(),
        ensures
            final(grid).wf(),
            final(grid)@.rows == old(grid)@.rows,
            final(grid)@.cols == old(grid)@.cols,
            final(self).with(final(grid)@) == old(self).with(old(grid)@).private_mode(code, set),
    {
        if code == 2004 {
            self.bracketed_paste = set;
        } else {
            Self::screen_mode(grid, code, set);
        }
    }

    fn handle_dec_private(&mut self, grid: &mut Grid, params: &Vec<Vec<u16>>, set: bool)
        requires
            old(grid).wf(),
        ensures
            final(grid).wf(),
            final(grid)@.rows == old(grid)@.rows,
            final(grid)@.cols == old(grid)@.cols,
            final(self).with(final(grid)@) == old(self).with(old(grid)@).private_modes(
                params_of(params@),
                set,
            ),
    {
        let ghost all = params_of(params@);
        let mut i: usize = 0;
        assert(all.take(0) =~= Seq::<Seq<u16>>::empty());
        while i < params.len()
            invariant
                i <= params@.len(),
                all == params_of(params@),
                grid.wf(),
                grid@.rows == old(grid)@.rows,
                grid@.cols == old(grid)@.cols,
                self.with(grid@) == old(self).with(old(grid)@).private_modes(
                    all.take(i as int),
                    set,
                ),
            decreases params@.len() - i,
        {
            assert(all.take(i + 1).drop_last() =~= all.take(i as int));
            if params[i].len() > 0 {
                let code: u16 = params[i][0];
                self.private_mode(grid, code, set);
            }
            i = i + 1;
        }
        assert(all.take(i as int) =~= all);
    }

    /// `ESC [ row ; col R`, both counted from 1.
    fn report_cursor(&mut self, row: usize, col: usize)
        requires
            row < usize::MAX,
            col < usize::MAX,
        ensures
            forall|screen: Screen| #[trigger]
                final(self).with(screen) == (Vt {
                    responses: old(self).with(screen).responses + vt::cursor_report(
                        row as int,
                        col as int,
                    ),
                    ..old(self).with(screen)
                }),
    {
        let ghost before = self.responses@;
        self.responses.push(0x1b);
        self.responses.push(0x5b);
        push_decimal(&mut self.responses, row + 1);
        self.responses.push(0x3b);
        push_decimal(&mut self.responses, col + 1);
        self.responses.push(0x52);
        assert(self.responses@ =~= before + vt::cursor_report(row as int, col as int));
    }

    fn report_attributes(&mut self)
        ensures
            forall|screen: Screen| #[trigger]
                final(self).with(screen) == (Vt {
                    responses: old(self).with(screen).responses + vt::device_attributes(),
                    ..old(self).with(screen)
                }),
    {
        let ghost before = self.responses@;
        self.responses.push(0x1b);
        self.responses.push(0x5b);
        self.responses.push(0x3f);
        self.responses.push(0x31);
        self.responses.push(0x3b);
        self.responses.push(0x32);
        self.responses.push(0x63);
        assert(self.responses@ =~= before + vt::device_attributes());
    }

    /// Sequences that move the cursor. False when `action` is none of them.
    fn move_cursor(grid: &mut Grid, first: Option<u16>, second: Option<u16>, action: char) -> (known:
        bool)
        requires
            old(grid).wf(),
            old(grid)@.rows > 0,
            old(grid)@.cols > 0,
        ensures
            final(grid).wf(),
            final(grid)@.rows == old(grid)@.rows,
            final(grid)@.cols == old(grid)@.cols,
            known ==> final(grid)@ == vt::screen_csi(old(grid)@, first, second, action),
            !known ==> *final(grid) == *old(grid) && !is_motion(action),
    {
        let n: usize = or_default(first, 1);
        match action {
            'A' => grid.cursor_up(n),
            'B' | 'e' => grid.cursor_down(n),
            'C' | 'a' => grid.cursor_forward(n),
            'D' => grid.cursor_back(n),
            'E' => {
                grid.cursor_down(n);
                grid.carriage_return();
            },
            'F' => {
                grid.cursor_up(n);
                grid.carriage_return();
            },
            'G' | '`' => grid.cursor_to_column(n),
            'd' => grid.cursor_to_row(n),
            'H' | 'f' => grid.set_cursor(n, or_default(second, 1)),
            _ => {
                return false;
            },
        }
        true
    }

    /// Sequences that erase or move cells within rows. False when `action` is
    /// none of them.
    fn edit_cells(grid: &mut Grid, first: Option<u16>, second: Option<u16>, action: char) -> (known:
        bool)
        requires
            old(grid).wf(),
            old(grid)@.rows > 0,
            old(grid)@.cols > 0,
        ensures
            final(grid).wf(),
            final(grid)@.rows == old(grid)@.rows,
            final(grid)@.cols == old(grid)@.cols,
            known ==> final(grid)@ == vt::screen_csi(old(grid)@, first, second, action),
            !known ==> *final(grid) == *old(grid) && !is_edit(action),
    {
        let n: usize = or_default(first, 1);
        match action {
            'J' => grid.erase_in_display(or_zero(first)),
            'K' => grid.erase_in_line(or_zero(first)),
            'P' => grid.delete_chars(n),
            '@' => grid.insert_chars(n),
            'X' => grid.erase_chars(n),
            _ => {
                return false;
            },
        }
        true
    }

    /// Sequences that move rows, set the scroll region, or save or restore the
    /// cursor. False when `action` is none of them.
    fn edit_rows(grid: &mut Grid, first: Option<u16>, second: Option<u16>, action: char) -> (known:
        bool)
        requires
            old(grid).wf(),
            old(grid)@.rows > 0,
            old(grid)@.cols > 0,
        ensures
            final(grid).wf(),
            final(grid)@.rows == old(grid)@.rows,
            final(grid)@.cols == old(grid)@.cols,
            known ==> final(grid)@ == vt::screen_csi(old(grid)@, first, second, action),
            !known ==> *final(grid) == *old(grid) && !is_row_edit(action),
    {
        let n: usize = or_default(first, 1);
        match action {
            'L' => grid.insert_lines(n),
            'M' => grid.delete_lines(n),
            'S' => grid.scroll_up(n),
            'T' => grid.scroll_down(n),
            'r' => grid.set_scroll_region(or_zero(first) as usize, or_zero(second) as usize),
            's' => grid.save_cursor(),
            'u' => grid.restore_cursor(),
            _ => {
                return false;
            },
        }
        true
    }

    fn plain_csi(&mut self, grid: &mut Grid, params: &Vec<Vec<u16>>, action: char)
        requires
            old(grid).wf(),
            old(grid)@.rows > 0,
            old(grid)@.cols > 0,
        ensures
            final(grid).wf(),
            final(grid)@.rows == old(grid)@.rows,
            final(grid)@.cols == old(grid)@.cols,
            final(self).with(final(grid)@) == old(self).with(old(grid)@).plain_csi(
                params_of(params@),
                action,
            ),
    {
        let first = param(params, 0);
        let second = param(params, 1);
        match action {
            'n' => {
                if let Some(6) = first {
                    let (row, col) = grid.cursor();
                    self.report_cursor(row, col);
                }
            },
            'c' => self.report_attributes(),
            'm' => Self::handle_sgr(grid, params),
            _ => {
                let _ = Self::move_cursor(grid, first, second, action) || Self::edit_cells(
                    grid,
                    first,
                    second,
                    action,
                ) || Self::edit_rows(grid, first, second, action);
            },
        }
    }

    fn csi_dispatch(
        &mut self,
        grid: &mut Grid,
        params: &Vec<Vec<u16>>,
        intermediates: &Vec<u8>,
        action: char,
    )
        requires
            old(grid).wf(),
            old(grid)@.rows > 0,
            old(grid)@.cols > 0,
        ensures
            final(grid).wf(),
            final(grid)@.rows == old(grid)@.rows,
            final(grid)@.cols == old(grid)@.cols,
            final(self).with(final(grid)@) == old(self).with(old(grid)@).csi(
                params_of(params@),
                intermediates@,
                action,
            ),
    {
        if intermediates.len() == 0 {
            self.plain_csi(grid, params, action);
        } else if is_only(intermediates, 0x3f) {
            if action == 'h' || action == 'l' {
                self.handle_dec_private(grid, params, action == 'h');
            }
        } else if is_only(intermediates, 0x20) && action == 'q' {
            match or_zero(param(params, 0)) {
                0 | 1 | 2 => grid.set_cursor_shape(CursorShape::Block),
                3 | 4 => grid.set_cursor_shape(CursorShape::Underline),
                5 | 6 => grid.set_cursor_shape(CursorShape::Bar),
                _ => {},
            }
        }
    }

    fn esc_dispatch(&mut self, grid: &mut Grid, intermediates: &Vec<u8>, byte: u8)
        requires
            old(grid).wf(),
        ensures
            final(grid).wf(),
            final(grid)@.rows == old(grid)@.rows,
            final(grid)@.cols == old(grid)@.cols,
            final(self).with(final(grid)@) == old(self).with(old(grid)@).esc(intermediates@, byte),
    {
        if intermediates.len() == 0 {
            match byte {
                0x37 => grid.save_cursor(),
                0x38 => grid.restore_cursor(),
                _ => {},
            }
            return ;
        }
        let charset = match byte {
            0x30 => Charset::DecGraphics,
            _ => Charset::Ascii,
        };
        if is_only(intermediates, 0x28) {
            self.g0 = charset;
        } else if is_only(intermediates, 0x29) {
            self.g1 = charset;
        }
    }

    /// Do what one event asks for.
    pub fn perform(&mut self, grid: &mut Grid, action: &Action)
        requires
            old(grid).wf(),
            old(grid)@.rows > 0,
            old(grid)@.cols > 0,
        ensures
            final(grid).wf(),
            final(grid)@.rows == old(grid)@.rows,
            final(grid)@.cols == old(grid)@.cols,
            final(self).with(final(grid)@) == old(self).with(old(grid)@).perform(action@),
    {
        match action {
            Action::Print(c) => self.print(grid, *c),
            Action::Execute(byte) => self.execute(grid, *byte),
            Action::Csi { params, intermediates, action } => self.csi_dispatch(
                grid,
                params,
                intermediates,
                *action,
            ),
            Action::Esc { intermediates, byte } => self.esc_dispatch(grid, intermediates, *byte),
        }
    }

    /// Do what the events ask for, one after the other.
    pub fn perform_all(&mut self, grid: &mut Grid, actions: &Vec<Action>)
        requires
            old(grid).wf(),
            old(grid)@.rows > 0,
            old(grid)@.cols > 0,
        ensures
            final(grid).wf(),
            final(grid)@.rows == old(grid)@.rows,
            final(grid)@.cols == old(grid)@.cols,
            final(self).with(final(grid)@) == old(self).with(old(grid)@).perform_all(
                events_of(actions@),
            ),
    {
        let ghost events = events_of(actions@);
        let mut i: usize = 0;
        assert(events.take(0) =~= Seq::<Event>::empty());
        while i < actions.len()
            invariant
                i <= actions@.len(),
                events == events_of(actions@),
                grid.wf(),
                grid@.rows == old(grid)@.rows > 0,
                grid@.cols == old(grid)@.cols > 0,
                self.with(grid@) == old(self).with(old(grid)@).perform_all(
                    events.take(i as int),
                ),
            decreases actions@.len() - i,
        {
            self.perform(grid, &actions[i]);
            assert(events.take(i + 1).drop_last() =~= events.take(i as int));
            i = i + 1;
        }
        assert(events.take(i as int) =~= events);
    }

    /// Hand out the bytes owed to the app.
    pub fn take_responses(&mut self) -> (bytes: Vec<u8>)
        ensures
            forall|screen: Screen|
                {
                    &&& bytes@ == (#[trigger] old(self).with(screen)).responses
                    &&& final(self).with(screen) == (Vt {
                        responses: Seq::empty(),
                        ..old(self).with(screen)
                    })
                },
    {
        let mut bytes: Vec<u8> = Vec::new();
        std::mem::swap(&mut self.responses, &mut bytes);
        bytes
    }

    /// Whether bracketed paste is on.
    pub fn bracketed_paste(&self) -> (on: bool)
        ensures
            forall|screen: Screen| on == (#[trigger] self.with(screen)).bracketed_paste,
    {
        self.bracketed_paste
    }
}

/// Finds the escape sequences in the app's bytes and drives a [`Grid`] by them.
/// Buffers what the terminal has to write back (reports of its state): call
/// `take_responses` after each `advance` and forward the bytes to the child.
pub struct Parser {
    inner: Automaton,
    fed: Ghost<Seq<Seq<u8>>>,
    performer: Performer,
}

impl Parser {
    /// The state machine is where the bytes fed so far have left it.
    pub closed spec fn wf(self) -> bool {
        self.inner == vte_after(self.fed@)
    }

    /// The chunks of bytes fed so far.
    pub closed spec fn fed(self) -> Seq<Seq<u8>> {
        self.fed@
    }

    /// The interpreter that the bytes drive.
    pub closed spec fn performer(self) -> Performer {
        self.performer
    }

    /// The terminal that this parser and `screen` make up.
    pub open spec fn with(self, screen: Screen) -> Vt {
        self.performer().with(screen)
    }

    /// A parser that has seen nothing yet.
    pub fn new() -> (p: Parser)
        ensures
            p.wf(),
            p.fed() == Seq::<Seq<u8>>::empty(),
            forall|screen: Screen| #[trigger]
                p.with(screen) == (Vt {
                    screen,
                    responses: Seq::empty(),
                    g0: Charset::Ascii,
                    g1: Charset::Ascii,
                    active: ActiveCharset::G0,
                    bracketed_paste: false,
                }),
    {
        Parser { inner: automaton_new(), fed: Ghost(Seq::empty()), performer: Performer::new() }
    }

    /// Feed bytes from the app into the parser. The grid is mutated in place.
    ///
    /// What happens is what the events found in the bytes ask for, one after
    /// the other. While only seven-bit bytes without an escape have come, each
    /// byte is an event of its own: a control is executed, the rest printed.
    pub fn advance(&mut self, grid: &mut Grid, bytes: &[u8])
        requires
            old(self).wf(),
            old(grid).wf(),
            old(grid)@.rows > 0,
            old(grid)@.cols > 0,
        ensures
            final(self).wf(),
            final(self).fed() == old(self).fed().push(bytes@),
            final(grid).wf(),
            final(grid)@.rows == old(grid)@.rows,
            final(grid)@.cols == old(grid)@.cols,
            final(self).with(final(grid)@) == old(self).with(old(grid)@).perform_all(
                vte_events(old(self).fed(), bytes@),
            ),
            is_plain(bytes@) && (forall|i: int|
                0 <= i < old(self).fed().len() ==> is_plain(#[trigger] old(self).fed()[i]))
                ==> vte_events(old(self).fed(), bytes@) == plain_events(bytes@),
    {
        let actions = automaton_advance(&mut self.inner, bytes);
        self.fed = Ghost(self.fed@.push(bytes@));
        self.performer.perform_all(grid, &actions);
    }

    /// The bytes owed to the app. They are handed out once.
    pub fn take_responses(&mut self) -> (bytes: Vec<u8>)
        requires
            old(self).wf(),
        ensures
            final(self).wf(),
            final(self).fed() == old(self).fed(),
            forall|screen: Screen|
                {
                    &&& bytes@ == (#[trigger] old(self).with(screen)).responses
                    &&& final(self).with(screen) == (Vt {
                        responses: Seq::empty(),
                        ..old(self).with(screen)
                    })
                },
    {
        self.performer.take_responses()
    }

    /// True when the app has enabled bracketed paste (DEC ?2004). Pasted text
    /// then goes out between `ESC [200~` and `ESC [201~`, so that the app can
    /// tell a paste from typed input.
    pub fn bracketed_paste(&self) -> (on: bool)
        ensures
            forall|screen: Screen| on == (#[trigger] self.with(screen)).bracketed_paste,
    {
        self.performer.bracketed_paste()
    }
}

impl Default for Parser {
    fn default() -> (p: Parser)
        ensures
            p.wf(),
            p.fed() == Seq::<Seq<u8>>::empty(),
            forall|screen: Screen| #[trigger]
                p.with(screen) == (Vt {
                    screen,
                    responses: Seq::empty(),
                    g0: Charset::Ascii,
                    g1: Charset::Ascii,
                    active: ActiveCharset::G0,
                    bracketed_paste: false,
                }),
    {
        Parser::new()
    }
}

} // verus!
