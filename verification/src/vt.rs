//! The mathematical model of the escape-sequence interpreter: what each event
//! that the byte-level state machine reports does to the terminal.
use vstd::prelude::*;
use crate::color::{CellColor, Color};
use crate::grid::{CursorShape, MouseMode};
use crate::screen::Screen;
use crate::text;

verus! {

/// A character set that G0 or G1 can be designated to.
#[derive(Clone, Copy, Debug, PartialEq, Eq, Structural)]
pub enum Charset {
    Ascii,
    DecGraphics,
}

/// Which of the two character sets printed characters go through.
#[derive(Clone, Copy, Debug, PartialEq, Eq, Structural)]
pub enum ActiveCharset {
    G0,
    G1,
}

/// What the state machine found in the byte stream.
#[verifier::ext_equal]
pub enum Event {
    /// A printable character.
    Print(char),
    /// A C0 or C1 control.
    Execute(u8),
    /// A control sequence: `ESC [`, parameters, intermediates and a final byte.
    Csi { params: Seq<Seq<u16>>, intermediates: Seq<u8>, action: char },
    /// An escape sequence: `ESC`, intermediates and a final byte.
    Esc { intermediates: Seq<u8>, byte: u8 },
}

/// The terminal: its screen, the bytes it owes to the app, and its modes.
#[verifier::ext_equal]
pub struct Vt {
    pub screen: Screen,
    pub responses: Seq<u8>,
    pub g0: Charset,
    pub g1: Charset,
    pub active: ActiveCharset,
    pub bracketed_paste: bool,
}

/// The DEC Special Graphics character that stands for `c`.
pub open spec fn dec_graphics(c: char) -> char {
    match c {
        '_' => ' ',
        '`' => '\u{25c6}',
        'a' => '\u{2592}',
        'f' => '\u{b0}',
        'g' => '\u{b1}',
        'h' => '\u{2424}',
        'i' => '\u{240b}',
        'j' => '\u{2518}',
        'k' => '\u{2510}',
        'l' => '\u{250c}',
        'm' => '\u{2514}',
        'n' => '\u{253c}',
        'o' => '\u{23ba}',
        'p' => '\u{23bb}',
        'q' => '\u{2500}',
        'r' => '\u{23bc}',
        's' => '\u{23bd}',
        't' => '\u{251c}',
        'u' => '\u{2524}',
        'v' => '\u{2534}',
        'w' => '\u{252c}',
        'x' => '\u{2502}',
        'y' => '\u{2264}',
        'z' => '\u{2265}',
        '{' => '\u{3c0}',
        '|' => '\u{2260}',
        '}' => '\u{a3}',
        '~' => '\u{b7}',
        _ => c,
    }
}

/// The low eight bits of a parameter.
pub open spec fn low_byte(v: u16) -> u8 {
    (v % 256) as u8
}

/// The color that follows code 38 or 48, and how many codes it takes: `5;n` is
/// a palette entry, `2;r;g;b` a direct color, with or without a color space of
/// 0 in front of its components.
pub open spec fn extended_color(rest: Seq<u16>) -> Option<(CellColor, int)> {
    if rest.len() >= 2 && rest[0] == 5 {
        Some((CellColor::Palette(low_byte(rest[1])), 2))
    } else if rest.len() >= 5 && rest[0] == 2 && rest[1] == 0 {
        Some(
            (
                CellColor::Rgb(
                    Color::rgb(low_byte(rest[2]), low_byte(rest[3]), low_byte(rest[4])),
                ),
                4,
            ),
        )
    } else if rest.len() >= 4 && rest[0] == 2 {
        Some(
            (
                CellColor::Rgb(
                    Color::rgb(low_byte(rest[1]), low_byte(rest[2]), low_byte(rest[3])),
                ),
                3,
            ),
        )
    } else {
        None
    }
}

/// What one SGR code without further parameters does.
pub open spec fn sgr_code(s: Screen, code: u16) -> Screen {
    if code == 0 {
        s.reset_attrs()
    } else if code == 1 {
        Screen { bold: true, ..s }
    } else if code == 7 {
        Screen { reverse: true, ..s }
    } else if code == 22 {
        Screen { bold: false, ..s }
    } else if code == 27 {
        Screen { reverse: false, ..s }
    } else if 30 <= code <= 37 {
        Screen { fg: CellColor::Palette((code - 30) as u8), ..s }
    } else if code == 39 {
        Screen { fg: CellColor::Default, ..s }
    } else if 40 <= code <= 47 {
        Screen { bg: CellColor::Palette((code - 40) as u8), ..s }
    } else if code == 49 {
        Screen { bg: CellColor::Default, ..s }
    } else if 90 <= code <= 97 {
        Screen { fg: CellColor::Palette((code - 90 + 8) as u8), ..s }
    } else if 100 <= code <= 107 {
        Screen { bg: CellColor::Palette((code - 100 + 8) as u8), ..s }
    } else {
        s
    }
}

/// What a run of SGR codes does, one after the other. A 38 or 48 with a color
/// behind it takes that color's codes with it.
pub open spec fn sgr_codes(s: Screen, codes: Seq<u16>) -> Screen
    decreases codes.len(),
{
    if codes.len() == 0 {
        s
    } else {
        let rest = codes.skip(1);
        match extended_color(rest) {
            Some((color, used)) if codes[0] == 38 => sgr_codes(
                Screen { fg: color, ..s },
                rest.skip(used),
            ),
            Some((color, used)) if codes[0] == 48 => sgr_codes(
                Screen { bg: color, ..s },
                rest.skip(used),
            ),
            _ => sgr_codes(sgr_code(s, codes[0]), rest),
        }
    }
}

/// All parameters and subparameters in a row.
pub open spec fn flat(params: Seq<Seq<u16>>) -> Seq<u16>
    decreases params.len(),
{
    if params.len() == 0 {
        Seq::empty()
    } else {
        flat(params.drop_last()) + params.last()
    }
}

/// SGR. No codes at all is a reset.
pub open spec fn sgr(s: Screen, params: Seq<Seq<u16>>) -> Screen {
    if flat(params).len() == 0 {
        s.reset_attrs()
    } else {
        sgr_codes(s, flat(params))
    }
}

/// The first number of parameter `i`, if there is one.
pub open spec fn param(params: Seq<Seq<u16>>, i: int) -> Option<u16> {
    if 0 <= i < params.len() && params[i].len() > 0 {
        Some(params[i][0])
    } else {
        None
    }
}

/// A parameter where none and 0 mean `default`.
pub open spec fn or_default(v: Option<u16>, default: int) -> int {
    match v {
        Some(n) if n != 0 => n as int,
        _ => default,
    }
}

/// A parameter where none means 0.
pub open spec fn or_zero(v: Option<u16>) -> int {
    match v {
        Some(n) => n as int,
        None => 0,
    }
}

/// The report of the cursor's position, counted from 1.
pub open spec fn cursor_report(row: int, col: int) -> Seq<u8> {
    seq![0x1bu8, 0x5b] + text::decimal((row + 1) as nat) + seq![0x3bu8] + text::decimal(
        (col + 1) as nat,
    ) + seq![0x52u8]
}

/// The answer to a request for the device attributes: a VT100 with advanced
/// video.
pub open spec fn device_attributes() -> Seq<u8> {
    seq![0x1bu8, 0x5b, 0x3f, 0x31, 0x3b, 0x32, 0x63]
}

/// The shape that DECSCUSR asks for with `code`.
pub open spec fn cursor_shape(code: int) -> Option<CursorShape> {
    if 0 <= code <= 2 {
        Some(CursorShape::Block)
    } else if code == 3 || code == 4 {
        Some(CursorShape::Underline)
    } else if code == 5 || code == 6 {
        Some(CursorShape::Bar)
    } else {
        None
    }
}

/// A DEC private mode of the screen set or reset.
pub open spec fn screen_mode(s: Screen, code: u16, set: bool) -> Screen {
    if code == 1 {
        Screen { app_cursor_keys: set, ..s }
    } else if code == 25 {
        s.set_cursor_visible(set)
    } else if code == 47 || code == 1047 {
        if set {
            s.enter_alt_screen()
        } else {
            s.exit_alt_screen()
        }
    } else if code == 1000 || code == 1002 || code == 1003 {
        let mode = if !set {
            MouseMode::Off
        } else if code == 1000 {
            MouseMode::Normal
        } else if code == 1002 {
            MouseMode::ButtonMotion
        } else {
            MouseMode::AnyMotion
        };
        Screen { mouse_mode: mode, ..s }
    } else if code == 1006 {
        Screen { mouse_sgr: set, ..s }
    } else if code == 1048 {
        if set {
            s.save_cursor()
        } else {
            s.restore_cursor()
        }
    } else if code == 1049 {
        if set {
            s.save_cursor().enter_alt_screen()
        } else {
            s.exit_alt_screen().restore_cursor()
        }
    } else {
        s
    }
}

/// A control sequence that changes the screen, by its final byte and its first
/// two parameters.
pub open spec fn screen_csi(
    s: Screen,
    first: Option<u16>,
    second: Option<u16>,
    action: char,
) -> Screen {
    let n = or_default(first, 1);
    match action {
        'A' => s.cursor_up(n),
        'B' | 'e' => s.cursor_down(n),
        'C' | 'a' => s.cursor_forward(n),
        'D' => s.cursor_back(n),
        'E' => s.cursor_down(n).carriage_return(),
        'F' => s.cursor_up(n).carriage_return(),
        'G' | '`' => s.cursor_to_col(n - 1),
        'd' => s.cursor_to_row(n - 1),
        'H' | 'f' => s.moved(n - 1, or_default(second, 1) - 1),
        'J' => s.erase_in_display(or_zero(first)),
        'K' => s.erase_in_line(or_zero(first)),
        'P' => s.delete_chars(n),
        '@' => s.insert_chars(n),
        'X' => s.erase_chars(n),
        'L' => s.insert_lines(n),
        'M' => s.delete_lines(n),
        'S' => s.scroll_up(n),
        'T' => s.scroll_down(n),
        'r' => s.set_scroll_region(or_zero(first), or_zero(second)),
        's' => s.save_cursor(),
        'u' => s.restore_cursor(),
        _ => s,
    }
}

impl Vt {
    /// The character that `c` is printed as.
    pub open spec fn translated(self, c: char) -> char {
        let charset = match self.active {
            ActiveCharset::G0 => self.g0,
            ActiveCharset::G1 => self.g1,
        };
        match charset {
            Charset::Ascii => c,
            Charset::DecGraphics => dec_graphics(c),
        }
    }

    pub open spec fn print(self, c: char) -> Vt {
        Vt { screen: self.screen.put_char(self.translated(c)), ..self }
    }

    pub open spec fn execute(self, byte: u8) -> Vt {
        if byte == 0x08 {
            Vt { screen: self.screen.backspace(), ..self }
        } else if byte == 0x09 {
            Vt { screen: self.screen.tab(), ..self }
        } else if byte == 0x0a || byte == 0x0b || byte == 0x0c {
            Vt { screen: self.screen.linefeed(), ..self }
        } else if byte == 0x0d {
            Vt { screen: self.screen.carriage_return(), ..self }
        } else if byte == 0x0e {
            Vt { active: ActiveCharset::G1, ..self }
        } else if byte == 0x0f {
            Vt { active: ActiveCharset::G0, ..self }
        } else {
            self
        }
    }

    /// A DEC private mode set or reset.
    pub open spec fn private_mode(self, code: u16, set: bool) -> Vt {
        if code == 2004 {
            Vt { bracketed_paste: set, ..self }
        } else {
            Vt { screen: screen_mode(self.screen, code, set), ..self }
        }
    }

    /// The private modes of a sequence, one after the other.
    pub open spec fn private_modes(self, params: Seq<Seq<u16>>, set: bool) -> Vt
        decreases params.len(),
    {
        if params.len() == 0 {
            self
        } else {
            let before = self.private_modes(params.drop_last(), set);
            if params.last().len() == 0 {
                before
            } else {
                before.private_mode(params.last()[0], set)
            }
        }
    }

    /// A control sequence without intermediates: a report, or a change of the
    /// screen.
    pub open spec fn plain_csi(self, params: Seq<Seq<u16>>, action: char) -> Vt {
        let s = self.screen;
        if action == 'n' {
            if param(params, 0) == Some(6u16) {
                Vt {
                    responses: self.responses + cursor_report(s.cursor_row, s.cursor_col),
                    ..self
                }
            } else {
                self
            }
        } else if action == 'c' {
            Vt { responses: self.responses + device_attributes(), ..self }
        } else if action == 'm' {
            Vt { screen: sgr(s, params), ..self }
        } else {
            Vt { screen: screen_csi(s, param(params, 0), param(params, 1), action), ..self }
        }
    }

    /// A control sequence. Of those with intermediates only the DEC private
    /// modes (`?`) and the cursor shape (a space, then `q`) mean something.
    pub open spec fn csi(
        self,
        params: Seq<Seq<u16>>,
        intermediates: Seq<u8>,
        action: char,
    ) -> Vt {
        if intermediates.len() == 0 {
            self.plain_csi(params, action)
        } else if intermediates == seq![0x3fu8] {
            if action == 'h' || action == 'l' {
                self.private_modes(params, action == 'h')
            } else {
                self
            }
        } else if intermediates == seq![0x20u8] && action == 'q' {
            match cursor_shape(or_zero(param(params, 0))) {
                Some(shape) => Vt { screen: Screen { cursor_shape: shape, ..self.screen }, ..self },
                None => self,
            }
        } else {
            self
        }
    }

    /// An escape sequence: save (`7`) or restore (`8`) the cursor, or designate
    /// G0 (`(`) or G1 (`)`): `0` is DEC graphics, all else ASCII.
    pub open spec fn esc(self, intermediates: Seq<u8>, byte: u8) -> Vt {
        let charset = if byte == 0x30 {
            Charset::DecGraphics
        } else {
            Charset::Ascii
        };
        if intermediates.len() == 0 && byte == 0x37 {
            Vt { screen: self.screen.save_cursor(), ..self }
        } else if intermediates.len() == 0 && byte == 0x38 {
            Vt { screen: self.screen.restore_cursor(), ..self }
        } else if intermediates == seq![0x28u8] {
            Vt { g0: charset, ..self }
        } else if intermediates == seq![0x29u8] {
            Vt { g1: charset, ..self }
        } else {
            self
        }
    }

    /// What an event does.
    pub open spec fn perform(self, event: Event) -> Vt {
        match event {
            Event::Print(c) => self.print(c),
            Event::Execute(byte) => self.execute(byte),
            Event::Csi { params, intermediates, action } => self.csi(
                params,
                intermediates,
                action,
            ),
            Event::Esc { intermediates, byte } => self.esc(intermediates, byte),
        }
    }

    /// What events do, one after the other.
    pub open spec fn perform_all(self, events: Seq<Event>) -> Vt
        decreases events.len(),
    {
        if events.len() == 0 {
            self
        } else {
            self.perform_all(events.drop_last()).perform(events.last())
        }
    }
}

} // verus!
