//! Theme files in the format of Terminator's configuration.
use vstd::prelude::*;
use vstd::slice::{slice_subrange, slice_to_vec};
use crate::color;
use crate::color::Color;
use crate::text;
use crate::text::{
    chars_of,
    found,
    is_text,
    split_text,
    string_of,
    stripped,
    stripped_start,
    unspaced,
    Strip,
};
use crate::theme;
use crate::theme::{default_ansi, make_theme, Theme, ThemeModel};

verus! {

// ---- what a file means ----
/// The value of a hexadecimal digit.
pub open spec fn hex_digit(c: char) -> Option<int> {
    if '0' <= c <= '9' {
        Some(c as int - '0' as int)
    } else if 'a' <= c <= 'f' {
        Some(c as int - 'a' as int + 10)
    } else if 'A' <= c <= 'F' {
        Some(c as int - 'A' as int + 10)
    } else {
        None
    }
}

/// The value of two characters as a hexadecimal number: two digits, or a plus
/// sign and a digit.
pub open spec fn hex_pair(a: char, b: char) -> Option<int> {
    match (hex_digit(a), hex_digit(b)) {
        (Some(high), Some(low)) => Some(high * 16 + low),
        (None, Some(low)) if a == '+' => Some(low),
        _ => None,
    }
}

/// A color written as `#rrggbb`, in quotes or not. Any number of `#` will do.
pub open spec fn hex_color(s: Seq<char>) -> Option<Color> {
    let digits = text::strip_start(
        text::strip(text::strip(s, Strip::White), Strip::Char('"')),
        Strip::Char('#'),
    );
    if digits.len() != 6 {
        None
    } else {
        match (
            hex_pair(digits[0], digits[1]),
            hex_pair(digits[2], digits[3]),
            hex_pair(digits[4], digits[5]),
        ) {
            (Some(r), Some(g), Some(b)) => Some(Color::rgb(r as u8, g as u8, b as u8)),
            _ => None,
        }
    }
}

/// Sixteen colors with colons between them. Stray white space is tolerated.
pub open spec fn hex_palette(s: Seq<char>) -> Option<Seq<Color>> {
    let parts = text::split(text::strip(text::without_white(s), Strip::Char('"')), ':');
    if parts.len() == 16 && forall|i: int|
        0 <= i < 16 ==> (#[trigger] hex_color(parts[i])) is Some {
        Some(Seq::new(16, |i: int| hex_color(parts[i])->0))
    } else {
        None
    }
}

/// The name in a block's header, `[[name]]` or `[name]`.
pub open spec fn header_name(line: Seq<char>) -> Option<Seq<char>> {
    let n = line.len() as int;
    if n >= 4 && line[0] == '[' && line[1] == '[' && line[n - 2] == ']' && line[n - 1] == ']' {
        Some(text::strip(line.subrange(2, n - 2), Strip::White))
    } else if n >= 2 && line[0] == '[' && line[n - 1] == ']' {
        Some(text::strip(line.subrange(1, n - 1), Strip::White))
    } else {
        None
    }
}

/// The key and the value of a line `key = value`, the value without quotes.
pub open spec fn key_value(line: Seq<char>) -> Option<(Seq<char>, Seq<char>)> {
    let at = text::find(line, '=');
    if at < line.len() {
        Some(
            (
                text::strip(line.take(at), Strip::White),
                text::strip(
                    text::strip(line.skip(at + 1), Strip::White),
                    Strip::Char('"'),
                ),
            ),
        )
    } else {
        None
    }
}

/// A block as far as it was read.
#[verifier::ext_equal]
pub struct BlockModel {
    pub name: Seq<char>,
    pub fg: Option<Color>,
    pub bg: Option<Color>,
    pub cursor: Option<Color>,
    pub ansi: Option<Seq<Color>>,
    pub font_path: Option<Seq<char>>,
    pub font_size: Option<u32>,
}

impl BlockModel {
    pub open spec fn new(name: Seq<char>) -> BlockModel {
        BlockModel {
            name,
            fg: None,
            bg: None,
            cursor: None,
            ansi: None,
            font_path: None,
            font_size: None,
        }
    }

    /// One more key. Keys that no theme has are ignored; a value that is no
    /// color, or no palette, leaves none.
    pub open spec fn set(self, key: Seq<char>, value: Seq<char>) -> BlockModel {
        if key == "foreground_color"@ {
            BlockModel { fg: hex_color(value), ..self }
        } else if key == "background_color"@ {
            BlockModel { bg: hex_color(value), ..self }
        } else if key == "cursor_color"@ {
            BlockModel { cursor: hex_color(value), ..self }
        } else if key == "palette"@ {
            BlockModel { ansi: hex_palette(value), ..self }
        } else {
            self
        }
    }

    /// The block with this background, unless it has one.
    pub open spec fn with_background(self, bg: Color) -> BlockModel {
        match self.bg {
            Some(_) => self,
            None => BlockModel { bg: Some(bg), ..self },
        }
    }

    /// The theme, if there are a foreground and a background. The cursor is the
    /// foreground's color unless it has its own, and the palette is xterm's
    /// with the block's sixteen colors in front, if it has them.
    pub open spec fn theme(self) -> Option<ThemeModel> {
        match (self.fg, self.bg) {
            (Some(fg), Some(bg)) => Some(
                ThemeModel {
                    font_path: self.font_path,
                    font_size: self.font_size,
                    ..theme::theme_of(
                        self.name,
                        fg,
                        bg,
                        match self.cursor {
                            Some(cursor) => cursor,
                            None => fg,
                        },
                        match self.ansi {
                            Some(ansi) => ansi,
                            None => color::xterm_named_colors(),
                        },
                    )
                },
            ),
            _ => None,
        }
    }
}

/// The themes of the finished blocks, and the block that is being read.
#[verifier::ext_equal]
pub struct Reading {
    pub themes: Seq<ThemeModel>,
    pub block: Option<BlockModel>,
}

impl Reading {
    pub open spec fn new() -> Reading {
        Reading { themes: Seq::empty(), block: None }
    }

    /// The themes once the current block is finished. A block that is no
    /// complete theme is skipped.
    pub open spec fn finished(self) -> Seq<ThemeModel> {
        match self.block {
            Some(block) => match block.theme() {
                Some(theme) => self.themes.push(theme),
                None => self.themes,
            },
            None => self.themes,
        }
    }

    /// One more line. Blank lines and comments are skipped, and so is what
    /// stands before the first header.
    pub open spec fn line(self, raw: Seq<char>) -> Reading {
        let line = text::strip(raw, Strip::White);
        if line.len() == 0 || line[0] == '#' {
            self
        } else {
            match header_name(line) {
                Some(name) => Reading {
                    themes: self.finished(),
                    block: Some(BlockModel::new(name)),
                },
                None => match (self.block, key_value(line)) {
                    (Some(block), Some((key, value))) => Reading {
                        block: Some(block.set(key, value)),
                        ..self
                    },
                    _ => self,
                },
            }
        }
    }
}

/// What is read from these lines.
pub open spec fn read_lines(lines: Seq<Seq<char>>) -> Reading
    decreases lines.len(),
{
    if lines.len() == 0 {
        Reading::new()
    } else {
        read_lines(lines.drop_last()).line(lines.last())
    }
}

/// The themes of a file.
pub open spec fn file_themes(s: Seq<char>) -> Seq<ThemeModel> {
    read_lines(text::split(s, '\n')).finished()
}

// ---- reading a file ----
fn hex_value(c: char) -> (v: Option<u8>)
    ensures
        match v {
            Some(d) => hex_digit(c) == Some(d as int) && d < 16,
            None => hex_digit(c) is None,
        },
{
    if '0' <= c && c <= '9' {
        Some((c as u32 - '0' as u32) as u8)
    } else if 'a' <= c && c <= 'f' {
        Some((c as u32 - 'a' as u32 + 10) as u8)
    } else if 'A' <= c && c <= 'F' {
        Some((c as u32 - 'A' as u32 + 10) as u8)
    } else {
        None
    }
}

fn parse_pair(a: char, b: char) -> (v: Option<u8>)
    ensures
        match v {
            Some(n) => hex_pair(a, b) == Some(n as int),
            None => hex_pair(a, b) is None,
        },
{
    match (hex_value(a), hex_value(b)) {
        (Some(high), Some(low)) => Some(high * 16 + low),
        (None, Some(low)) => if a == '+' {
            Some(low)
        } else {
            None
        },
        _ => None,
    }
}

fn parse_hex(s: &[char]) -> (color: Option<Color>)
    ensures
        color == hex_color(s@),
{
    let digits = stripped_start(
        stripped(stripped(s, Strip::White), Strip::Char('"')),
        Strip::Char('#'),
    );
    if digits.len() != 6 {
        return None;
    }
    let r = parse_pair(digits[0], digits[1]);
    let g = parse_pair(digits[2], digits[3]);
    let b = parse_pair(digits[4], digits[5]);
    match (r, g, b) {
        (Some(r), Some(g), Some(b)) => Some(Color::rgb(r, g, b)),
        _ => None,
    }
}

fn parse_palette_16(s: &[char]) -> (ansi: Option<[Color; 16]>)
    ensures
        match ansi {
            Some(colors) => hex_palette(s@) == Some(colors@),
            None => hex_palette(s@) is None,
        },
{
    let cleaned = unspaced(s);
    let parts = split_text(stripped(cleaned.as_slice(), Strip::Char('"')), ':');
    let ghost all = text::parts_of(parts@);
    if parts.len() != 16 {
        return None;
    }
    let mut colors: [Color; 16] = [Color::rgb(0, 0, 0);16];
    let mut i: usize = 0;
    while i < 16
        invariant
            i <= 16,
            colors@.len() == 16,
            all == text::parts_of(parts@),
            all.len() == 16,
            all == text::split(
                text::strip(text::without_white(s@), Strip::Char('"')),
                ':',
            ),
            forall|k: int|
                0 <= k < i ==> (#[trigger] hex_color(all[k])) is Some && colors@[k] == hex_color(
                    all[k],
                )->0,
        decreases 16 - i,
    {
        let color = parse_hex(parts[i].as_slice());
        assert(all[i as int] == parts@[i as int]@);
        match color {
            Some(c) => {
                colors[i] = c;
            },
            None => {
                return None;
            },
        }
        i = i + 1;
    }
    assert(colors@ =~= hex_palette(s@)->0);
    Some(colors)
}

fn parse_block_header(line: &[char]) -> (name: Option<Vec<char>>)
    ensures
        match name {
            Some(name) => header_name(line@) == Some(name@),
            None => header_name(line@) is None,
        },
{
    let n: usize = line.len();
    if n >= 4 && line[0] == '[' && line[1] == '[' && line[n - 2] == ']' && line[n - 1] == ']' {
        Some(slice_to_vec(stripped(slice_subrange(line, 2, n - 2), Strip::White)))
    } else if n >= 2 && line[0] == '[' && line[n - 1] == ']' {
        Some(slice_to_vec(stripped(slice_subrange(line, 1, n - 1), Strip::White)))
    } else {
        None
    }
}

fn parse_kv<'a>(line: &'a [char]) -> (pair: Option<(&'a [char], &'a [char])>)
    ensures
        match pair {
            Some((key, value)) => key_value(line@) == Some((key@, value@)),
            None => key_value(line@) is None,
        },
{
    let at: usize = found(line, '=');
    if at < line.len() {
        let key = slice_subrange(line, 0, at);
        let value = slice_subrange(line, at + 1, line.len());
        assert(key@ =~= line@.take(at as int));
        assert(value@ =~= line@.skip(at + 1));
        Some(
            (
                stripped(key, Strip::White),
                stripped(stripped(value, Strip::White), Strip::Char('"')),
            ),
        )
    } else {
        None
    }
}

/// A block of a theme file: a named theme in the making.
pub struct TerminatorBlock {
    name: String,
    fg: Option<Color>,
    bg: Option<Color>,
    cursor: Option<Color>,
    palette_16: Option<[Color; 16]>,
    font_path: Option<String>,
    font_size: Option<u32>,
}

impl View for TerminatorBlock {
    type V = BlockModel;

    closed spec fn view(&self) -> BlockModel {
        BlockModel {
            name: self.name@,
            fg: self.fg,
            bg: self.bg,
            cursor: self.cursor,
            ansi: match self.palette_16 {
                Some(colors) => Some(colors@),
                None => None,
            },
            font_path: match self.font_path {
                Some(path) => Some(path@),
                None => None,
            },
            font_size: self.font_size,
        }
    }
}

impl TerminatorBlock {
    /// A block without any keys yet.
    pub fn new(name: String) -> (block: TerminatorBlock)
        ensures
            block@ == BlockModel::new(name@),
    {
        TerminatorBlock {
            name,
            fg: None,
            bg: None,
            cursor: None,
            palette_16: None,
            font_path: None,
            font_size: None,
        }
    }

    /// One more key.
    fn set(&mut self, key: &[char], value: &[char])
        ensures
            final(self)@ == old(self)@.set(key@, value@),
    {
        if is_text(key, "foreground_color") {
            self.fg = parse_hex(value);
        } else if is_text(key, "background_color") {
            self.bg = parse_hex(value);
        } else if is_text(key, "cursor_color") {
            self.cursor = parse_hex(value);
        } else if is_text(key, "palette") {
            self.palette_16 = parse_palette_16(value);
        }
    }

    /// One more key, as other formats hand it over.
    pub fn set_key(&mut self, key: &str, value: &str)
        ensures
            final(self)@ == old(self)@.set(key@, value@),
    {
        let key = chars_of(key);
        let value = chars_of(value);
        self.set(key.as_slice(), value.as_slice());
    }

    /// The font file that goes with the theme.
    pub fn set_font_path(&mut self, path: String)
        ensures
            final(self)@ == (BlockModel { font_path: Some(path@), ..old(self)@ }),
    {
        self.font_path = Some(path);
    }

    /// The font size that goes with the theme.
    pub fn set_font_size(&mut self, size: u32)
        ensures
            final(self)@ == (BlockModel { font_size: Some(size), ..old(self)@ }),
    {
        self.font_size = Some(size);
    }

    /// The background, unless the block has one.
    pub fn default_background(&mut self, bg: Color)
        ensures
            final(self)@ == old(self)@.with_background(bg),
    {
        if self.bg.is_none() {
            self.bg = Some(bg);
        }
    }

    /// The theme, if the block is a complete one.
    pub fn into_theme(self) -> (theme: Option<Theme>)
        ensures
            match theme {
                Some(theme) => self@.theme() == Some(theme@),
                None => self@.theme() is None,
            },
    {
        let fg = match self.fg {
            Some(fg) => fg,
            None => {
                return None;
            },
        };
        let bg = match self.bg {
            Some(bg) => bg,
            None => {
                return None;
            },
        };
        let cursor = match self.cursor {
            Some(cursor) => cursor,
            None => fg,
        };
        let ansi = match self.palette_16 {
            Some(colors) => colors,
            None => default_ansi(),
        };
        let mut theme = make_theme(self.name, fg, bg, cursor, &ansi);
        theme.font_path = self.font_path;
        theme.font_size = self.font_size;
        Some(theme)
    }
}

/// Finish a block: its theme, if it is a complete one, joins the others.
fn finish(themes: &mut Vec<Theme>, block: Option<TerminatorBlock>)
    ensures
        theme::models_of(final(themes)@) == (Reading {
            themes: theme::models_of(old(themes)@),
            block: match block {
                Some(b) => Some(b@),
                None => None,
            },
        }).finished(),
{
    let ghost before = theme::models_of(themes@);
    if let Some(b) = block {
        if let Some(theme) = b.into_theme() {
            let ghost model = theme@;
            themes.push(theme);
            assert(theme::models_of(themes@) =~= before.push(model));
        }
    }
}

/// Parse a Terminator-style theme file. Each `[[name]]` block becomes one
/// [`Theme`]; `foreground_color`, `background_color`, `cursor_color` and
/// `palette` (the 16-color `:`-separated list) are honored. Other keys are
/// ignored.
///
/// A block without at least `foreground_color` and `background_color` is
/// skipped silently: it is not a complete theme.
pub fn parse_terminator_themes(text: &str) -> (themes: Vec<Theme>)
    ensures
        theme::models_of(themes@) == file_themes(text@),
{
    let chars = chars_of(text);
    let lines = split_text(chars.as_slice(), '\n');
    let ghost all = text::parts_of(lines@);
    let mut themes: Vec<Theme> = Vec::new();
    let mut current: Option<TerminatorBlock> = None;
    let mut i: usize = 0;
    assert(all.take(0) =~= Seq::<Seq<char>>::empty());
    assert(theme::models_of(themes@) =~= Seq::<ThemeModel>::empty());
    while i < lines.len()
        invariant
            i <= lines@.len(),
            all == text::parts_of(lines@),
            read_lines(all.take(i as int)) == (Reading {
                themes: theme::models_of(themes@),
                block: match current {
                    Some(b) => Some(b@),
                    None => None,
                },
            }),
        decreases lines@.len() - i,
    {
        proof {
            assert(all.take(i + 1).drop_last() =~= all.take(i as int));
            assert(all[i as int] == lines@[i as int]@);
        }
        let line = stripped(lines[i].as_slice(), Strip::White);
        if line.len() != 0 && line[0] != '#' {
            match parse_block_header(line) {
                Some(name) => {
                    finish(&mut themes, current);
                    current = Some(TerminatorBlock::new(string_of(name.as_slice())));
                },
                None => {
                    if let Some((key, value)) = parse_kv(line) {
                        if let Some(mut b) = current {
                            b.set(key, value);
                            current = Some(b);
                        } else {
                            current = None;
                        }
                    }
                },
            }
        }
        i = i + 1;
    }
    assert(all.take(i as int) =~= all);
    finish(&mut themes, current);
    themes
}

/// Blocks do not depend on each other: from a header on, the rest of a file
/// adds the themes that it would give on its own.
pub proof fn law_blocks_are_independent(
    before: Seq<Seq<char>>,
    header: Seq<char>,
    rest: Seq<Seq<char>>,
)
    requires
        ({
            let line = text::strip(header, Strip::White);
            line.len() > 0 && line[0] != '#' && header_name(line) is Some
        }),
    ensures
        read_lines(before + seq![header] + rest).finished() == read_lines(before).finished()
            + read_lines(seq![header] + rest).finished(),
{
    lemma_reading_from_header(before, header, rest);
    let whole = read_lines(before + seq![header] + rest);
    let alone = read_lines(seq![header] + rest);
    let earlier = read_lines(before).finished();
    assert(whole.finished() =~= earlier + alone.finished());
}

proof fn lemma_reading_from_header(
    before: Seq<Seq<char>>,
    header: Seq<char>,
    rest: Seq<Seq<char>>,
)
    requires
        ({
            let line = text::strip(header, Strip::White);
            line.len() > 0 && line[0] != '#' && header_name(line) is Some
        }),
    ensures
        ({
            let whole = read_lines(before + seq![header] + rest);
            let alone = read_lines(seq![header] + rest);
            &&& whole.block == alone.block
            &&& whole.themes == read_lines(before).finished() + alone.themes
        }),
    decreases rest.len(),
{
    let whole = before + seq![header] + rest;
    let alone = seq![header] + rest;
    let earlier = read_lines(before).finished();
    if rest.len() == 0 {
        assert(whole.drop_last() =~= before);
        assert(alone.drop_last() =~= Seq::<Seq<char>>::empty());
        assert(read_lines(whole).themes =~= earlier + read_lines(alone).themes);
    } else {
        lemma_reading_from_header(before, header, rest.drop_last());
        assert(whole.drop_last() =~= before + seq![header] + rest.drop_last());
        assert(alone.drop_last() =~= seq![header] + rest.drop_last());
        let w = read_lines(whole.drop_last());
        let a = read_lines(alone.drop_last());
        assert(w.finished() =~= earlier + a.finished());
        assert(read_lines(whole).themes =~= earlier + read_lines(alone).themes);
    }
}

/// These characters are equal but for the case of ASCII letters.
pub open spec fn same_letter(c: char, lower: char) -> bool {
    c == lower || ('A' <= c <= 'Z' && c as u32 + 32 == lower as u32)
}

/// Whether a file with this extension in the theme directory holds themes: it
/// has to be `toml`, in any case.
pub fn is_theme_file(extension: &str) -> (yes: bool)
    ensures
        yes == (extension@.len() == 4 && same_letter(extension@[0], 't') && same_letter(
            extension@[1],
            'o',
        ) && same_letter(extension@[2], 'm') && same_letter(extension@[3], 'l')),
{
    let chars = chars_of(extension);
    chars.len() == 4 && (chars[0] == 't' || chars[0] == 'T') && (chars[1] == 'o' || chars[1]
        == 'O') && (chars[2] == 'm' || chars[2] == 'M') && (chars[3] == 'l' || chars[3] == 'L')
}

// ---- laws ----
/// The hexadecimal digit of a value.
pub open spec fn digit_char(v: int, upper: bool) -> char {
    if v < 10 {
        (('0' as int) + v) as char
    } else if upper {
        (('A' as int) + v - 10) as char
    } else {
        (('a' as int) + v - 10) as char
    }
}

/// A hexadecimal digit is worth what it says, in either case, and nothing else
/// is a digit.
pub proof fn law_hex_digits(v: int, upper: bool, c: char)
    requires
        0 <= v < 16,
    ensures
        hex_digit(digit_char(v, upper)) == Some(v),
        hex_digit(c) matches Some(d) ==> 0 <= d < 16 && (c == digit_char(d, true) || c
            == digit_char(d, false)),
{
}

/// A color as it is written, with a hash sign and two digits for each of red,
/// green and blue.
pub open spec fn written_color(c: Color, upper: bool) -> Seq<char> {
    seq![
        '#',
        digit_char(c.r as int / 16, upper),
        digit_char(c.r as int % 16, upper),
        digit_char(c.g as int / 16, upper),
        digit_char(c.g as int % 16, upper),
        digit_char(c.b as int / 16, upper),
        digit_char(c.b as int % 16, upper),
    ]
}

/// Every opaque color can be written and is read back, in upper or lower case.
pub proof fn law_colors_read_back(c: Color, upper: bool)
    requires
        c.a == 255,
    ensures
        hex_color(written_color(c, upper)) == Some(c),
{
    let s = written_color(c, upper);
    let digits = s.skip(1);
    law_hex_digits(c.r as int / 16, upper, ' ');
    law_hex_digits(c.r as int % 16, upper, ' ');
    law_hex_digits(c.g as int / 16, upper, ' ');
    law_hex_digits(c.g as int % 16, upper, ' ');
    law_hex_digits(c.b as int / 16, upper, ' ');
    law_hex_digits(c.b as int % 16, upper, ' ');
    assert(s[0] == '#' && s.last() == digit_char(c.b as int % 16, upper));
    assert(!text::is_white(s[0]) && !text::is_white(s.last()) && s.last() != '"');
    assert(text::strip(s, Strip::White) == s);
    assert(text::strip(s, Strip::Char('"')) == s);
    assert(digits[0] != '#');
    assert(text::strip_start(digits, Strip::Char('#')) == digits);
    assert(text::strip_start(s, Strip::Char('#')) == digits);
}

/// What is read as a color has six digits behind its hash signs, and is opaque.
pub proof fn law_only_six_digits_are_a_color(s: Seq<char>)
    ensures
        hex_color(s) matches Some(c) ==> c.a == 255,
        ({
            let digits = text::strip_start(
                text::strip(text::strip(s, Strip::White), Strip::Char('"')),
                Strip::Char('#'),
            );
            &&& digits.len() != 6 ==> hex_color(s) is None
            &&& digits.len() == 6 && (hex_digit(digits[1]) is None || hex_digit(digits[3]) is None
                || hex_digit(digits[5]) is None) ==> hex_color(s) is None
        }),
{
}

/// A palette is its sixteen parts, each read as a color, in order.
pub proof fn law_palette_is_its_parts(s: Seq<char>, i: int)
    requires
        hex_palette(s) is Some,
        0 <= i < 16,
    ensures
        ({
            let parts = text::split(
                text::strip(text::without_white(s), Strip::Char('"')),
                ':',
            );
            &&& parts.len() == 16
            &&& hex_palette(s)->0.len() == 16
            &&& Some(hex_palette(s)->0[i]) == hex_color(parts[i])
        }),
{
}

/// The name between single or double brackets is the name of the block, if it
/// has no white space at its ends.
pub proof fn law_headers(name: Seq<char>)
    requires
        name.len() > 0,
        !text::is_white(name[0]),
        !text::is_white(name.last()),
        name[0] != '[',
        name.last() != ']',
    ensures
        header_name(seq!['['] + name + seq![']']) == Some(name),
        header_name(seq!['[', '['] + name + seq![']', ']']) == Some(name),
{
    let one = seq!['['] + name + seq![']'];
    let two = seq!['[', '['] + name + seq![']', ']'];
    assert(one.subrange(1, one.len() - 1) =~= name);
    assert(two.subrange(2, two.len() - 2) =~= name);
    assert(one[1] == name[0]);
    assert(text::strip(name, Strip::White) == name);
}

/// A line of a key, an equals sign and a value is these two, if they have no
/// white space or quotes at their ends and the key has no equals sign in it.
pub proof fn law_lines_of_key_and_value(key: Seq<char>, value: Seq<char>)
    requires
        key.len() > 0,
        value.len() > 0,
        !text::is_white(key[0]) && !text::is_white(key.last()),
        !text::is_white(value[0]) && !text::is_white(value.last()),
        value[0] != '"' && value.last() != '"',
        !key.contains('='),
    ensures
        key_value(key + seq!['='] + value) == Some((key, value)),
{
    let line = key + seq!['='] + value;
    let at = text::find(line, '=');
    text::law_first_is_found(line, '=');
    assert(line[key.len() as int] == '=');
    if at < key.len() {
        assert(key[at] == line[at]);
        assert(key.contains('='));
    }
    assert(at == key.len());
    assert(line.take(at) =~= key);
    assert(line.skip(at + 1) =~= value);
    assert(text::strip(key, Strip::White) == key);
    assert(text::strip(value, Strip::White) == value);
    assert(text::strip(value, Strip::Char('"')) == value);
}

/// Each key sets its own part of a theme and no other; other keys set nothing.
pub proof fn law_keys_set_their_own_part(block: BlockModel, key: Seq<char>, value: Seq<char>)
    ensures
        block.set("foreground_color"@, value) == (BlockModel { fg: hex_color(value), ..block }),
        block.set("background_color"@, value) == (BlockModel { bg: hex_color(value), ..block }),
        block.set("cursor_color"@, value) == (BlockModel { cursor: hex_color(value), ..block }),
        block.set("palette"@, value) == (BlockModel { ansi: hex_palette(value), ..block }),
        key != "foreground_color"@ && key != "background_color"@ && key != "cursor_color"@ && key
            != "palette"@ ==> block.set(key, value) == block,
{
    reveal_strlit("foreground_color");
    reveal_strlit("background_color");
    reveal_strlit("cursor_color");
    reveal_strlit("palette");
    assert("foreground_color"@[0] == 'f' && "background_color"@[0] == 'b');
    assert("cursor_color"@[0] == 'c' && "palette"@[0] == 'p');
}

/// A block is a theme when it has a foreground and a background: in these colors,
/// with its own cursor or one in the foreground's color, and its own sixteen
/// colors or xterm's.
pub proof fn law_complete_blocks_are_themes(block: BlockModel, i: int)
    requires
        0 <= i < 256,
        block.ansi matches Some(ansi) ==> ansi.len() == 16,
    ensures
        block.theme() is Some <==> block.fg is Some && block.bg is Some,
        block.theme() matches Some(t) ==> {
            &&& t.name == block.name
            &&& t.fg == block.fg->0 && t.bg == block.bg->0
            &&& t.cursor == if block.cursor is Some { block.cursor->0 } else { t.fg }
            &&& t.palette.len() == 256
            &&& i < 16 && block.ansi is Some ==> t.palette[i] == block.ansi->0[i]
            &&& i >= 16 || block.ansi is None ==> t.palette[i] == color::xterm_color(i)
            &&& t.font_path == block.font_path && t.font_size == block.font_size
        },
{
}

/// Two characters are a number where the second is a digit and the first is one
/// too, which then counts sixteenfold, or a plus sign.
pub proof fn law_pairs_of_digits(a: char, b: char)
    ensures
        hex_pair(a, b) is Some <==> hex_digit(b) is Some && (hex_digit(a) is Some || a == '+'),
        hex_pair('+', b) == hex_digit(b),
        hex_pair('0', b) == hex_digit(b),
        hex_digit(a) is Some && hex_digit(b) is Some ==> hex_pair(a, b)->0 == 16 * hex_digit(a)->0
            + hex_digit(b)->0,
{
}

/// Lines that are blank, that begin with a number sign, or that are neither a
/// header nor a key and a value are passed over; so are keys before the first
/// header.
pub proof fn law_lines_that_are_passed_over(r: Reading, raw: Seq<char>)
    ensures
        ({
            let line = text::strip(raw, Strip::White);
            &&& line.len() == 0 ==> r.line(raw) == r
            &&& line.len() > 0 && line[0] == '#' ==> r.line(raw) == r
            &&& !line.contains('=') && header_name(line) is None ==> r.line(raw) == r
            &&& r.block is None && header_name(line) is None ==> r.line(raw) == r
        }),
{
    let line = text::strip(raw, Strip::White);
    text::law_first_is_found(line, '=');
    if text::find(line, '=') < line.len() {
        assert(line[text::find(line, '=')] == '=');
    }
}

/// A header begins a block without any keys, and the block before it is finished:
/// if it is a complete theme it comes after the themes there were.
pub proof fn law_header_begins_a_block(r: Reading, raw: Seq<char>)
    requires
        text::strip(raw, Strip::White).len() > 0,
        text::strip(raw, Strip::White)[0] == '[',
        header_name(text::strip(raw, Strip::White)) is Some,
    ensures
        ({
            let after = r.line(raw);
            let n = r.themes.len() as int;
            &&& after.block is Some
            &&& after.block->0.name == header_name(text::strip(raw, Strip::White))->0
            &&& after.block->0.fg is None && after.block->0.bg is None
            &&& after.block->0.cursor is None && after.block->0.ansi is None
            &&& after.themes.take(n) == r.themes
            &&& after.themes.len() == n + 1 <==> r.block is Some && r.block->0.theme() is Some
            &&& after.themes.len() == n || after.themes.len() == n + 1
            &&& after.themes.len() == n + 1 ==> Some(after.themes[n]) == r.block->0.theme()
        }),
{
    assert(r.line(raw).themes.take(r.themes.len() as int) =~= r.themes);
}

/// A key and a value go into the block that is being read.
pub proof fn law_keys_go_into_the_block(r: Reading, raw: Seq<char>)
    requires
        r.block is Some,
        text::strip(raw, Strip::White).len() > 0,
        text::strip(raw, Strip::White)[0] != '#',
        header_name(text::strip(raw, Strip::White)) is None,
        key_value(text::strip(raw, Strip::White)) is Some,
    ensures
        ({
            let (key, value) = key_value(text::strip(raw, Strip::White))->0;
            r.line(raw) == (Reading {
                themes: r.themes,
                block: Some(r.block->0.set(key, value)),
            })
        }),
{
}

/// A file is read line by line, and its end finishes the last block.
pub proof fn law_files_are_read_line_by_line(s: Seq<char>, line: Seq<char>)
    requires
        !line.contains('\n'),
    ensures
        ({
            let before = read_lines(text::split(s, '\n'));
            let after = read_lines(text::split(s + seq!['\n'] + line, '\n'));
            &&& after == before.line(line)
            &&& file_themes(s + seq!['\n'] + line) == after.finished()
            &&& after.block is None ==> after.finished() == after.themes
        }),
{
    lemma_split_of_one_more_line(s, line);
    let more = text::split(s + seq!['\n'] + line, '\n');
    assert(more.drop_last() =~= text::split(s, '\n'));
}

proof fn lemma_split_of_one_more_line(s: Seq<char>, line: Seq<char>)
    requires
        !line.contains('\n'),
    ensures
        text::split(s + seq!['\n'] + line, '\n') == text::split(s, '\n').push(line),
    decreases s.len(),
{
    let all = s + seq!['\n'] + line;
    text::law_first_is_found(all, '\n');
    text::law_first_is_found(s, '\n');
    text::law_first_is_found(line, '\n');
    let at = text::find(s, '\n');
    let first = text::find(all, '\n');
    assert(all[s.len() as int] == '\n');
    assert(text::find(line, '\n') == line.len());
    if at < s.len() {
        assert(all[at] == '\n');
        assert(first == at) by {
            if first < at {
                assert(all[first] == s[first]);
            }
        }
        let rest = s.skip(at + 1);
        lemma_split_of_one_more_line(rest, line);
        assert(all.take(at) =~= s.take(at));
        assert(all.skip(at + 1) =~= rest + seq!['\n'] + line);
        assert(seq![s.take(at)] + text::split(rest, '\n').push(line) =~= (seq![s.take(at)]
            + text::split(rest, '\n')).push(line));
    } else {
        assert(first == s.len()) by {
            if first < s.len() {
                assert(all[first] == s[first]);
            }
        }
        assert(all.take(first) =~= s);
        assert(all.skip(first + 1) =~= line);
        assert(text::split(line, '\n') == seq![line]);
        assert(text::split(s, '\n') == seq![s]);
        assert(seq![s] + seq![line] =~= seq![s].push(line));
    }
}

} // verus!
