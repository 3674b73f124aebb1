//! Color themes.
use vstd::prelude::*;
use crate::color;
pub use crate::color::{CellColor, Color};

verus! {

/// A complete color theme: what the user picks in Settings. Every cell's
/// [`CellColor`] is resolved through one of these on each frame.
#[derive(Debug)]
pub struct Theme {
    pub name: String,
    pub fg: Color,
    pub bg: Color,
    pub cursor: Color,
    /// Full 256-entry palette. Indices 0-15 are the ANSI 16; 16-231 are the
    /// 6x6x6 cube; 232-255 are the gray ramp.
    pub palette: [Color; 256],
    /// The font that goes with the theme, if it names one.
    pub font_path: Option<String>,
    /// The font size that goes with the theme, if it names one.
    pub font_size: Option<u32>,
}

/// What a [`Theme`] denotes.
#[verifier::ext_equal]
pub struct ThemeModel {
    pub name: Seq<char>,
    pub fg: Color,
    pub bg: Color,
    pub cursor: Color,
    pub palette: Seq<Color>,
    pub font_path: Option<Seq<char>>,
    pub font_size: Option<u32>,
}

impl View for Theme {
    type V = ThemeModel;

    open spec fn view(&self) -> ThemeModel {
        ThemeModel {
            name: self.name@,
            fg: self.fg,
            bg: self.bg,
            cursor: self.cursor,
            palette: self.palette@,
            font_path: match self.font_path {
                Some(path) => Some(path@),
                None => None,
            },
            font_size: self.font_size,
        }
    }
}

/// The themes as the model has them.
pub open spec fn models_of(themes: Seq<Theme>) -> Seq<ThemeModel> {
    themes.map_values(|t: Theme| t@)
}

/// A palette that starts with these sixteen colors and goes on as xterm's does.
pub open spec fn palette_from(ansi: Seq<Color>) -> Seq<Color> {
    Seq::new(
        256,
        |i: int|
            if i < 16 {
                ansi[i]
            } else {
                color::xterm_color(i)
            },
    )
}

/// A theme of these colors, without a font of its own.
pub open spec fn theme_of(
    name: Seq<char>,
    fg: Color,
    bg: Color,
    cursor: Color,
    ansi: Seq<Color>,
) -> ThemeModel {
    ThemeModel {
        name,
        fg,
        bg,
        cursor,
        palette: palette_from(ansi),
        font_path: None,
        font_size: None,
    }
}

impl ThemeModel {
    /// The color that a foreground reference stands for.
    pub open spec fn resolve_fg(self, c: CellColor) -> Color {
        match c {
            CellColor::Default => self.fg,
            CellColor::Palette(i) => self.palette[i as int],
            CellColor::Rgb(c) => c,
        }
    }

    /// The color that a background reference stands for.
    pub open spec fn resolve_bg(self, c: CellColor) -> Color {
        match c {
            CellColor::Default => self.bg,
            CellColor::Palette(i) => self.palette[i as int],
            CellColor::Rgb(c) => c,
        }
    }

    /// The luma of the background, from 0 to 255000, is below the middle.
    pub open spec fn is_dark(self) -> bool {
        299 * self.bg.r + 587 * self.bg.g + 114 * self.bg.b < 128_000
    }
}

/// The sixteen named colors of Cobalt Neon.
pub open spec fn cobalt_neon_ansi() -> Seq<Color> {
    seq![
        Color::rgb(0x0a, 0x0f, 0x1e),
        Color::rgb(0xff, 0x2d, 0x5e),
        Color::rgb(0x00, 0xff, 0x88),
        Color::rgb(0xff, 0xe6, 0x00),
        Color::rgb(0x3d, 0x9a, 0xff),
        Color::rgb(0xff, 0x00, 0xcc),
        Color::rgb(0x00, 0xe5, 0xff),
        Color::rgb(0xc8, 0xd8, 0xf0),
        Color::rgb(0x2a, 0x3a, 0x5a),
        Color::rgb(0xff, 0x50, 0x80),
        Color::rgb(0x39, 0xff, 0x95),
        Color::rgb(0xff, 0xee, 0x44),
        Color::rgb(0x66, 0xb2, 0xff),
        Color::rgb(0xff, 0x44, 0xdd),
        Color::rgb(0x44, 0xee, 0xff),
        Color::rgb(0xff, 0xff, 0xff),
    ]
}

/// The sixteen named colors of Skyterm Dracula.
pub open spec fn skyterm_dracula_ansi() -> Seq<Color> {
    seq![
        Color::rgb(0x21, 0x22, 0x2c),
        Color::rgb(0xff, 0x55, 0x55),
        Color::rgb(0x50, 0xfa, 0x7b),
        Color::rgb(0xf1, 0xfa, 0x8c),
        Color::rgb(0xbd, 0x93, 0xf9),
        Color::rgb(0xff, 0x79, 0xc6),
        Color::rgb(0x8b, 0xe9, 0xfd),
        Color::rgb(0xf8, 0xf8, 0xf2),
        Color::rgb(0x62, 0x72, 0xa4),
        Color::rgb(0xff, 0x6e, 0x6e),
        Color::rgb(0x69, 0xff, 0x94),
        Color::rgb(0xff, 0xff, 0xa5),
        Color::rgb(0xd6, 0xac, 0xff),
        Color::rgb(0xff, 0x92, 0xdf),
        Color::rgb(0xa4, 0xff, 0xff),
        Color::rgb(0xff, 0xff, 0xff),
    ]
}

/// The sixteen named colors of Skyterm Hunter.
pub open spec fn skyterm_hunter_ansi() -> Seq<Color> {
    seq![
        Color::rgb(0x0d, 0x1a, 0x10),
        Color::rgb(0xcc, 0x44, 0x44),
        Color::rgb(0x5a, 0xb4, 0x5a),
        Color::rgb(0xc8, 0xa0, 0x30),
        Color::rgb(0x44, 0x88, 0xbb),
        Color::rgb(0x99, 0x66, 0xaa),
        Color::rgb(0x44, 0xaa, 0x88),
        Color::rgb(0xa8, 0xc8, 0xa8),
        Color::rgb(0x3a, 0x5a, 0x3a),
        Color::rgb(0xe0, 0x55, 0x55),
        Color::rgb(0x77, 0xcc, 0x77),
        Color::rgb(0xdd, 0xb8, 0x40),
        Color::rgb(0x66, 0xaa, 0xdd),
        Color::rgb(0xbb, 0x88, 0xcc),
        Color::rgb(0x55, 0xcc, 0x99),
        Color::rgb(0xd8, 0xea, 0xd8),
    ]
}

/// The sixteen named colors of Skyterm Purple.
pub open spec fn skyterm_purple_ansi() -> Seq<Color> {
    seq![
        Color::rgb(0x15, 0x08, 0x26),
        Color::rgb(0xff, 0x33, 0x66),
        Color::rgb(0x5a, 0xf7, 0x8e),
        Color::rgb(0xf3, 0xf9, 0x9d),
        Color::rgb(0x57, 0xc7, 0xff),
        Color::rgb(0xff, 0x6a, 0xc1),
        Color::rgb(0x9a, 0xed, 0xfe),
        Color::rgb(0xd1, 0xc4, 0xe9),
        Color::rgb(0x4a, 0x35, 0x60),
        Color::rgb(0xff, 0x6b, 0x6b),
        Color::rgb(0x69, 0xff, 0x94),
        Color::rgb(0xff, 0xff, 0xa5),
        Color::rgb(0xa2, 0x9b, 0xfe),
        Color::rgb(0xfd, 0x79, 0xa8),
        Color::rgb(0x74, 0xb9, 0xff),
        Color::rgb(0xff, 0xff, 0xff),
    ]
}

/// The sixteen named colors of Solarized.
pub open spec fn solarized_ansi() -> Seq<Color> {
    seq![
        Color::rgb(0x07, 0x36, 0x42),
        Color::rgb(0xdc, 0x32, 0x2f),
        Color::rgb(0x85, 0x99, 0x00),
        Color::rgb(0xb5, 0x89, 0x00),
        Color::rgb(0x26, 0x8b, 0xd2),
        Color::rgb(0xd3, 0x36, 0x82),
        Color::rgb(0x2a, 0xa1, 0x98),
        Color::rgb(0xee, 0xe8, 0xd5),
        Color::rgb(0x00, 0x2b, 0x36),
        Color::rgb(0xcb, 0x4b, 0x16),
        Color::rgb(0x58, 0x6e, 0x75),
        Color::rgb(0x65, 0x7b, 0x83),
        Color::rgb(0x83, 0x94, 0x96),
        Color::rgb(0x6c, 0x71, 0xc4),
        Color::rgb(0x93, 0xa1, 0xa1),
        Color::rgb(0xfd, 0xf6, 0xe3),
    ]
}

/// The sixteen named colors of Github.
pub open spec fn github_light_ansi() -> Seq<Color> {
    seq![
        Color::rgb(0x24, 0x29, 0x2e),
        Color::rgb(0xd7, 0x3a, 0x49),
        Color::rgb(0x22, 0x86, 0x3a),
        Color::rgb(0xb0, 0x88, 0x00),
        Color::rgb(0x00, 0x5c, 0xc5),
        Color::rgb(0x6f, 0x42, 0xc1),
        Color::rgb(0x1b, 0x7c, 0x83),
        Color::rgb(0x6a, 0x73, 0x7d),
        Color::rgb(0x58, 0x60, 0x69),
        Color::rgb(0xcb, 0x24, 0x31),
        Color::rgb(0x28, 0xa7, 0x45),
        Color::rgb(0xdb, 0xab, 0x09),
        Color::rgb(0x03, 0x66, 0xd6),
        Color::rgb(0x8a, 0x63, 0xd2),
        Color::rgb(0x21, 0x88, 0xff),
        Color::rgb(0xff, 0xff, 0xff),
    ]
}

/// The sixteen named colors of Skyterm Atom.
pub open spec fn skyterm_atom_ansi() -> Seq<Color> {
    seq![
        Color::rgb(0x38, 0x3a, 0x42),
        Color::rgb(0xe4, 0x56, 0x49),
        Color::rgb(0x50, 0xa1, 0x4f),
        Color::rgb(0xc1, 0x84, 0x01),
        Color::rgb(0x40, 0x78, 0xf2),
        Color::rgb(0xa6, 0x26, 0xa4),
        Color::rgb(0x01, 0x84, 0xbc),
        Color::rgb(0xa0, 0xa1, 0xa7),
        Color::rgb(0x69, 0x6c, 0x77),
        Color::rgb(0xe4, 0x56, 0x49),
        Color::rgb(0x50, 0xa1, 0x4f),
        Color::rgb(0xc1, 0x84, 0x01),
        Color::rgb(0x40, 0x78, 0xf2),
        Color::rgb(0xa6, 0x26, 0xa4),
        Color::rgb(0x01, 0x84, 0xbc),
        Color::rgb(0xff, 0xff, 0xff),
    ]
}

/// The sixteen named colors of Skyterm Gray.
pub open spec fn skyterm_gray_ansi() -> Seq<Color> {
    seq![
        Color::rgb(0x1e, 0x1e, 0x1e),
        Color::rgb(0xc0, 0x39, 0x2b),
        Color::rgb(0x27, 0xae, 0x60),
        Color::rgb(0xd4, 0x88, 0x0e),
        Color::rgb(0x29, 0x80, 0xb9),
        Color::rgb(0x8e, 0x44, 0xad),
        Color::rgb(0x16, 0xa0, 0x85),
        Color::rgb(0xbd, 0xc3, 0xc7),
        Color::rgb(0x7f, 0x8c, 0x8d),
        Color::rgb(0xe7, 0x4c, 0x3c),
        Color::rgb(0x2e, 0xcc, 0x71),
        Color::rgb(0xf3, 0x9c, 0x12),
        Color::rgb(0x34, 0x98, 0xdb),
        Color::rgb(0x9b, 0x59, 0xb6),
        Color::rgb(0x1a, 0xbc, 0x9c),
        Color::rgb(0xec, 0xf0, 0xf1),
    ]
}

/// The sixteen named colors of Skyterm Beige.
pub open spec fn skyterm_beige_ansi() -> Seq<Color> {
    seq![
        Color::rgb(0x2c, 0x1e, 0x0f),
        Color::rgb(0xb0, 0x3a, 0x2e),
        Color::rgb(0x5d, 0x7a, 0x1f),
        Color::rgb(0xb7, 0x86, 0x0b),
        Color::rgb(0x2e, 0x6d, 0xa4),
        Color::rgb(0x8e, 0x44, 0x7a),
        Color::rgb(0x1a, 0x7d, 0x73),
        Color::rgb(0xd4, 0xc9, 0xb0),
        Color::rgb(0x7a, 0x67, 0x52),
        Color::rgb(0xe0, 0x4e, 0x3b),
        Color::rgb(0x7d, 0xb5, 0x2f),
        Color::rgb(0xe6, 0xa8, 0x17),
        Color::rgb(0x4a, 0x90, 0xc4),
        Color::rgb(0xb0, 0x6e, 0xc0),
        Color::rgb(0x2a, 0x9e, 0x93),
        Color::rgb(0xf5, 0xf0, 0xe8),
    ]
}

/// Skyterm Blue.
pub open spec fn skyterm_blue_model() -> ThemeModel {
    theme_of(
        "Skyterm Blue"@,
        Color::rgb(0xad, 0xff, 0xcc),
        Color::rgb(0x0c, 0x29, 0x3d),
        Color::rgb(0xaa, 0xaa, 0xaa),
        color::xterm_named_colors(),
    )
}

/// Cobalt Neon.
pub open spec fn cobalt_neon_model() -> ThemeModel {
    theme_of(
        "Cobalt Neon"@,
        Color::rgb(0xc8, 0xe0, 0xff),
        Color::rgb(0x0d, 0x1f, 0x3c),
        Color::rgb(0x00, 0xe5, 0xff),
        cobalt_neon_ansi(),
    )
}

/// Skyterm Dark.
pub open spec fn skyterm_dark_model() -> ThemeModel {
    theme_of(
        "Skyterm Dark"@,
        Color::rgb(0xd0, 0xd0, 0xd0),
        Color::rgb(0x10, 0x10, 0x14),
        Color::rgb(0xd0, 0xd0, 0xd0),
        color::xterm_named_colors(),
    )
}

/// Skyterm Dracula.
pub open spec fn skyterm_dracula_model() -> ThemeModel {
    theme_of(
        "Skyterm Dracula"@,
        Color::rgb(0xf8, 0xf8, 0xf2),
        Color::rgb(0x28, 0x2a, 0x36),
        Color::rgb(0xf8, 0xf8, 0xf2),
        skyterm_dracula_ansi(),
    )
}

/// Skyterm Hunter.
pub open spec fn skyterm_hunter_model() -> ThemeModel {
    theme_of(
        "Skyterm Hunter"@,
        Color::rgb(0xb8, 0xd4, 0xb8),
        Color::rgb(0x1a, 0x2a, 0x1e),
        Color::rgb(0x6d, 0xbf, 0x6d),
        skyterm_hunter_ansi(),
    )
}

/// Skyterm Purple.
pub open spec fn skyterm_purple_model() -> ThemeModel {
    theme_of(
        "Skyterm Purple"@,
        Color::rgb(0xe0, 0xd0, 0xff),
        Color::rgb(0x1a, 0x0d, 0x2e),
        Color::rgb(0xbf, 0x9f, 0xff),
        skyterm_purple_ansi(),
    )
}

/// Solarized Dark.
pub open spec fn solarized_dark_model() -> ThemeModel {
    theme_of(
        "Solarized Dark"@,
        Color::rgb(0x83, 0x94, 0x96),
        Color::rgb(0x00, 0x2b, 0x36),
        Color::rgb(0x83, 0x94, 0x96),
        solarized_ansi(),
    )
}

/// Github.
pub open spec fn github_light_model() -> ThemeModel {
    theme_of(
        "Github"@,
        Color::rgb(0x24, 0x29, 0x2e),
        Color::rgb(0xf6, 0xf8, 0xfa),
        Color::rgb(0x03, 0x66, 0xd6),
        github_light_ansi(),
    )
}

/// Solarized Light.
pub open spec fn solarized_light_model() -> ThemeModel {
    theme_of(
        "Solarized Light"@,
        Color::rgb(0x65, 0x7b, 0x83),
        Color::rgb(0xfd, 0xf6, 0xe3),
        Color::rgb(0x65, 0x7b, 0x83),
        solarized_ansi(),
    )
}

/// Skyterm Light.
pub open spec fn skyterm_light_model() -> ThemeModel {
    theme_of(
        "Skyterm Light"@,
        Color::rgb(0x20, 0x20, 0x20),
        Color::rgb(0xfa, 0xfa, 0xfa),
        Color::rgb(0x20, 0x20, 0x20),
        color::xterm_named_colors(),
    )
}

/// Skyterm Atom.
pub open spec fn skyterm_atom_model() -> ThemeModel {
    theme_of(
        "Skyterm Atom"@,
        Color::rgb(0x38, 0x3a, 0x42),
        Color::rgb(0xfa, 0xfa, 0xfa),
        Color::rgb(0x52, 0x6f, 0xff),
        skyterm_atom_ansi(),
    )
}

/// Skyterm Gray.
pub open spec fn skyterm_gray_model() -> ThemeModel {
    theme_of(
        "Skyterm Gray"@,
        Color::rgb(0x2c, 0x2c, 0x2c),
        Color::rgb(0xee, 0xee, 0xee),
        Color::rgb(0x55, 0x55, 0x55),
        skyterm_gray_ansi(),
    )
}

/// Skyterm Beige.
pub open spec fn skyterm_beige_model() -> ThemeModel {
    theme_of(
        "Skyterm Beige"@,
        Color::rgb(0x3a, 0x2e, 0x20),
        Color::rgb(0xf2, 0xe8, 0xd5),
        Color::rgb(0x8c, 0x6d, 0x3f),
        skyterm_beige_ansi(),
    )
}

/// All built-in themes: the dark ones, then the light ones.
pub open spec fn preset_models() -> Seq<ThemeModel> {
    seq![
        skyterm_blue_model(),
        cobalt_neon_model(),
        skyterm_dark_model(),
        skyterm_dracula_model(),
        skyterm_hunter_model(),
        skyterm_purple_model(),
        solarized_dark_model(),
        github_light_model(),
        solarized_light_model(),
        skyterm_light_model(),
        skyterm_atom_model(),
        skyterm_gray_model(),
        skyterm_beige_model(),
    ]
}

fn cobalt_neon_colors() -> (ansi: [Color; 16])
    ensures
        ansi@ == cobalt_neon_ansi(),
{
    [
        Color::rgb(0x0a, 0x0f, 0x1e),
        Color::rgb(0xff, 0x2d, 0x5e),
        Color::rgb(0x00, 0xff, 0x88),
        Color::rgb(0xff, 0xe6, 0x00),
        Color::rgb(0x3d, 0x9a, 0xff),
        Color::rgb(0xff, 0x00, 0xcc),
        Color::rgb(0x00, 0xe5, 0xff),
        Color::rgb(0xc8, 0xd8, 0xf0),
        Color::rgb(0x2a, 0x3a, 0x5a),
        Color::rgb(0xff, 0x50, 0x80),
        Color::rgb(0x39, 0xff, 0x95),
        Color::rgb(0xff, 0xee, 0x44),
        Color::rgb(0x66, 0xb2, 0xff),
        Color::rgb(0xff, 0x44, 0xdd),
        Color::rgb(0x44, 0xee, 0xff),
        Color::rgb(0xff, 0xff, 0xff),
    ]
}

fn skyterm_dracula_colors() -> (ansi: [Color; 16])
    ensures
        ansi@ == skyterm_dracula_ansi(),
{
    [
        Color::rgb(0x21, 0x22, 0x2c),
        Color::rgb(0xff, 0x55, 0x55),
        Color::rgb(0x50, 0xfa, 0x7b),
        Color::rgb(0xf1, 0xfa, 0x8c),
        Color::rgb(0xbd, 0x93, 0xf9),
        Color::rgb(0xff, 0x79, 0xc6),
        Color::rgb(0x8b, 0xe9, 0xfd),
        Color::rgb(0xf8, 0xf8, 0xf2),
        Color::rgb(0x62, 0x72, 0xa4),
        Color::rgb(0xff, 0x6e, 0x6e),
        Color::rgb(0x69, 0xff, 0x94),
        Color::rgb(0xff, 0xff, 0xa5),
        Color::rgb(0xd6, 0xac, 0xff),
        Color::rgb(0xff, 0x92, 0xdf),
        Color::rgb(0xa4, 0xff, 0xff),
        Color::rgb(0xff, 0xff, 0xff),
    ]
}

fn skyterm_hunter_colors() -> (ansi: [Color; 16])
    ensures
        ansi@ == skyterm_hunter_ansi(),
{
    [
        Color::rgb(0x0d, 0x1a, 0x10),
        Color::rgb(0xcc, 0x44, 0x44),
        Color::rgb(0x5a, 0xb4, 0x5a),
        Color::rgb(0xc8, 0xa0, 0x30),
        Color::rgb(0x44, 0x88, 0xbb),
        Color::rgb(0x99, 0x66, 0xaa),
        Color::rgb(0x44, 0xaa, 0x88),
        Color::rgb(0xa8, 0xc8, 0xa8),
        Color::rgb(0x3a, 0x5a, 0x3a),
        Color::rgb(0xe0, 0x55, 0x55),
        Color::rgb(0x77, 0xcc, 0x77),
        Color::rgb(0xdd, 0xb8, 0x40),
        Color::rgb(0x66, 0xaa, 0xdd),
        Color::rgb(0xbb, 0x88, 0xcc),
        Color::rgb(0x55, 0xcc, 0x99),
        Color::rgb(0xd8, 0xea, 0xd8),
    ]
}

fn skyterm_purple_colors() -> (ansi: [Color; 16])
    ensures
        ansi@ == skyterm_purple_ansi(),
{
    [
        Color::rgb(0x15, 0x08, 0x26),
        Color::rgb(0xff, 0x33, 0x66),
        Color::rgb(0x5a, 0xf7, 0x8e),
        Color::rgb(0xf3, 0xf9, 0x9d),
        Color::rgb(0x57, 0xc7, 0xff),
        Color::rgb(0xff, 0x6a, 0xc1),
        Color::rgb(0x9a, 0xed, 0xfe),
        Color::rgb(0xd1, 0xc4, 0xe9),
        Color::rgb(0x4a, 0x35, 0x60),
        Color::rgb(0xff, 0x6b, 0x6b),
        Color::rgb(0x69, 0xff, 0x94),
        Color::rgb(0xff, 0xff, 0xa5),
        Color::rgb(0xa2, 0x9b, 0xfe),
        Color::rgb(0xfd, 0x79, 0xa8),
        Color::rgb(0x74, 0xb9, 0xff),
        Color::rgb(0xff, 0xff, 0xff),
    ]
}

fn solarized_colors() -> (ansi: [Color; 16])
    ensures
        ansi@ == solarized_ansi(),
{
    [
        Color::rgb(0x07, 0x36, 0x42),
        Color::rgb(0xdc, 0x32, 0x2f),
        Color::rgb(0x85, 0x99, 0x00),
        Color::rgb(0xb5, 0x89, 0x00),
        Color::rgb(0x26, 0x8b, 0xd2),
        Color::rgb(0xd3, 0x36, 0x82),
        Color::rgb(0x2a, 0xa1, 0x98),
        Color::rgb(0xee, 0xe8, 0xd5),
        Color::rgb(0x00, 0x2b, 0x36),
        Color::rgb(0xcb, 0x4b, 0x16),
        Color::rgb(0x58, 0x6e, 0x75),
        Color::rgb(0x65, 0x7b, 0x83),
        Color::rgb(0x83, 0x94, 0x96),
        Color::rgb(0x6c, 0x71, 0xc4),
        Color::rgb(0x93, 0xa1, 0xa1),
        Color::rgb(0xfd, 0xf6, 0xe3),
    ]
}

fn github_light_colors() -> (ansi: [Color; 16])
    ensures
        ansi@ == github_light_ansi(),
{
    [
        Color::rgb(0x24, 0x29, 0x2e),
        Color::rgb(0xd7, 0x3a, 0x49),
        Color::rgb(0x22, 0x86, 0x3a),
        Color::rgb(0xb0, 0x88, 0x00),
        Color::rgb(0x00, 0x5c, 0xc5),
        Color::rgb(0x6f, 0x42, 0xc1),
        Color::rgb(0x1b, 0x7c, 0x83),
        Color::rgb(0x6a, 0x73, 0x7d),
        Color::rgb(0x58, 0x60, 0x69),
        Color::rgb(0xcb, 0x24, 0x31),
        Color::rgb(0x28, 0xa7, 0x45),
        Color::rgb(0xdb, 0xab, 0x09),
        Color::rgb(0x03, 0x66, 0xd6),
        Color::rgb(0x8a, 0x63, 0xd2),
        Color::rgb(0x21, 0x88, 0xff),
        Color::rgb(0xff, 0xff, 0xff),
    ]
}

fn skyterm_atom_colors() -> (ansi: [Color; 16])
    ensures
        ansi@ == skyterm_atom_ansi(),
{
    [
        Color::rgb(0x38, 0x3a, 0x42),
        Color::rgb(0xe4, 0x56, 0x49),
        Color::rgb(0x50, 0xa1, 0x4f),
        Color::rgb(0xc1, 0x84, 0x01),
        Color::rgb(0x40, 0x78, 0xf2),
        Color::rgb(0xa6, 0x26, 0xa4),
        Color::rgb(0x01, 0x84, 0xbc),
        Color::rgb(0xa0, 0xa1, 0xa7),
        Color::rgb(0x69, 0x6c, 0x77),
        Color::rgb(0xe4, 0x56, 0x49),
        Color::rgb(0x50, 0xa1, 0x4f),
        Color::rgb(0xc1, 0x84, 0x01),
        Color::rgb(0x40, 0x78, 0xf2),
        Color::rgb(0xa6, 0x26, 0xa4),
        Color::rgb(0x01, 0x84, 0xbc),
        Color::rgb(0xff, 0xff, 0xff),
    ]
}

fn skyterm_gray_colors() -> (ansi: [Color; 16])
    ensures
        ansi@ == skyterm_gray_ansi(),
{
    [
        Color::rgb(0x1e, 0x1e, 0x1e),
        Color::rgb(0xc0, 0x39, 0x2b),
        Color::rgb(0x27, 0xae, 0x60),
        Color::rgb(0xd4, 0x88, 0x0e),
        Color::rgb(0x29, 0x80, 0xb9),
        Color::rgb(0x8e, 0x44, 0xad),
        Color::rgb(0x16, 0xa0, 0x85),
        Color::rgb(0xbd, 0xc3, 0xc7),
        Color::rgb(0x7f, 0x8c, 0x8d),
        Color::rgb(0xe7, 0x4c, 0x3c),
        Color::rgb(0x2e, 0xcc, 0x71),
        Color::rgb(0xf3, 0x9c, 0x12),
        Color::rgb(0x34, 0x98, 0xdb),
        Color::rgb(0x9b, 0x59, 0xb6),
        Color::rgb(0x1a, 0xbc, 0x9c),
        Color::rgb(0xec, 0xf0, 0xf1),
    ]
}

fn skyterm_beige_colors() -> (ansi: [Color; 16])
    ensures
        ansi@ == skyterm_beige_ansi(),
{
    [
        Color::rgb(0x2c, 0x1e, 0x0f),
        Color::rgb(0xb0, 0x3a, 0x2e),
        Color::rgb(0x5d, 0x7a, 0x1f),
        Color::rgb(0xb7, 0x86, 0x0b),
        Color::rgb(0x2e, 0x6d, 0xa4),
        Color::rgb(0x8e, 0x44, 0x7a),
        Color::rgb(0x1a, 0x7d, 0x73),
        Color::rgb(0xd4, 0xc9, 0xb0),
        Color::rgb(0x7a, 0x67, 0x52),
        Color::rgb(0xe0, 0x4e, 0x3b),
        Color::rgb(0x7d, 0xb5, 0x2f),
        Color::rgb(0xe6, 0xa8, 0x17),
        Color::rgb(0x4a, 0x90, 0xc4),
        Color::rgb(0xb0, 0x6e, 0xc0),
        Color::rgb(0x2a, 0x9e, 0x93),
        Color::rgb(0xf5, 0xf0, 0xe8),
    ]
}

/// A palette that starts with these sixteen colors and goes on as xterm's does.
pub(crate) fn full_palette(ansi: &[Color; 16]) -> (palette: [Color; 256])
    ensures
        palette@ == palette_from(ansi@),
{
    let mut palette: [Color; 256] = [Color::rgb(0, 0, 0);256];
    let mut i: usize = 0;
    while i < 256
        invariant
            i <= 256,
            palette@.len() == 256,
            forall|k: int| 0 <= k < i ==> palette@[k] == palette_from(ansi@)[k],
        decreases 256 - i,
    {
        palette[i] = if i < 16 {
            ansi[i]
        } else {
            Color::xterm_256(i as u8)
        };
        i = i + 1;
    }
    assert(palette@ =~= palette_from(ansi@));
    palette
}

/// The first sixteen colors of xterm's palette.
pub(crate) fn default_ansi() -> (ansi: [Color; 16])
    ensures
        ansi@ == color::xterm_named_colors(),
{
    let mut ansi: [Color; 16] = [Color::rgb(0, 0, 0);16];
    let mut i: usize = 0;
    while i < 16
        invariant
            i <= 16,
            ansi@.len() == 16,
            forall|k: int| 0 <= k < i ==> ansi@[k] == color::xterm_named_colors()[k],
        decreases 16 - i,
    {
        ansi[i] = Color::xterm_256(i as u8);
        i = i + 1;
    }
    assert(ansi@ =~= color::xterm_named_colors());
    ansi
}

/// A theme of these colors, without a font of its own.
pub(crate) fn make_theme(
    name: String,
    fg: Color,
    bg: Color,
    cursor: Color,
    ansi: &[Color; 16],
) -> (theme: Theme)
    ensures
        theme@ == theme_of(name@, fg, bg, cursor, ansi@),
{
    Theme { name, fg, bg, cursor, palette: full_palette(ansi), font_path: None, font_size: None }
}

/// A palette of these colors: the first 256 of them, and black where there are
/// fewer.
pub fn palette_of(colors: &Vec<Color>) -> (palette: [Color; 256])
    ensures
        forall|i: int|
            0 <= i < 256 ==> #[trigger] palette@[i] == if i < colors@.len() {
                colors@[i]
            } else {
                Color::rgb(0, 0, 0)
            },
{
    let mut palette: [Color; 256] = [Color::rgb(0, 0, 0);256];
    let mut i: usize = 0;
    while i < 256 && i < colors.len()
        invariant
            i <= 256,
            i <= colors@.len(),
            forall|k: int|
                0 <= k < 256 ==> #[trigger] palette@[k] == if k < i {
                    colors@[k]
                } else {
                    Color::rgb(0, 0, 0)
                },
        decreases 256 - i,
    {
        palette[i] = colors[i];
        i = i + 1;
    }
    palette
}

impl Theme {
    /// The color that a foreground reference stands for.
    pub fn resolve_fg(&self, c: CellColor) -> (color: Color)
        ensures
            color == self@.resolve_fg(c),
    {
        match c {
            CellColor::Default => self.fg,
            CellColor::Palette(i) => self.palette[i as usize],
            CellColor::Rgb(c) => c,
        }
    }

    /// The color that a background reference stands for.
    pub fn resolve_bg(&self, c: CellColor) -> (color: Color)
        ensures
            color == self@.resolve_bg(c),
    {
        match c {
            CellColor::Default => self.bg,
            CellColor::Palette(i) => self.palette[i as usize],
            CellColor::Rgb(c) => c,
        }
    }

    /// True when this theme's background is perceptually dark (luma < 128).
    pub fn is_dark(&self) -> (dark: bool)
        ensures
            dark == self@.is_dark(),
    {
        let luma: u32 = 299 * (self.bg.r as u32) + 587 * (self.bg.g as u32) + 114 * (
        self.bg.b as u32);
        luma < 128_000
    }

    /// Built-in theme: deep blue background with a mint-green foreground.
    /// This is the default theme for a fresh install.
    pub fn skyterm_blue() -> (theme: Theme)
        ensures
            theme@ == skyterm_blue_model(),
    {
        make_theme(
            "Skyterm Blue".to_string(),
            Color::rgb(0xad, 0xff, 0xcc),
            Color::rgb(0x0c, 0x29, 0x3d),
            Color::rgb(0xaa, 0xaa, 0xaa),
            &default_ansi(),
        )
    }

    /// Built-in theme: Cobalt Neon: deep cobalt blue with electric neon accents.
    pub fn cobalt_neon() -> (theme: Theme)
        ensures
            theme@ == cobalt_neon_model(),
    {
        make_theme(
            "Cobalt Neon".to_string(),
            Color::rgb(0xc8, 0xe0, 0xff),
            Color::rgb(0x0d, 0x1f, 0x3c),
            Color::rgb(0x00, 0xe5, 0xff),
            &cobalt_neon_colors(),
        )
    }

    /// Built-in theme: plain skyterm dark.
    pub fn skyterm_dark() -> (theme: Theme)
        ensures
            theme@ == skyterm_dark_model(),
    {
        make_theme(
            "Skyterm Dark".to_string(),
            Color::rgb(0xd0, 0xd0, 0xd0),
            Color::rgb(0x10, 0x10, 0x14),
            Color::rgb(0xd0, 0xd0, 0xd0),
            &default_ansi(),
        )
    }

    /// Built-in theme: Dracula by Zeno Rocha.
    pub fn skyterm_dracula() -> (theme: Theme)
        ensures
            theme@ == skyterm_dracula_model(),
    {
        make_theme(
            "Skyterm Dracula".to_string(),
            Color::rgb(0xf8, 0xf8, 0xf2),
            Color::rgb(0x28, 0x2a, 0x36),
            Color::rgb(0xf8, 0xf8, 0xf2),
            &skyterm_dracula_colors(),
        )
    }

    /// Built-in theme: hunter green: deep forest aesthetic with naturalistic ANSI colors.
    pub fn skyterm_hunter() -> (theme: Theme)
        ensures
            theme@ == skyterm_hunter_model(),
    {
        make_theme(
            "Skyterm Hunter".to_string(),
            Color::rgb(0xb8, 0xd4, 0xb8),
            Color::rgb(0x1a, 0x2a, 0x1e),
            Color::rgb(0x6d, 0xbf, 0x6d),
            &skyterm_hunter_colors(),
        )
    }

    /// Built-in theme: deep purple aesthetic.
    pub fn skyterm_purple() -> (theme: Theme)
        ensures
            theme@ == skyterm_purple_model(),
    {
        make_theme(
            "Skyterm Purple".to_string(),
            Color::rgb(0xe0, 0xd0, 0xff),
            Color::rgb(0x1a, 0x0d, 0x2e),
            Color::rgb(0xbf, 0x9f, 0xff),
            &skyterm_purple_colors(),
        )
    }

    /// Built-in theme: Solarized Dark by Ethan Schoonover.
    pub fn solarized_dark() -> (theme: Theme)
        ensures
            theme@ == solarized_dark_model(),
    {
        make_theme(
            "Solarized Dark".to_string(),
            Color::rgb(0x83, 0x94, 0x96),
            Color::rgb(0x00, 0x2b, 0x36),
            Color::rgb(0x83, 0x94, 0x96),
            &solarized_colors(),
        )
    }

    /// Built-in theme: GitHub Light: canonical GitHub UI palette.
    pub fn github_light() -> (theme: Theme)
        ensures
            theme@ == github_light_model(),
    {
        make_theme(
            "Github".to_string(),
            Color::rgb(0x24, 0x29, 0x2e),
            Color::rgb(0xf6, 0xf8, 0xfa),
            Color::rgb(0x03, 0x66, 0xd6),
            &github_light_colors(),
        )
    }

    /// Built-in theme: Solarized Light.
    pub fn solarized_light() -> (theme: Theme)
        ensures
            theme@ == solarized_light_model(),
    {
        make_theme(
            "Solarized Light".to_string(),
            Color::rgb(0x65, 0x7b, 0x83),
            Color::rgb(0xfd, 0xf6, 0xe3),
            Color::rgb(0x65, 0x7b, 0x83),
            &solarized_colors(),
        )
    }

    /// Built-in theme: a flat light theme for daylight reading.
    pub fn skyterm_light() -> (theme: Theme)
        ensures
            theme@ == skyterm_light_model(),
    {
        make_theme(
            "Skyterm Light".to_string(),
            Color::rgb(0x20, 0x20, 0x20),
            Color::rgb(0xfa, 0xfa, 0xfa),
            Color::rgb(0x20, 0x20, 0x20),
            &default_ansi(),
        )
    }

    /// Built-in theme: Atom One Light.
    pub fn skyterm_atom() -> (theme: Theme)
        ensures
            theme@ == skyterm_atom_model(),
    {
        make_theme(
            "Skyterm Atom".to_string(),
            Color::rgb(0x38, 0x3a, 0x42),
            Color::rgb(0xfa, 0xfa, 0xfa),
            Color::rgb(0x52, 0x6f, 0xff),
            &skyterm_atom_colors(),
        )
    }

    /// Built-in theme: neutral gray: muted, low-contrast palette for low-glare environments.
    pub fn skyterm_gray() -> (theme: Theme)
        ensures
            theme@ == skyterm_gray_model(),
    {
        make_theme(
            "Skyterm Gray".to_string(),
            Color::rgb(0x2c, 0x2c, 0x2c),
            Color::rgb(0xee, 0xee, 0xee),
            Color::rgb(0x55, 0x55, 0x55),
            &skyterm_gray_colors(),
        )
    }

    /// Built-in theme: warm sandy beige: earthy palette for low-glare daylight use.
    pub fn skyterm_beige() -> (theme: Theme)
        ensures
            theme@ == skyterm_beige_model(),
    {
        make_theme(
            "Skyterm Beige".to_string(),
            Color::rgb(0x3a, 0x2e, 0x20),
            Color::rgb(0xf2, 0xe8, 0xd5),
            Color::rgb(0x8c, 0x6d, 0x3f),
            &skyterm_beige_colors(),
        )
    }

    /// All built-in presets: dark themes first, then light.
    pub fn presets() -> (themes: Vec<Theme>)
        ensures
            models_of(themes@) == preset_models(),
    {
        let mut themes: Vec<Theme> = Vec::new();
        themes.push(Theme::skyterm_blue());
        themes.push(Theme::cobalt_neon());
        themes.push(Theme::skyterm_dark());
        themes.push(Theme::skyterm_dracula());
        themes.push(Theme::skyterm_hunter());
        themes.push(Theme::skyterm_purple());
        themes.push(Theme::solarized_dark());
        themes.push(Theme::github_light());
        themes.push(Theme::solarized_light());
        themes.push(Theme::skyterm_light());
        themes.push(Theme::skyterm_atom());
        themes.push(Theme::skyterm_gray());
        themes.push(Theme::skyterm_beige());
        assert(models_of(themes@) =~= preset_models());
        themes
    }
}

impl Clone for Theme {
    fn clone(&self) -> (theme: Theme)
        ensures
            theme@ == self@,
    {
        Theme {
            name: self.name.clone(),
            fg: self.fg,
            bg: self.bg,
            cursor: self.cursor,
            palette: self.palette,
            font_path: match &self.font_path {
                Some(path) => Some(path.clone()),
                None => None,
            },
            font_size: self.font_size,
        }
    }
}

impl Default for Theme {
    fn default() -> (theme: Theme)
        ensures
            theme@ == skyterm_blue_model(),
    {
        Theme::skyterm_blue()
    }
}

/// The presets are the dark themes, then the light ones.
pub proof fn law_presets_dark_first(i: int, j: int)
    requires
        0 <= i < j < preset_models().len(),
        !preset_models()[i].is_dark(),
    ensures
        !preset_models()[j].is_dark(),
{
}

/// No two presets have the same name.
pub proof fn law_preset_names_differ(i: int, j: int)
    requires
        0 <= i < j < preset_models().len(),
    ensures
        preset_models()[i].name != preset_models()[j].name,
{
    // Length, second and ninth character tell any two apart.
    reveal_strlit("Skyterm Blue");
    assert("Skyterm Blue"@.len() == 12 && "Skyterm Blue"@[1] == 'k' && "Skyterm Blue"@[8] == 'B');
    reveal_strlit("Cobalt Neon");
    assert("Cobalt Neon"@.len() == 11 && "Cobalt Neon"@[1] == 'o' && "Cobalt Neon"@[8] == 'e');
    reveal_strlit("Skyterm Dark");
    assert("Skyterm Dark"@.len() == 12 && "Skyterm Dark"@[1] == 'k' && "Skyterm Dark"@[8] == 'D');
    reveal_strlit("Skyterm Dracula");
    assert("Skyterm Dracula"@.len() == 15 && "Skyterm Dracula"@[1] == 'k' && "Skyterm Dracula"@[8] == 'D');
    reveal_strlit("Skyterm Hunter");
    assert("Skyterm Hunter"@.len() == 14 && "Skyterm Hunter"@[1] == 'k' && "Skyterm Hunter"@[8] == 'H');
    reveal_strlit("Skyterm Purple");
    assert("Skyterm Purple"@.len() == 14 && "Skyterm Purple"@[1] == 'k' && "Skyterm Purple"@[8] == 'P');
    reveal_strlit("Solarized Dark");
    assert("Solarized Dark"@.len() == 14 && "Solarized Dark"@[1] == 'o' && "Solarized Dark"@[8] == 'd');
    reveal_strlit("Github");
    assert("Github"@.len() == 6 && "Github"@[1] == 'i');
    reveal_strlit("Solarized Light");
    assert("Solarized Light"@.len() == 15 && "Solarized Light"@[1] == 'o' && "Solarized Light"@[8] == 'd');
    reveal_strlit("Skyterm Light");
    assert("Skyterm Light"@.len() == 13 && "Skyterm Light"@[1] == 'k' && "Skyterm Light"@[8] == 'L');
    reveal_strlit("Skyterm Atom");
    assert("Skyterm Atom"@.len() == 12 && "Skyterm Atom"@[1] == 'k' && "Skyterm Atom"@[8] == 'A');
    reveal_strlit("Skyterm Gray");
    assert("Skyterm Gray"@.len() == 12 && "Skyterm Gray"@[1] == 'k' && "Skyterm Gray"@[8] == 'G');
    reveal_strlit("Skyterm Beige");
    assert("Skyterm Beige"@.len() == 13 && "Skyterm Beige"@[1] == 'k' && "Skyterm Beige"@[8] == 'B');
}

/// References are resolved by the theme: the default is its foreground or its
/// background, a number the palette's entry, and a literal color itself.
pub proof fn law_references_are_resolved(t: ThemeModel, i: u8, c: Color)
    ensures
        t.resolve_fg(CellColor::Default) == t.fg,
        t.resolve_bg(CellColor::Default) == t.bg,
        t.resolve_fg(CellColor::Palette(i)) == t.palette[i as int],
        t.resolve_bg(CellColor::Palette(i)) == t.palette[i as int],
        t.resolve_fg(CellColor::Rgb(c)) == c,
        t.resolve_bg(CellColor::Rgb(c)) == c,
{
}

/// A gray background is dark below the middle. More of any color makes it no
/// darker, and green counts most, blue least.
pub proof fn law_dark_backgrounds(t: ThemeModel, u: ThemeModel, v: u8)
    ensures
        t.bg.r == v && t.bg.g == v && t.bg.b == v ==> (t.is_dark() <==> v < 128),
        t.bg.r <= u.bg.r && t.bg.g <= u.bg.g && t.bg.b <= u.bg.b && u.is_dark() ==> t.is_dark(),
        t.bg.r == u.bg.g && t.bg.g == u.bg.r && t.bg.b == u.bg.b && u.bg.r <= u.bg.g
            && u.is_dark() ==> t.is_dark(),
        t.bg.r == u.bg.b && t.bg.b == u.bg.r && t.bg.g == u.bg.g && u.bg.b <= u.bg.r
            && u.is_dark() ==> t.is_dark(),
{
}

/// Of every preset's palette, the first sixteen entries are its own and the rest
/// are xterm's; all 256 are there.
pub proof fn law_palettes_go_on_as_xterm(name: Seq<char>, fg: Color, bg: Color, cursor: Color, ansi: Seq<Color>, i: int)
    requires
        0 <= i < 256,
    ensures
        ({
            let t = theme_of(name, fg, bg, cursor, ansi);
            &&& t.name == name && t.fg == fg && t.bg == bg && t.cursor == cursor
            &&& t.palette.len() == 256
            &&& i < 16 ==> t.palette[i] == ansi[i]
            &&& i >= 16 ==> t.palette[i] == color::xterm_color(i)
            &&& t.font_path is None && t.font_size is None
        }),
{
}

/// These eight are black, red, green, yellow, blue, magenta, cyan and white, as
/// far as their shares of red, green and blue tell.
pub open spec fn are_named_colors(ansi: Seq<Color>) -> bool {
    &&& ansi.len() == 16
    &&& ansi[1].r > ansi[1].g && ansi[1].r > ansi[1].b
    &&& ansi[2].g > ansi[2].r && ansi[2].g > ansi[2].b
    &&& ansi[3].r > ansi[3].b && ansi[3].g > ansi[3].b
    &&& ansi[4].b > ansi[4].r && ansi[4].b > ansi[4].g
    &&& ansi[5].r > ansi[5].g && ansi[5].b > ansi[5].g
    &&& ansi[6].g > ansi[6].r && ansi[6].b > ansi[6].r
    &&& ansi[0].r < ansi[7].r && ansi[0].g < ansi[7].g && ansi[0].b < ansi[7].b
}

/// In every preset red is red, green is green, and so on.
pub proof fn law_preset_colors_are_their_names()
    ensures
        are_named_colors(cobalt_neon_ansi()),
        are_named_colors(skyterm_dracula_ansi()),
        are_named_colors(skyterm_hunter_ansi()),
        are_named_colors(skyterm_purple_ansi()),
        are_named_colors(solarized_ansi()),
        are_named_colors(github_light_ansi()),
        are_named_colors(skyterm_atom_ansi()),
        are_named_colors(skyterm_gray_ansi()),
        are_named_colors(skyterm_beige_ansi()),
        are_named_colors(color::xterm_named_colors()),
{
}

/// The text of every preset can be told from its background: it is light on the
/// dark ones and dark on the light ones, and everything is opaque.
pub proof fn law_presets_are_readable(i: int)
    requires
        0 <= i < preset_models().len(),
    ensures
        ({
            let t = preset_models()[i];
            let luma = |c: Color| 299 * c.r + 587 * c.g + 114 * c.b;
            &&& t.is_dark() ==> luma(t.fg) > luma(t.bg) + 60_000 && luma(t.cursor) > luma(t.bg)
            &&& !t.is_dark() ==> luma(t.fg) + 60_000 < luma(t.bg) && luma(t.cursor) < luma(t.bg)
            &&& t.fg.a == 255 && t.bg.a == 255 && t.cursor.a == 255
        }),
{
}

} // verus!
