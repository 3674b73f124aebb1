//! Colors: literal RGBA values, and the color references stored in cells.
use vstd::prelude::*;

verus! {

/// RGBA color, 0-255 per channel. Pure data: the *meaning* of a color
/// (default foreground, ANSI red, ...) lives in [`CellColor`].
#[derive(Clone, Copy, Debug, PartialEq, Eq, Structural)]
pub struct Color {
    pub r: u8,
    pub g: u8,
    pub b: u8,
    pub a: u8,
}

/// What the interpreter writes into a cell: either a palette reference (which
/// lets a theme retint text that is already on screen) or a literal color.
#[derive(Clone, Copy, Debug, PartialEq, Eq, Structural)]
pub enum CellColor {
    /// "Use the theme's default foreground/background."
    Default,
    /// 0-255 palette index, resolved against the theme when drawn.
    Palette(u8),
    /// Literal color, from the truecolor sequences.
    Rgb(Color),
}

impl Color {
    /// An opaque color.
    #[verifier::allow_in_spec]
    pub fn rgb(r: u8, g: u8, b: u8) -> Color
        returns
            (Color { r, g, b, a: 255 }),
    {
        Color { r, g, b, a: 255 }
    }

    /// The foreground used where no theme has been chosen.
    #[verifier::allow_in_spec]
    pub fn default_fg() -> Color
        returns
            (Color { r: 0xd0, g: 0xd0, b: 0xd0, a: 255 }),
    {
        Color { r: 0xd0, g: 0xd0, b: 0xd0, a: 255 }
    }

    /// The background used where no theme has been chosen.
    #[verifier::allow_in_spec]
    pub fn default_bg() -> Color
        returns
            (Color { r: 0x10, g: 0x10, b: 0x14, a: 255 }),
    {
        Color { r: 0x10, g: 0x10, b: 0x14, a: 255 }
    }

    /// The standard xterm 256-color palette: sixteen named colors, the 6x6x6
    /// cube, and the gray ramp.
    pub fn xterm_256(idx: u8) -> (c: Color)
        ensures
            c == xterm_color(idx as int),
    {
        if idx < 16 {
            let named: [Color; 16] = xterm_named();
            named[idx as usize]
        } else if idx < 232 {
            let i: u8 = idx - 16;
            Color::rgb(cube_step(i / 36), cube_step((i / 6) % 6), cube_step(i % 6))
        } else {
            let g: u8 = (idx - 232) * 10 + 8;
            Color::rgb(g, g, g)
        }
    }
}

impl CellColor {
    /// A literal opaque color.
    #[verifier::allow_in_spec]
    pub fn rgb(r: u8, g: u8, b: u8) -> CellColor
        returns
            (CellColor::Rgb(Color { r, g, b, a: 255 })),
    {
        CellColor::Rgb(Color { r, g, b, a: 255 })
    }
}

/// The sixteen named colors of the default palette.
pub open spec fn xterm_named_colors() -> Seq<Color> {
    seq![
        Color::rgb(0x00, 0x00, 0x00),
        Color::rgb(0xcd, 0x31, 0x31),
        Color::rgb(0x0d, 0xbc, 0x79),
        Color::rgb(0xe5, 0xe5, 0x10),
        Color::rgb(0x24, 0x72, 0xc8),
        Color::rgb(0xbc, 0x3f, 0xbc),
        Color::rgb(0x11, 0xa8, 0xcd),
        Color::rgb(0xe5, 0xe5, 0xe5),
        Color::rgb(0x66, 0x66, 0x66),
        Color::rgb(0xf1, 0x4c, 0x4c),
        Color::rgb(0x23, 0xd1, 0x8b),
        Color::rgb(0xf5, 0xf5, 0x43),
        Color::rgb(0x3b, 0x8e, 0xea),
        Color::rgb(0xd6, 0x70, 0xd6),
        Color::rgb(0x29, 0xb8, 0xdb),
        Color::rgb(0xff, 0xff, 0xff),
    ]
}

/// Intensity of step `v` (0 to 5) on one axis of the color cube.
pub open spec fn cube_level(v: int) -> u8 {
    if v == 0 {
        0
    } else {
        (v * 40 + 55) as u8
    }
}

/// Entry `idx` (0 to 255) of the xterm palette.
pub open spec fn xterm_color(idx: int) -> Color {
    if idx < 16 {
        xterm_named_colors()[idx]
    } else if idx < 232 {
        Color::rgb(
            cube_level((idx - 16) / 36),
            cube_level(((idx - 16) / 6) % 6),
            cube_level((idx - 16) % 6),
        )
    } else {
        let g = ((idx - 232) * 10 + 8) as u8;
        Color::rgb(g, g, g)
    }
}

fn cube_step(v: u8) -> (r: u8)
    requires
        v <= 5,
    ensures
        r == cube_level(v as int),
{
    if v == 0 {
        0
    } else {
        v * 40 + 55
    }
}

fn xterm_named() -> (named: [Color; 16])
    ensures
        named@ == xterm_named_colors(),
{
    [
        Color::rgb(0x00, 0x00, 0x00),
        Color::rgb(0xcd, 0x31, 0x31),
        Color::rgb(0x0d, 0xbc, 0x79),
        Color::rgb(0xe5, 0xe5, 0x10),
        Color::rgb(0x24, 0x72, 0xc8),
        Color::rgb(0xbc, 0x3f, 0xbc),
        Color::rgb(0x11, 0xa8, 0xcd),
        Color::rgb(0xe5, 0xe5, 0xe5),
        Color::rgb(0x66, 0x66, 0x66),
        Color::rgb(0xf1, 0x4c, 0x4c),
        Color::rgb(0x23, 0xd1, 0x8b),
        Color::rgb(0xf5, 0xf5, 0x43),
        Color::rgb(0x3b, 0x8e, 0xea),
        Color::rgb(0xd6, 0x70, 0xd6),
        Color::rgb(0x29, 0xb8, 0xdb),
        Color::rgb(0xff, 0xff, 0xff),
    ]
}

// ---- laws ----
/// The color cube: entry `16 + 36 r + 6 g + b` has these levels of red, green
/// and blue, where 0 is none, 5 is all, and from 1 on the levels are 40 apart.
pub proof fn law_color_cube(r: int, g: int, b: int)
    requires
        0 <= r < 6,
        0 <= g < 6,
        0 <= b < 6,
    ensures
        ({
            let at = |r: int, g: int, b: int| xterm_color(16 + 36 * r + 6 * g + b);
            let c = at(r, g, b);
            &&& c.a == 255
            &&& r == 0 ==> c.r == 0
            &&& g == 0 ==> c.g == 0
            &&& b == 0 ==> c.b == 0
            &&& r > 0 ==> c.r == 255 - 40 * (5 - r)
            &&& g > 0 ==> c.g == 255 - 40 * (5 - g)
            &&& b > 0 ==> c.b == 255 - 40 * (5 - b)
        }),
{
    let i = 36 * r + 6 * g + b;
    assert(i / 36 == r && (i / 6) % 6 == g && i % 6 == b);
}

/// The gray ramp: 24 opaque grays from dark to light, ten apart.
pub proof fn law_gray_ramp(k: int)
    requires
        0 <= k < 24,
    ensures
        ({
            let c = xterm_color(232 + k);
            &&& c.r == c.g && c.g == c.b && c.a == 255
            &&& k == 0 ==> c.r == 8
            &&& k < 23 ==> xterm_color(233 + k).r == c.r + 10
        }),
{
}

/// The sixteen named colors: black, red, green, yellow, blue, magenta, cyan and
/// white, then the same brighter. Each has most of what its name says.
pub proof fn law_named_colors(first: int, k: int)
    requires
        first == 0 || first == 8,
        0 <= k < 8,
    ensures
        ({
            let at = |k: int| xterm_color(first + k);
            &&& at(0).r == at(0).g && at(0).g == at(0).b
            &&& at(7).r == at(7).g && at(7).g == at(7).b && at(7).r > at(0).r
            &&& at(1).r > at(1).g && at(1).r > at(1).b
            &&& at(2).g > at(2).r && at(2).g > at(2).b
            &&& at(3).r > at(3).b && at(3).g > at(3).b
            &&& at(4).b > at(4).r && at(4).b > at(4).g
            &&& at(5).r > at(5).g && at(5).b > at(5).g
            &&& at(6).g > at(6).r && at(6).b > at(6).r
            &&& at(k).a == 255
        }),
        ({
            let (plain, bright) = (xterm_color(k), xterm_color(8 + k));
            plain.r + plain.g + plain.b < bright.r + bright.g + bright.b
        }),
{
}

} // verus!
