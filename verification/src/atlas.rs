//! The glyph atlas: every character that the terminal can draw, rasterized side
//! by side on one sheet.
use vstd::prelude::*;
use std::collections::HashMap;

verus! {

/// Glyphs in a row of the sheet.
pub const GLYPHS_PER_ROW: u32 = 32;

/// The character that stands in for those that have no glyph.
pub const FALLBACK: u32 = 0x3f;

/// The first of the Braille Patterns. They are drawn here rather than taken
/// from the font, because monospace fonts rarely have them.
pub const BRAILLE_FIRST: u32 = 0x2800;

/// The last of the Braille Patterns.
pub const BRAILLE_LAST: u32 = 0x28ff;

/// The size of a cell in pixels, and how far below its top the baseline is.
#[derive(Clone, Copy, Debug, PartialEq, Eq, Structural)]
pub struct CellSize {
    pub w: u32,
    pub h: u32,
    pub ascender: i32,
}

/// A rasterized glyph: `rows` rows of `width` bytes, three for each pixel, and
/// where its top left corner is, relative to the baseline. The rows start
/// `pitch` bytes apart, whatever its sign.
#[derive(Debug)]
pub struct Raster {
    pub width: i32,
    pub rows: i32,
    pub pitch: i32,
    pub left: i32,
    pub top: i32,
    pub buffer: Vec<u8>,
}

impl Raster {
    /// Bytes from the start of a row to the start of the next.
    pub open spec fn stride(self) -> int {
        if self.pitch < 0 {
            -self.pitch
        } else {
            self.pitch as int
        }
    }

    /// The glyph has a pixel at the cell's pixel `(px, py)`.
    pub open spec fn covers(self, ascender: int, px: int, py: int) -> bool {
        0 <= px - self.left < self.width as int / 3 && 0 <= py - (ascender - self.top) < self.rows
    }

    /// Where in the buffer the pixel is that falls on the cell's `(px, py)`.
    pub open spec fn place(self, ascender: int, px: int, py: int) -> int {
        (py - (ascender - self.top)) * self.stride() + (px - self.left) * 3
    }

    /// Every pixel that falls into the cell is in the buffer. What falls outside
    /// is not drawn.
    pub open spec fn sound(self, cell: CellSize) -> bool {
        forall|px: int, py: int|
            0 <= px < cell.w && 0 <= py < cell.h && #[trigger] self.covers(
                cell.ascender as int,
                px,
                py,
            ) ==> self.place(cell.ascender as int, px, py) + 3 <= self.buffer@.len()
    }

    fn row_bytes(&self) -> (n: u32)
        ensures
            n == self.stride(),
    {
        if self.pitch < 0 {
            (-(self.pitch as i64)) as u32
        } else {
            self.pitch as u32
        }
    }

    /// Whether every pixel that falls into the cell is in the buffer.
    pub fn is_sound(&self, cell: CellSize) -> (yes: bool)
        ensures
            yes == self.sound(cell),
    {
        if self.width <= 0 || self.rows <= 0 {
            return true;
        }
        // The first and last column and row of the glyph that the cell shows.
        let across: i64 = (self.width / 3) as i64;
        let down: i64 = self.rows as i64;
        let left: i64 = self.left as i64;
        let top: i64 = cell.ascender as i64 - self.top as i64;
        let first_x: i64 = larger(0, -left);
        let last_x: i64 = smaller(across, cell.w as i64 - left) - 1;
        let first_y: i64 = larger(0, -top);
        let last_y: i64 = smaller(down, cell.h as i64 - top) - 1;
        if first_x > last_x || first_y > last_y {
            assert forall|px: int, py: int|
                0 <= px < cell.w && 0 <= py < cell.h implies !(#[trigger] self.covers(
                cell.ascender as int,
                px,
                py,
            )) by {}
            return true;
        }
        let stride: u32 = self.row_bytes();
        let n: usize = self.buffer.len();
        proof {
            assert(0 <= last_y * stride <= 0x7fff_ffff * 0xffff_ffff) by (nonlinear_arith)
                requires
                    0 <= last_y <= 0x7fff_ffff,
                    0 <= stride <= 0xffff_ffff,
            ;
        }
        let end: u64 = last_y as u64 * stride as u64 + last_x as u64 * 3 + 3;
        proof {
            assert(self.covers(cell.ascender as int, last_x + left, last_y + top));
            assert(end == self.place(cell.ascender as int, last_x + left, last_y + top) + 3);
            assert forall|px: int, py: int|
                0 <= px < cell.w && 0 <= py < cell.h && #[trigger] self.covers(
                    cell.ascender as int,
                    px,
                    py,
                ) implies self.place(cell.ascender as int, px, py) + 3 <= end by {
                let y = py - top;
                assert(y * stride <= last_y * stride) by (nonlinear_arith)
                    requires
                        y <= last_y,
                        stride >= 0,
                ;
            }
        }
        end <= n as u64
    }

    /// The value of channel `ch` of the cell's pixel `(px, py)`: the glyph's, or
    /// 0 where it has no pixel.
    pub open spec fn value(self, ascender: int, px: int, py: int, ch: int) -> u8 {
        if self.covers(ascender, px, py) {
            self.buffer@[self.place(ascender, px, py) + ch]
        } else {
            0
        }
    }

    /// Executable [`Raster::value`].
    pub fn pixel(&self, cell: CellSize, px: u32, py: u32, ch: usize) -> (v: u8)
        requires
            self.sound(cell),
            px < cell.w,
            py < cell.h,
            ch < 3,
        ensures
            v == self.value(cell.ascender as int, px as int, py as int, ch as int),
    {
        if self.width <= 0 || self.rows <= 0 {
            return 0;
        }
        let x: i64 = px as i64 - self.left as i64;
        let y: i64 = py as i64 - (cell.ascender as i64 - self.top as i64);
        if x < 0 || y < 0 || x >= (self.width / 3) as i64 || y >= self.rows as i64 {
            return 0;
        }
        let (x, y): (usize, usize) = (x as usize, y as usize);
        let stride: usize = self.row_bytes() as usize;
        let n: usize = self.buffer.len();
        proof {
            assert(self.covers(cell.ascender as int, px as int, py as int));
            assert(y * stride >= 0) by (nonlinear_arith)
                requires
                    y >= 0,
                    stride >= 0,
            ;
            assert(y * stride + x * 3 + ch < n);
        }
        self.buffer[y * stride + x * 3 + ch]
    }
}

fn larger(a: i64, b: i64) -> (c: i64)
    ensures
        c == if a > b {
            a
        } else {
            b
        },
{
    if a > b {
        a
    } else {
        b
    }
}

fn smaller(a: i64, b: i64) -> (c: i64)
    ensures
        c == if a < b {
            a
        } else {
            b
        },
{
    if a < b {
        a
    } else {
        b
    }
}

// ---- Braille ----
/// The weight of dot `d` in the number of a pattern.
pub open spec fn dot_weight(d: int) -> int {
    if d == 0 {
        1
    } else if d == 1 {
        2
    } else if d == 2 {
        4
    } else if d == 3 {
        8
    } else if d == 4 {
        16
    } else if d == 5 {
        32
    } else if d == 6 {
        64
    } else {
        128
    }
}

/// Dot `d` is set in a pattern.
pub open spec fn dot_set(pattern: int, d: int) -> bool {
    (pattern / dot_weight(d)) % 2 == 1
}

/// The column and row of dot `d`: dots 0, 1, 2 and 6 are on the left, 3, 4, 5
/// and 7 on the right, from top to bottom.
pub fn dot_place(d: u8) -> (place: (usize, usize))
    requires
        d < 8,
    ensures
        place == match d {
            0 => (0usize, 0usize),
            1 => (0, 1),
            2 => (0, 2),
            3 => (1, 0),
            4 => (1, 1),
            5 => (1, 2),
            6 => (0, 3),
            _ => (1, 3),
        },
{
    match d {
        0 => (0, 0),
        1 => (0, 1),
        2 => (0, 2),
        3 => (1, 0),
        4 => (1, 1),
        5 => (1, 2),
        6 => (0, 3),
        _ => (1, 3),
    }
}

/// How each of the eight dots covers the pixels of a cell: for each dot, a
/// row of bytes for each row of pixels.
#[derive(Debug)]
pub struct Dots {
    pub w: u32,
    pub h: u32,
    pub coverage: Vec<u8>,
}

impl Dots {
    /// There is a byte for every pixel of every dot.
    pub open spec fn wf(self) -> bool {
        self.coverage@.len() == 8 * (self.w * self.h)
    }

    /// Whether there is a byte for every pixel of every dot of a cell of this
    /// size.
    pub fn fit(&self, cell: CellSize) -> (yes: bool)
        ensures
            yes == (self.wf() && self.w == cell.w && self.h == cell.h),
    {
        let n: usize = self.coverage.len();
        proof {
            assert(0 <= self.w * self.h <= 0xffff_ffff * 0xffff_ffff) by (nonlinear_arith)
                requires
                    0 <= self.w <= 0xffff_ffff,
                    0 <= self.h <= 0xffff_ffff,
            ;
        }
        n as u128 == 8 * (self.w as u128 * self.h as u128) && self.w == cell.w && self.h == cell.h
    }

    /// How dot `d` covers pixel `(px, py)`.
    pub open spec fn of(self, d: int, px: int, py: int) -> u8 {
        self.coverage@[d * (self.w * self.h) + py * self.w + px]
    }

    /// The most that any of the first `n` dots of a pattern covers pixel
    /// `(px, py)`.
    pub open spec fn most(self, pattern: int, px: int, py: int, n: int) -> u8
        decreases n,
    {
        if n <= 0 {
            0
        } else {
            let before = self.most(pattern, px, py, n - 1);
            if dot_set(pattern, n - 1) && self.of(n - 1, px, py) > before {
                self.of(n - 1, px, py)
            } else {
                before
            }
        }
    }

    /// Executable: how a pattern covers pixel `(px, py)`.
    pub fn pixel(&self, pattern: u32, px: u32, py: u32) -> (v: u8)
        requires
            self.wf(),
            px < self.w,
            py < self.h,
        ensures
            v == self.most(pattern as int, px as int, py as int, 8),
    {
        let n: usize = self.coverage.len();
        let ghost area = self.w * self.h;
        proof {
            assert(py * self.w + px < area && py * self.w >= 0) by (nonlinear_arith)
                requires
                    px < self.w,
                    py + 1 <= self.h,
                    py >= 0,
                    area == self.w * self.h,
            ;
        }
        let cell: usize = n / 8;
        assert(cell == area);
        assert(py * self.w <= usize::MAX);
        let at: usize = py as usize * self.w as usize + px as usize;
        let mut v: u8 = 0;
        let mut d: usize = 0;
        let mut weight: u32 = 1;
        let mut offset: usize = 0;
        while d < 8
            invariant
                d <= 8,
                self.wf(),
                n == self.coverage@.len() == 8 * area,
                area == self.w * self.h,
                cell == area,
                at == py * self.w + px,
                at < area,
                offset == d * cell,
                d < 8 ==> weight == dot_weight(d as int),
                weight > 0,
                weight <= 256,
                v == self.most(pattern as int, px as int, py as int, d as int),
            decreases 8 - d,
        {
            assert(offset + at < n) by (nonlinear_arith)
                requires
                    d <= 7,
                    offset == d * cell,
                    at < cell,
                    n == 8 * cell,
            ;
            assert(self.of(d as int, px as int, py as int) == self.coverage@[offset + at]);
            let covered: u8 = self.coverage[offset + at];
            if (pattern / weight) % 2 == 1 && covered > v {
                v = covered;
            }
            assert((d + 1) * cell == offset + cell) by (nonlinear_arith)
                requires
                    offset == d * cell,
            ;
            assert(offset + cell <= n) by (nonlinear_arith)
                requires
                    d <= 7,
                    offset == d * cell,
                    n == 8 * cell,
            ;
            offset = offset + cell;
            weight = if weight < 128 {
                weight * 2
            } else {
                weight
            };
            d = d + 1;
        }
        v
    }
}

/// The empty pattern has no ink.
pub proof fn law_empty_pattern_is_blank(dots: Dots, px: int, py: int, n: int)
    ensures
        dots.most(0, px, py, n) == 0,
    decreases n,
{
    if n > 0 {
        law_empty_pattern_is_blank(dots, px, py, n - 1);
        assert(0int / dot_weight(n - 1) == 0);
    }
}

/// A pattern with more dots has at least as much ink in every pixel.
pub proof fn law_more_dots_more_ink(dots: Dots, few: int, many: int, px: int, py: int, n: int)
    requires
        forall|d: int| 0 <= d < n && #[trigger] dot_set(few, d) ==> dot_set(many, d),
    ensures
        dots.most(few, px, py, n) <= dots.most(many, px, py, n),
    decreases n,
{
    if n > 0 {
        law_more_dots_more_ink(dots, few, many, px, py, n - 1);
    }
}

// ---- the sheet ----
/// The characters to draw: those that the font has, the fallback if it is not
/// among them, and the Braille Patterns.
pub open spec fn with_extras(covered: Seq<u32>) -> Seq<u32> {
    let base = if covered.contains(FALLBACK) {
        covered
    } else {
        covered.push(FALLBACK)
    };
    base + Seq::new(256, |i: int| (0x2800 + i) as u32)
}

/// Executable [`with_extras`].
pub fn all_codepoints(covered: Vec<u32>) -> (all: Vec<u32>)
    ensures
        all@ == with_extras(covered@),
{
    let mut all = covered;
    let mut found = false;
    let mut i: usize = 0;
    while i < all.len()
        invariant
            i <= all@.len(),
            all@ == covered@,
            found == exists|k: int| 0 <= k < i && all@[k] == FALLBACK,
        decreases all@.len() - i,
    {
        if all[i] == FALLBACK {
            found = true;
        }
        i = i + 1;
    }
    assert(found == covered@.contains(FALLBACK));
    if !found {
        all.push(FALLBACK);
    }
    let ghost base = all@;
    let mut cp: u32 = BRAILLE_FIRST;
    while cp <= BRAILLE_LAST
        invariant
            0x2800 <= cp <= 0x2900,
            all@ == base + Seq::new((cp - 0x2800) as nat, |i: int| (0x2800 + i) as u32),
        decreases 0x2900 - cp,
    {
        all.push(cp);
        cp = cp + 1;
        assert(all@ =~= base + Seq::new((cp - 0x2800) as nat, |i: int| (0x2800 + i) as u32));
    }
    all
}

/// Where each of the first `n` characters is. Of those that occur twice, the
/// later place counts.
pub open spec fn slots(codepoints: Seq<u32>, n: int) -> Map<u32, u32>
    decreases n,
{
    if n <= 0 {
        Map::empty()
    } else {
        slots(codepoints, n - 1).insert(codepoints[n - 1], (n - 1) as u32)
    }
}

/// The place of the fallback.
pub open spec fn fallback_of(codepoints: Seq<u32>, n: int) -> u32
    decreases n,
{
    if n <= 0 {
        0
    } else if codepoints[n - 1] == FALLBACK {
        (n - 1) as u32
    } else {
        fallback_of(codepoints, n - 1)
    }
}

/// Rows of glyphs that `n` glyphs take.
pub open spec fn glyph_rows(n: int) -> int {
    (n + 31) / 32
}

/// Channel `ch` of pixel `(px, py)` of a character.
pub open spec fn glyph_value(
    cp: u32,
    raster: Option<Raster>,
    cell: CellSize,
    dots: Dots,
    px: int,
    py: int,
    ch: int,
) -> u8 {
    if BRAILLE_FIRST <= cp <= BRAILLE_LAST {
        dots.most(cp - BRAILLE_FIRST, px, py, 8)
    } else {
        match raster {
            Some(r) => r.value(cell.ascender as int, px, py, ch),
            None => 0,
        }
    }
}

/// Byte `i` of the sheet: three for each pixel, row by row. The glyph of slot
/// `s` is in column `s % 32` and row `s / 32` of cells.
pub open spec fn sheet_byte(
    codepoints: Seq<u32>,
    rasters: Seq<Option<Raster>>,
    cell: CellSize,
    dots: Dots,
    i: int,
) -> u8 {
    let width = 32 * cell.w;
    let x = (i / 3) % width;
    let y = (i / 3) / width;
    let slot = (y / cell.h as int) * 32 + x / cell.w as int;
    if slot < codepoints.len() {
        glyph_value(
            codepoints[slot],
            rasters[slot],
            cell,
            dots,
            x % cell.w as int,
            y % cell.h as int,
            i % 3,
        )
    } else {
        0
    }
}

/// A sheet for `n` glyphs of this size has dimensions that can be counted.
pub open spec fn sheet_fits(n: int, cell: CellSize) -> bool {
    &&& n <= u32::MAX
    &&& 32 * cell.w <= u32::MAX
    &&& glyph_rows(n) * cell.h <= u32::MAX
    &&& (32 * cell.w) * (glyph_rows(n) * cell.h) * 3 <= usize::MAX
}

/// 2D glyph atlas with three bytes per pixel (red, green and blue coverage).
/// `locations` maps each known character to its slot; the glyph is in column
/// `slot % glyphs_per_row` and row `slot / glyphs_per_row` of cells.
#[derive(Debug)]
pub struct Atlas {
    pub pixels: Vec<u8>,
    pub width: u32,
    pub height: u32,
    pub cell_w: u32,
    pub cell_h: u32,
    pub glyphs_per_row: u32,
    pub locations: HashMap<u32, u32>,
    /// Slot to use when a character isn't in `locations`.
    pub fallback_slot: u32,
}

impl Atlas {
    /// This is the atlas of these characters and glyphs.
    pub open spec fn shows(
        self,
        codepoints: Seq<u32>,
        rasters: Seq<Option<Raster>>,
        cell: CellSize,
        dots: Dots,
    ) -> bool {
        let n = codepoints.len() as int;
        &&& self.cell_w == cell.w
        &&& self.cell_h == cell.h
        &&& self.glyphs_per_row == 32
        &&& self.width == 32 * cell.w
        &&& self.height == glyph_rows(n) * cell.h
        &&& self.locations@ == slots(codepoints, n)
        &&& self.fallback_slot == fallback_of(codepoints, n)
        &&& self.pixels@.len() == self.width * self.height * 3
        &&& forall|i: int|
            0 <= i < self.pixels@.len() ==> #[trigger] self.pixels@[i] == sheet_byte(
                codepoints,
                rasters,
                cell,
                dots,
                i,
            )
    }

    /// The slot of a character, or the fallback's.
    pub open spec fn slot_of(self, cp: u32) -> u32 {
        if self.locations@.contains_key(cp) {
            self.locations@[cp]
        } else {
            self.fallback_slot
        }
    }

    /// Executable [`Atlas::slot_of`].
    pub fn slot(&self, cp: u32) -> (slot: u32)
        ensures
            slot == self.slot_of(cp),
    {
        broadcast use vstd::std_specs::hash::group_hash_axioms;

        match self.locations.get(&cp) {
            Some(slot) => *slot,
            None => self.fallback_slot,
        }
    }
}

/// Every character that was drawn has a slot, and the slot is one of its places.
pub proof fn law_every_character_has_a_slot(codepoints: Seq<u32>, n: int, i: int)
    requires
        0 <= i < n <= codepoints.len(),
        n <= u32::MAX,
    ensures
        slots(codepoints, n).contains_key(codepoints[i]),
        slots(codepoints, n)[codepoints[i]] < n,
        codepoints[slots(codepoints, n)[codepoints[i]] as int] == codepoints[i],
    decreases n,
{
    if codepoints[n - 1] != codepoints[i] {
        law_every_character_has_a_slot(codepoints, n - 1, i);
    }
}

/// The fallback and all Braille Patterns have slots, whatever the font covers.
pub proof fn law_braille_needs_no_font(covered: Seq<u32>, cp: u32)
    requires
        covered.len() + 257 <= u32::MAX,
        cp == FALLBACK || BRAILLE_FIRST <= cp <= BRAILLE_LAST,
    ensures
        ({
            let all = with_extras(covered);
            let found = slots(all, all.len() as int);
            &&& found.contains_key(cp)
            &&& found[cp] < all.len()
            &&& all[found[cp] as int] == cp
        }),
{
    let all = with_extras(covered);
    let i = if cp == FALLBACK {
        if covered.contains(FALLBACK) {
            choose|i: int| 0 <= i < covered.len() && covered[i] == FALLBACK
        } else {
            covered.len() as int
        }
    } else {
        all.len() - 256 + (cp - 0x2800)
    };
    assert(all[i] == cp);
    law_every_character_has_a_slot(all, all.len() as int, i);
}

/// Where channel `ch` of pixel `(px, py)` of a slot is on the sheet.
pub open spec fn place_on_sheet(cell: CellSize, slot: int, px: int, py: int, ch: int) -> int {
    (((slot / 32) * cell.h + py) * (32 * cell.w) + ((slot % 32) * cell.w + px)) * 3 + ch
}

proof fn lemma_split(q: int, r: int, d: int)
    requires
        0 <= r < d,
    ensures
        (q * d + r) / d == q,
        (q * d + r) % d == r,
{
    vstd::arithmetic::div_mod::lemma_fundamental_div_mod_converse(q * d + r, d, q, r);
}

/// Each glyph is in its slot: the pixels of the cell in column `slot % 32` and
/// row `slot / 32` are those of the character.
pub proof fn law_glyph_is_in_its_slot(
    atlas: Atlas,
    codepoints: Seq<u32>,
    rasters: Seq<Option<Raster>>,
    cell: CellSize,
    dots: Dots,
    slot: int,
    px: int,
    py: int,
    ch: int,
)
    requires
        atlas.shows(codepoints, rasters, cell, dots),
        0 <= slot < codepoints.len(),
        0 <= px < cell.w,
        0 <= py < cell.h,
        0 <= ch < 3,
    ensures
        ({
            let i = place_on_sheet(cell, slot, px, py, ch);
            &&& 0 <= i < atlas.pixels@.len()
            &&& atlas.pixels@[i] == glyph_value(
                codepoints[slot],
                rasters[slot],
                cell,
                dots,
                px,
                py,
                ch,
            )
        }),
{
    let i = place_on_sheet(cell, slot, px, py, ch);
    let n = codepoints.len() as int;
    let width = 32 * cell.w;
    let x = (slot % 32) * cell.w + px;
    let y = (slot / 32) * cell.h + py;
    let t = y * width + x;
    assert(0 <= x < width) by (nonlinear_arith)
        requires
            x == (slot % 32) * cell.w + px,
            0 <= slot % 32 <= 31,
            0 <= px < cell.w,
            width == 32 * cell.w,
    ;
    assert(0 <= y < glyph_rows(n) * cell.h) by (nonlinear_arith)
        requires
            y == (slot / 32) * cell.h + py,
            0 <= slot / 32,
            slot / 32 + 1 <= glyph_rows(n),
            0 <= py < cell.h,
    ;
    let height = glyph_rows(n) * cell.h;
    assert(0 <= t < width * height) by (nonlinear_arith)
        requires
            t == y * width + x,
            0 <= x < width,
            0 <= y,
            y + 1 <= height,
    ;
    assert(t * 3 + ch < width * height * 3);
    assert(i / 3 == t && i % 3 == ch);
    lemma_split(y, x, width);
    lemma_split(slot % 32, px, cell.w as int);
    lemma_split(slot / 32, py, cell.h as int);
    assert(sheet_byte(codepoints, rasters, cell, dots, i) == glyph_value(
        codepoints[slot],
        rasters[slot],
        cell,
        dots,
        px,
        py,
        ch,
    ));
}

/// The rasters can be drawn from, in cells of this size.
pub open spec fn all_sound(rasters: Seq<Option<Raster>>, cell: CellSize) -> bool {
    forall|i: int|
        0 <= i < rasters.len() ==> match #[trigger] rasters[i] {
            Some(r) => r.sound(cell),
            None => true,
        }
}

fn make_slots(codepoints: &Vec<u32>) -> (found: (HashMap<u32, u32>, u32))
    requires
        codepoints@.len() <= u32::MAX,
    ensures
        found.0@ == slots(codepoints@, codepoints@.len() as int),
        found.1 == fallback_of(codepoints@, codepoints@.len() as int),
{
    broadcast use vstd::std_specs::hash::group_hash_axioms;

    let mut locations: HashMap<u32, u32> = HashMap::new();
    let mut fallback: u32 = 0;
    let mut i: usize = 0;
    while i < codepoints.len()
        invariant
            i <= codepoints@.len() <= u32::MAX,
            locations@ == slots(codepoints@, i as int),
            fallback == fallback_of(codepoints@, i as int),
        decreases codepoints@.len() - i,
    {
        let cp: u32 = codepoints[i];
        if cp == FALLBACK {
            fallback = i as u32;
        }
        locations.insert(cp, i as u32);
        i = i + 1;
    }
    (locations, fallback)
}

/// Lay out the glyphs on a sheet. None if it would be too large to count its
/// pixels.
pub fn compose(
    codepoints: &Vec<u32>,
    rasters: &Vec<Option<Raster>>,
    cell: CellSize,
    dots: &Dots,
) -> (atlas: Option<Atlas>)
    requires
        codepoints@.len() == rasters@.len(),
        all_sound(rasters@, cell),
        cell.w > 0,
        cell.h > 0,
        dots.wf(),
        dots.w == cell.w,
        dots.h == cell.h,
    ensures
        match atlas {
            Some(a) => sheet_fits(codepoints@.len() as int, cell) && a.shows(
                codepoints@,
                rasters@,
                cell,
                *dots,
            ),
            None => !sheet_fits(codepoints@.len() as int, cell),
        },
{
    let n: usize = codepoints.len();
    if n as u64 > 0xffff_ffff {
        return None;
    }
    let rows: u64 = (n as u64 + 31) / 32;
    let width: u64 = 32 * (cell.w as u64);
    assert(rows == glyph_rows(n as int));
    let height: u64 = match rows.checked_mul(cell.h as u64) {
        Some(height) => height,
        None => {
            return None;
        },
    };
    if width > 0xffff_ffff || height > 0xffff_ffff {
        return None;
    }
    let total: usize = match (width as usize).checked_mul(height as usize) {
        Some(area) => match area.checked_mul(3) {
            Some(total) => total,
            None => {
                return None;
            },
        },
        None => {
            proof {
                assert(width * height * 3 > usize::MAX) by (nonlinear_arith)
                    requires
                        width * height > usize::MAX,
                ;
            }
            return None;
        },
    };
    let (locations, fallback_slot) = make_slots(codepoints);
    let mut pixels: Vec<u8> = Vec::new();
    let mut i: usize = 0;
    while i < total
        invariant
            i <= total,
            total == width * height * 3,
            width == 32 * cell.w,
            cell.w > 0,
            cell.h > 0,
            width <= 0xffff_ffff,
            height <= 0xffff_ffff,
            n == codepoints@.len() == rasters@.len(),
            all_sound(rasters@, cell),
            dots.wf(),
            dots.w == cell.w,
            dots.h == cell.h,
            pixels@.len() == i,
            forall|k: int|
                0 <= k < i ==> #[trigger] pixels@[k] == sheet_byte(
                    codepoints@,
                    rasters@,
                    cell,
                    *dots,
                    k,
                ),
        decreases total - i,
    {
        let t: u64 = (i / 3) as u64;
        proof {
            let area = width * height;
            assert(t < area);
            assert(t as int / (width as int) < height) by (nonlinear_arith)
                requires
                    t < area,
                    area == width * height,
                    width > 0,
            ;
        }
        let x: u64 = t % width;
        let y: u64 = t / width;
        let slot: u64 = (y / (cell.h as u64)) * 32 + x / (cell.w as u64);
        let v: u8 = if slot < n as u64 {
            let cp: u32 = codepoints[slot as usize];
            let px: u32 = (x % (cell.w as u64)) as u32;
            let py: u32 = (y % (cell.h as u64)) as u32;
            if BRAILLE_FIRST <= cp && cp <= BRAILLE_LAST {
                dots.pixel(cp - BRAILLE_FIRST, px, py)
            } else {
                match &rasters[slot as usize] {
                    Some(r) => r.pixel(cell, px, py, i % 3),
                    None => 0,
                }
            }
        } else {
            0
        };
        pixels.push(v);
        i = i + 1;
    }
    Some(
        Atlas {
            pixels,
            width: width as u32,
            height: height as u32,
            cell_w: cell.w,
            cell_h: cell.h,
            glyphs_per_row: GLYPHS_PER_ROW,
            locations,
            fallback_slot,
        },
    )
}

// ---- laws of the sheet ----
/// A glyph's pixel in column `x` and row `y` of its bitmap is drawn `left` pixels
/// to the right of the cell's edge and `top` above the baseline; what is drawn
/// is channel by channel what the bitmap holds there.
pub proof fn law_bitmap_is_drawn_at_its_place(r: Raster, ascender: int, x: int, y: int, ch: int)
    requires
        0 <= x,
        3 * x + 3 <= r.width,
        0 <= y < r.rows,
    ensures
        r.value(ascender, r.left + x, ascender - r.top + y, ch) == r.buffer@[y * (if r.pitch < 0 {
            -r.pitch
        } else {
            r.pitch as int
        }) + 3 * x + ch],
{
    assert(r.covers(ascender, r.left + x, ascender - r.top + y));
}

/// Beside the bitmap nothing is drawn.
pub proof fn law_nothing_is_drawn_beside_the_bitmap(
    r: Raster,
    ascender: int,
    px: int,
    py: int,
    ch: int,
)
    requires
        px < r.left || 3 * (px - r.left) + 3 > r.width || py < ascender - r.top || py >= ascender
            - r.top + r.rows,
    ensures
        r.value(ascender, px, py, ch) == 0,
{
}

/// Each dot weighs twice the one before, the first 1.
pub proof fn law_dots_weigh_twice_as_much(d: int)
    requires
        0 <= d < 7,
    ensures
        dot_weight(0) == 1,
        dot_weight(d + 1) == 2 * dot_weight(d),
{
}

/// What is set in a pattern of one dot is that dot.
pub proof fn law_one_dot(d: int, other: int)
    requires
        0 <= d < 8,
        0 <= other < 8,
    ensures
        dot_set(dot_weight(d), other) == (d == other),
        dot_set(255, d),
{
}

/// The dots' coverages come one after the other, each row by row.
pub proof fn law_dots_are_laid_out_in_rows(dots: Dots, d: int, px: int, py: int)
    ensures
        dots.of(d, px, py) == dots.coverage@[(d * dots.h + py) * dots.w + px],
{
    assert((d * dots.h + py) * dots.w == d * (dots.w * dots.h) + py * dots.w) by (nonlinear_arith);
}

/// A pattern covers a pixel as much as the dot does, of those set, that covers
/// it most.
pub proof fn law_pattern_covers_as_its_dots(dots: Dots, pattern: int, px: int, py: int, n: int)
    requires
        0 <= n,
    ensures
        forall|d: int|
            0 <= d < n && #[trigger] dot_set(pattern, d) ==> dots.of(d, px, py) <= dots.most(
                pattern,
                px,
                py,
                n,
            ),
        dots.most(pattern, px, py, n) == 0 || exists|d: int|
            0 <= d < n && #[trigger] dot_set(pattern, d) && dots.of(d, px, py) == dots.most(
                pattern,
                px,
                py,
                n,
            ),
    decreases n,
{
    if n > 0 {
        law_pattern_covers_as_its_dots(dots, pattern, px, py, n - 1);
        let before = dots.most(pattern, px, py, n - 1);
        if !(dot_set(pattern, n - 1) && dots.of(n - 1, px, py) > before) && before != 0 {
            let d = choose|d: int|
                0 <= d < n - 1 && #[trigger] dot_set(pattern, d) && dots.of(d, px, py) == before;
            assert(dot_set(pattern, d));
        }
    }
}

/// The characters on the sheet are those that the font has, in their order, then
/// the fallback unless it was among them, then the Braille Patterns in theirs.
pub proof fn law_characters_on_the_sheet(covered: Seq<u32>)
    ensures
        ({
            let all = with_extras(covered);
            let m = all.len() - 256;
            &&& all.take(covered.len() as int) == covered
            &&& m == covered.len() <==> covered.contains(0x3fu32)
            &&& m == covered.len() + 1 <==> !covered.contains(0x3fu32)
            &&& m > covered.len() ==> all[covered.len() as int] == 0x3f
            &&& forall|i: int| 0 <= i < 256 ==> #[trigger] all[m + i] == 0x2800 + i
        }),
{
    assert(with_extras(covered).take(covered.len() as int) =~= covered);
}

/// Of the places of a character the last one is its slot, and what was not drawn
/// has none.
pub proof fn law_last_place_is_the_slot(codepoints: Seq<u32>, n: int, cp: u32)
    requires
        0 <= n <= codepoints.len(),
        n <= u32::MAX,
    ensures
        slots(codepoints, n).contains_key(cp) == codepoints.take(n).contains(cp),
        slots(codepoints, n).contains_key(cp) ==> {
            let slot = slots(codepoints, n)[cp] as int;
            &&& 0 <= slot < n && codepoints[slot] == cp
            &&& forall|j: int| slot < j < n ==> codepoints[j] != cp
        },
    decreases n,
{
    if n > 0 {
        law_last_place_is_the_slot(codepoints, n - 1, cp);
        let (less, more) = (codepoints.take(n - 1), codepoints.take(n));
        assert(more[n - 1] == codepoints[n - 1]);
        if less.contains(cp) {
            let k = choose|k: int| 0 <= k < less.len() && less[k] == cp;
            assert(more[k] == cp);
        }
        if more.contains(cp) && codepoints[n - 1] != cp {
            let k = choose|k: int| 0 <= k < more.len() && more[k] == cp;
            assert(less[k] == cp);
        }
    }
}

/// The fallback's slot is the slot of the question mark.
pub proof fn law_fallback_is_the_question_mark(codepoints: Seq<u32>, n: int)
    requires
        0 <= n <= codepoints.len(),
        n <= u32::MAX,
    ensures
        slots(codepoints, n).contains_key('?' as u32) ==> fallback_of(codepoints, n) == slots(
            codepoints,
            n,
        )['?' as u32],
        !slots(codepoints, n).contains_key('?' as u32) ==> fallback_of(codepoints, n) == 0,
    decreases n,
{
    if n > 0 {
        law_fallback_is_the_question_mark(codepoints, n - 1);
    }
}

/// There are as many rows of 32 glyphs as are needed, and no more.
pub proof fn law_rows_hold_the_glyphs(n: int)
    requires
        0 <= n,
    ensures
        32 * (glyph_rows(n) - 1) < n <= 32 * glyph_rows(n),
{
}

/// A character that is no Braille Pattern is drawn as the font has it, and is
/// blank where the font has no glyph. The three channels of a Braille Pattern
/// are the same.
pub proof fn law_glyphs_come_from_the_font(
    cp: u32,
    r: Raster,
    cell: CellSize,
    dots: Dots,
    px: int,
    py: int,
    ch: int,
)
    ensures
        !(0x2800 <= cp <= 0x28ff) ==> {
            &&& glyph_value(cp, Some(r), cell, dots, px, py, ch) == r.value(
                cell.ascender as int,
                px,
                py,
                ch,
            )
            &&& glyph_value(cp, None, cell, dots, px, py, ch) == 0
        },
        0x2800 <= cp <= 0x28ff ==> {
            &&& glyph_value(cp, Some(r), cell, dots, px, py, ch) == dots.most(
                cp - 0x2800,
                px,
                py,
                8,
            )
            &&& glyph_value(cp, None, cell, dots, px, py, ch) == glyph_value(
                cp,
                Some(r),
                cell,
                dots,
                px,
                py,
                0,
            )
        },
{
}

} // verus!
