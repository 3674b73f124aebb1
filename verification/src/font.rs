//! Fonts: which ones there are, and the atlas of one of them.
use vstd::prelude::*;
use freetype::face::LoadFlag;
use freetype::{Face, Library};
use crate::atlas::{all_codepoints, compose, Atlas, CellSize, Dots, Raster};
use crate::atlas::{BRAILLE_FIRST, BRAILLE_LAST};
use crate::atlas;
use crate::text::{chars_of, is_text};

verus! {

/// The path that stands for the font that comes with the program.
pub const EMBEDDED_FONT_PATH: &'static str = ":embedded:JetBrainsMono-Regular:";

/// Why there is no atlas or no family name.
#[derive(Clone, Copy, Debug, PartialEq, Eq, Structural)]
pub enum FontError {
    /// FreeType could not be started.
    Init,
    /// The bytes are not a font that FreeType can open.
    Open,
    /// The font cannot be had in this size.
    Size,
    /// The font reports no metrics.
    NoMetrics,
    /// The font reports no family name.
    NoFamily,
    /// The dots do not fit the font's cells.
    BadDots,
    /// A glyph has pixels in its cell that its bitmap does not hold.
    BadBitmap,
    /// The sheet would have too many pixels to count.
    TooLarge,
}

/// A font's metrics, in 64ths of a pixel.
#[derive(Clone, Copy, Debug, PartialEq, Eq, Structural)]
pub struct Metrics {
    pub ascender: i64,
    pub height: i64,
    pub max_advance: i64,
}

// ---- FreeType ----
/// `freetype::Library`.
#[verifier::external_type_specification]
#[verifier::external_body]
pub struct ExLibrary(Library);

/// `freetype::Face`, an open font.
#[verifier::external_type_specification]
#[verifier::external_body]
#[verifier::reject_recursive_types(BYTES)]
pub struct ExFace<BYTES>(freetype::face::Face<BYTES>);

/// `freetype::Error`.
#[verifier::external_type_specification]
#[verifier::external_body]
pub struct ExFtError(freetype::Error);

/// `works` is something that `freetype::Library::init` may say of whether
/// FreeType can be started.
pub uninterp spec fn init_reply(works: bool) -> bool;

/// `works` is something that `freetype::Library::new_memory_face` may say of
/// whether a font can be opened.
pub uninterp spec fn open_reply(font: Seq<u8>, works: bool) -> bool;

/// `works` is something that `freetype::Face::set_pixel_sizes` may say of
/// whether a font can be had in some size.
pub uninterp spec fn size_reply(font: Seq<u8>, pixels: u32, works: bool) -> bool;

/// The bytes that a face was opened with.
pub uninterp spec fn face_font(face: Face) -> Seq<u8>;

/// The size in pixels that a face was set to.
pub uninterp spec fn face_pixels(face: Face) -> u32;

/// `reply` is something that `freetype::Face::size_metrics` may say of a font in
/// some size. What it says depends on the FreeType that the program runs with,
/// so that there may be several.
pub uninterp spec fn metrics_reply(font: Seq<u8>, pixels: u32, reply: Option<Metrics>) -> bool;

/// `reply` is something that `freetype::Face::get_char_index` may say of whether
/// a font has a glyph for a character.
pub uninterp spec fn coverage_reply(font: Seq<u8>, cp: u32, reply: bool) -> bool;

/// `reply` is something that `freetype::Face::load_char` may make of a character
/// of a font in some size.
pub uninterp spec fn render_reply(
    font: Seq<u8>,
    pixels: u32,
    cp: u32,
    reply: Option<Raster>,
) -> bool;

/// `reply` is something that `freetype::Face::family_name` may say of a font.
pub uninterp spec fn family_reply(font: Seq<u8>, reply: Option<Seq<char>>) -> bool;

/// `freetype::Library::init`. Whether it works depends on the machine.
#[verifier::external_body]
fn start_library() -> (library: Result<Library, freetype::Error>)
    ensures
        init_reply(library is Ok),
{
    Library::init()
}

/// `freetype::Library::new_memory_face`: the first face in the bytes. Whether
/// FreeType can open them depends on how it was built.
#[verifier::external_body]
fn open_face(library: &Library, font: Vec<u8>) -> (face: Result<Face, freetype::Error>)
    ensures
        open_reply(font@, face is Ok),
        face matches Ok(f) ==> face_font(f) == font@,
{
    library.new_memory_face(font, 0)
}

/// `freetype::Face::set_pixel_sizes`, with a width that follows from the height.
/// It changes the size and not the font; a bitmap font may not have the size.
#[verifier::external_body]
fn sized(face: Face, pixels: u32) -> (sized: Result<Face, freetype::Error>)
    ensures
        size_reply(face_font(face), pixels, sized is Ok),
        sized matches Ok(f) ==> face_font(f) == face_font(face) && face_pixels(f) == pixels,
{
    match face.set_pixel_sizes(0, pixels) {
        Ok(()) => Ok(face),
        Err(e) => Err(e),
    }
}

/// `freetype::Face::size_metrics`: what FreeType says of this font in this size.
#[verifier::external_body]
fn metrics_of(face: &Face) -> (metrics: Option<Metrics>)
    ensures
        metrics_reply(face_font(*face), face_pixels(*face), metrics),
{
    match face.size_metrics() {
        Some(m) => Some(
            Metrics {
                ascender: m.ascender as i64,
                height: m.height as i64,
                max_advance: m.max_advance as i64,
            },
        ),
        None => None,
    }
}

/// `freetype::Face::get_char_index`: whether FreeType finds a glyph for this
/// character in this font.
#[verifier::external_body]
fn covers(face: &Face, cp: u32) -> (yes: bool)
    ensures
        coverage_reply(face_font(*face), cp, yes),
{
    face.get_char_index(cp as usize).is_some()
}

/// `freetype::Face::load_char` for an LCD, and the bitmap that it leaves in the
/// face: what FreeType makes of this character of this font in this size. None
/// where it fails. That the rows are within the pixels is not claimed.
#[verifier::external_body]
fn render(face: &Face, cp: u32) -> (raster: Option<Raster>)
    ensures
        render_reply(face_font(*face), face_pixels(*face), cp, raster),
{
    match face.load_char(cp as usize, LoadFlag::TARGET_LCD | LoadFlag::RENDER) {
        Ok(()) => Some(
            Raster {
                width: face.glyph().bitmap().width(),
                rows: face.glyph().bitmap().rows(),
                pitch: face.glyph().bitmap().pitch(),
                left: face.glyph().bitmap_left(),
                top: face.glyph().bitmap_top(),
                buffer: face.glyph().bitmap().buffer().to_vec(),
            },
        ),
        Err(_) => None,
    }
}

/// `freetype::Face::family_name`: what FreeType says of this font.
#[verifier::external_body]
fn family_of(face: &Face) -> (name: Option<String>)
    ensures
        family_reply(
            face_font(*face),
            match name {
                Some(n) => Some(n@),
                None => None,
            },
        ),
{
    face.family_name()
}

/// FreeType can be started and can open the font.
pub open spec fn opens(font: Seq<u8>) -> bool {
    init_reply(true) && open_reply(font, true)
}

/// This is why a font was not opened.
pub open spec fn is_not_opened(font: Seq<u8>, e: FontError) -> bool {
    match e {
        FontError::Init => init_reply(false),
        FontError::Open => init_reply(true) && open_reply(font, false),
        _ => false,
    }
}

fn open(font: Vec<u8>) -> (face: Result<Face, FontError>)
    ensures
        match face {
            Ok(f) => opens(font@) && face_font(f) == font@,
            Err(e) => is_not_opened(font@, e),
        },
{
    let library = match start_library() {
        Ok(library) => library,
        Err(_) => {
            return Err(FontError::Init);
        },
    };
    match open_face(&library, font) {
        Ok(face) => Ok(face),
        Err(_) => Err(FontError::Open),
    }
}

/// The font's family name as FreeType reports it.
pub fn family_name(font: Vec<u8>) -> (name: Result<String, FontError>)
    ensures
        match name {
            Ok(n) => opens(font@) && family_reply(font@, Some(n@)),
            Err(FontError::NoFamily) => opens(font@) && family_reply(font@, None),
            Err(e) => is_not_opened(font@, e),
        },
{
    let face = match open(font) {
        Ok(face) => face,
        Err(e) => {
            return Err(e);
        },
    };
    match family_of(&face) {
        Some(name) => Ok(name),
        None => Err(FontError::NoFamily),
    }
}

// ---- which fonts there are ----
/// The texts of pairs.
pub open spec fn pairs_of(pairs: Seq<(&'static str, &'static str)>) -> Seq<(Seq<char>, Seq<char>)> {
    Seq::new(pairs.len(), |i: int| (pairs[i].0@, pairs[i].1@))
}

/// The monospace fonts that the program knows how to find: display name and
/// path, in the order of the names.
pub open spec fn candidates() -> Seq<(Seq<char>, Seq<char>)> {
    seq![
        ("DejaVu Sans Mono"@, "/usr/share/fonts/dejavu-sans-mono-fonts/DejaVuSansMono.ttf"@),
        ("DejaVu Sans Mono"@, "/usr/share/fonts/dejavu/DejaVuSansMono.ttf"@),
        ("DejaVu Sans Mono"@, "/usr/share/fonts/TTF/DejaVuSansMono.ttf"@),
        ("Liberation Mono"@, "/usr/share/fonts/liberation-mono/LiberationMono-Regular.ttf"@),
        ("Liberation Mono"@, "/usr/share/fonts/liberation/LiberationMono-Regular.ttf"@),
        ("Menlo"@, "/Library/Fonts/Menlo.ttc"@),
        ("Menlo"@, "/System/Library/Fonts/Menlo.ttc"@),
        ("Noto Mono"@, "/usr/share/fonts/google-noto-mono/NotoMono-Regular.ttf"@),
        ("Noto Sans Mono"@, "/usr/share/fonts/google-noto/NotoSansMono-Regular.ttf"@),
    ]
}

/// Executable [`candidates`].
pub fn font_candidates() -> (list: Vec<(&'static str, &'static str)>)
    ensures
        pairs_of(list@) == candidates(),
{
    let list = vec![
        ("DejaVu Sans Mono", "/usr/share/fonts/dejavu-sans-mono-fonts/DejaVuSansMono.ttf"),
        ("DejaVu Sans Mono", "/usr/share/fonts/dejavu/DejaVuSansMono.ttf"),
        ("DejaVu Sans Mono", "/usr/share/fonts/TTF/DejaVuSansMono.ttf"),
        ("Liberation Mono", "/usr/share/fonts/liberation-mono/LiberationMono-Regular.ttf"),
        ("Liberation Mono", "/usr/share/fonts/liberation/LiberationMono-Regular.ttf"),
        ("Menlo", "/Library/Fonts/Menlo.ttc"),
        ("Menlo", "/System/Library/Fonts/Menlo.ttc"),
        ("Noto Mono", "/usr/share/fonts/google-noto-mono/NotoMono-Regular.ttf"),
        ("Noto Sans Mono", "/usr/share/fonts/google-noto/NotoSansMono-Regular.ttf"),
    ];
    assert(pairs_of(list@) =~= candidates());
    list
}

/// A font of this name is in the list.
pub open spec fn has_name(fonts: Seq<(Seq<char>, Seq<char>)>, name: Seq<char>) -> bool {
    exists|k: int| 0 <= k < fonts.len() && (#[trigger] fonts[k]).0 == name
}

/// Of the first `n` candidates, those that are found, and of each name only the
/// first.
pub open spec fn available(found: Seq<bool>, n: int) -> Seq<(Seq<char>, Seq<char>)>
    decreases n,
{
    if n <= 0 {
        seq![]
    } else {
        let before = available(found, n - 1);
        if found[n - 1] && !has_name(before, candidates()[n - 1].0) {
            before.push(candidates()[n - 1])
        } else {
            before
        }
    }
}

/// Every candidate font that is found, the first of each display name. `found`
/// says for each of [`font_candidates`] whether its file exists.
pub fn available_monospace_fonts(found: &Vec<bool>) -> (fonts: Vec<(&'static str, &'static str)>)
    requires
        found@.len() == candidates().len(),
    ensures
        pairs_of(fonts@) == available(found@, candidates().len() as int),
{
    let list = font_candidates();
    assert(list@.len() == pairs_of(list@).len());
    let mut fonts: Vec<(&'static str, &'static str)> = Vec::new();
    assert(pairs_of(fonts@) =~= seq![]);
    let mut i: usize = 0;
    while i < list.len()
        invariant
            i <= list@.len(),
            pairs_of(list@) == candidates(),
            list@.len() == candidates().len() == found@.len(),
            pairs_of(fonts@) == available(found@, i as int),
        decreases list@.len() - i,
    {
        let ghost before = pairs_of(fonts@);
        assert(pairs_of(list@)[i as int] == candidates()[i as int]);
        let name = chars_of(list[i].0);
        let mut known = false;
        let mut k: usize = 0;
        while k < fonts.len()
            invariant
                k <= fonts@.len(),
                before == pairs_of(fonts@),
                known == exists|j: int| 0 <= j < k && (#[trigger] before[j]).0 == name@,
            decreases fonts@.len() - k,
        {
            assert(before[k as int].0 == fonts@[k as int].0@);
            if is_text(name.as_slice(), fonts[k].0) {
                known = true;
            }
            k = k + 1;
        }
        assert(known == has_name(before, name@));
        if found[i] && !known {
            fonts.push(list[i]);
            assert(pairs_of(fonts@) =~= before.push(candidates()[i as int]));
        }
        i = i + 1;
    }
    fonts
}

/// No two fonts on offer have the same name.
pub proof fn law_offered_names_differ(found: Seq<bool>, n: int, i: int, j: int)
    requires
        n <= candidates().len(),
        0 <= i < j < available(found, n).len(),
    ensures
        available(found, n)[i].0 != available(found, n)[j].0,
    decreases n,
{
    if n > 0 {
        let before = available(found, n - 1);
        if j < before.len() {
            law_offered_names_differ(found, n - 1, i, j);
        } else {
            assert(available(found, n)[i] == before[i]);
        }
    }
}

/// The font to start with: the embedded one. It is always there.
pub fn locate_monospace_font() -> (path: Result<&'static str, FontError>)
    ensures
        path == Ok::<&'static str, FontError>(EMBEDDED_FONT_PATH),
        path->Ok_0@ == ":embedded:JetBrainsMono-Regular:"@,
{
    Ok(EMBEDDED_FONT_PATH)
}

/// Whether a path stands for the embedded font.
pub fn is_embedded(path: &str) -> (yes: bool)
    ensures
        yes == (path@ == EMBEDDED_FONT_PATH@),
        yes == (path@ == ":embedded:JetBrainsMono-Regular:"@),
{
    let chars = chars_of(path);
    is_text(chars.as_slice(), EMBEDDED_FONT_PATH)
}

// ---- the atlas ----
/// Characters that terminal programs commonly use, first and last of each
/// range. ASCII comes first, so that the fallback has an early slot.
pub open spec fn common_ranges() -> Seq<(u32, u32)> {
    seq![
        (0x0020, 0x007E),
        (0x00A0, 0x00FF),
        (0x0370, 0x03FF),
        (0x2010, 0x2027),
        (0x2190, 0x21FF),
        (0x2200, 0x22FF),
        (0x2300, 0x23FF),
        (0x2400, 0x243F),
        (0x2500, 0x257F),
        (0x2580, 0x259F),
        (0x25A0, 0x25FF),
        (0x2600, 0x26FF),
        (0x2700, 0x27BF),
    ]
}

/// Executable [`common_ranges`].
pub fn default_ranges() -> (ranges: Vec<(u32, u32)>)
    ensures
        ranges@ == common_ranges(),
{
    let ranges: Vec<(u32, u32)> = vec![
        (0x0020, 0x007E),  // ASCII printable
        (0x00A0, 0x00FF),  // Latin-1 supplement
        (0x0370, 0x03FF),  // Greek
        (0x2010, 0x2027),  // general punctuation
        (0x2190, 0x21FF),  // arrows
        (0x2200, 0x22FF),  // mathematical operators
        (0x2300, 0x23FF),  // miscellaneous technical, with the scan lines
        (0x2400, 0x243F),  // control pictures
        (0x2500, 0x257F),  // box drawing
        (0x2580, 0x259F),  // block elements
        (0x25A0, 0x25FF),  // geometric shapes
        (0x2600, 0x26FF),  // miscellaneous symbols
        (0x2700, 0x27BF),  // dingbats
    ];
    assert(ranges@ =~= common_ranges());
    ranges
}

/// The characters from `first` to `last`.
pub open spec fn span(first: u32, last: u32) -> Seq<u32> {
    if first <= last {
        Seq::new((last - first + 1) as nat, |i: int| (first + i) as u32)
    } else {
        seq![]
    }
}

/// The characters of the first `n` ranges.
pub open spec fn listing(ranges: Seq<(u32, u32)>, n: int) -> Seq<u32>
    decreases n,
{
    if n <= 0 {
        seq![]
    } else {
        listing(ranges, n - 1) + span(ranges[n - 1].0, ranges[n - 1].1)
    }
}

/// The characters for which the reply is yes.
pub open spec fn kept(cps: Seq<u32>, replies: Seq<bool>) -> Seq<u32>
    decreases cps.len(),
{
    if cps.len() == 0 {
        seq![]
    } else {
        let before = kept(cps.drop_last(), replies.drop_last());
        if replies.last() {
            before.push(cps.last())
        } else {
            before
        }
    }
}

/// These are replies to whether the font has these characters.
pub open spec fn coverage_replies(font: Seq<u8>, cps: Seq<u32>, replies: Seq<bool>) -> bool {
    &&& replies.len() == cps.len()
    &&& forall|i: int|
        0 <= i < cps.len() ==> coverage_reply(font, cps[i], #[trigger] replies[i])
}

/// These are the glyphs of these characters; those of the Braille Patterns are
/// not asked for.
pub open spec fn render_replies(
    font: Seq<u8>,
    pixels: u32,
    cps: Seq<u32>,
    rasters: Seq<Option<Raster>>,
) -> bool {
    &&& rasters.len() == cps.len()
    &&& forall|i: int|
        0 <= i < cps.len() ==> if BRAILLE_FIRST <= cps[i] <= BRAILLE_LAST {
            #[trigger] rasters[i] is None
        } else {
            render_reply(font, pixels, cps[i], rasters[i])
        }
}

/// A length in 64ths of a pixel, in whole pixels. As a width or a height it is
/// taken as a 32-bit number, and is 1 where that is 0.
pub open spec fn whole(length: i64) -> int {
    length as int / 64
}

/// The cell that fits every glyph: as wide as the widest, and as high as the
/// lines are apart.
pub open spec fn cell_of(m: Metrics) -> CellSize {
    let w = whole(m.max_advance) as u32;
    let h = whole(m.height) as u32;
    CellSize {
        w: if w == 0 {
            1
        } else {
            w
        },
        h: if h == 0 {
            1
        } else {
            h
        },
        ascender: whole(m.ascender) as i32,
    }
}

fn whole_pixels(length: i64) -> (pixels: i64)
    ensures
        pixels == whole(length),
{
    if length >= 0 {
        length / 64
    } else {
        let size: u64 = (-(length as i128)) as u64;
        -(((size / 64) + if size % 64 == 0 {
            0u64
        } else {
            1u64
        }) as i64)
    }
}

/// Executable [`cell_of`].
pub fn cell_size(m: Metrics) -> (cell: CellSize)
    ensures
        cell == cell_of(m),
        cell.w > 0,
        cell.h > 0,
{
    #[verifier::truncate]
    let w: u32 = whole_pixels(m.max_advance) as u32;
    #[verifier::truncate]
    let h: u32 = whole_pixels(m.height) as u32;
    #[verifier::truncate]
    let ascender: i32 = whole_pixels(m.ascender) as i32;
    CellSize {
        w: if w == 0 {
            1
        } else {
            w
        },
        h: if h == 0 {
            1
        } else {
            h
        },
        ascender,
    }
}

/// The characters of the ranges that the font has.
fn covered(face: &Face, ranges: &[(u32, u32)]) -> (cps: Vec<u32>)
    ensures
        exists|replies: Seq<bool>|
            coverage_replies(face_font(*face), listing(ranges@, ranges@.len() as int), replies)
                && cps@ == kept(listing(ranges@, ranges@.len() as int), replies),
{
    let mut cps: Vec<u32> = Vec::new();
    let ghost font = face_font(*face);
    let ghost mut replies: Seq<bool> = seq![];
    let mut i: usize = 0;
    while i < ranges.len()
        invariant
            i <= ranges@.len(),
            font == face_font(*face),
            coverage_replies(font, listing(ranges@, i as int), replies),
            cps@ == kept(listing(ranges@, i as int), replies),
        decreases ranges@.len() - i,
    {
        let (first, last): (u32, u32) = ranges[i];
        let ghost before = listing(ranges@, i as int);
        let ghost mut asked: Seq<u32> = seq![];
        assert(before + asked =~= before);
        let mut cp: u64 = first as u64;
        while cp <= last as u64
            invariant
                first <= cp,
                cp <= last + 1 || (first > last && cp == first),
                font == face_font(*face),
                asked == Seq::new((cp - first) as nat, |k: int| (first + k) as u32),
                coverage_replies(font, before + asked, replies),
                cps@ == kept(before + asked, replies),
            decreases last + 1 - cp,
        {
            let yes = covers(face, cp as u32);
            if yes {
                cps.push(cp as u32);
            }
            proof {
                let more = asked.push(cp as u32);
                assert((before + more).drop_last() =~= before + asked);
                assert(replies.push(yes).drop_last() =~= replies);
                assert forall|k: int| 0 <= k < (before + more).len() implies coverage_reply(
                    font,
                    (before + more)[k],
                    #[trigger] replies.push(yes)[k],
                ) by {
                    if k < replies.len() {
                        assert(replies[k] == replies.push(yes)[k]);
                        assert((before + asked)[k] == (before + more)[k]);
                    }
                }
                asked = more;
                replies = replies.push(yes);
            }
            cp = cp + 1;
            assert(asked =~= Seq::new((cp - first) as nat, |k: int| (first + k) as u32));
        }
        assert(asked =~= span(first, last));
        i = i + 1;
    }
    cps
}

/// The glyph of character `i` may be one that cannot be drawn from.
pub open spec fn is_bad_glyph(
    font: Seq<u8>,
    pixels: u32,
    cps: Seq<u32>,
    cell: CellSize,
    i: int,
    glyph: Raster,
) -> bool {
    &&& 0 <= i < cps.len()
    &&& !(BRAILLE_FIRST <= cps[i] <= BRAILLE_LAST)
    &&& render_reply(font, pixels, cps[i], Some(glyph))
    &&& !glyph.sound(cell)
}

/// The glyphs of these characters, for cells of this size.
fn rasters_of(face: &Face, cps: &Vec<u32>, cell: CellSize) -> (rasters: Result<
    Vec<Option<Raster>>,
    FontError,
>)
    ensures
        match rasters {
            Ok(r) => render_replies(face_font(*face), face_pixels(*face), cps@, r@)
                && atlas::all_sound(r@, cell),
            Err(e) => e is BadBitmap && exists|i: int, r: Raster| #[trigger]
                is_bad_glyph(face_font(*face), face_pixels(*face), cps@, cell, i, r),
        },
{
    let mut rasters: Vec<Option<Raster>> = Vec::new();
    let mut i: usize = 0;
    while i < cps.len()
        invariant
            i <= cps@.len(),
            render_replies(face_font(*face), face_pixels(*face), cps@.take(i as int), rasters@),
            atlas::all_sound(rasters@, cell),
        decreases cps@.len() - i,
    {
        let cp: u32 = cps[i];
        let ghost before = rasters@;
        let raster = if BRAILLE_FIRST <= cp && cp <= BRAILLE_LAST {
            None
        } else {
            render(face, cp)
        };
        match &raster {
            Some(r) => {
                if !r.is_sound(cell) {
                    assert(is_bad_glyph(
                        face_font(*face),
                        face_pixels(*face),
                        cps@,
                        cell,
                        i as int,
                        *r,
                    ));
                    return Err(FontError::BadBitmap);
                }
            },
            None => {},
        }
        rasters.push(raster);
        proof {
            assert forall|k: int| 0 <= k < i implies rasters@[k] == #[trigger] before[k] by {}
            assert forall|k: int| 0 <= k < i implies cps@.take(i + 1)[k] == #[trigger] cps@.take(
                i as int,
            )[k] by {}
            assert forall|k: int| 0 <= k < rasters@.len() implies if BRAILLE_FIRST <= cps@.take(
                i + 1,
            )[k] <= BRAILLE_LAST {
                #[trigger] rasters@[k] is None
            } else {
                render_reply(
                    face_font(*face),
                    face_pixels(*face),
                    cps@.take(i + 1)[k],
                    rasters@[k],
                )
            } by {
                if k < i {
                    assert(rasters@[k] == before[k]);
                    assert(cps@.take(i + 1)[k] == cps@.take(i as int)[k]);
                }
            }
        }
        i = i + 1;
    }
    assert(cps@.take(i as int) =~= cps@);
    Ok(rasters)
}

/// This is an atlas of a font in some size, for what FreeType may say of them:
/// the metrics, for each character of the ranges whether the font has it, and
/// the glyphs.
pub open spec fn is_atlas_of(
    atlas: Atlas,
    font: Seq<u8>,
    pixels: u32,
    ranges: Seq<(u32, u32)>,
    metrics: Metrics,
    replies: Seq<bool>,
    rasters: Seq<Option<Raster>>,
    dots: Dots,
) -> bool {
    let wanted = listing(ranges, ranges.len() as int);
    let cps = atlas::with_extras(kept(wanted, replies));
    &&& metrics_reply(font, pixels, Some(metrics))
    &&& coverage_replies(font, wanted, replies)
    &&& render_replies(font, pixels, cps, rasters)
    &&& dots.wf()
    &&& atlas.shows(cps, rasters, cell_of(metrics), dots)
}

/// There can be no atlas for what FreeType may say of the font, because the
/// sheet would be too large.
pub open spec fn is_too_large(
    font: Seq<u8>,
    pixels: u32,
    ranges: Seq<(u32, u32)>,
    metrics: Metrics,
    replies: Seq<bool>,
) -> bool {
    let wanted = listing(ranges, ranges.len() as int);
    &&& metrics_reply(font, pixels, Some(metrics))
    &&& coverage_replies(font, wanted, replies)
    &&& !atlas::sheet_fits(
        atlas::with_extras(kept(wanted, replies)).len() as int,
        cell_of(metrics),
    )
}

/// There can be no atlas for what FreeType may say of the font, because the glyph
/// in slot `i` cannot be drawn from.
pub open spec fn has_bad_glyph(
    font: Seq<u8>,
    pixels: u32,
    ranges: Seq<(u32, u32)>,
    metrics: Metrics,
    replies: Seq<bool>,
    i: int,
    glyph: Raster,
) -> bool {
    let wanted = listing(ranges, ranges.len() as int);
    &&& metrics_reply(font, pixels, Some(metrics))
    &&& coverage_replies(font, wanted, replies)
    &&& is_bad_glyph(
        font,
        pixels,
        atlas::with_extras(kept(wanted, replies)),
        cell_of(metrics),
        i,
        glyph,
    )
}

/// This is an atlas of a font in some size, with dots that `draw_dots` drew.
pub open spec fn has_atlas<F: Fn(CellSize) -> Dots>(
    atlas: Atlas,
    font: Seq<u8>,
    pixels: u32,
    ranges: Seq<(u32, u32)>,
    draw_dots: F,
) -> bool {
    exists|m: Metrics, replies: Seq<bool>, rasters: Seq<Option<Raster>>, dots: Dots|
        call_ensures(draw_dots, (cell_of(m),), dots) && #[trigger] is_atlas_of(
            atlas,
            font,
            pixels,
            ranges,
            m,
            replies,
            rasters,
            dots,
        )
}

/// Whatever the font covers, the fallback and all Braille Patterns are on the
/// sheet, and the patterns are drawn with the dots: the more of them, the more
/// ink, and none for the empty pattern.
pub proof fn law_braille_is_on_every_sheet(
    atlas: Atlas,
    font: Seq<u8>,
    pixels: u32,
    ranges: Seq<(u32, u32)>,
    metrics: Metrics,
    replies: Seq<bool>,
    rasters: Seq<Option<Raster>>,
    dots: Dots,
    cp: u32,
    px: int,
    py: int,
    ch: int,
)
    requires
        is_atlas_of(atlas, font, pixels, ranges, metrics, replies, rasters, dots),
        listing(ranges, ranges.len() as int).len() + 257 <= u32::MAX,
        BRAILLE_FIRST <= cp <= BRAILLE_LAST,
        0 <= px < cell_of(metrics).w,
        0 <= py < cell_of(metrics).h,
        0 <= ch < 3,
    ensures
        atlas.locations@.contains_key(atlas::FALLBACK),
        atlas.locations@.contains_key(cp),
        ({
            let i = atlas::place_on_sheet(
                cell_of(metrics),
                atlas.locations@[cp] as int,
                px,
                py,
                ch,
            );
            &&& 0 <= i < atlas.pixels@.len()
            &&& atlas.pixels@[i] == dots.most(cp - BRAILLE_FIRST, px, py, 8)
            &&& cp == BRAILLE_FIRST ==> atlas.pixels@[i] == 0
        }),
{
    let wanted = listing(ranges, ranges.len() as int);
    let found = kept(wanted, replies);
    lemma_kept_is_not_longer(wanted, replies);
    let cps = atlas::with_extras(found);
    atlas::law_braille_needs_no_font(found, cp);
    atlas::law_braille_needs_no_font(found, atlas::FALLBACK);
    atlas::law_glyph_is_in_its_slot(
        atlas,
        cps,
        rasters,
        cell_of(metrics),
        dots,
        atlas.locations@[cp] as int,
        px,
        py,
        ch,
    );
    atlas::law_empty_pattern_is_blank(dots, px, py, 8);
}

proof fn lemma_kept_is_not_longer(cps: Seq<u32>, replies: Seq<bool>)
    ensures
        kept(cps, replies).len() <= cps.len(),
    decreases cps.len(),
{
    if cps.len() > 0 {
        lemma_kept_is_not_longer(cps.drop_last(), replies.drop_last());
    }
}

/// FreeType can be started, open the font and set it to the size.
pub open spec fn opens_in_size(font: Seq<u8>, pixels: u32) -> bool {
    opens(font) && size_reply(font, pixels, true)
}

/// What comes of building an atlas of a font: the atlas, or the reason why there
/// is none.
pub open spec fn is_outcome<F: Fn(CellSize) -> Dots>(
    result: Result<Atlas, FontError>,
    font: Seq<u8>,
    pixels: u32,
    ranges: Seq<(u32, u32)>,
    draw_dots: F,
) -> bool {
    match result {
        Err(FontError::Size) => opens(font) && size_reply(font, pixels, false),
        Ok(a) => opens_in_size(font, pixels) && has_atlas(a, font, pixels, ranges, draw_dots),
        Err(FontError::NoMetrics) => opens_in_size(font, pixels) && metrics_reply(
            font,
            pixels,
            None,
        ),
        Err(FontError::BadDots) => opens_in_size(font, pixels) && exists|m: Metrics, dots: Dots|
            #[trigger] call_ensures(draw_dots, (cell_of(m),), dots) && metrics_reply(
                font,
                pixels,
                Some(m),
            ) && !(dots.wf() && dots.w == cell_of(m).w && dots.h == cell_of(m).h),
        Err(FontError::BadBitmap) => opens_in_size(font, pixels) && exists|
            m: Metrics,
            replies: Seq<bool>,
            i: int,
            r: Raster,
        | #[trigger]
            has_bad_glyph(font, pixels, ranges, m, replies, i, r),
        Err(FontError::TooLarge) => opens_in_size(font, pixels) && exists|
            m: Metrics,
            replies: Seq<bool>,
        | #[trigger]
            is_too_large(font, pixels, ranges, m, replies),
        Err(e) => is_not_opened(font, e),
    }
}

/// Build the atlas of a font in some size, with those characters of the ranges
/// that the font has. `draw_dots` draws the dots of the Braille Patterns.
pub fn build_atlas_with_ranges<F: Fn(CellSize) -> Dots>(
    font: Vec<u8>,
    size_px: u32,
    ranges: &[(u32, u32)],
    draw_dots: F,
) -> (result: Result<Atlas, FontError>)
    requires
        forall|cell: CellSize| call_requires(draw_dots, (cell,)),
    ensures
        is_outcome(result, font@, size_px, ranges@, draw_dots),
{
    let face = match open(font) {
        Ok(face) => face,
        Err(e) => {
            return Err(e);
        },
    };
    let face = match sized(face, size_px) {
        Ok(face) => face,
        Err(_) => {
            return Err(FontError::Size);
        },
    };
    let metrics = match metrics_of(&face) {
        Some(metrics) => metrics,
        None => {
            return Err(FontError::NoMetrics);
        },
    };
    let cell = cell_size(metrics);
    let dots = draw_dots(cell);
    assert(call_ensures(draw_dots, (cell_of(metrics),), dots));
    if !dots.fit(cell) {
        return Err(FontError::BadDots);
    }
    let found = covered(&face, ranges);
    let ghost wanted = listing(ranges@, ranges@.len() as int);
    let ghost replies = choose|replies: Seq<bool>|
        coverage_replies(face_font(face), wanted, replies) && found@ == kept(wanted, replies);
    let cps = all_codepoints(found);
    let rasters = match rasters_of(&face, &cps, cell) {
        Ok(rasters) => rasters,
        Err(e) => {
            proof {
                let (i, r) = choose|i: int, r: Raster| #[trigger]
                    is_bad_glyph(font@, size_px, cps@, cell, i, r);
                assert(has_bad_glyph(font@, size_px, ranges@, metrics, replies, i, r));
            }
            return Err(e);
        },
    };
    match compose(&cps, &rasters, cell, &dots) {
        Some(atlas) => {
            assert(is_atlas_of(
                atlas,
                font@,
                size_px,
                ranges@,
                metrics,
                replies,
                rasters@,
                dots,
            ));
            assert(has_atlas(atlas, font@, size_px, ranges@, draw_dots));
            Ok(atlas)
        },
        None => {
            assert(is_too_large(font@, size_px, ranges@, metrics, replies));
            Err(FontError::TooLarge)
        },
    }
}

/// Build the atlas of a font in some size, with the characters that terminal
/// programs commonly use.
pub fn build_atlas<F: Fn(CellSize) -> Dots>(font: Vec<u8>, size_px: u32, draw_dots: F) -> (result:
    Result<Atlas, FontError>)
    requires
        forall|cell: CellSize| call_requires(draw_dots, (cell,)),
    ensures
        is_outcome(result, font@, size_px, common_ranges(), draw_dots),
{
    let ranges = default_ranges();
    build_atlas_with_ranges(font, size_px, ranges.as_slice(), draw_dots)
}

// ---- laws of fonts ----
/// Whole pixels are the most that fit into a length.
pub proof fn law_whole_pixels(length: i64)
    ensures
        64 * whole(length) <= length < 64 * (whole(length) + 1),
{
}

/// A cell is as wide as the widest glyph and as high as the lines are apart, cut
/// to whole pixels, but at least a pixel each; so is the ascender, which may be
/// 0 or negative.
pub proof fn law_cell_holds_the_glyphs(m: Metrics)
    requires
        0 <= m.max_advance < 64 * 0x1_0000_0000,
        0 <= m.height < 64 * 0x1_0000_0000,
        -64 * 0x8000_0000 <= m.ascender < 64 * 0x8000_0000,
    ensures
        ({
            let cell = cell_of(m);
            &&& cell.w >= 1 && cell.h >= 1
            &&& m.max_advance < 64 * (cell.w + 1) && m.height < 64 * (cell.h + 1)
            &&& m.max_advance >= 64 ==> 64 * cell.w <= m.max_advance
            &&& m.max_advance < 64 ==> cell.w == 1
            &&& m.height >= 64 ==> 64 * cell.h <= m.height
            &&& m.height < 64 ==> cell.h == 1
            &&& 64 * cell.ascender <= m.ascender < 64 * (cell.ascender + 1)
        }),
{
}

/// What is on offer are candidates that were found, in the order of the
/// candidates.
pub proof fn law_offered_fonts_are_found(found: Seq<bool>, n: int, i: int)
    requires
        0 <= n <= candidates().len(),
        0 <= i < available(found, n).len(),
    ensures
        exists|k: int|
            i <= k < n && found[k] && #[trigger] candidates()[k] == available(found, n)[i],
    decreases n,
{
    if n > 0 {
        lemma_no_more_offered_than_candidates(found, n - 1);
        let before = available(found, n - 1);
        if i < before.len() {
            law_offered_fonts_are_found(found, n - 1, i);
            let k = choose|k: int|
                i <= k < n - 1 && found[k] && #[trigger] candidates()[k] == before[i];
            assert(candidates()[k] == available(found, n)[i]);
        } else {
            assert(candidates()[n - 1] == available(found, n)[i]);
        }
    }
}

proof fn lemma_no_more_offered_than_candidates(found: Seq<bool>, n: int)
    requires
        0 <= n,
    ensures
        available(found, n).len() <= n,
    decreases n,
{
    if n > 0 {
        lemma_no_more_offered_than_candidates(found, n - 1);
    }
}

/// A candidate that was found is on offer, under its name; the one on offer is
/// it, unless an earlier one of the name was found.
pub proof fn law_found_fonts_are_offered(found: Seq<bool>, n: int, k: int)
    requires
        0 <= k < n <= candidates().len(),
        found[k],
    ensures
        has_name(available(found, n), candidates()[k].0),
        (forall|j: int| 0 <= j < k && found[j] ==> (#[trigger] candidates()[j]).0
            != candidates()[k].0) ==> available(found, n).contains(candidates()[k]),
    decreases n,
{
    let before = available(found, n - 1);
    let after = available(found, n);
    if k < n - 1 {
        law_found_fonts_are_offered(found, n - 1, k);
        let i = choose|i: int| 0 <= i < before.len() && (#[trigger] before[i]).0 == candidates()[k].0;
        assert(after[i] == before[i]);
        if before.contains(candidates()[k]) {
            let j = choose|j: int| 0 <= j < before.len() && before[j] == candidates()[k];
            assert(after[j] == candidates()[k]);
        }
    } else {
        if has_name(before, candidates()[k].0) {
            let i = choose|i: int|
                0 <= i < before.len() && (#[trigger] before[i]).0 == candidates()[k].0;
            assert(after[i] == before[i]);
            law_offered_fonts_are_found(found, n - 1, i);
            let j = choose|j: int|
                i <= j < n - 1 && found[j] && #[trigger] candidates()[j] == before[i];
            assert(candidates()[j].0 == candidates()[k].0);
        } else {
            assert(after[before.len() as int] == candidates()[k]);
        }
    }
}

/// The characters of ranges are those that lie in one of them.
pub proof fn law_listing_is_the_ranges(ranges: Seq<(u32, u32)>, n: int, cp: u32)
    requires
        0 <= n <= ranges.len(),
    ensures
        listing(ranges, n).contains(cp) == exists|k: int|
            0 <= k < n && (#[trigger] ranges[k]).0 <= cp <= ranges[k].1,
    decreases n,
{
    if n > 0 {
        law_listing_is_the_ranges(ranges, n - 1, cp);
        let before = listing(ranges, n - 1);
        let (first, last) = ranges[n - 1];
        let added = span(first, last);
        let all = listing(ranges, n);
        if first <= cp <= last {
            assert(added[cp - first] == cp);
            assert(all[before.len() + (cp - first)] == cp);
        }
        if before.contains(cp) {
            let i = choose|i: int| 0 <= i < before.len() && before[i] == cp;
            assert(all[i] == cp);
        }
        if all.contains(cp) {
            let i = choose|i: int| 0 <= i < all.len() && all[i] == cp;
            if i < before.len() {
                assert(before[i] == cp);
            } else {
                assert(added[i - before.len()] == cp);
            }
        }
    }
}

/// ASCII is listed first, in its order.
pub proof fn law_ascii_is_listed_first(n: int, i: int)
    requires
        1 <= n,
        0 <= i < 95,
    ensures
        listing(common_ranges(), n).len() >= 95,
        listing(common_ranges(), n)[i] == 32 + i,
    decreases n,
{
    if n > 1 {
        law_ascii_is_listed_first(n - 1, i);
    } else {
        assert(common_ranges()[0] == (0x20u32, 0x7eu32));
        assert(listing(common_ranges(), 0) =~= seq![]);
    }
}

/// The common characters are the printable ones of ASCII and Latin-1, Greek,
/// dashes and quotes, and the symbols from the arrows to the dingbats other than
/// those enclosed in circles or parentheses.
pub proof fn law_common_characters(cp: u32)
    ensures
        listing(common_ranges(), common_ranges().len() as int).contains(cp) == (32 <= cp <= 126 || 160
            <= cp <= 255 || 0x370 <= cp <= 0x3ff || 0x2010 <= cp <= 0x2027 || 0x2190 <= cp <= 0x243f
            || 0x2500 <= cp <= 0x27bf),
{
    let r = common_ranges();
    law_listing_is_the_ranges(r, r.len() as int, cp);
    assert(r[0] == (0x20u32, 0x7eu32) && r[1] == (0xa0u32, 0xffu32));
    assert(r[2] == (0x370u32, 0x3ffu32) && r[3] == (0x2010u32, 0x2027u32));
    assert(r[4] == (0x2190u32, 0x21ffu32) && r[5] == (0x2200u32, 0x22ffu32));
    assert(r[6] == (0x2300u32, 0x23ffu32) && r[7] == (0x2400u32, 0x243fu32));
    assert(r[8] == (0x2500u32, 0x257fu32) && r[9] == (0x2580u32, 0x259fu32));
    assert(r[10] == (0x25a0u32, 0x25ffu32) && r[11] == (0x2600u32, 0x26ffu32));
    assert(r[12] == (0x2700u32, 0x27bfu32));
}

/// What is kept are the characters for which the reply is yes: there is one for
/// each of these replies, and it is the next of them.
pub proof fn law_kept_are_those_with_a_yes(cps: Seq<u32>, replies: Seq<bool>, n: int)
    requires
        cps.len() == replies.len(),
        0 <= n < cps.len(),
    ensures
        ({
            let before = kept(cps.take(n), replies.take(n));
            let after = kept(cps.take(n + 1), replies.take(n + 1));
            &&& replies[n] ==> after.len() == before.len() + 1 && after.last() == cps[n]
                && after.take(before.len() as int) == before
            &&& !replies[n] ==> after == before
        }),
        kept(cps.take(0), replies.take(0)).len() == 0,
{
    let (c, r) = (cps.take(n + 1), replies.take(n + 1));
    assert(c.drop_last() =~= cps.take(n) && r.drop_last() =~= replies.take(n));
    let before = kept(cps.take(n), replies.take(n));
    assert(before.push(cps[n]).take(before.len() as int) =~= before);
}

/// Where all the fonts are installed, five are on offer, in the order of their
/// names.
pub proof fn law_all_fonts_are_offered_by_name(found: Seq<bool>)
    requires
        found.len() == candidates().len(),
        forall|k: int| 0 <= k < found.len() ==> found[k],
    ensures
        ({
            let fonts = available(found, found.len() as int);
            &&& fonts.len() == 5
            &&& fonts[0].0 == "DejaVu Sans Mono"@ && fonts[1].0 == "Liberation Mono"@
            &&& fonts[2].0 == "Menlo"@ && fonts[3].0 == "Noto Mono"@
            &&& fonts[4].0 == "Noto Sans Mono"@
        }),
{
    reveal_strlit("DejaVu Sans Mono");
    reveal_strlit("Liberation Mono");
    reveal_strlit("Menlo");
    reveal_strlit("Noto Mono");
    reveal_strlit("Noto Sans Mono");
    assert("DejaVu Sans Mono"@.len() == 16 && "Liberation Mono"@.len() == 15);
    assert("Menlo"@.len() == 5 && "Noto Mono"@.len() == 9 && "Noto Sans Mono"@.len() == 14);
    let c = candidates();
    let first = seq![c[0]];
    assert(available(found, 0) =~= seq![]);
    assert(available(found, 1) =~= first);
    assert(first[0].0 == c[1].0 && first[0].0 == c[2].0);
    assert(available(found, 2) == first);
    assert(available(found, 3) == first);
    let second = first.push(c[3]);
    assert(available(found, 4) == second);
    assert(second[1].0 == c[4].0);
    assert(available(found, 5) == second);
    let third = second.push(c[5]);
    assert(available(found, 6) == third);
    assert(third[2].0 == c[6].0);
    assert(available(found, 7) == third);
    assert(available(found, 8) == third.push(c[7]));
    assert(available(found, 9) == third.push(c[7]).push(c[8]));
}

} // verus!
