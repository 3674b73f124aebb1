//! Fonts and the glyph atlas.
use skyterm::atlas::{all_codepoints, compose, dot_place, Atlas, CellSize, Dots, Raster};
use skyterm::font::{
    available_monospace_fonts, build_atlas, build_atlas_with_ranges, cell_size, default_ranges,
    family_name, font_candidates, is_embedded, locate_monospace_font, FontError, Metrics,
    EMBEDDED_FONT_PATH,
};

fn be16(out: &mut Vec<u8>, v: i32) {
    out.extend_from_slice(&(v as u16).to_be_bytes());
}

fn be32(out: &mut Vec<u8>, v: u32) {
    out.extend_from_slice(&v.to_be_bytes());
}

fn words(values: &[i32]) -> Vec<u8> {
    let mut out = Vec::new();
    for v in values {
        be16(&mut out, *v);
    }
    out
}

/// A TrueType font of 1000 units with one glyph besides the missing one: a box
/// for `A`, from (100, 0) to (500, 700). Lines are 1000 apart, every advance is
/// 600. The family is "Boxes".
fn box_font(named: bool) -> Vec<u8> {
    let mut head = Vec::new();
    be32(&mut head, 0x0001_0000);
    be32(&mut head, 0x0001_0000);
    be32(&mut head, 0);
    be32(&mut head, 0x5F0F_3CF5);
    head.extend(words(&[0, 1000]));
    head.extend([0u8; 16]);
    head.extend(words(&[0, 0, 600, 700, 0, 8, 2, 0, 0]));

    let mut hhea = Vec::new();
    be32(&mut hhea, 0x0001_0000);
    hhea.extend(words(&[800, -200, 0, 600, 0, 0, 600, 1, 0, 0, 0, 0, 0, 0, 0, 2]));

    let mut maxp = Vec::new();
    be32(&mut maxp, 0x0001_0000);
    maxp.extend(words(&[2, 4, 1, 0, 0, 1, 0, 0, 0, 0, 0, 0, 0, 0]));

    let hmtx = words(&[600, 0, 600, 100]);

    // Two segments: U+0041 to U+0041, and the end marker.
    let cmap = words(&[
        0, 1, 3, 1, 0, 12, // header, one Unicode subtable at 12
        4, 32, 0, 4, 4, 1, 0, // format 4
        0x41, 0xffff, 0, 0x41, 0xffff, 1 - 0x41, 1, 0, 0,
    ]);

    let mut glyf = words(&[1, 100, 0, 500, 700, 3, 0]);
    glyf.extend([1u8, 1, 1, 1]);
    glyf.extend(words(&[100, 0, 400, 0, 0, 700, 0, -700]));
    let loca = words(&[0, 0, (glyf.len() / 2) as i32]);

    let mut tables: Vec<(&[u8; 4], Vec<u8>)> = vec![
        (b"cmap", cmap),
        (b"glyf", glyf),
        (b"head", head),
        (b"hhea", hhea),
        (b"hmtx", hmtx),
        (b"loca", loca),
        (b"maxp", maxp),
    ];
    if named {
        let family = words(&[b'B', b'o', b'x', b'e', b's'].map(|c| c as i32));
        let mut name = words(&[0, 1, 18, 3, 1, 0x409, 1, family.len() as i32, 0]);
        name.extend(family);
        tables.push((b"name", name));
    }

    let mut font = Vec::new();
    be32(&mut font, 0x0001_0000);
    font.extend(words(&[tables.len() as i32, 0, 0, 0]));
    let mut offset = 12 + 16 * tables.len();
    for (tag, data) in &tables {
        font.extend_from_slice(*tag);
        be32(&mut font, 0);
        be32(&mut font, offset as u32);
        be32(&mut font, data.len() as u32);
        offset += (data.len() + 3) / 4 * 4;
    }
    for (_, data) in &tables {
        font.extend_from_slice(data);
        while font.len() % 4 != 0 {
            font.push(0);
        }
    }
    font
}

/// Discs with soft edges, in two columns and four rows.
fn draw_dots(cell: CellSize) -> Dots {
    let cw = cell.w as f32;
    let ch = cell.h as f32;
    let col_x = [cw * 0.30, cw * 0.70];
    let row_y = [ch * 0.16, ch * 0.385, ch * 0.615, ch * 0.84];
    let radius = (cw * 0.40).min(ch * 0.23) * 0.46;
    let aa = 0.6_f32;
    let mut coverage = Vec::new();
    for d in 0..8u8 {
        let (col, row) = dot_place(d);
        for py in 0..cell.h {
            for px in 0..cell.w {
                let dx = px as f32 + 0.5 - col_x[col];
                let dy = py as f32 + 0.5 - row_y[row];
                let dist = (dx * dx + dy * dy).sqrt();
                let c = ((radius + aa - dist) / (2.0 * aa)).clamp(0.0, 1.0);
                coverage.push((c * 255.0).round() as u8);
            }
        }
    }
    Dots { w: cell.w, h: cell.h, coverage }
}

/// The value of channel `ch` of a pixel of a character's cell.
fn pixel(atlas: &Atlas, cp: u32, px: u32, py: u32, ch: usize) -> u8 {
    let slot = atlas.locations[&cp];
    let x = (slot % atlas.glyphs_per_row) * atlas.cell_w + px;
    let y = (slot / atlas.glyphs_per_row) * atlas.cell_h + py;
    atlas.pixels[((y as usize) * (atlas.width as usize) + x as usize) * 3 + ch]
}

/// Sum of all R-channel coverage in a glyph's cell.
fn slot_ink(atlas: &Atlas, cp: u32) -> u64 {
    let mut sum = 0u64;
    for py in 0..atlas.cell_h {
        for px in 0..atlas.cell_w {
            sum += pixel(atlas, cp, px, py, 0) as u64;
        }
    }
    sum
}

#[test]
fn braille_is_synthesized_even_without_font_coverage() {
    let atlas = build_atlas(box_font(true), 18, draw_dots).expect("atlas");

    // Every braille codepoint gets a slot, regardless of font coverage.
    for cp in 0x2800..=0x28FFu32 {
        assert!(atlas.locations.contains_key(&cp), "missing slot for {cp:#x}");
    }
    // U+2800 is the empty pattern — no dots, so no ink.
    assert_eq!(slot_ink(&atlas, 0x2800), 0);
    // U+28FF lights all eight dots; U+2801 lights exactly one. Both must
    // produce ink, and the full pattern must out-ink the single dot.
    let one = slot_ink(&atlas, 0x2801);
    let all = slot_ink(&atlas, 0x28FF);
    assert!(one > 0, "single-dot braille produced no ink");
    assert!(all > one * 4, "all-dots braille should far exceed one dot");
}

#[test]
fn cells_fit_the_font() {
    let atlas = build_atlas(box_font(true), 20, draw_dots).unwrap();
    // 600 and 1000 of 1000 units, 20 pixels high.
    assert_eq!((atlas.cell_w, atlas.cell_h), (12, 20));
    assert_eq!(atlas.glyphs_per_row, 32);
    assert_eq!(atlas.width, 32 * 12);
    // `A`, the fallback and the patterns: 258 glyphs in nine rows.
    assert_eq!(atlas.locations.len(), 258);
    assert_eq!(atlas.height, 9 * 20);
    assert_eq!(atlas.pixels.len(), 32 * 12 * 9 * 20 * 3);
    let larger = build_atlas(box_font(true), 40, draw_dots).unwrap();
    assert_eq!((larger.cell_w, larger.cell_h), (24, 40));
}

#[test]
fn glyphs_stand_on_the_baseline() {
    let atlas = build_atlas(box_font(true), 20, draw_dots).unwrap();
    // The box is from 2 to 10 across, and 14 high above the baseline at 16.
    let a = 'A' as u32;
    assert_eq!(atlas.locations[&a], 0);
    assert_eq!(pixel(&atlas, a, 6, 10, 1), 255);
    assert_eq!(pixel(&atlas, a, 6, 3, 1), 255);
    assert_eq!(pixel(&atlas, a, 6, 15, 1), 255);
    assert_eq!(pixel(&atlas, a, 6, 0, 1), 0);
    assert_eq!(pixel(&atlas, a, 6, 17, 1), 0);
    assert_eq!(pixel(&atlas, a, 0, 10, 0), 0);
    assert_eq!(pixel(&atlas, a, 11, 10, 2), 0);
}

#[test]
fn only_covered_characters_get_a_slot() {
    let atlas = build_atlas_with_ranges(box_font(true), 20, &[(0x41, 0x43)], draw_dots).unwrap();
    assert!(atlas.locations.contains_key(&0x41));
    assert!(!atlas.locations.contains_key(&0x42));
    // The fallback has one whether the font covers it or not.
    assert_eq!(atlas.fallback_slot, atlas.locations[&('?' as u32)]);
    assert_eq!(atlas.slot(0x42), atlas.fallback_slot);
    assert_eq!(atlas.slot(0x41), 0);
    let none = build_atlas_with_ranges(box_font(true), 20, &[(0x50, 0x43)], draw_dots).unwrap();
    assert_eq!(none.locations.len(), 257);
}

#[test]
fn family_names_come_from_the_font() {
    assert_eq!(family_name(box_font(true)), Ok("Boxes".to_string()));
    assert_eq!(family_name(box_font(false)), Err(FontError::NoFamily));
    assert_eq!(family_name(b"no font".to_vec()), Err(FontError::Open));
}

#[test]
fn atlas_errors() {
    assert_eq!(
        build_atlas(b"no font".to_vec(), 18, draw_dots).unwrap_err(),
        FontError::Open
    );
    let wrong = |cell: CellSize| Dots { w: cell.w, h: cell.h, coverage: vec![0; 3] };
    assert_eq!(build_atlas(box_font(true), 18, wrong).unwrap_err(), FontError::BadDots);
}

#[test]
fn metrics_are_rounded_down_and_cells_are_never_empty() {
    let m = Metrics { ascender: -1, height: 64 * 20 + 63, max_advance: 64 * 9 };
    assert_eq!(cell_size(m), CellSize { w: 9, h: 20, ascender: -1 });
    let zero = Metrics { ascender: 63, height: 63, max_advance: 0 };
    assert_eq!(cell_size(zero), CellSize { w: 1, h: 1, ascender: 0 });
    let huge = Metrics { ascender: 64 * (1 << 32), height: 64 * ((1 << 32) + 5), max_advance: 640 };
    assert_eq!(cell_size(huge), CellSize { w: 10, h: 5, ascender: 0 });
}

#[test]
fn glyphs_are_clipped_to_their_cell() {
    let cell = CellSize { w: 2, h: 2, ascender: 1 };
    // A 3 x 2 glyph that starts one pixel left of the cell and one above.
    let raster = Raster {
        width: 9,
        rows: 2,
        pitch: -10,
        left: -1,
        top: 2,
        buffer: (0..20).collect(),
    };
    assert!(raster.is_sound(cell));
    let dots = Dots { w: 2, h: 2, coverage: vec![7; 32] };
    let atlas = compose(&vec![0x41], &vec![Some(raster)], cell, &dots).unwrap();
    assert_eq!((atlas.width, atlas.height), (64, 2));
    let row = 64 * 3;
    // The second row of the glyph, from its second pixel on.
    assert_eq!(&atlas.pixels[0..6], &[13, 14, 15, 16, 17, 18]);
    assert_eq!(&atlas.pixels[6..12], &[0; 6]);
    assert_eq!(&atlas.pixels[row..row + 6], &[0; 6]);
}

#[test]
fn rasters_that_lie_about_their_size_are_not_sound() {
    let cell = CellSize { w: 3, h: 2, ascender: 0 };
    let raster = Raster { width: 9, rows: 2, pitch: 9, left: 0, top: 0, buffer: vec![0; 17] };
    assert!(!raster.is_sound(cell));
    let narrow = Raster { width: 9, rows: 2, pitch: 8, left: 0, top: 0, buffer: vec![0; 16] };
    assert!(!narrow.is_sound(cell));
    let empty = Raster { width: 0, rows: 0, pitch: 0, left: 0, top: 0, buffer: vec![] };
    assert!(empty.is_sound(cell));
}

#[test]
fn only_pixels_in_the_cell_are_read() {
    // One bit per pixel: the rows are far shorter than the width says.
    let bits = || Raster {
        width: 9,
        rows: 2,
        pitch: 2,
        left: 0,
        top: 1,
        buffer: vec![5, 6, 7, 8],
    };
    let cell = CellSize { w: 1, h: 1, ascender: 1 };
    assert!(bits().is_sound(cell));
    let dots = Dots { w: 1, h: 1, coverage: vec![0; 8] };
    let atlas = compose(&vec![0x41], &vec![Some(bits())], cell, &dots).unwrap();
    assert_eq!(&atlas.pixels[0..6], &[5, 6, 7, 0, 0, 0]);
    // A higher cell shows the second row too, which is cut short.
    assert!(!bits().is_sound(CellSize { w: 1, h: 2, ascender: 1 }));
    assert!(!bits().is_sound(CellSize { w: 2, h: 1, ascender: 1 }));
    // Out of sight, nothing is read.
    assert!(Raster { left: 1, ..bits() }.is_sound(cell));
    assert!(Raster { top: -5, ..bits() }.is_sound(cell));
}

#[test]
fn more_dots_more_ink() {
    let coverage = (0..8u8).map(|d| d * 10).collect();
    let dots = Dots { w: 1, h: 1, coverage };
    assert_eq!(dots.pixel(0, 0, 0), 0);
    assert_eq!(dots.pixel(0b0000_0010, 0, 0), 10);
    assert_eq!(dots.pixel(0b0100_0010, 0, 0), 60);
    assert_eq!(dots.pixel(0xff, 0, 0), 70);
}

#[test]
fn the_fallback_is_added_once() {
    assert_eq!(all_codepoints(vec![0x41]).len(), 258);
    assert_eq!(all_codepoints(vec![0x41, 0x3f]).len(), 258);
    let all = all_codepoints(vec![]);
    assert_eq!((all[0], all[1], all[256]), (0x3f, 0x2800, 0x28ff));
}

#[test]
fn the_first_file_of_each_font_is_offered() {
    let candidates = font_candidates();
    assert_eq!(candidates.len(), 9);
    assert!(available_monospace_fonts(&vec![false; 9]).is_empty());
    let mut found = vec![false; 9];
    found[1] = true;
    found[2] = true;
    found[8] = true;
    assert_eq!(
        available_monospace_fonts(&found),
        vec![
            ("DejaVu Sans Mono", "/usr/share/fonts/dejavu/DejaVuSansMono.ttf"),
            ("Noto Sans Mono", "/usr/share/fonts/google-noto/NotoSansMono-Regular.ttf"),
        ]
    );
}

#[test]
fn the_embedded_font_is_the_default() {
    assert_eq!(locate_monospace_font(), Ok(EMBEDDED_FONT_PATH));
    assert!(is_embedded(":embedded:JetBrainsMono-Regular:"));
    assert!(!is_embedded("/usr/share/fonts/a.ttf"));
    assert_eq!(default_ranges()[0], (0x20, 0x7e));
    assert_eq!(default_ranges().len(), 13);
}
