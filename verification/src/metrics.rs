//! Sizes: how many cells fit, which cell a point is in, font sizes, the
//! scrollbar.
use vstd::prelude::*;
use crate::commands::{SplitDir, Zoom};
use crate::grid::Grid;
use crate::screen;

verus! {

/// Columns of a new window's first pane.
pub const INITIAL_COLS: u16 = 100;

/// Rows of a new window's first pane.
pub const INITIAL_ROWS: u16 = 30;

/// The font size of a new pane, in pixels.
pub const DEFAULT_FONT_SIZE_PX: u32 = 16;

/// The smallest font size.
pub const MIN_FONT_SIZE_PX: u32 = 6;

/// The largest font size.
pub const MAX_FONT_SIZE_PX: u32 = 72;

// ---- cells and pixels ----
/// The size in pixels of a new window, so that its first pane fits. None where
/// it cannot be counted.
pub fn window_size(cell_w: u32, cell_h: u32) -> (size: Option<(i32, i32)>)
    ensures
        size == if INITIAL_COLS * cell_w <= i32::MAX && INITIAL_ROWS * cell_h <= i32::MAX {
            Some(((INITIAL_COLS * cell_w) as i32, (INITIAL_ROWS * cell_h) as i32))
        } else {
            None
        },
        size matches Some((w, h)) ==> w == 100 * cell_w && h == 30 * cell_h,
{
    assert(INITIAL_COLS * cell_w <= 100 * 0xffff_ffff && INITIAL_ROWS * cell_h <= 30
        * 0xffff_ffff);
    let w: u64 = INITIAL_COLS as u64 * cell_w as u64;
    let h: u64 = INITIAL_ROWS as u64 * cell_h as u64;
    if w <= 0x7fff_ffff && h <= 0x7fff_ffff {
        Some((w as i32, h as i32))
    } else {
        None
    }
}

/// How many cells of size `cell` fit into `pixels`, at least one, as a 16-bit
/// number.
pub open spec fn cell_count(pixels: int, cell: int) -> int {
    let n = pixels / cell;
    if n < 1 {
        1
    } else {
        n % 65536
    }
}

fn count_cells(pixels: u32, cell: u32) -> (n: u16)
    requires
        cell > 0,
    ensures
        n == cell_count(pixels as int, cell as int),
{
    let n: u32 = pixels / cell;
    if n < 1 {
        1
    } else {
        (n % 65536) as u16
    }
}

/// The size to tell the child process: in cells and in pixels.
#[derive(Clone, Copy, Debug, PartialEq, Eq, Structural)]
pub struct PtySize {
    pub cols: u16,
    pub rows: u16,
    pub pixel_width: u16,
    pub pixel_height: u16,
}

/// The size of a grid that fills an area of pixels, or none for an area or
/// cells without extent.
pub open spec fn size_in_pixels(w: int, h: int, cell_w: int, cell_h: int) -> Option<PtySize> {
    if w <= 0 || h <= 0 || cell_w == 0 || cell_h == 0 {
        None
    } else {
        Some(
            PtySize {
                cols: cell_count(w, cell_w) as u16,
                rows: cell_count(h, cell_h) as u16,
                pixel_width: (w % 65536) as u16,
                pixel_height: (h % 65536) as u16,
            },
        )
    }
}

/// Resize the grid to fill an area of `w` by `h` pixels. Returns the size to
/// tell the child process. Nothing happens if the numbers of columns and rows
/// stay the same, or if the area or the cells have no extent.
pub fn fit_to_pixels(grid: &mut Grid, w: i32, h: i32, cell_w: u32, cell_h: u32) -> (changed: Option<
    PtySize,
>)
    requires
        old(grid).wf(),
    ensures
        final(grid).wf(),
        ({
            let size = size_in_pixels(w as int, h as int, cell_w as int, cell_h as int);
            if size is None || (size->0.cols == old(grid)@.cols % 65536 && size->0.rows == old(
                grid,
            )@.rows % 65536) {
                changed is None && final(grid)@ == old(grid)@
            } else {
                changed == size && final(grid)@ == old(grid)@.resize(
                    size->0.cols as int,
                    size->0.rows as int,
                )
            }
        }),
{
    if w <= 0 || h <= 0 || cell_w == 0 || cell_h == 0 {
        return None;
    }
    let cols: u16 = count_cells(w as u32, cell_w);
    let rows: u16 = count_cells(h as u32, cell_h);
    if cols as usize == grid.cols() % 65536 && rows as usize == grid.rows() % 65536 {
        return None;
    }
    grid.resize(cols as usize, rows as usize);
    Some(
        PtySize {
            cols,
            rows,
            pixel_width: (w % 65536) as u16,
            pixel_height: (h % 65536) as u16,
        },
    )
}

/// The cell (row, then column) that a point in an area of cells is in. Points
/// beyond the last row or column are in it. None without cells.
pub fn cell_at(
    x: u32,
    y: u32,
    cell_w: u32,
    cell_h: u32,
    cols: usize,
    rows: usize,
) -> (cell: Option<(usize, usize)>)
    ensures
        match cell {
            Some((row, col)) => {
                &&& cell_w > 0 && cell_h > 0 && cols > 0 && rows > 0
                &&& row == screen::lesser(y as int / cell_h as int, rows - 1)
                &&& col == screen::lesser(x as int / cell_w as int, cols - 1)
                &&& row * cell_h <= y && col * cell_w <= x
                &&& y < (row + 1) * cell_h || row == rows - 1
                &&& x < (col + 1) * cell_w || col == cols - 1
            },
            None => cell_w == 0 || cell_h == 0 || cols == 0 || rows == 0,
        },
{
    if cell_w == 0 || cell_h == 0 || cols == 0 || rows == 0 {
        return None;
    }
    let col: usize = (x / cell_w) as usize;
    let row: usize = (y / cell_h) as usize;
    proof {
        lemma_cell_holds_point(x as int, cell_w as int, cols as int);
        lemma_cell_holds_point(y as int, cell_h as int, rows as int);
    }
    Some(
        (
            if row < rows {
                row
            } else {
                rows - 1
            },
            if col < cols {
                col
            } else {
                cols - 1
            },
        ),
    )
}

proof fn lemma_cell_holds_point(x: int, cell: int, n: int)
    requires
        0 <= x,
        0 < cell,
        0 < n,
    ensures
        ({
            let at = screen::lesser(x / cell, n - 1);
            at * cell <= x && (x < (at + 1) * cell || at == n - 1)
        }),
{
    let at = screen::lesser(x / cell, n - 1);
    vstd::arithmetic::div_mod::lemma_fundamental_div_mod(x, cell);
    vstd::arithmetic::div_mod::lemma_mod_bound(x, cell);
    assert(at * cell <= x && (at == x / cell ==> x < (at + 1) * cell)) by (nonlinear_arith)
        requires
            at <= x / cell,
            0 < cell,
            x == cell * (x / cell) + x % cell,
            0 <= x % cell < cell,
    ;
}

/// The size of a pane that is split off another: the same, but no less than
/// ten columns and three rows.
pub fn split_size(cols: usize, rows: usize) -> (size: (u16, u16))
    ensures
        size.0 == if cols % 65536 < 10 {
            10int
        } else {
            cols as int % 65536
        },
        size.1 == if rows % 65536 < 3 {
            3int
        } else {
            rows as int % 65536
        },
{
    let cols: u16 = (cols % 65536) as u16;
    let rows: u16 = (rows % 65536) as u16;
    (
        if cols < 10 {
            10
        } else {
            cols
        },
        if rows < 3 {
            3
        } else {
            rows
        },
    )
}

/// Where the divider of a split goes, in an area of this extent: the middle, or
/// nowhere in particular if there is none.
pub fn divider_position(extent: i32) -> (position: Option<i32>)
    ensures
        position == if extent >= 2 {
            Some((extent as int / 2) as i32)
        } else {
            None
        },
        position matches Some(p) ==> 0 < p && p <= extent - p <= p + 1,
{
    if extent >= 2 {
        Some(extent / 2)
    } else {
        None
    }
}

/// Empty space around the highlight of a drop target.
#[derive(Clone, Copy, Debug, PartialEq, Eq, Structural)]
pub struct Margins {
    pub start: i32,
    pub end: i32,
    pub top: i32,
    pub bottom: i32,
}

/// Half of an extent, which may not be known yet.
pub open spec fn half(extent: i32) -> i32 {
    if extent <= 0 {
        0
    } else {
        (extent as int / 2) as i32
    }
}

/// The margins that leave the half of a pane at edge `dir`.
pub fn drop_margins(dir: SplitDir, w: i32, h: i32) -> (m: Margins)
    ensures
        m == match dir {
            SplitDir::Left => Margins { start: 0, end: half(w), top: 0, bottom: 0 },
            SplitDir::Right => Margins { start: half(w), end: 0, top: 0, bottom: 0 },
            SplitDir::Up => Margins { start: 0, end: 0, top: 0, bottom: half(h) },
            SplitDir::Down => Margins { start: 0, end: 0, top: half(h), bottom: 0 },
        },
{
    let half_w: i32 = if w <= 0 {
        0
    } else {
        w / 2
    };
    let half_h: i32 = if h <= 0 {
        0
    } else {
        h / 2
    };
    match dir {
        SplitDir::Left => Margins { start: 0, end: half_w, top: 0, bottom: 0 },
        SplitDir::Right => Margins { start: half_w, end: 0, top: 0, bottom: 0 },
        SplitDir::Up => Margins { start: 0, end: 0, top: 0, bottom: half_h },
        SplitDir::Down => Margins { start: 0, end: 0, top: half_h, bottom: 0 },
    }
}

/// The edge of a pane that a drop lands on. The diagonals cut a pane into four:
/// `sideways` says that the pointer is nearer to the left or right edge, `left`
/// and `above` on which side of the middle it is.
pub fn drop_edge(sideways: bool, left: bool, above: bool) -> (dir: SplitDir)
    ensures
        dir == if sideways && left {
            SplitDir::Left
        } else if sideways {
            SplitDir::Right
        } else if above {
            SplitDir::Up
        } else {
            SplitDir::Down
        },
{
    if sideways {
        if left {
            SplitDir::Left
        } else {
            SplitDir::Right
        }
    } else if above {
        SplitDir::Up
    } else {
        SplitDir::Down
    }
}

// ---- font sizes ----
/// The allowed size nearest to `size`.
pub open spec fn allowed_size(size: int) -> int {
    if size < 6 {
        6
    } else if size > 72 {
        72
    } else {
        size
    }
}

/// The font size after a step of zooming: one pixel more or less within the
/// allowed range, or the default.
pub fn zoomed(current: u32, zoom: Zoom) -> (size: u32)
    ensures
        size == match zoom {
            Zoom::Reset => 16int,
            Zoom::In => allowed_size(current + 1),
            Zoom::Out => allowed_size(current - 1),
        },
        6 <= size <= 72,
        zoom is In && 6 <= current < 72 ==> size == current + 1,
        zoom is Out && 6 < current <= 72 ==> size + 1 == current,
{
    match zoom {
        Zoom::Reset => DEFAULT_FONT_SIZE_PX,
        Zoom::In => if current < MAX_FONT_SIZE_PX {
            clamp_size(current + 1)
        } else {
            MAX_FONT_SIZE_PX
        },
        Zoom::Out => if current > MIN_FONT_SIZE_PX {
            clamp_size(current - 1)
        } else {
            MIN_FONT_SIZE_PX
        },
    }
}

fn clamp_size(size: u32) -> (allowed: u32)
    ensures
        allowed == allowed_size(size as int),
{
    if size < MIN_FONT_SIZE_PX {
        MIN_FONT_SIZE_PX
    } else if size > MAX_FONT_SIZE_PX {
        MAX_FONT_SIZE_PX
    } else {
        size
    }
}

/// The font size of new panes: the configured one, within the limits, or the
/// default.
pub fn initial_font_size(configured: Option<u32>) -> (size: u32)
    ensures
        size == match configured {
            Some(target) => allowed_size(target as int),
            None => DEFAULT_FONT_SIZE_PX as int,
        },
{
    match configured {
        Some(target) => clamp_size(target),
        None => DEFAULT_FONT_SIZE_PX,
    }
}

/// The size that a pane's font changes to when `target` is asked for, or none
/// if it stays the same.
pub fn new_font_size(current: u32, target: u32) -> (size: Option<u32>)
    ensures
        size == if allowed_size(target as int) == current {
            None
        } else {
            Some(allowed_size(target as int) as u32)
        },
{
    let size: u32 = clamp_size(target);
    if size == current {
        None
    } else {
        Some(size)
    }
}

/// Zooming in and out again gives back the size there was, unless it was the
/// largest.
pub proof fn law_zooming_out_undoes_zooming_in(size: int)
    requires
        6 <= size < 72,
    ensures
        allowed_size(allowed_size(size + 1) - 1) == size,
{
}

// ---- the view ----
/// What the scrollbar shows: the length of everything, of what is shown, and
/// where that starts. Hidden when there is no history.
#[derive(Clone, Copy, Debug, PartialEq, Eq, Structural)]
pub struct ScrollRange {
    pub upper: usize,
    pub page: usize,
    pub value: usize,
    pub visible: bool,
}

/// The scrollbar of a grid.
pub fn scroll_range(grid: &Grid) -> (range: ScrollRange)
    requires
        grid.wf(),
        grid@.scrollback.len() + grid@.rows <= usize::MAX,
    ensures
        range.upper == grid@.all_lines().len(),
        range.page == grid@.rows,
        range.value == grid@.view_to_logical(0),
        range.visible == (grid@.scrollback.len() > 0),
{
    let history: usize = grid.scrollback_len();
    ScrollRange {
        upper: grid.logical_rows(),
        page: grid.rows(),
        value: history - grid.view_offset(),
        visible: history > 0,
    }
}

/// Show the live screen, as when the user types. Says whether the view was
/// somewhere else.
pub fn snap_to_bottom(grid: &mut Grid) -> (moved: bool)
    requires
        old(grid).wf(),
    ensures
        final(grid).wf(),
        final(grid)@ == old(grid)@.set_view_offset(0),
        moved == (old(grid)@.view_offset > 0),
{
    if grid.view_offset() > 0 {
        grid.set_view_offset(0);
        true
    } else {
        false
    }
}

/// Whether the cursor is drawn in this blink phase. Only the focused pane's
/// cursor blinks.
pub fn cursor_shown(focused: bool, blink: bool, phase: bool) -> (shown: bool)
    ensures
        shown == (!focused || !blink || phase),
{
    if focused {
        !blink || phase
    } else {
        true
    }
}

/// The next blink phase: it turns over with every tick while the cursor blinks.
pub fn next_phase(blink: bool, phase: bool) -> (next: bool)
    ensures
        next == (if blink {
            !phase
        } else {
            phase
        }),
{
    if blink {
        !phase
    } else {
        phase
    }
}

// ---- laws of sizes ----
/// As many cells as fit: they do not reach past the pixels, and one more would.
pub proof fn law_cells_fill_the_pixels(pixels: int, cell: int)
    requires
        0 < cell,
        0 <= pixels,
        pixels < 65536 * cell,
    ensures
        cell_count(pixels, cell) >= 1,
        pixels >= cell ==> cell_count(pixels, cell) * cell <= pixels,
        pixels < (cell_count(pixels, cell) + 1) * cell,
        pixels < cell ==> cell_count(pixels, cell) == 1,
{
    let n = pixels / cell;
    vstd::arithmetic::div_mod::lemma_fundamental_div_mod(pixels, cell);
    vstd::arithmetic::div_mod::lemma_mod_bound(pixels, cell);
    assert(n * cell <= pixels < (n + 1) * cell && 0 <= n < 65536 && (n < 1 ==> pixels < cell)
        && (n >= 1 ==> pixels >= cell) && (1 + 1) * cell > cell) by (nonlinear_arith)
        requires
            n == pixels / cell,
            pixels == cell * (pixels / cell) + pixels % cell,
            0 <= pixels % cell < cell,
            0 < cell,
            0 <= pixels < 65536 * cell,
    ;
}

/// The child is told the size of the grid and of its area, across and down.
pub proof fn law_size_in_pixels(w: int, h: int, cell_w: int, cell_h: int)
    requires
        0 < w < 65536,
        0 < h < 65536,
        0 < cell_w,
        0 < cell_h,
    ensures
        ({
            let size = size_in_pixels(w, h, cell_w, cell_h);
            &&& size is Some
            &&& size->0.pixel_width == w && size->0.pixel_height == h
            &&& w >= cell_w ==> size->0.cols * cell_w <= w
            &&& w < (size->0.cols + 1) * cell_w
            &&& h >= cell_h ==> size->0.rows * cell_h <= h
            &&& h < (size->0.rows + 1) * cell_h
        }),
{
    assert(w < 65536 * cell_w && h < 65536 * cell_h) by (nonlinear_arith)
        requires
            w < 65536,
            h < 65536,
            cell_w >= 1,
            cell_h >= 1,
    ;
    law_cells_fill_the_pixels(w, cell_w);
    law_cells_fill_the_pixels(h, cell_h);
    assert(w / cell_w <= w && h / cell_h <= h) by (nonlinear_arith)
        requires
            0 < w,
            0 < h,
            cell_w >= 1,
            cell_h >= 1,
    ;
}

/// Font sizes are kept between 6 and 72, and those within are as asked for.
pub proof fn law_font_sizes_have_limits(size: int, other: int)
    ensures
        6 <= allowed_size(size) <= 72,
        6 <= size <= 72 ==> allowed_size(size) == size,
        size <= other ==> allowed_size(size) <= allowed_size(other),
{
}

} // verus!
