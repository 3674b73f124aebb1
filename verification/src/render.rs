//! What a frame shows: the colored cells, the cursor and the glyphs, each by
//! its cell. Turning cells into pixels is left to the graphics code.
use vstd::prelude::*;
use crate::atlas::Atlas;
use crate::color::{CellColor, Color};
use crate::grid::{Cell, CursorShape, Grid};
use crate::screen::Screen;
use crate::selection::Selection;
use crate::theme::{Theme, ThemeModel};

verus! {

/// The background of selected cells.
#[verifier::allow_in_spec]
pub fn selection_bg() -> Color
    returns
        Color::rgb(0x3a, 0x5e, 0x8e),
{
    Color::rgb(0x3a, 0x5e, 0x8e)
}

/// A cell filled with a color.
#[derive(Clone, Copy, Debug, PartialEq, Eq, Structural)]
pub struct Block {
    pub row: usize,
    pub col: usize,
    pub color: Color,
}

/// The cursor in its cell.
#[derive(Clone, Copy, Debug, PartialEq, Eq, Structural)]
pub struct CursorMark {
    pub row: usize,
    pub col: usize,
    pub shape: CursorShape,
    pub color: Color,
}

/// A glyph in a cell: its slot in the atlas, its color, and the color that it is
/// blended with.
#[derive(Clone, Copy, Debug, PartialEq, Eq, Structural)]
pub struct Glyph {
    pub row: usize,
    pub col: usize,
    pub slot: u32,
    pub fg: Color,
    pub bg: Color,
}

/// What a frame shows: first all is cleared, then the blocks, the cursor and the
/// glyphs are drawn, in this order.
#[derive(Debug)]
pub struct Frame {
    pub clear: Color,
    pub blocks: Vec<Block>,
    pub cursor: Option<CursorMark>,
    pub glyphs: Vec<Glyph>,
}

/// What a frame depends on, besides the atlas.
pub struct Scene {
    pub screen: Screen,
    pub selection: Option<Selection>,
    pub theme: ThemeModel,
    pub cursor_on: bool,
}

impl Scene {
    /// The cell is selected.
    pub open spec fn selected(self, row: int, col: int) -> bool {
        match self.selection {
            Some(s) => s.covers((row as usize, col as usize)),
            None => false,
        }
    }

    /// The color that a cell is filled with. Selection wins over the cell's own
    /// background, so that it shows on blank space too; a default background is
    /// not drawn.
    pub open spec fn fill(self, row: int, col: int) -> Option<Color> {
        let cell = self.screen.visible_cell(row, col);
        if self.selected(row, col) {
            Some(selection_bg())
        } else if cell.bg is Default {
            None
        } else {
            Some(self.theme.resolve_bg(cell.bg))
        }
    }

    /// Where the cursor is drawn: nowhere in the off phase of its blinking, when
    /// the application hides it, or when it is off the view or the grid.
    pub open spec fn cursor_cell(self) -> Option<(int, int)> {
        match self.screen.visible_cursor() {
            Some((row, col)) => if self.cursor_on && self.screen.cursor_visible && row
                < self.screen.rows && col < self.screen.cols {
                Some((row, col))
            } else {
                None
            },
            None => None,
        }
    }

    /// The cursor as it is drawn.
    pub open spec fn cursor_mark(self) -> Option<CursorMark> {
        match self.cursor_cell() {
            Some((row, col)) => Some(
                CursorMark {
                    row: row as usize,
                    col: col as usize,
                    shape: self.screen.cursor_shape,
                    color: self.theme.cursor,
                },
            ),
            None => None,
        }
    }

    /// The colors of a cell's glyph and of what is behind it. Under a block
    /// cursor they are inverted.
    pub open spec fn glyph_colors(self, row: int, col: int) -> (Color, Color) {
        let cell = self.screen.visible_cell(row, col);
        if self.screen.cursor_shape is Block && self.cursor_cell() == Some((row, col)) {
            (self.theme.bg, self.theme.cursor)
        } else if self.selected(row, col) {
            (self.theme.resolve_fg(cell.fg), selection_bg())
        } else {
            (self.theme.resolve_fg(cell.fg), self.theme.resolve_bg(cell.bg))
        }
    }

    /// The blocks of the first `n` cells of a row.
    pub open spec fn row_blocks(self, row: int, n: int) -> Seq<Block>
        decreases n,
    {
        if n <= 0 {
            seq![]
        } else {
            let before = self.row_blocks(row, n - 1);
            match self.fill(row, n - 1) {
                Some(color) => before.push(
                    Block { row: row as usize, col: (n - 1) as usize, color },
                ),
                None => before,
            }
        }
    }

    /// The blocks of the first `n` rows.
    pub open spec fn blocks(self, n: int) -> Seq<Block>
        decreases n,
    {
        if n <= 0 {
            seq![]
        } else {
            self.blocks(n - 1) + self.row_blocks(n - 1, self.screen.cols)
        }
    }

    /// The glyphs of the first `n` cells of a row. A space has none.
    pub open spec fn row_glyphs(self, atlas: Atlas, row: int, n: int) -> Seq<Glyph>
        decreases n,
    {
        if n <= 0 {
            seq![]
        } else {
            let before = self.row_glyphs(atlas, row, n - 1);
            let cell = self.screen.visible_cell(row, n - 1);
            if cell.ch == ' ' {
                before
            } else {
                before.push(
                    Glyph {
                        row: row as usize,
                        col: (n - 1) as usize,
                        slot: atlas.slot_of(cell.ch as u32),
                        fg: self.glyph_colors(row, n - 1).0,
                        bg: self.glyph_colors(row, n - 1).1,
                    },
                )
            }
        }
    }

    /// The glyphs of the first `n` rows.
    pub open spec fn glyphs(self, atlas: Atlas, n: int) -> Seq<Glyph>
        decreases n,
    {
        if n <= 0 {
            seq![]
        } else {
            self.glyphs(atlas, n - 1) + self.row_glyphs(atlas, n - 1, self.screen.cols)
        }
    }
}

fn is_selected(selection: &Option<Selection>, row: usize, col: usize) -> (yes: bool)
    ensures
        yes == match *selection {
            Some(s) => s.covers((row, col)),
            None => false,
        },
{
    match selection {
        Some(s) => s.contains(row, col),
        None => false,
    }
}

fn blocks_of(
    grid: &Grid,
    selection: &Option<Selection>,
    theme: &Theme,
    Ghost(scene): Ghost<Scene>,
) -> (blocks: Vec<Block>)
    requires
        grid.wf(),
        scene.screen == grid@,
        scene.selection == *selection,
        scene.theme == theme@,
    ensures
        blocks@ == scene.blocks(grid@.rows),
{
    let mut blocks: Vec<Block> = Vec::new();
    let rows: usize = grid.rows();
    let cols: usize = grid.cols();
    let mut row: usize = 0;
    while row < rows
        invariant
            row <= rows == grid@.rows,
            cols == grid@.cols,
            grid.wf(),
            scene.screen == grid@,
            scene.selection == *selection,
            scene.theme == theme@,
            blocks@ == scene.blocks(row as int),
        decreases rows - row,
    {
        let ghost before = blocks@;
        let mut col: usize = 0;
        assert(before + scene.row_blocks(row as int, 0) =~= before);
        while col < cols
            invariant
                col <= cols == grid@.cols,
                row < rows == grid@.rows,
                grid.wf(),
                scene.screen == grid@,
                scene.selection == *selection,
                scene.theme == theme@,
                blocks@ == before + scene.row_blocks(row as int, col as int),
            decreases cols - col,
        {
            let cell: Cell = grid.visible_cell(row, col);
            let fill = if is_selected(selection, row, col) {
                Some(selection_bg())
            } else {
                match cell.bg {
                    CellColor::Default => None,
                    _ => Some(theme.resolve_bg(cell.bg)),
                }
            };
            assert(fill == scene.fill(row as int, col as int));
            match fill {
                Some(color) => {
                    blocks.push(Block { row, col, color });
                },
                None => {},
            }
            col = col + 1;
            assert(blocks@ =~= before + scene.row_blocks(row as int, col as int));
        }
        row = row + 1;
    }
    blocks
}

fn glyphs_of(
    grid: &Grid,
    selection: &Option<Selection>,
    theme: &Theme,
    cursor: &Option<CursorMark>,
    atlas: &Atlas,
    Ghost(scene): Ghost<Scene>,
) -> (glyphs: Vec<Glyph>)
    requires
        grid.wf(),
        scene.screen == grid@,
        scene.selection == *selection,
        scene.theme == theme@,
        *cursor == scene.cursor_mark(),
    ensures
        glyphs@ == scene.glyphs(*atlas, grid@.rows),
{
    let mut glyphs: Vec<Glyph> = Vec::new();
    let rows: usize = grid.rows();
    let cols: usize = grid.cols();
    let mut row: usize = 0;
    while row < rows
        invariant
            row <= rows == grid@.rows,
            cols == grid@.cols,
            grid.wf(),
            scene.screen == grid@,
            scene.selection == *selection,
            scene.theme == theme@,
            *cursor == scene.cursor_mark(),
            glyphs@ == scene.glyphs(*atlas, row as int),
        decreases rows - row,
    {
        let ghost before = glyphs@;
        let mut col: usize = 0;
        assert(before + scene.row_glyphs(*atlas, row as int, 0) =~= before);
        while col < cols
            invariant
                col <= cols == grid@.cols,
                row < rows == grid@.rows,
                grid.wf(),
                scene.screen == grid@,
                scene.selection == *selection,
                scene.theme == theme@,
                *cursor == scene.cursor_mark(),
                glyphs@ == before + scene.row_glyphs(*atlas, row as int, col as int),
            decreases cols - col,
        {
            let cell: Cell = grid.visible_cell(row, col);
            if cell.ch != ' ' {
                let inverted = match cursor {
                    Some(mark) => match mark.shape {
                        CursorShape::Block => mark.row == row && mark.col == col,
                        _ => false,
                    },
                    None => false,
                };
                let (fg, bg): (Color, Color) = if inverted {
                    (theme.bg, theme.cursor)
                } else if is_selected(selection, row, col) {
                    (theme.resolve_fg(cell.fg), selection_bg())
                } else {
                    (theme.resolve_fg(cell.fg), theme.resolve_bg(cell.bg))
                };
                assert((fg, bg) == scene.glyph_colors(row as int, col as int));
                let slot: u32 = atlas.slot(cell.ch as u32);
                glyphs.push(Glyph { row, col, slot, fg, bg });
            }
            col = col + 1;
            assert(glyphs@ =~= before + scene.row_glyphs(*atlas, row as int, col as int));
        }
        row = row + 1;
    }
    glyphs
}

/// What to draw for a grid.
pub fn frame(
    grid: &Grid,
    selection: Option<Selection>,
    theme: &Theme,
    cursor_on: bool,
    atlas: &Atlas,
) -> (f: Frame)
    requires
        grid.wf(),
    ensures
        ({
            let scene = Scene { screen: grid@, selection, theme: theme@, cursor_on };
            &&& f.clear == theme@.bg
            &&& f.blocks@ == scene.blocks(grid@.rows)
            &&& f.cursor == scene.cursor_mark()
            &&& f.glyphs@ == scene.glyphs(*atlas, grid@.rows)
        }),
{
    let ghost scene = Scene { screen: grid@, selection, theme: theme@, cursor_on };
    let blocks = blocks_of(grid, &selection, theme, Ghost(scene));
    let cursor = if cursor_on && grid.cursor_visible() {
        match grid.visible_cursor() {
            Some((row, col)) => if row < grid.rows() && col < grid.cols() {
                Some(CursorMark { row, col, shape: grid.cursor_shape(), color: theme.cursor })
            } else {
                None
            },
            None => None,
        }
    } else {
        None
    };
    let glyphs = glyphs_of(grid, &selection, theme, &cursor, atlas, Ghost(scene));
    Frame { clear: theme.bg, blocks, cursor, glyphs }
}

// ---- laws ----
proof fn lemma_row_glyphs(scene: Scene, atlas: Atlas, row: int, n: int, i: int)
    requires
        0 <= i < scene.row_glyphs(atlas, row, n).len(),
        0 <= row <= usize::MAX,
        n <= usize::MAX,
    ensures
        ({
            let g = scene.row_glyphs(atlas, row, n)[i];
            g.row == row && g.col < n && scene.screen.visible_cell(row, g.col as int).ch != ' '
        }),
    decreases n,
{
    let before = scene.row_glyphs(atlas, row, n - 1);
    if i < before.len() {
        lemma_row_glyphs(scene, atlas, row, n - 1, i);
        assert(scene.row_glyphs(atlas, row, n)[i] == before[i]);
    }
}

proof fn lemma_row_blocks(scene: Scene, row: int, n: int, i: int)
    requires
        0 <= i < scene.row_blocks(row, n).len(),
        0 <= row <= usize::MAX,
        n <= usize::MAX,
    ensures
        ({
            let b = scene.row_blocks(row, n)[i];
            b.row == row && b.col < n && scene.fill(row, b.col as int) == Some(b.color)
        }),
    decreases n,
{
    let before = scene.row_blocks(row, n - 1);
    if i < before.len() {
        lemma_row_blocks(scene, row, n - 1, i);
        assert(scene.row_blocks(row, n)[i] == before[i]);
    }
}

proof fn lemma_cell_has_block(scene: Scene, row: int, n: int, col: int) -> (i: int)
    requires
        0 <= col < n <= usize::MAX,
        0 <= row <= usize::MAX,
        scene.fill(row, col) is Some,
    ensures
        0 <= i < scene.row_blocks(row, n).len(),
        scene.row_blocks(row, n)[i] == (Block {
            row: row as usize,
            col: col as usize,
            color: scene.fill(row, col)->0,
        }),
    decreases n,
{
    let before = scene.row_blocks(row, n - 1);
    if col == n - 1 {
        before.len() as int
    } else {
        let i = lemma_cell_has_block(scene, row, n - 1, col);
        assert(scene.row_blocks(row, n)[i] == before[i]);
        i
    }
}

proof fn lemma_cell_has_glyph(scene: Scene, atlas: Atlas, row: int, n: int, col: int) -> (i: int)
    requires
        0 <= col < n <= usize::MAX,
        0 <= row <= usize::MAX,
        scene.screen.visible_cell(row, col).ch != ' ',
    ensures
        0 <= i < scene.row_glyphs(atlas, row, n).len(),
        ({
            let g = scene.row_glyphs(atlas, row, n)[i];
            &&& g.row == row
            &&& g.col == col
            &&& g.slot == atlas.slot_of(scene.screen.visible_cell(row, col).ch as u32)
            &&& (g.fg, g.bg) == scene.glyph_colors(row, col)
        }),
    decreases n,
{
    let before = scene.row_glyphs(atlas, row, n - 1);
    if col == n - 1 {
        before.len() as int
    } else {
        let i = lemma_cell_has_glyph(scene, atlas, row, n - 1, col);
        assert(scene.row_glyphs(atlas, row, n)[i] == before[i]);
        i
    }
}

/// Every selected cell is filled with the selection's color, whatever it holds.
pub proof fn law_selection_shows(scene: Scene, n: int, row: int, col: int)
    requires
        0 <= row < n <= usize::MAX,
        0 <= col < scene.screen.cols <= usize::MAX,
        scene.selected(row, col),
    ensures
        scene.blocks(n).contains(
            Block { row: row as usize, col: col as usize, color: selection_bg() },
        ),
    decreases n,
{
    let b = Block { row: row as usize, col: col as usize, color: selection_bg() };
    let before = scene.blocks(n - 1);
    let here = scene.row_blocks(n - 1, scene.screen.cols);
    if row == n - 1 {
        let i = lemma_cell_has_block(scene, row, scene.screen.cols, col);
        assert(scene.blocks(n)[before.len() + i] == b);
    } else {
        law_selection_shows(scene, n - 1, row, col);
        let i = choose|i: int| 0 <= i < before.len() && before[i] == b;
        assert(scene.blocks(n)[i] == b);
    }
}

/// Every cell that does not hold a space gets the glyph of its character, in the
/// cell's colors.
pub proof fn law_every_character_is_drawn(
    scene: Scene,
    atlas: Atlas,
    n: int,
    row: int,
    col: int,
)
    requires
        0 <= row < n <= usize::MAX,
        0 <= col < scene.screen.cols <= usize::MAX,
        scene.screen.visible_cell(row, col).ch != ' ',
    ensures
        scene.glyphs(atlas, n).contains(
            Glyph {
                row: row as usize,
                col: col as usize,
                slot: atlas.slot_of(scene.screen.visible_cell(row, col).ch as u32),
                fg: scene.glyph_colors(row, col).0,
                bg: scene.glyph_colors(row, col).1,
            },
        ),
    decreases n,
{
    let g = Glyph {
        row: row as usize,
        col: col as usize,
        slot: atlas.slot_of(scene.screen.visible_cell(row, col).ch as u32),
        fg: scene.glyph_colors(row, col).0,
        bg: scene.glyph_colors(row, col).1,
    };
    let before = scene.glyphs(atlas, n - 1);
    if row == n - 1 {
        let i = lemma_cell_has_glyph(scene, atlas, row, scene.screen.cols, col);
        assert(scene.glyphs(atlas, n)[before.len() + i] == g);
    } else {
        law_every_character_is_drawn(scene, atlas, n - 1, row, col);
        let i = choose|i: int| 0 <= i < before.len() && before[i] == g;
        assert(scene.glyphs(atlas, n)[i] == g);
    }
}

/// Nothing is drawn outside the grid.
pub proof fn law_drawing_stays_on_the_grid(scene: Scene, atlas: Atlas, n: int, i: int)
    requires
        n <= usize::MAX,
        scene.screen.cols <= usize::MAX,
    ensures
        0 <= i < scene.blocks(n).len() ==> scene.blocks(n)[i].row < n && scene.blocks(n)[i].col
            < scene.screen.cols,
        0 <= i < scene.glyphs(atlas, n).len() ==> scene.glyphs(atlas, n)[i].row < n && scene.glyphs(
            atlas,
            n,
        )[i].col < scene.screen.cols,
    decreases n,
{
    if n > 0 {
        law_drawing_stays_on_the_grid(scene, atlas, n - 1, i);
        let blocks = scene.blocks(n - 1);
        let glyphs = scene.glyphs(atlas, n - 1);
        if blocks.len() <= i < scene.blocks(n).len() {
            lemma_row_blocks(scene, n - 1, scene.screen.cols, i - blocks.len());
        }
        if glyphs.len() <= i < scene.glyphs(atlas, n).len() {
            lemma_row_glyphs(scene, atlas, n - 1, scene.screen.cols, i - glyphs.len());
        }
    }
}

/// What a cell is filled with: the color of the selection if it is selected,
/// else its own background, and nothing if that is the default one.
pub proof fn law_fill(scene: Scene, row: int, col: int)
    ensures
        ({
            let bg = scene.screen.visible_cell(row, col).bg;
            let selected = scene.selection is Some && scene.selection->0.covers(
                (row as usize, col as usize),
            );
            let fill = scene.fill(row, col);
            &&& selected ==> fill == Some(Color { r: 0x3a, g: 0x5e, b: 0x8e, a: 255 })
            &&& !selected && bg == CellColor::Default ==> fill is None
            &&& !selected ==> (bg matches CellColor::Palette(i) ==> fill
                == Some(scene.theme.palette[i as int]))
            &&& !selected ==> (bg matches CellColor::Rgb(c) ==> fill == Some(c))
        }),
{
}

/// The colors of a glyph: its cell's foreground on its background, where the
/// defaults are the theme's, and on the color of the selection if it is selected.
/// Under a block cursor it is the theme's background on the cursor's color.
pub proof fn law_glyph_colors(scene: Scene, row: int, col: int)
    ensures
        ({
            let cell = scene.screen.visible_cell(row, col);
            let (fg, bg) = scene.glyph_colors(row, col);
            let selected = scene.selection is Some && scene.selection->0.covers(
                (row as usize, col as usize),
            );
            let under = scene.screen.cursor_shape == CursorShape::Block && scene.cursor_cell()
                == Some((row, col));
            &&& under ==> fg == scene.theme.bg && bg == scene.theme.cursor
            &&& !under && cell.fg == CellColor::Default ==> fg == scene.theme.fg
            &&& !under ==> (cell.fg matches CellColor::Palette(i) ==> fg
                == scene.theme.palette[i as int])
            &&& !under ==> (cell.fg matches CellColor::Rgb(c) ==> fg == c)
            &&& !under && selected ==> bg == Color { r: 0x3a, g: 0x5e, b: 0x8e, a: 255 }
            &&& !under && !selected && cell.bg == CellColor::Default ==> bg == scene.theme.bg
            &&& !under && !selected ==> (cell.bg matches CellColor::Palette(i) ==> bg
                == scene.theme.palette[i as int])
            &&& !under && !selected ==> (cell.bg matches CellColor::Rgb(c) ==> bg == c)
        }),
{
}

/// The cursor is drawn in its cell of the view, in its shape and the theme's
/// color, unless it is hidden, in the off phase of its blinking, or out of view.
pub proof fn law_cursor_is_drawn(scene: Scene)
    requires
        scene.screen.wf(),
        scene.screen.cols <= usize::MAX,
    ensures
        ({
            let s = scene.screen;
            let row = s.cursor_row + s.view_offset;
            let shown = scene.cursor_on && s.cursor_visible && row < s.rows && s.cursor_col
                < s.cols;
            &&& scene.cursor_mark() is Some <==> shown
            &&& shown ==> {
                let mark = scene.cursor_mark()->0;
                &&& mark.row == row && mark.col == s.cursor_col
                &&& mark.shape == s.cursor_shape && mark.color == scene.theme.cursor
            }
        }),
{
}

/// Every block is a cell that is filled, with its color, and every cell that is
/// filled has its block.
pub proof fn law_blocks_are_the_filled_cells(scene: Scene, n: int, row: int, col: int, i: int)
    requires
        0 <= row < n <= usize::MAX,
        0 <= col < scene.screen.cols <= usize::MAX,
    ensures
        scene.fill(row, col) matches Some(color) ==> scene.blocks(n).contains(
            Block { row: row as usize, col: col as usize, color },
        ),
        0 <= i < scene.blocks(n).len() ==> scene.fill(
            scene.blocks(n)[i].row as int,
            scene.blocks(n)[i].col as int,
        ) == Some(scene.blocks(n)[i].color),
    decreases n,
{
    let before = scene.blocks(n - 1);
    let here = scene.row_blocks(n - 1, scene.screen.cols);
    if let Some(color) = scene.fill(row, col) {
        let b = Block { row: row as usize, col: col as usize, color };
        if row == n - 1 {
            let k = lemma_cell_has_block(scene, row, scene.screen.cols, col);
            assert(scene.blocks(n)[before.len() + k] == b);
        } else {
            law_blocks_are_the_filled_cells(scene, n - 1, row, col, i);
            let k = choose|k: int| 0 <= k < before.len() && before[k] == b;
            assert(scene.blocks(n)[k] == b);
        }
    }
    if 0 <= i < scene.blocks(n).len() {
        if i < before.len() {
            assert(scene.blocks(n)[i] == before[i]);
            if n - 1 > 0 {
                law_blocks_are_the_filled_cells(scene, n - 1, 0, col, i);
            }
        } else {
            lemma_row_blocks(scene, n - 1, scene.screen.cols, i - before.len());
            assert(scene.blocks(n)[i] == here[i - before.len()]);
        }
    }
}

/// Every glyph is the one of the character in its cell, which is no space, in
/// that cell's colors.
pub proof fn law_glyphs_are_the_characters(scene: Scene, atlas: Atlas, n: int, i: int)
    requires
        0 <= n <= usize::MAX,
        scene.screen.cols <= usize::MAX,
        0 <= i < scene.glyphs(atlas, n).len(),
    ensures
        ({
            let g = scene.glyphs(atlas, n)[i];
            let cell = scene.screen.visible_cell(g.row as int, g.col as int);
            &&& cell.ch != ' '
            &&& g.slot == if atlas.locations@.contains_key(cell.ch as u32) {
                atlas.locations@[cell.ch as u32]
            } else {
                atlas.fallback_slot
            }
            &&& (g.fg, g.bg) == scene.glyph_colors(g.row as int, g.col as int)
        }),
    decreases n,
{
    let before = scene.glyphs(atlas, n - 1);
    let here = scene.row_glyphs(atlas, n - 1, scene.screen.cols);
    if i < before.len() {
        law_glyphs_are_the_characters(scene, atlas, n - 1, i);
        assert(scene.glyphs(atlas, n)[i] == before[i]);
    } else {
        lemma_glyph_of_its_cell(scene, atlas, n - 1, scene.screen.cols, i - before.len());
        lemma_row_glyphs(scene, atlas, n - 1, scene.screen.cols, i - before.len());
        assert(scene.glyphs(atlas, n)[i] == here[i - before.len()]);
    }
}

proof fn lemma_glyph_of_its_cell(scene: Scene, atlas: Atlas, row: int, n: int, i: int)
    requires
        0 <= i < scene.row_glyphs(atlas, row, n).len(),
        0 <= row <= usize::MAX,
        n <= usize::MAX,
    ensures
        ({
            let g = scene.row_glyphs(atlas, row, n)[i];
            let cell = scene.screen.visible_cell(row, g.col as int);
            &&& g.slot == atlas.slot_of(cell.ch as u32)
            &&& (g.fg, g.bg) == scene.glyph_colors(row, g.col as int)
        }),
    decreases n,
{
    let before = scene.row_glyphs(atlas, row, n - 1);
    if i < before.len() {
        lemma_glyph_of_its_cell(scene, atlas, row, n - 1, i);
        assert(scene.row_glyphs(atlas, row, n)[i] == before[i]);
    }
}

/// Cells are drawn in the order in which they are read, row by row, and each at
/// most once.
pub proof fn law_cells_are_drawn_in_order(scene: Scene, atlas: Atlas, n: int, i: int, j: int)
    requires
        0 <= n <= usize::MAX,
        scene.screen.cols <= usize::MAX,
        0 <= i < j,
    ensures
        j < scene.glyphs(atlas, n).len() ==> {
            let (a, b) = (scene.glyphs(atlas, n)[i], scene.glyphs(atlas, n)[j]);
            a.row < b.row || (a.row == b.row && a.col < b.col)
        },
        j < scene.blocks(n).len() ==> {
            let (a, b) = (scene.blocks(n)[i], scene.blocks(n)[j]);
            a.row < b.row || (a.row == b.row && a.col < b.col)
        },
    decreases n,
{
    if n > 0 {
        law_cells_are_drawn_in_order(scene, atlas, n - 1, i, j);
        let cols = scene.screen.cols;
        let glyphs = scene.glyphs(atlas, n - 1);
        let blocks = scene.blocks(n - 1);
        if glyphs.len() <= j < scene.glyphs(atlas, n).len() {
            lemma_row_glyphs(scene, atlas, n - 1, cols, j - glyphs.len());
            if i < glyphs.len() {
                law_drawing_stays_on_the_grid(scene, atlas, n - 1, i);
            } else {
                lemma_row_is_in_order(scene, atlas, n - 1, cols, i - glyphs.len(), j - glyphs.len());
            }
        }
        if blocks.len() <= j < scene.blocks(n).len() {
            lemma_row_blocks(scene, n - 1, cols, j - blocks.len());
            if i < blocks.len() {
                law_drawing_stays_on_the_grid(scene, atlas, n - 1, i);
            } else {
                lemma_row_is_in_order(scene, atlas, n - 1, cols, i - blocks.len(), j - blocks.len());
            }
        }
    }
}

proof fn lemma_row_is_in_order(scene: Scene, atlas: Atlas, row: int, n: int, i: int, j: int)
    requires
        0 <= row <= usize::MAX,
        n <= usize::MAX,
        0 <= i < j,
    ensures
        ({
            let glyphs = scene.row_glyphs(atlas, row, n);
            let blocks = scene.row_blocks(row, n);
            &&& j < glyphs.len() ==> glyphs[i].row == row && glyphs[j].row == row && glyphs[i].col
                < glyphs[j].col
            &&& j < blocks.len() ==> blocks[i].row == row && blocks[j].row == row && blocks[i].col
                < blocks[j].col
        }),
    decreases n,
{
    if n > 0 {
        lemma_row_is_in_order(scene, atlas, row, n - 1, i, j);
        let glyphs = scene.row_glyphs(atlas, row, n - 1);
        let blocks = scene.row_blocks(row, n - 1);
        if i < glyphs.len() {
            lemma_row_glyphs(scene, atlas, row, n - 1, i);
        }
        if i < blocks.len() {
            lemma_row_blocks(scene, row, n - 1, i);
        }
    }
}

} // verus!
