//! A terminal emulator's core: the character grid, the escape-sequence
//! interpreter that drives it, color themes, and the decisions a front end
//! makes around them (selection, key and mouse encoding, layout of tabs and
//! panes, what to draw).
//!
//! The library is verified with Verus. Calls into other crates go through small
//! wrappers whose contracts are stated and not proved; each says so in its doc
//! comment. The mathematical model of the grid is in [`screen`]; the contracts of
//! [`grid::Grid`] are stated over it.
pub mod atlas;
pub mod color;
pub mod commands;
pub mod font;
pub mod geometry;
pub mod grid;
pub mod input;
pub mod laws;
pub mod layout;
pub mod menu;
pub mod metrics;
pub mod mode_laws;
pub mod parser;
pub mod reflow;
pub mod render;
pub mod report_laws;
pub mod screen;
pub mod screen_laws;
pub mod selection;
pub mod sequence_laws;
pub mod session;
pub mod settings;
pub mod sgr_laws;
pub mod text;
pub mod theme;
pub mod theme_file;
pub mod theme_toml;
pub mod tree;
pub mod vt;
pub mod window;

pub use grid::{Cell, CursorShape, Grid, MouseMode};
pub use parser::Parser;
