# skyterm

A terminal emulator whose core is verified with [Verus](https://github.com/verus-lang/verus).

The library in `src/` holds everything that can be decided without a display or
a child process, and each function states what it does in `requires` and
`ensures` clauses that Verus proves:

- `grid`, `screen`, `reflow`: the character grid with its history, and its
  mathematical model. Resizing rewraps long lines without losing text.
- `parser`, `vt`: the interpreter of escape sequences, on top of the `vte` crate.
- `color`, `theme`, `theme_file`, `theme_toml`: colors and themes, built in or
  from files.
- `session`, `selection`, `input`, `commands`, `menu`: what the mouse, the
  keyboard and the menu do.
- `window`, `tree`, `layout`, `geometry`: tabs, panes and how they divide the
  space.
- `metrics`, `settings`: sizes, and the user's settings.
- `font`, `atlas`, `render`: the glyph atlas, rasterized by FreeType, and what a
  frame shows.
- `laws`: what holds of the grid and the interpreter as a whole.

Calls into other crates go through small wrappers whose contracts are stated, not
proved; each says so in its doc comment.

`app/` is the program around it, with GTK 4, OpenGL and a pseudo terminal. The
font JetBrains Mono is installed beside the program. `tests/` runs the library.
