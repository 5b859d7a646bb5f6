# Shadow Icon Factory

Generates Linux, iOS, macOS, Web and Android icon sets from one master image.

- `src/` is the library, verified with Verus: the size tables of every
  platform (`spec`), the plan of a run (which slots are written or skipped,
  the warnings, the report), the pixel steps around the `image` crate
  (padding, resizing, background), the `favicon.ico` encoding through the
  `ico` crate, paths and their display, the theme choice, and the texts and
  decisions of the window.
- `app/` is the GTK program: file and process I/O, the settings file, JSON
  output, the float padding arithmetic, and the user interface.
- `tests/` runs the library against the real outside crates.
