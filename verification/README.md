# clux

A GPU-rendered terminal multiplexer for Windows whose core is verified with Verus.

- `src/` is the library, every function of it proved against its contract:
  the terminal screen buffer and what escape sequences do to it (`buffer`, `vt`),
  keyboard encoding (`input`), the pane tree, tabs and workspace (`layout`, `tab`,
  `workspace`), session snapshots and restoration plans (`state`, `restore`,
  `store`), debouncing of resizes and saves (`resize`, `auto_save`, `clock`),
  mouse selection (`selection`), the coordination panel (`panel`), and glyph-atlas
  packing (`glyph`).
- `tests/` exercises the library on concrete values.
- `app/` is the Windows program around it: the window and event loop, the GPU
  renderer, the pseudo console, files on disk, and the pixel geometry, which is
  computed in floating point.
