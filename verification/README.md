# Realistic Mouse Jiggler

A cross-platform desktop mouse jiggler whose decisions are proved with Verus.

- `src/` is the verified library: movement state machine (`jiggler`), binding
  capture and dispatch (`input`, `linux_input`, `windows_input`, `mac_input`),
  settings (`config`), window model (`app_state`), screen geometry (`screens`),
  themes (`palette`), license and credit text processing (`licenses`, `text`),
  icons and tray helpers (`icons`, `tray`).
- `app/` is the desktop shell: the egui window, the tray, the input listener
  threads, the cursor backends and the settings file. It performs the I/O the
  library asks for.
- `tests/` runs the library on concrete values.

The window icons, tray SVG and bundled license documents are read from
`assets/`, `LICENSE`, `CREDITS.md` and `docs/` at build time.
