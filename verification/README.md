# kaomoji-widget

A desktop widget that shows a kaomoji or an image, driven by an MCP bridge
that forwards commands to it over a local socket.

- `src/` — the verified library: message types and the length-prefixed
  framing (`protocol`), how the widget handles each command (`commands`),
  the text the bridge reports to its MCP client (`bridge`), paths, the socket
  location and image extensions (`paths`), numerals, name ordering and line
  joining (`text`), and the widget's setting defaults, tray menu actions and
  monitor naming (`settings`, `tray`, `monitors`).
- `tests/` — tests of the library.
- `app/` — the programs around it: the MCP bridge (`main.rs`, `bridge.rs`),
  JSON over the socket (`wire.rs`), and the Tauri widget (`widget/`).
