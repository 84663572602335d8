# openusage

The rules behind the OpenUsage tray app's plugin loading and tray panel,
written in Verus and proved against their contracts.

- `src/text.rs` — Unicode-whitespace trimming, string equality and prefix tests.
- `src/manifest.rs` — the `plugin.json` types; the weekly-metric candidate
  (first weekly progress line wins); the line settings that are ignored;
  link sanitizing (trimmed, non-empty, http(s) only), with its idempotence.
- `src/entry_path.rs` — the entry-script path check for Unix and Windows path
  syntax: blank, absolute and escaping (`..`, root, prefix) entries are refused.
- `src/plugin.rs` — the checked manifest, the icon as a base64 `data:` url, and
  the stable sort that lists plugins by id.
- `src/panel.rs` — the tray-panel state machine: toggle, tray clicks and the
  reopen guard after a focus-loss hide.
- `app/` — the I/O around these: reading plugin directories and parsing
  `plugin.json` with serde, and driving the panel window with Tauri
  (including its floating-point positioning).
- `tests/` — scenario tests of the library.
