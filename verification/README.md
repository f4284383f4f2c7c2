# mimic

A terminal Markdown notes editor for Obsidian-style vaults, extensible with
Lua and Rhai scripts.

- `src/` is the library, verified with Verus: key handling for every screen
  (home, file browser, new-vault dialog, normal, insert and command modes,
  settings, theme editor), the Markdown renderer and its word wrap, the
  editor's line wrap and cursor placement, the vault's file tree, wikilinks,
  themes and configuration, extension bookkeeping, the text of every screen,
  and the image mosaic and Kitty graphics encoding.
- `app/` is the program `mmc`: the command line, the event loop, the disk,
  the clipboard, the terminal drawing, the script engines and image decoding.
- `tests/` runs the library on concrete inputs.
