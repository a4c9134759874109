# PopMax

A keyboard-driven application launcher for Windows: search installed apps,
launch them with one keystroke, pin up to six favorites, and jump to web
searches with bang shortcuts such as `!g query`.

The launcher's logic is a library verified with Verus (`src/`):

- `bangs` — bang shortcuts: parsing `!g query` and building the search URL.
- `text` — whitespace trimming, substitution, number parsing and formatting.
- `components` — the results list (`list`), the fuzzy search engine over item
  names (`search`) and the favorites bar (`fav`).
- `launcher` — the window's state and the decisions behind each key binding.
- `list` — a simpler list filtered by case-insensitive substrings.
- `scanner` — how Start Menu shortcuts and uninstall entries become items.
- `autostart`, `tray`, `hotkey`, `windows_icons`, `utils`, `app_theme` — the
  decisions and pure computations behind launch-at-login, the tray icon, the
  hotkey, icon images and asset paths.

`app/` is the Windows program around it: the GPUI window, Win32 calls, the
registry, the file system and the persisted JSON files.
