# xiaomi-debloater

A terminal tool that lists the pre-installed packages of a Xiaomi / MIUI /
HyperOS phone that appear in a curated catalog, lets the user mark them, and
removes the marked ones for user 0 with
`adb shell pm uninstall --user 0 <package>`.

Layout:

- `src/` — the verified library: reading `adb` output (`adb.rs`), the catalog
  entries and their order (`model.rs`, `sort.rs`), the list state and its key
  handling (`ui.rs`), the texts on screen (`screen.rs`), the placement of the
  confirmation popup (`layout.rs`, through ratatui's layout solver), text handling
  (`text.rs`) and the properties proved across operations (`laws.rs`).
- `app/` — the program: runs `adb`, reads the catalog JSON (from
  `XIAOMI_DEBLOATER_CATALOG`, default `data/packages.json`), draws with
  ratatui and reads keys with crossterm.
- `tests/` — tests of the library on concrete values.
