# engine

The engine of a keyboard launcher: it indexes applications and files,
searches them, recognises keyword shortcuts and their command mode, and
decides how the launcher reacts to each key press. Every function in `src/`
carries a Verus contract. All are verified except the small wrappers marked
`#[verifier::external_body]`, whose bodies only call `nucleo`, `urlencoding`,
`freedesktop-file-parser`, `plist`, `icns`, `image` or std, and whose
contracts are trusted.

- `src/text.rs`, `src/order.rs`, `src/url.rs`: text operations and their
  specifications (trimming, searching, replacing, ordering, percent-encoding).
- `src/models.rs`, `src/config.rs`: items, filters, the configuration and the
  merging of default shortcuts.
- `src/actions.rs`: what running or copying an item does, sums, web addresses.
- `src/shortcuts.rs`: shortcut detection, slot templates and command mode.
- `src/index.rs`: building the item list (sorted by path, one item per path),
  desktop files, application bundles, the demo list.
- `src/search.rs`: fuzzy search through the `nucleo` matcher and filtering.
- `src/hotkey.rs`: the configured global hotkey.
- `src/launcher.rs`, `src/screen.rs`: the launcher as a state machine (event
  in, new state and effect out) and what its window shows.

`app/` is the program around it: the window (iced), the configuration file,
the disk walk, the calculator, the global hotkey and the running of actions.
