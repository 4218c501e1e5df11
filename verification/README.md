# AInv Helper library

The logic of a macOS menu-bar helper, verified with Verus: editing the text
of `/etc/hosts` (a managed block of entries and an iOS simulator route), the
configuration model and its migration, the `adb` commands that switch the
Android emulator's HTTP proxy, the administrator prompts, the LaunchAgent for
launch at login, the status readings and the pixels of the icons.

- `src/` — the verified library, one module per concern; `text` holds the
  character-level utilities (trimming, search, numbers, paths) that the others
  build on. Laws of the library are public proof functions named `law_…`.
- `tests/` — tests of the library on concrete values.
- `app/` — the program around it: the event loop and native menu (`tao`,
  `muda`, `tray-icon`), file and process I/O, logging, the single-instance
  lock and the TOML file format (`serde`, `toml`).
