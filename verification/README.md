# godot-nvm

A terminal dashboard for Godot projects whose editor comes from a Nix flake.
It registers project directories, validates their Nix dev shells, generates
flakes and new projects pinned to official Godot releases, and starts the
editor detached.

## Layout

- `src/` is the library, verified with Verus. It holds the `project.godot`
  reader, the flake and project generators, the release catalogue rules, the
  registry and the order of its cards, log rotation, and the dashboard itself:
  every key and every outcome of outside work is a step from one dashboard
  state to the next, together with the outside work (`Action`) that the
  program is to do next. The release cache and Nix's JSON output are read and
  written through `serde_json` behind small trusted wrappers (`src/json.rs`),
  and `src/readback.rs` proves that a generated `project.godot` (for a
  version without quotes, backslashes or line feeds) is read back without
  error, giving back the name as the JSON string literal it was written as,
  the version hint and the icon.
- `app/` is the program: terminal drawing, the event loop, worker threads that
  run Nix and talk to the release catalogue, the registry file, and the file
  system work that each `Action` asks for.
- `tests/` exercises the library on concrete values.
