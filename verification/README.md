# mmo_launcher

A launcher for 2D MMO games on Linux: a catalog of game manifests, Windows
installers run through Wine or Proton, archive installs, remote-manifest
updates applied through staging, installation checks, BattlEye and external
updaters, and managed Proton-GE builds.

## Layout

- `src/` is the library, verified with Verus. It holds the rules: manifest and
  catalog validation, archive formats and safe entry paths, runner discovery
  and command assembly, environment overrides, remote-update planning and
  progress reading from the runner log, installation checks and checksums,
  install and launch plans, and the managed-runner rules. Calls into
  `crc32fast`, `flate2` and `reqwest::Url` sit behind small trusted wrappers
  whose contracts state (CRC-32) or name (inflate, URL parsing) what the crate computes.
- `tests/` runs the library on concrete values.
- `app/` is the desktop side (Tauri): commands, SQLite, files, HTTP,
  processes and threads. It hands the library plain values and acts on what
  comes back.
