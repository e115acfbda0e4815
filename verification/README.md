# muster

Terminal session group management built on tmux: named, colour-coded groups of
tmux windows created from saved profiles, themed at runtime, and followed
through tmux control mode.

The library under `src/` is written in Verus. Its functions build the tmux
commands muster issues, read what tmux prints, and make muster's decisions;
each carries a contract proved by Verus.

- `text` — character-level text utilities (lines, words, decimal numbers).
- `config` — profiles, their slugs, the in-memory profile store and settings.
- `tmux` — tmux command lists, output parsers, and the control-mode parser.
- `session` — launch batches, theming and colours, pinning windows to profiles.
- `inspect` — process tables, process trees, listening ports, GPU usage.
- `emulator` — terminal emulator commands.
- `notify` — what a click on a notification runs.
- `commands` — the decisions behind the command-line commands.

`app/` is the command-line program around the library: argument parsing,
files, running tmux and other processes, JSON and TOML, and everything that
uses floating point.
