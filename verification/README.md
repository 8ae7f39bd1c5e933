# pretend_core

The verified core of `pretend`, a Discord Rich Presence manager.

- `src/` — the library, verified with Verus: matching and ranking of the
  application catalogue (`database`), presences and activities (`models`,
  `rpc`), the IPC frame format, socket search plan and launch commands
  (`rpc::client`), the start/stop decisions and configuration summary
  (`service`), the printed lines (`output`) and the character-level text
  operations they rest on (`text`).
- `tests/` — tests of the library.
- `app/` — the command-line program: argument parsing, files, the IPC socket,
  process launching and printing, around the library.
