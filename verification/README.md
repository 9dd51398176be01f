# keygen

A command-line tool that issues, rotates and checks API keys. Keys are hashed
by one or more configured hashers (the built-in SHA-256 hasher or external
commands), compared across hashers, and stored encrypted (AES-256-GCM under a
master key) in a SQLite journal.

- `src/` is the library, verified with Verus: configuration handling, hash
  algorithms and external-command output parsing, encryption of stored keys,
  the journal's decisions and invariant, rendering of the journal, and key
  generation and hash comparison.
- `app/` is the command-line program around it: argument parsing, reading the
  configuration file, running external commands, and the SQLite statements.
- `tests/` exercises the library on concrete values.
