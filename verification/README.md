# grimoire

A language-agnostic task runner: tasks ("sigils") are declared in a
`Grimoire.toml` spellbook and cast with `grim cast <name>`.

- `src/` is the verified library (Verus): assembling the spellbook from its
  tables (`config`), the casting order of a sigil and its dependencies with
  cycle detection (`plan`, laws in `plan_laws`), argument resolution and
  `{{name}}` substitution (`args`, laws in `table_laws`), language choice
  from a shebang line (`shebang`), the process a sigil turns into
  (`invocation`), what follows each process's outcome, including removal
  of scratch files (`settle`) and character-level helpers (`text`).
- `app/main.rs` is the `grim` program: command-line parsing, reading and
  parsing `Grimoire.toml`, terminal prompts and running the processes.
- `tests/` exercises the library on concrete spellbooks.
