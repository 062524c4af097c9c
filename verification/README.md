# pgun

The core of a terminal manager for local-forward SSH tunnels, written in Rust and verified with
Verus, and the program around it.

- `src/` is the library. It decides everything: which configurations are accepted (`config`), how
  a tunnel goes from start to end (`tunnel`), what state each tunnel is in (`manager`), what every
  key does and what is shown (`ui`). Every function has a contract that Verus proves.
- `app/` is the program: it reads and writes the configuration, runs `ssh`, and talks to the
  terminal. It asks the library what to do and reports back what came of it.
- `tests/` runs the library on values.

The laws that hold of the library as a whole are public proof functions: in `src/ui/laws.rs` for
the user interface, and beside what they speak of elsewhere.

What is taken on trust: `String::push` and `String::pop` of the standard library, its `PathBuf`,
which is declared and carried along without being looked into, and how `ratatui` stacks rows
(`split_rows` in `src/ui/draw.rs`).
