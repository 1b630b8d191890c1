# zena_cli

The decisions behind the `zena` command line, verified with Verus: what to compile and what to
reuse, what the compiler and its guests are told, which tests to run and how they are judged, and
how programs draw on a terminal.

- `src/` is the library. Every function in it carries a contract that Verus proves. What comes
  from the `glob` and `wasmtime` crates, the lossy decoding of bytes and the quoting of text stand
  behind small wrappers whose contracts are taken as given; each says so in its documentation.
- `app/` is the command itself: arguments, files, the environment, and running guests. It asks the
  library what to do next and does it.
- `tests/` runs the library, in part against `std`, `glob` and `wasmtime`.

Paths are UTF-8 text in Unix form. The plans say which guests may start processes and how their
paths map to the host's; the host functions that start them are not part of this crate.
