# ly

Small utilities, verified with Verus.

- `src/log/`: a runtime logging system. `Level` orders records
  `Log < Warning < Error`; a `LogState` holds the installed `Logger` and the
  threshold below which records are dropped; `ANSI` prints one line per
  record to standard output with an optional, possibly colored, label; a
  `Vec<u8>` collects the bytes of the messages.
- `src/builder.rs`: the decision core of the `builder` attribute macro:
  which options of `#[builder(..)]` count, which fields get a builder field,
  a setter, or stay in the struct, and why a struct is refused;
  `src/render.rs` writes the generated code as text.
- `app/`: the program around the library: the process-wide logger behind a
  lock with the `log!`, `warn!` and `error!` macros, and `builder`, a function
  from token streams to token streams that reads the struct with `syn` into
  the library's plain values and turns the library's text back into tokens; this package has no proc-macro crate, so it is not registered
  as an attribute macro.
