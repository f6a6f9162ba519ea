# sofos

The core of a terminal coding assistant, written in Verus.

- `src/` is the library. Every function states what it does, and Verus proves
  it, but for a few small ones that only call another crate or the standard
  library: what those state is believed, and their comments say what that is.
  The library holds the conversation and how it is trimmed and compacted, the
  requests that are built from it, the loop that answers tool calls, the
  stored sessions, and the state behind the terminal interface. Work that needs the outside
  world (a request to a model, a file, a key) is asked for as a value; the
  caller does it and hands the result back.
- `tests/` runs the library on concrete values.
- `app/` does the outside work: files, the terminal, the clipboard, threads.

What the library as a whole keeps true stands in public proof functions, next
to the functions they speak of or in the modules named `laws`.
