# http-nu-core

The decisions of an HTTP server whose handlers are Nushell scripts, verified
with Verus.

- `src/` is the library. It does no I/O: each part takes what happened as plain
  values and says what is to be done next.
  - `cli`, `engine`: the steps that carry out a command line.
  - `steps`: taking steps one by one, up to the first that fails.
  - `file_source`, `fs_path`: a script file, and the debounced watch on its
    directory.
  - `command_source`: a script on the command line.
  - `stdin_source`: scripts on standard input, one or a NUL-separated stream.
  - `store`: what runs beside a store, and handlers in one of its topics.
  - `server`, `shutdown`: the life of the server, and what stops it.
  - `text`, `encoding`, `trace`: what these share.
- `app/` is the program around it: argument parsing, files, sockets, signals and
  the Nushell engine. It performs the actions and hands back the events.
- `tests/` runs the library on concrete values.

Functions named `law_…` state what holds of the library as a whole, for example
that a burst of changes reloads a script once, that scripts on standard input
come out as they were sent, that every engine is made from the base engine, and
that a server logs its end exactly once.

Two functions of the standard library are trusted, `String::from_utf8` and
`String::from_utf8_lossy`; what is assumed of them stands in `encoding`.
