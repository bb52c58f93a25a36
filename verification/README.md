# try-rs

`try` keeps throw-away experiment directories under one root (`TRY_PATH`),
named with a date prefix, and lets you find, create, rename, delete or
graduate them from an interactive fuzzy selector. The shell integration runs
the small scripts that `try` prints.

## Layout

- `src/` is the library, written in Verus. Verus proves every function
  there against its `requires` / `ensures` contract; the few small wrappers
  that call outside crates or read the clock and the file system are trusted,
  and those that read the clock or the disk promise nothing of the answer.
  - `text`, `width`, `width_laws`: character sequences, ANSI escape sequences,
    display widths and width-bounded truncation.
  - `ansi`, `palette`, `layout`: escape codes, colours, and the screen model
    (segments, lines, sections) with its rendering.
  - `input_field`, `keys`, `commands`: the line editor, the test-key parser and
    the mapping from key presses to commands.
  - `selector`, `render`: the selector's state machine (browse mode and the
    delete, rename and graduate dialogs) and what it draws.
  - `naming`, `tokens`, `gituri`, `paths`: directory naming, `{date}`-style
    tokens, git URI parsing and path helpers.
  - `shell`, `script`, `cli`: shell detection and quoting, the emitted shell
    scripts, and command-line routing.
  - `terminal`: terminal size from environment values.
  - `laws`: properties that span several functions, stated and proved.
- `tests/` runs the library on concrete values.
- `app/` is the program: argument handling, file system, terminal I/O, the
  event loop, and fuzzy scoring (which works in floating point).

Calls into `unicode-width`, `regex`, `chrono`, `rand`, `std::path` and
`std::time` go
through small trusted wrappers whose contracts say what those crates promise.
