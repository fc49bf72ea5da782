# shelvd

The core of a terminal emulator that groups each command with its output.

A shell with shelvd's integration marks where prompts, commands and output begin
(OSC 133) and which directory it is in (OSC 7). shelvd reads those markers from the
byte stream beside the emulator, keeps one block per command, freezes each finished
block into a buffer of its own that re-wraps to any width, pins the input line to the
bottom of the screen, and queues what is typed while a command runs.

## Layout

- `src/` — the library. Verus proves what every contract says, but for those of the
  trusted items (see below).
  - `terminal/` with `model`, `model_laws`, `screen_laws` and `history_laws`: the terminal,
    its mathematical model, and what holds of it.
  - `session` with `session_model` and `session_laws`: what window events lead to.
  - `osc133`, `completion`, `engine`: markers, the completion protocol, and the
    shells' completion engines.
  - `overlay`, `commands`, `keys`, `mouse`: the command palette and input.
  - `paint`, `surface`, `snapshot`, `layout`: what a frame draws, in cells.
  - `emulator`: the boundary to `alacritty_terminal`; `wide`: which output one column
    has room for.
- `app/` — the program: window, GPU, child process, clipboard and files.
- `tests/` — tests of the library.

## What is trusted

The library calls `alacritty_terminal`, `unicode-width`, `nucleo-matcher`, `flume` and
parts of `std` through declared items. Their contracts are stated beside them and
are not proved; where an outside result is too large to state, it has a name, and
contracts speak of that name.
