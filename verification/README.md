# dte

The verified core of a small modal text editor for the terminal, in the
spirit of vim but with keys chosen for the Dvorak layout (a Qwerty layout is
offered too).

- `src/keys.rs`: keys, layouts and what each key means in move mode.
- `src/model.rs`: the editor as a mathematical state, and what every key,
  the end of a frame, and reading and writing a file do to it.
- `src/editor.rs`: the executable editor, proved to follow the model.
- `src/screen.rs`: the frame drawn on the terminal, as a model and as code.
- `src/terminal.rs`: the terminal control sequences, from `termion`.
- `src/text.rs`, `src/wrap.rs`: UTF-8 widths, byte positions, line wrapping.
- `src/laws.rs`: properties that relate several operations.
- `app/main.rs`: the program: terminal input, files, and the frame loop.

Keys in move mode (Dvorak): `u`/`e`/`h`/`t` move up/down/left/right,
`U`/`E` ten lines, `H`/`T` four columns, `i` insert mode, `d` delete,
`k` cut to the end of the line, `Esc` start of line, `f` open, `w` write,
`l` line numbers, `q` quit. In insert mode `Ctrl-t` writes four spaces and
`Esc` goes back to move mode. Set `DTE_LAYOUT=qwerty` for the Qwerty keys.
