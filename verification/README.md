# den

The core of `den`, a terminal text editor with a file tree sidebar, an
integrated terminal and a debugger panel, written in Verus: the decisions and
data structures carry contracts and are proved.

Layout:

- `src/` — the verified library.
  - `editor.rs`: the editor's prompt, Quit and sidebar state machine; each
    command yields the effects to carry out, in order. `startup.rs`: how the
    command-line path decides the workspace root, the sidebar and the file
    to open.
  - `file_tree.rs`: the sidebar tree (sorted listings, open directories,
    selection and scrolling, rendered lines).
  - `vt.rs`, `csi.rs`, `scrollback.rs`, `pane.rs`: the terminal emulator
    behind the integrated terminal (a VT byte-stream parser and the scrollback
    buffer it writes to) and its panel.
  - `dap.rs`, `adapters.rs`: debug-adapter message framing and the rule that
    merges adapter configurations; `debug.rs`: the debug panel.
  - `command.rs`: commands and key bindings; `draw.rs`, `terminal.rs`: the
    drawing commands planned for the terminal; `text.rs`, `decimal.rs`,
    `wide.rs`, `style.rs`, `geometry.rs`: shared text and value helpers.
- `tests/` — tests of the library.
- `app/` — the program: terminal input and output, the file system, the
  shell's pseudo-terminal, the debug adapter process and JSON/TOML parsing.
