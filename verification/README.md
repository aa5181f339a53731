# innards

The verified core of a set of small terminal tools that open below the shell prompt
instead of taking over the screen:

- `inmacs`, an editor with Emacs-like keys, and `inpage`, a pager with the same keys;
- `inbase`, a sequence editor for interactive Git rebases;
- `inlog`, a Git log browser;
- `navsplat`, a picker for the symbols of a Rust workspace, by way of `rust-analyzer`.

What the tools decide and compute is written in Verus under `src/`: the state of each
tool, what a key does to it, what is drawn, what is read from and written to files, and
what is said to the language server. The contracts are stated over mathematical models
(texts as sequences of characters, a tool as a value and each key as a function on it).
Properties that span several functions are public proof functions named `law_...`.

| where | what |
| --- | --- |
| `src/text.rs`, `src/table.rs`, `src/json.rs` | texts, tables, JSON values |
| `src/paths.rs`, `src/file_path.rs` | paths that are texts, and paths as the operating system has them |
| `src/rope.rs` | the text storage, over `ropey` |
| `src/style.rs`, `src/layout.rs` | styled text, and the parts of the screen |
| `src/args.rs`, `src/config.rs` | arguments, configuration, keys and key bindings |
| `src/inline_text.rs`, `src/inline_text/` | the editor and the pager |
| `src/rebase.rs` | the sequence editor |
| `src/log.rs`, `src/clipboard.rs` | the log browser, and how text is copied |
| `src/lsp.rs`, `src/lsp/`, `src/navsplat.rs`, `src/navsplat/` | the client of the language server, and the picker |
| `app/` | terminals, files, processes and the configuration file around the library |
| `tests/` | the tests of the library |

What is taken from other crates without proof (`ropey`, `syntect`, `tui-input`,
`ratatui`, `url`, `serde_json` and a few functions of the standard library) is declared where it is
used, with a comment that says what is believed of it.
