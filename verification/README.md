# petruterm_shell

The interaction logic of a GPU terminal emulator's window shell, written
in Verus: every function in `src/` carries a contract, and Verus proves
each one against its body, except for a few trusted items whose contracts
are taken on trust: the wrappers around `HashMap::remove`, `insert` and
`get` on the search index (its `rustc_hash::FxBuildHasher` hasher has no
vstd model), around `String::push` and `String::pop`, and the declaration
of `FxBuildHasher` itself. Each is marked `#[verifier::external_body]` or
`#[verifier::external_type_specification]` and states only what std's
documentation says of the call.

- `key_map`: key events to PTY byte sequences (control bytes, Meta prefix,
  CSI/SS3 and function-key sequences with xterm modifier codes).
- `keyroute`: the keyboard router (resize mode, leader key and chords,
  standalone shortcuts, otherwise the terminal).
- `leader`: leader actions and the leader binding table.
- `click_state`, `pointer`, `mouse`: multi-click counting, drag tracking,
  scrollbar dragging, xterm mouse reports and scrollbar geometry.
- `panes`, `pane_focus`, `layout`: pane-split trees, directional focus,
  zoom and tab-closing decisions.
- `grid`, `search`, `frame_cache`: assembling the visible grid, selection
  tests, search highlighting (indexed with `rustc_hash`), shaping runs,
  and reusing a terminal's last frame while its content is unchanged.
- `sidebar`, `snippets`, `slash`, `mcp`, `text`, `timers`: the workspace
  sidebar, Tab snippet expansion, chat slash commands, MCP summaries,
  shell quoting and UTF-8 spans, and periodic housekeeping.
- `branches`, `ai_queries`, `status_text`, `context_menu`, `undo`,
  `focus`: the git branch picker, the questions and confirmations put to
  the assistant, the assistant surfaces' status texts, the right-click
  menus, the bounded undo stack of agent writes, and keyboard focus
  between the terminal and the text fields.

`app/` holds the platform glue Verus does not see: the clock, per-thread
click state, the font state, the `git branch` subprocess, floating-point
pixel geometry,
and conversions to and from
`alacritty_terminal`, `cosmic-text` and `image` types.

Laws that relate several functions are public proof functions named
`lemma_*` next to the functions they speak of.
