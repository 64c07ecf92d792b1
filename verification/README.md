# zellij_server (verified core)

The decision-making core of a terminal multiplexer server, written in Verus: every
function under `src/` carries a `requires`/`ensures` contract that Verus proves, and some
properties that span several functions or calls are stated and proved as `law_*` proof
functions.

## Layout

- `src/geom.rs`, `src/input.rs`, `src/mouse_event.rs` — positions, pane ids, sizes, input
  modes, resize requests and mouse events.
- `src/mouse_action.rs`, `src/mouse_handler.rs`, `src/mouse_execution.rs`,
  `src/mouse_dispatch.rs`, `src/hover.rs`,
  `src/context_menu.rs`, `src/overlays.rs` — what a mouse event means and how the tab goes
  on with it (the action to take, resize steps, wheel handling, focus and click-through,
  hover and focus-on-hover, the Acme context menu and hover help and how they are drawn).
- `src/boundary_symbol.rs`, `src/boundary_map.rs`, `src/boundaries.rs`,
  `src/boundary_laws.rs` — box-drawing glyphs, how two glyphs in one cell combine, and the
  boundaries drawn around panes.
- `src/acme*.rs` — the Acme column layout: equal shares of rows, maximizing, minimizing and
  restoring panes, resizing, moving, reordering and removing panes, titles, and what moves
  and resizes keep (`acme_laws.rs`, `acme_move_laws.rs`).
- `src/display_wrap*.rs` — the unwrapped view of a terminal grid: logical lines, position
  translation, scrolling by logical lines, starting and extending a selection by clicks, and
  the text a selection covers.
- `src/notification.rs`, `src/attention.rs` — desktop notifications found in terminal output
  and the attention they ask for.
- `src/terminal_bytes.rs`, `src/restored_history.rs`, `src/mouse_positioner.rs`,
  `src/text.rs` — the reader loop's decisions, restored scrollback checks, the mouse
  positioner script, and text helpers.

`app/` holds what stays outside verification: process spawning, the asynchronous reader of
a terminal's output, and ANSI colouring of boundary glyphs. `tests/` exercises the library
on concrete values.
