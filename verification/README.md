# penrose

A tiling window manager library for X11, whose data structures and decision logic
carry contracts that Verus proves.

## Layout

- `src/` — the verified library.
  - `wm/ring.rs` — the focused ring that holds screens, workspaces, clients and layouts.
  - `wm/workspace.rs`, `wm/layout.rs` — workspaces, their clients and layout settings.
  - `wm/manager/` — the state of the window manager (`clients`, `screens`,
    `workspaces`), the actions taken on X events (`event.rs`), and the decisions
    that return the steps to carry out (`state.rs`).
  - `wm/xconnection/`, `wm/xcb.rs` — X events, window properties and hints, and
    the values written to the X server.
  - `wm/key_text.rs`, `wm/key_bindings.rs`, `wm/bindings.rs` — reading the keymap,
    parsing key bindings (chords included) and dispatching key presses.
  - `builtin/`, `contrib/` — layouts, layout transformers, hooks, and the
    argument and output handling of the helper programs (dmenu, notify-send, xrandr).
  - `common/`, `pure/`, `draw/` — geometry and colours.
- `tests/` — tests of the library on concrete values.
- `app/` — the parts that deal with the outside world: running xmodmap, xrandr,
  dmenu and notify-send, the layouts whose main area is a fraction of the screen,
  and the window manager loop that carries out the library's steps against an X
  connection.
