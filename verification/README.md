# tmux_sidecar

A session and window tree for tmux, kept current by a small daemon per tmux
socket. tmux hooks report changes to the daemon, the daemon keeps the state
and publishes it to subscribed views, and a terminal view shows the tree and
sends switch, create, rename and close requests back.

## Layout

- `src/` is the library, verified with Verus:
  - `text`, `path`, `order`: text, path and ordering helpers with exact
    specifications;
  - `domain`, `model`, `projection`: the session/window/client state, the tree
    rows, focus and navigation, and the published projection;
  - `tmux`: parsing tmux's output, assembling snapshots, the hook table and
    the arguments of every tmux command;
  - `ipc`, `client`: the protocol messages, the daemon's files, and what a
    client makes of the daemon's replies;
  - `server`: the daemon's decisions (publishing, bells, hook reconciles,
    working directories, action effects, the connection protocol);
  - `input`, `ui`, `controls`: the text field, the view's texts and layout,
    and what each key, click and reply does to the view.
- `tests/` runs the library on concrete values.
- `app/` is the program around it: argument parsing, sockets, threads,
  running tmux, JSON on the wire and drawing on the terminal.
