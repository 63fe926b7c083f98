# herdr-agents-status

A small always-on-top overlay that shows the coding agents managed by
`herdr`, one row per agent, the agents that need a human on top.

- `src/` is the verified library (Verus):
  - `status` — agent statuses, their attention rank, label and pulse;
  - `agents` — the board's rows, built from `herdr agent list`, and the
    attention order (a stable bucket order, with its laws);
  - `collect` — the state machine that gathers agents over one or all
    sessions;
  - `cli` — the `herdr` argument lists and the running sessions of a
    session list;
  - `path` — the project name of a working directory;
  - `board` — row text, colours, window anchors and redraw delay;
  - `text` — white-space trimming and the pid file's number.
- `app/` runs the commands, parses JSON and TOML, polls, and draws with
  eframe.
- `tests/` exercises the library on concrete values.
