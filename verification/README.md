# tmuxtui

A terminal interface for tmux: a tree of sessions, windows and panes on the
left, a preview of the selected pane on the right, and vim-style keys to move,
search, filter, create, rename, kill, cut, paste, split, zoom and attach.

The logic is a library verified with Verus (`src/`); the program around it
(`app/`) reads and writes files, runs `tmux`, reads keys and draws.

## Layout

- `src/text.rs` – characters, trimming, splitting, decimal numbers.
- `src/tmux.rs` – the snapshot of a tmux server: parsing `list-*` output and
  nesting panes in windows and windows in sessions, sessions ordered by name.
- `src/managed_config.rs` – the settings file and the managed `tmux.conf`.
- `src/tmux_ops.rs` – every tmux operation as a job: a small state machine
  that names the next `tmux` command or file write and takes its reply.
- `src/app.rs`, `src/rows.rs`, `src/selection.rs`, `src/targets.rs` – the
  browser state, the visible rows under a filter, keeping the selection on the
  same item across refreshes, and what the selected row means for attaching,
  creating, cutting and pasting.
- `src/keys.rs` – what each key does in each input mode and how an operation
  goes on when its job finishes, stated as functions of the whole state, with
  the laws that the keys keep.
- `src/ui.rs` – the text of the screen: tree lines and markers, the preview
  header, footer hints and the input line.
- `src/archive.rs` – file names and contents of pane archives.
- `app/` – the program: configuration files, running jobs, keys and drawing.

The program runs each job that the library hands it: for every effect it runs
`tmux` (or writes a file) and hands back the output, until the job finishes;
the outcome goes back to the state, which may start the next job.
