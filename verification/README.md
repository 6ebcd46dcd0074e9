# turm

The core of a terminal monitor for the jobs of a Slurm cluster, verified with Verus.

- `src/` is the library. It holds the state of the monitor and how it reacts (`app`, `update`,
  `event`, `list_state`, `text_input`), which rows the lists show (`display`), what is drawn and
  where (`view`, `dialog`, `geometry`), the commands that change jobs (`command`), and how the
  accounting command is asked and its answer read (`job_acct`, `path`). `text` has the functions
  on text that the rest is built on. `laws` states what holds of the monitor as a whole.
- `app/` is ordinary Rust around it: threads and channels, processes, and drawing on the terminal.
- `tests/` runs the library.

The state never waits for anything. Where something has to be done outside, such as running a
command, `App::handle` returns an `Action`, and the outcome is handed back to
`App::finish_command` or `App::finish_copy`.
