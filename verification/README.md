# rustconn_window

The decisions behind RustConn's main window, written in Verus and proved
against their contracts: how a connection is started and which credentials
it uses, the `ssh` command line and jump-host chains, when a saved password
may be typed into a terminal, what happens when a session exits, session
logging, the group tree, the quick-connect dialog and the smaller window
actions.

Layout:

- `src/` — the verified library, one module per area:
  `dispatch` (routing a connection, closing the window, sidebar search
  filters), `credentials` (credential resolution and secret backends),
  `jump` and `ssh_args` (jump-host chains and `ssh` arguments),
  `ssh_session` (command text, password auto-fill, status detection,
  one-shot starts), `session_exit`, `session_log`, `groups`, `order`
  (stable sorting), `quick_connect`, `remote_desktop`, `commands`,
  `actions`, and the text and identifier helpers `text` and `ids`.
- `tests/` — tests of the library on concrete values.
- `app/` — the unverified edge: file system, clock, secrets in memory and
  the other calls that the library leaves to its caller.

Laws that relate several calls are public proof functions next to the
functions they speak of (for example `autofill_at_most_once`,
`output_trigger_fires_once`, `tab_switch_round_trip`,
`sidebar_width_round_trip`).
