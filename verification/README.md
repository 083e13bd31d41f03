# issues_tui

The state machine of a terminal client for an organisation's issues: the
grouped issue list and its filters and sorting, the detail pane with its
comment threads, the editors and pickers, the new-issue form, the help
viewer and the table of agent-harness sessions. Every key and every
background report is a verified step from one `App` state to the next; the
work a step needs from outside (fetching, writing to the backend, opening a
URL, driving a session's terminal) comes back as a list of `Effect`s.

- `src/` is the Verus library: types and views, the state (`app`), one
  module per group of keys (`normal`, `input_keys`, `filter_keys`,
  `form_keys`, `editor_keys`, `popup_keys`, `pick_keys`, `move_keys`,
  `priority_keys`, `session_keys`), background reports (`events`), the
  dispatcher (`dispatch`) and the laws that span them (`key_laws`, and the
  `law_*` proofs beside the types they are about).
- Dates go through `chrono` and the clipboard sequence through `base64`,
  each behind a small trusted wrapper (`dates`, `clipboard`).
- `app/` converts crossterm key events and performs the local effects.
- `tests/` runs the library on concrete values.
