# ninjasana

A mouse-native terminal client for Asana, split in two:

- `src/` — the library, verified with Verus: task-URL parsing, configuration
  and column handling, the persisted UI state, grouping of My Tasks, the Asana
  request shapes, the app's state machine (input and Asana results in, next
  state and outside work out), hit-testing, and the sizes, positions and
  texts the renderer draws (the split of the screen into panes is left to
  Ratatui's layout). `src/laws.rs` holds the properties that span several operations.
- `app/` — the program around it: command line, keychain, environment and
  config files, the HTTP client, the terminal event loop, and drawing with
  Ratatui.
- `tests/` — tests of the library on concrete values.
