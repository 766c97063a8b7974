# devflow_tui

A terminal dashboard that follows a development workflow: the stage map
from `devflow-docs/devflow-state.md`, the session summary, the audit log, the
git state of the project, the sub-agents and questions reported by the
assistant's hooks, and the token usage of the session.

The library (`src/`) is written in Verus and holds the dashboard's logic,
each function with its contract:

- `text` — string operations over character sequences (trimming, splitting,
  searching, decimal numbers) with their specifications.
- `service` — the ANSI sanitizer, the hook token (generation, hex encoding,
  comparison) and the hooks configuration check and snippet.
- `parser` — the workflow documents (`devflow-state.md`,
  `session-summary.md`, the audit log) and the session log's token usage.
- `adapter` — what the adapters decide: git output parsing and snapshot
  assembly, hook request handling and port order, the docs watcher's file
  choices and artifact order, the session-log reader's offsets.
- `panel` — the state machine of every panel and the text it shows.
- `ui` — layout modes, titles, icons, header and status bar texts, and the
  span/tone model of panel text.
- `app` — focus, input modes, key dispatch and event broadcast.
- `config` — command line and environment.

`app/` is the program around the library: terminal set-up, the event loop,
file watching, git processes, the HTTP hook endpoint, the clipboard, and the
drawing of the library's text with ratatui.

Laws of the library are public proof functions next to the code they speak
of (for example `lemma_strip_ansi_idempotent`, `lemma_focus_cycle`,
`lemma_mode_monotone`, `lemma_no_stale_running`, `lemma_accumulate_window`).
