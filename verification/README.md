# tasknet

A task list in the style of Taskwarrior, as a verified library: tasks and
their life cycle, the document that holds them and spawns the children of
recurring tasks, the form tasks take in the shared document, filters,
urgency terms, sorting and the task table, the pages of the web client and
their messages, and the sessions, cookies and replies of the sync server.
Every function in `src/` carries a contract that Verus proves; the laws the
library keeps (read-after-write of the stored form, the sort order being a
total preorder, recurrence ticks settling, and others) are proof functions
named `law_*`.

- `src/` — the library, verified with Verus.
- `tests/` — tests that run the library.
- `app/` — what surrounds it: JSON forms of tasks, filters, settings and sync
  messages, the floating-point urgency, the server's configuration file and
  request cookies.
