# pomodoro

A Pomodoro timer: Work and Break phases that alternate, sessions and pauses
kept in the browser's IndexedDB, tasks that Work sessions are attributed to,
a history of completed sessions, and daily and total counts.

- `src/` is the library, verified with Verus: the records and the clock
  arithmetic of a session (`session`), the queries over stored records
  (`queries`), the timer state machine that the screen drives
  (`controller`), settings, tasks, the database schema, and the text shown
  on screen (`text`, `input`).
- `tests/` runs the library on concrete values.
- `app/` is the web front end (Leptos): components, IndexedDB access,
  WebAudio beeps and the browser clock. It performs what each step of the
  state machine asks for and hands the results back.
