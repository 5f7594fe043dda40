# dbx_web

The SQL-file routes of the dbx web server: uploading an SQL file for preview,
executing it, following its progress over server-sent events, cancelling it,
and releasing or claiming uploads.

- `src/` is the verified library (Verus). It holds the decisions and the
  bookkeeping: where uploads are stored (`paths`), the keyed tables of shared
  state (`registry`), the store of final progress and the progress stream's
  replay (`progress`), the registration and step machine of an execution
  (`execution`), the atomic claim and the release of uploads (`uploads`), and
  the routes' texts (`text`).
- `app/` is the HTTP side (axum, tokio): request parsing, file system work,
  clocks, spawning and the JSON answers. It performs the actions that the
  library decides.
- `tests/` runs the library on concrete values.
