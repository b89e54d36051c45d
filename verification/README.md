# meroshare

A command line client for the Meroshare share-application service, split in two:

- `src/` — the verified library (Verus): reading what the user types (`text`,
  `menu`), the per-user token map and the token file's read/write steps
  (`tokens`), the log-in decisions of a session (`session`), the service's
  endpoints and the application record (`api`), the records (`models`) and the
  front end's state (`handler`).
- `app/` — the program: prompts, tables, progress bars, HTTP requests, JSON and
  files, built on the library.
- `tests/` — tests of the library on concrete values.

The users file is a JSON list of entries with `dp`, `username`, `password`,
`crn`, `pin`, `name`, and optionally `asbaBankIndex` (default 1) and `tags`
(only the `family` tag is offered when totalling portfolios).
