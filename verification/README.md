# Readsmith

A small self-hosted RSS / Atom / JSON Feed reader: one process serving
server-side HTML, with a background worker that pulls feeds into SQLite.

## Layout

- `src/` — the verified library (Verus). The reader's rules live here with
  their contracts: the pull policy and its backoff, the URL guard against
  requests to private networks, the response handling of a feed fetch,
  feed mapping and GUID choice, OPML import and export, session cookies,
  configuration parsing, HTML escaping, and the form and page logic of the
  web routes.
- `app/` — the program around it: the HTTP server (axum, askama), SQLite
  access (sqlx), HTTP fetching (reqwest), DNS lookups, the pull worker loop
  and reading the environment.
- `tests/` — tests of the library on concrete values.

Calls into outside crates that compute (URL parsing, XML reading, HTML
sanitizing and selection, hashing, HMAC, base64) are made from `src/`
through small trusted wrappers whose contracts say what the library relies
on. The feed parser runs in `app/`, which catches the panics it can raise
on some documents; the library maps what it read.
