# scouting_api

The logic of a scouting data server, verified with Verus.

- `src/guards.rs`: the `x-api-key` and `x-pass-key` checks.
- `src/scouting.rs`: the row of a free-form report, its answers sorted stably by
  category, with the laws of that sort (ordered, a permutation, stable) and of the row
  (one comma per answer; with distinct categories, independent of the answers' order).
- `src/forms.rs`: the rows of the match and pit forms, the password check, and the
  law that commas typed into a field or a switch never reach the full row, for forms
  whose five upper-cased fields are unchanged and in which only the closing field
  has the closing field's text.
- `src/cors.rs`, `src/routes.rs`, `src/status.rs`, `src/logging.rs`: the CORS headers,
  the fixed answers and the answer once a row is written, the status codes and the
  log lines.
- `src/text.rs`: text equality and order, comma removal, upper case.
- `app/`: the Rocket server around the library: routes, request guards, the fairing,
  JSON parsing and the files.
