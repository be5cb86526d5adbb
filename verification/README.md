# apprecon_collaborator

An out-of-band interaction collector: it hands out callback hostnames
(`<payload_id>.<root domain>`), answers DNS queries and HTTP(S) requests for
them, records each callback, and serves the records through a bearer-key API.

- `src/` is the verified library (Verus): payload identifiers and hostnames
  (`payloads`), DNS question parsing, answers, TCP framing and callback
  decisions (`dns`), HTTP callback decisions and header recording
  (`listeners`), API authorisation and answer bodies (`api`), stored-row
  conversion, expiry and payload preparation (`database`), configuration
  values (`config`), records (`models`) and string helpers (`text`).
- `app/` is the server around it: configuration loading, sockets, the Axum
  routers, SQLite through SQLx, and JSON rendering.
- `tests/` exercises the library on concrete values.
