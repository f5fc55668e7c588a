# happy_remote

Happy Remote lets a user drive terminal sessions that CLI daemons run on their
machines from a browser. A server keeps the accounts, sessions and machines,
and routes terminal traffic between the daemons and the web clients over
WebSockets.

This crate is the verified core of that system, written in Verus.

## Layout

- `src/` — the library. Its own functions are proved against their contracts;
  the calls into outside crates (dashmap, argon2, jsonwebtoken, serde_json, uuid,
  chrono, parts of std) sit behind small trusted wrappers whose contracts are
  believed, not proved:
  - `text`, `keyed`, `order`: text helpers, an insertion-ordered keyed list,
    and a stable ordering of records;
  - `json`: the JSON values that the web client reads, parsed by `serde_json`;
  - `model`, `messages`, `storage`: sessions, machines, the wire messages,
    and the rows of the store;
  - `cache`: the in-memory cache with expiry, kept in a `DashMap`;
  - `connections`, `protocol`: the connection router and the WebSocket
    protocol as a state machine (a message gives actions, or a query whose
    answer the caller hands back);
  - `auth`, `services`: passwords, token claims, the decisions of the REST
    endpoints, the session manager and the machine registry;
  - `logs`, `dashboard`, `terminal_page`, `xterm`, `web_auth`: the state and
    the decisions of the web client's pages and components.
- `tests/` — tests run against the compiled library.
- `app/` — the server binary: configuration, the HTTP and WebSocket
  endpoints, the SQLite store and the serde forms of the
  library's types.
