# fusiontunx

A web service that supervises the mihomo proxy core on a router: it turns
share links and subscriptions into proxy records, keeps the core's
configuration in line with the chosen traffic steering (TUN, TPROXY or
REDIRECT), installs the matching nftables rules and policy routes, and
serves an HTTP API and dashboard.

## Layout

- `src/` — the verified library (Verus). Every function carries a
  contract; the laws of the library are public proof functions.
  - `text.rs`, `num.rs` — character-sequence and integer primitives with
    their specifications (`str::trim`, `str::lines`, `i32` parsing, ...).
  - `converter/` — share-link parsers (`vmess`, `vless`, `trojan`, `ss`) and
    subscription decoding.
  - `tun.rs` — rewriting the `tun:` section of a mihomo configuration.
  - `nftables.rs` — routing sessions: a state machine that says which
    command or nftables script to run next and how to react to its outcome.
  - `config.rs`, `logger.rs`, `service.rs`, `files.rs`, `web.rs` — defaults,
    log levels, supervisor decisions, file-management rules and HTTP API
    decisions.
- `tests/` — tests run against the compiled library.
- `app/` — the executable: HTTP server (axum), process supervision, command
  execution, file and network I/O, serialization.
