# seclog

The verified core of SecLog, a self-hosted security log aggregator: the
detection rules that classify log lines, the login rate limiter, password
and token handling, the server's request and signup rules, and the
shipper's decisions (state files, partial lines, retries, Windows event
blocks, watched-path reconciliation).

- `src/` is the library, written in Verus; every function there carries a
  contract that Verus proves. Calls into `regex`, `sha2`, `argon2`, `rand`
  and a few `std` functions go through small trusted wrappers whose
  contracts are documented where they are declared.
- `app/` is the server (axum, sqlx/MariaDB) and the shipper agent
  (file tailing, HTTP), plain Rust that calls the library for every
  decision.
- `tests/` exercises the library on concrete values.
