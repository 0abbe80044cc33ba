# breakfast

The core of a team breakfast ordering service (an HTTPS REST API over
PostgreSQL), written in Verus: the rules the service applies are executable
Rust functions whose behaviour is stated in `requires`/`ensures` contracts
and proved.

- `src/` — the verified library:
  - `text` — character-level helpers (trimming, containment, decimal notation, reading a `u64`);
  - `health` — the container health probe's request and reply interpretation;
  - `rfc3339`, `history` — recognition and repair of migration-history records;
  - `errors`, `from_row` — the error type and the HTTP answer to each error;
  - `validate`, `models` — request models and their validation rules;
  - `auth` — token claims, account lockout, credential cache, password checks, and the request guards' order of checks;
  - `rbac` — role-based access decisions and the handlers' business rules;
  - `config`, `server` — start-up checks, HTTPS redirect, CORS origin, periodic cleanups, avatar seeding.
- `tests/` — tests of the library.
- `app/` — the service around the library: configuration loading, the database,
  the HTTP server, its routes and handlers, and the health probe.
