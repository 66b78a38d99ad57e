# coo_service

The logic of an update-distribution service: applications and their release channels,
announcements, resource pools (local disk, S3, FTP) that hold files by their sha256, the
synchronization of those pools with the local complete copy, and the HTTP API's rules
(admin-key checks, rate limiting, the public-pool cache, request validation, error
mapping and responses).

Layout:

- `src/` is the library, verified with Verus. Each data type has a mathematical view
  (`Seq`, `Set`, `Map`) and each public function a contract over those views. Calls into
  outside crates (`dashmap`, `uuid`, `chrono`, `aes-gcm`, `base64`, `sha2`, `rand`,
  `suppaftp`'s listing parser, `http` status codes) go through small trusted wrappers whose contracts
  are written next to them.
  - `common/`: text, numbers, ordering, string maps and sets, identifiers, JSON config
    values, the clock.
  - `resource/`: sha256 keys, content hashing and object paths, pool entries, local/S3/FTP path rules,
    pool health, secret encryption.
  - `database/`: configuration, migrations to run, row shapes, error classification.
  - `apps/`: the in-memory application table and channel updates.
  - `router/`: configuration, auth, rate limiting, cache, pool sync, and the decisions
    behind each route.
- `tests/` runs the library on concrete values.
- `app/` is the service around it: `main`, the database and storage I/O, the async
  engines and the axum routes, which call the library for every decision.
