# oxidrive

The domain library of oxidrive, a self-hosted file drive, written in Verus.
The functions in `src/` carry contracts that Verus proves, except the small
wrappers marked `#[verifier::external_body]` around calls into outside crates
and std (argon2, base64, blake3, infer, mime_guess, rand, time, uuid, and a few
std string and path functions): their contracts are assumed from those crates'
sources and documentation, not proved, and each says in its doc comment what
it assumes.

- `src/`: accounts and their credentials (argon2 password hashes), sessions,
  personal access tokens, authorization outcomes, file metadata and tags, tag
  search filters, cursor pagination, collections, content-type detection,
  storage settings, in-memory stores, the SQL that the database stores run,
  and the decisions of the services and background jobs. `src/laws.rs` states
  the properties that hold across operations.
- `tests/`: tests of the library on concrete values.
- `app/`: the asynchronous services, stores and workers around the library,
  the SQL stores (through `sqlx`) and the Cedar authorizer.
