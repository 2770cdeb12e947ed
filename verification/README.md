# codexmanager_service

The service core of CodexManager, written in Verus. The functions in `src/`
carry contracts that Verus proves, with one exception: the small wrappers
marked `#[verifier::external_body]` around calls into std and outside crates
(random bytes, path rules, URL and JSON parsing, header values, building a
`String` from characters). Their contracts are trusted, not proved; each one's
doc comment says which call it makes and what is claimed of it.

- `src/settings.rs` — background-task settings: loading from the environment,
  patches and the environment writes they make, schedule validation, and the
  change signal of the warmup scheduler.
- `src/usage.rs` — what storing a usage snapshot decides: the account's status
  and whether a quota window was reset so that an automatic warmup is due.
- `src/warmup.rs` — account warmup: in-flight and queued marks, the result of
  warming a list of accounts, request headers, error summaries and the reading
  of the upstream event stream.
- `src/proxy.rs` — choosing a proxy: environment variables, bypass lists and
  the Windows Internet settings.
- `src/dotenv.rs`, `src/paths.rs`, `src/ids.rs` — the settings file next to the
  executable, the database and token paths, installation ids and RPC tokens.
- `src/text.rs`, `src/num.rs`, `src/idset.rs` — the text, number and id-set
  operations the rest is built on, each stated over `Seq<char>` and `Set`.
- `src/laws.rs` — properties that span several operations (round trips,
  idempotence, what a patch keeps), proved once for all inputs.

`app/` is the ordinary Rust around the library: the process environment,
files, the worker thread and queue of automatic warmups, and the HTTP exchange
with the upstream. `tests/` holds the tests.
