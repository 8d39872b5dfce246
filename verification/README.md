# language_cache

Reads of dependency source in language caches (Go modules, the Cargo registry,
`site-packages`, `node_modules`, Maven, Gradle, NuGet), allowed read-only for a
session.

The library is written in Rust and verified with Verus.

- `src/patterns.rs`: the known caches, how a path is recognised as lying in one,
  and the hint that goes with it.
- `src/roots.rs`: the roots that the Go and Rust toolchains name.
- `src/access.rs`: the decision about a path that a path jail has rejected. It is
  made in rounds: each round returns a decision or one request to the outside
  world, whose reply is recorded for the next round.
- `src/os_path.rs`, `src/text.rs`: paths as bytes, text as characters.
- `src/laws.rs`: what holds of all of this together.

`app/` joins the library to the environment, the toolchains and the path jail of
a host program. What is believed without proof is `str::trim`, `String::push`,
`String::from_utf8_lossy` and `dirs::home_dir`, each with the contract beside it.
