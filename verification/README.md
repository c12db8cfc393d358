# codex_lhc_host

The host side of a long-horizon context store for a coding agent, verified with
Verus.

The host records what a conversation holds in a store that outlives it, compacts
the conversation from that store when it has grown too large, checks what it is
about to send, and rebuilds its own record of the conversation (the rollout) from
the store. `src/` holds what the host decides and computes on that way, each
function with a contract that says exactly what it gives back, and with the laws
that hold between them. Nothing in it panics.

- `src/` — the verified library. `src/lib.rs` lists the modules by subject.
- `tests/` — tests on concrete values, against the real outside crates.
- `app/` — ordinary Rust around the library: the environment, threads, queues, and
  the store, which is reached through the traits of `app/store.rs`.

Outside crates are called from the library, each behind small trusted functions
that state what it is believed to do: `chrono` for dates, `serde_json` (with
`serde`) for reading JSON, passing over it and quoting strings, `sha2` for
digests. A few functions of the
standard library for which Verus has no specification stand behind such functions
too.
