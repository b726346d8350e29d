# ferro-core

The decision core of a container runtime, written in Verus: every function in
`src/` carries a contract that Verus proves, except eleven small trusted
wrappers (marked `#[verifier::external_body]`) around calls into `std`, `hex`,
`sha2`, `rvf-crypto`, `rand`, `caps` and `ed25519-dalek`, whose contracts are
believed rather than proved; and `src/laws.rs` states the
properties that span several operations (rollback order, ownership of kernel
settings, detach and removal orders, round trips of recorded network state).

- `src/` — the verified library: configuration validation, names and paths,
  launch plans, network ownership records and their checks, firewall setup and
  cleanup walks, eBPF state classification, rollback ledgers, hosts files,
  mount and pin-tree ordering, network setup and removal plans, crash
  recovery of pending mutations, health transitions, resource-limit records,
  admission-snapshot binding checks, and archive and rename admission.
- `tests/` — tests on concrete values.
- `app/` — the host side: reading files, running commands, walking the library's
  step functions against real tools, and the serde forms of the configuration.

Verify with Verus on `src/lib.rs`; run the tests with cargo.
