# mvua

The rules of the Mvua parametric climate insurance contracts, written in
Verus and proved against their specifications.

- `src/` is the verified library. The oracle adapter holds the contract's
  storage as a value (`OracleAdapter`) whose view is `OracleView`; every entry
  point is a method whose effect is given exactly by a spec function
  (`propose_spec`, `execute_spec`, `submit_spec`, `median_spec`, ...). The
  laws that relate entry points (timelocks, undoing a proposal or a
  challenge, what the median may return) are proof functions in
  `src/oracle_adapter/laws.rs`.
- `app/` holds the Soroban contracts around the library: storage reads and
  writes, caller authorization, events and storage lifetimes.
- `tests/` runs the library on concrete scenarios, including the XDR payload
  bytes against the contract host's own encoding and ed25519 signatures made
  with `ed25519-dalek`.
