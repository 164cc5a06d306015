# vesting

A verified token-vesting contract for Soroban. It releases a beneficiary's
tokens over time, under linear schedules (a cliff, then a ramp) and tranche
schedules (a table of discrete unlocks), with one id space and one claim path
for both.

- `src/` is the library, verified with Verus: the records and their vesting
  rules (`linear.rs`, `tranche.rs`, `status.rs`), the model of the contract's
  entries (`entries.rs`), the operations (`contract.rs`, `payment.rs`), the way
  to the token contracts (`till.rs`) and what holds of the contract as a whole
  (`laws.rs`). `host.rs` and `till.rs` hold what is taken on trust from
  `soroban-sdk`: the address and environment types, the clone of an address,
  what stands behind one, and the answer of a token transfer.
- `tests/` runs the library against a real token on an in-process ledger.
- `app/` is the deployable contract around the library: storage, clock,
  authorization and wire types.
