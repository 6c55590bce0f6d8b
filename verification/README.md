# axionvera_vault_contract

A deposit vault with claimable rewards, verified with Verus.

- `src/rules.rs`: what each entry point decides on the stored amounts
  (initialization gates, deposit and withdrawal arithmetic, claim payout).
- `src/rewards.rs`: the proportional share of the reward pool, rounded down,
  and zero when the total is zero, the balance is zero or the product
  overflows. Zero for a negative balance, total or pool is a choice of this
  crate.
- `src/address.rs`, `src/ledger.rs`: account identities and the per-account
  amount store.
- `src/vault.rs`: the whole vault as a state machine (`VaultContract`), with
  its abstract state `VaultState` and one transition per entry point.
- `src/calls.rs`: entry-point calls as data, to state properties of call
  sequences.
- `src/laws.rs`: properties across operations (one-time initialization,
  deposit/withdraw round trip, initialization over any call sequence, isolation of accounts, bounded reward shares).
- `app/lib.rs`: the Soroban contract that reads and writes ledger entries,
  checks authorization and publishes events around the library's decisions.
