# chainstaking

A staking game on Solana, written as a Verus-verified library with a thin Anchor
program around it.

Each of ten chains accepts entries that must exceed the previous one by the chain's
spread; every entry is staked with a registered validator. A chain breaks when its
leader breaks it after a cooldown, or when donations reach the last entry. A broken
chain's stakes are deactivated, its payouts computed in batches, and each stake is
withdrawn and paid out, after which the chain opens its next round.

Payouts are computed for batches of two to ten consecutive entries, starting at any
position. Each batch is paid on its own: its first entry as the first entrant (nothing),
its middle entries with the next entry's principal plus a pooled share, and its last
entry as the leader.

## Layout

- `src/` — the verified library.
  - `address.rs`, `constants.rs`, `errors.rs`, `state.rs`: addresses, parameters and
    seeds, program-derived-address lookups, error codes and account records.
  - `fees.rs`, `yield_utils.rs`: basis-point fees, yield accounting and payouts.
  - `stake_utils.rs`: the checks made before each stake-program or system-program call,
    and the calls themselves as `CpiStep` values.
  - `instructions/`: one module per instruction. Each has a `process` function that
    decides, from plain account values, whether the instruction is refused before any
    call (and with which error), or which calls it makes, in order; a check that the
    instruction makes between two calls appears among them as a `Fail` step. Each also
    has a `handler` that derives the expected addresses first.
  - `lifecycle.rs`: laws over sequences of calls on one chain (a broken chain stays
    broken and refuses entries until its next round; donations are numbered without
    gaps).
  - `chainstaking.rs`: the program's entrypoints.
- `tests/` — tests of the library on concrete values.
- `app/` — the Anchor program: account validation and (de)serialization, rent, and the
  cross-program calls, each step handed back by the library.
