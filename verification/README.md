# collateral_vault

A collateral vault for Solana programs, written in Verus. Accounts deposit
collateral tokens into the vault and approve collateralizable contracts to use
them; approved contracts reserve, modify, release, pool and claim that
collateral; accounts withdraw what is available, less a 0.5% withdrawal fee.

## Layout

- `src/` is the verified library. Every instruction is a function from the
  instruction's accounts (plain Rust structs) to their new values and a list
  of actions (account creations and token transfers) for the program to carry
  out. Each has a contract that states, for every input, which error comes
  back or what the accounts become.
  - `pricing.rs`: fees in basis points, with their bounds and round trips.
  - `accounts.rs`: the stored account types and their byte layout.
  - `registry.rs`: the supported tokens and approved contracts.
  - `deposits.rs`: deposits, allowances and the program derived accounts
    that hold them.
  - `collateral.rs`: reserving, releasing, modifying, pooling and transferring
    collateral.
  - `withdraws.rs`: withdrawals and claims.
  - `collateral_vault.rs`: the program's instructions.
  - `solana.rs`: the calls into `solana_program`, `spl-token` and
    `spl-associated-token-account`, with the contracts they are trusted to meet.
- `tests/` runs the library on concrete accounts.
- `app/` is the Anchor program around the library: account validation, the
  cross-program invocations for the returned actions, and writing accounts back.
