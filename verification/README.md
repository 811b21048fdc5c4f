# tipjar

A verified model of a tip jar's milestone NFTs: when a creator's cumulative
tips cross a multiple of the creator's milestone step (1000 by default), one
commemorative NFT per level crossed is minted to the tipper, with standard
metadata fields; NFTs can then be transferred between owners.

- `src/` — the library, verified with Verus.
  - `nft/minting.rs`: the store of milestone entries and its operations
    (set/get step, record a tip and mint, transfer, lookups), each specified
    over `MilestoneStoreView`.
  - `nft/metadata.rs`: construction of minted metadata.
  - `nft/laws.rs`: properties spanning operations (ownership index
    consistency, fresh token IDs, split tips, transfers).
  - `nft/history.rs`: properties of every sequence of calls (reachable
    invariants, totals as sums of tips, step persistence, each milestone
    level minted exactly once).
  - `contract.rs`: the contract's entry points over its state.
  - `table.rs`, `address.rs`, `text.rs`: keyed tables kept in key order (as
    a ledger map lists them), addresses by strkey,
    byte strings and decimal rendering.
- `app/` — the Soroban contract: authorization, ledger storage and events,
  converting between ledger values and the library's values.
- `tests/` — tests of the library.
