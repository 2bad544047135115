# metaverse_pallets

The decision logic of three Metaverse.Network runtime pallets, written and
proved with Verus:

- `src/emergency.rs`: stopping and resuming calls by pallet and function
  name, and maintenance mode with its choice of base call filter.
- `src/land_minting.rs`: staking pools, deposits against a fee with a
  receipt amount priced by the network ledger, and redemptions into bounded
  unlock queues per user and per staking round.
- `src/auction.rs`: auctions of NFTs and land spots, bids with moving
  reserves, and settlement of the auctions that end at a block.

Each call is a function from the pallet's state, the call's arguments and
what the runtime answered (origin checks, currency conversions, issuances,
balances) to the new state, the outcome and the list of currency and asset
operations the runtime carries out in order. The contracts state each
outcome exactly over a mathematical view of the state; the `law_*` proof
functions state the properties that hold across calls.

`src/keyed_map.rs` holds the storage maps (entries with distinct keys),
`src/arith.rs` the per-million fee arithmetic and 256-bit multiply/divide
taken from `sp-runtime` and `sp-core`, and UTF-8 decoding.

`app/` is the runtime glue: origins, call metadata and filters, and carrying
out the operations with FRAME's currency traits.
