# laminar

The Laminar trading protocols as a library whose behaviour is proved with Verus: synthetic
assets minted against collateral held by liquidity pools, and margin trading against those
pools.

`src/` holds the library. Every function is verified except seven small wrappers around
`sp-arithmetic`'s fixed-point and ratio operations, whose contracts are trusted:

- `fixed`, `arithmetic`, `primitives`: fixed-point numbers (backed by `sp-arithmetic`),
  ratios, currencies, trading pairs and leverages.
- `table`, `ledger`, `prices`, `oracle`: keyed storage, token balances, prices and the
  oracle that feeds them.
- `base_pools`, `synthetic_pools`, `margin_pools`: liquidity pools, their owners and
  liquidity, and the options the synthetic and margin protocols read from them.
- `synthetic_tokens`, `synthetic_protocol`: positions of synthetic assets; minting,
  redeeming, liquidation and collateral management.
- `margin_protocol`: trader balances, positions, risk checks, margin calls, stop outs and
  the decisions of the off-chain worker.
- `mock`: a runtime wiring all modules together, with the accounts tests use.

`tests/` runs the library on concrete values. `app/` is a small driver: it advances blocks,
runs the off-chain worker, includes the calls it submits and prints trader summaries.
