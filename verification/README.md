# uniswap_v2

The state of a Uniswap V2 pair, verified with Verus: swaps and their soft limits, minting and
burning of liquidity tokens with the protocol's fee, what liquidity tokens are worth, and changes
that an indexer reports.

- `src/u256.rs`, `src/big_uint.rs`, `src/address.rs`: integers and addresses as plain values. The
  arithmetic is that of `alloy` and `num-bigint`; the functions marked `external_body` state what is
  believed of it.
- `src/safe_math.rs`, `src/solidity_math.rs`, `src/cpmm.rs`: checked arithmetic, the integer square
  root, and the constant product formulas.
- `src/model.rs`: a pair as a mathematical value, and every operation as a function on it.
- `src/state.rs`: the pair's state and its operations, proved to compute what the model says.
- `src/laws/`: what holds between operations, such as that no swap shrinks the product of the
  reserves.
- `app/`: the pair as a `ProtocolSim` of `tycho-common`.

A mint issues the protocol's tokens by a mint of its own. Where tokens are due and the balances
cover the reserves that would never end, and `mint`, `burn` and `mint_fee` require that it does not
come to that (`PoolView::mint_ends`).
