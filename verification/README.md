# definex

The runtime logic of a small DeFi chain, written in Verus and proved against its
contracts: a multi-asset ledger with reservable balances, an asset registry with hooks,
a named-asset ledger with delegated reserves, a peer-to-peer lending market, a bridge for
a shadow BTC asset, and the price oracle the market reads.

## Layout

- `src/` — the verified library.
  - `dispatch.rs`: origins, the account/asset/balance types, dispatch errors.
  - `storage.rs`: `StorageMap`, a map with the semantics of runtime storage.
  - `generic_asset.rs`, `ledger_laws.rs`: the ledger, its genesis, and its laws.
  - `permission_codec.rs`: the stored form of asset permissions and its round trip.
  - `assets.rs`: asset creation, minting and burning as the superuser, through hooks.
  - `asset_symbol.rs`, `symbol_laws.rs`: the named ledger with delegated reserves and locks.
  - `ls_biding.rs`, `market_laws.rs`: the lending market: borrows, loans, repayment,
    liquidation and the periodic checks at the end of blocks.
  - `btc_bridge.rs`, `bridge_laws.rs`: deposits, vetting, withdrawals and key derivation.
  - `new_oracle.rs`: price candidates, price sources, JSON path selection, unsigned reports.
  - `hashing.rs`, `key_derivation.rs`, `genesis.rs`, `seqs.rs`: shared pieces, including
    the trusted wrappers around `parity-scale-codec`, `sp-io` and `hkd32`.
- `tests/` — tests of the library on concrete values.
- `app/` — what runs around the library: serde forms of types, the off-chain price worker
  (HTTP and floating point), and the RPC handler.
