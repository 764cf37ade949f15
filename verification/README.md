# uniswap

A verified model of a Uniswap-style liquidity pallet. Accounts issue,
transfer and destroy fungible assets; each asset can have a liquidity pool
priced against the native token, funded with `add_liquidity` (paid in
liquidity tokens) and sold into with `swap_token_to_asset`.

- `src/storage.rs`: maps with a default value for keys never written.
- `src/currency.rs`: free balances of the native token, with slashing and
  deposits into existing accounts.
- `src/ledger.rs`: the sum of an asset's balances over its holders.
- `src/pallet.rs`: the abstract state, the effect of every call on it, and
  the invariant every call keeps.
- `src/module.rs`: the storage and the calls, each proved to have exactly
  the effect stated in `pallet.rs`.
- `src/laws.rs`: properties of the pallet as a whole: supply accounting,
  fresh identifiers, an issued asset's supply never rising, that every call
  keeps the invariant, what transfers, swaps and deposits move, and that a
  refused call changes nothing.
