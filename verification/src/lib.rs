//! A verified model of a Uniswap-style liquidity pallet: fungible assets
//! with issue, transfer and destroy, per-asset liquidity pools priced
//! against the native token, and the swaps between them.

pub mod call_laws;
pub mod currency;
pub mod laws;
pub mod ledger;
pub mod module;
pub mod pallet;
pub mod storage;

pub use currency::{CurrencyError, NativeCurrency};
pub use module::Module;
pub use pallet::{ensure_signed, AccountId, AssetId, Balance, DispatchError, Error, Origin, PADDING};
