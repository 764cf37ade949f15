//! The pallet: its storage, the abstract state it stands for, and the
//! dispatchable calls with their effect on that state.

use vstd::prelude::*;

use crate::currency::{deposit_outcome, deposited, slashed, CurrencyError};
use crate::ledger::{
    held_by, lemma_held_bound, lemma_held_empty, lemma_held_frame, lemma_held_nonneg, lemma_held_push,
    lemma_held_write,
};

verus! {

pub type AssetId = u64;

pub type AccountId = u64;

pub type Balance = u64;

/// Scale factor that keeps the integer quotients of the pool formulas
/// from rounding down to nothing.
pub const PADDING: u64 = 10_000_000;

/// Who dispatched a call.
#[derive(Clone, Copy, Debug, PartialEq, Eq, Structural)]
pub enum Origin {
    Root,
    Signed(AccountId),
    Unsigned,
}

impl Origin {
    pub fn signed(who: AccountId) -> (o: Origin)
        ensures
            o == Origin::Signed(who),
    {
        Origin::Signed(who)
    }
}

/// Errors of the pallet's own checks.
#[derive(Clone, Copy, Debug, PartialEq, Eq, Structural)]
pub enum Error {
    /// Transfer amount should be non-zero.
    AmountZero,
    /// Account balance must be greater than or equal to the amount.
    BalanceLow,
    /// Balance should be non-zero.
    BalanceZero,
}

/// Why a call was refused.
#[derive(Clone, Copy, Debug, PartialEq, Eq, Structural)]
pub enum DispatchError {
    /// The call needs a signed origin.
    BadOrigin,
    Module(Error),
    Currency(CurrencyError),
}

pub open spec fn signer(origin: Origin) -> Result<AccountId, DispatchError> {
    match origin {
        Origin::Signed(who) => Ok(who),
        _ => Err(DispatchError::BadOrigin),
    }
}

/// The account that signed the call, or `BadOrigin`.
pub fn ensure_signed(origin: Origin) -> (r: Result<AccountId, DispatchError>)
    ensures
        r == signer(origin),
{
    match origin {
        Origin::Signed(who) => Ok(who),
        _ => Err(DispatchError::BadOrigin),
    }
}

/// Liquidity tokens minted for adding `asset_amount` and `native_amount` to a
/// pool that held `pool_asset` and `pool_native` before, when `lp_supply`
/// liquidity tokens are out: the share of the addition in the old pool,
/// scaled by `PADDING`, times the supply, unscaled.
pub open spec fn liquidity_payout(
    asset_amount: int,
    native_amount: int,
    pool_asset: int,
    pool_native: int,
    lp_supply: int,
) -> int {
    ((asset_amount + native_amount) * (PADDING as int)) / (pool_asset + pool_native) * lp_supply / (PADDING as int)
}

/// Native tokens paid for `asset_amount` of an asset whose pool holds
/// `pool_asset` of it and `pool_native` native tokens: the native price of
/// one asset unit against the pool left after the sale, scaled by
/// `PADDING`, times the amount, unscaled.
pub open spec fn swap_payout(asset_amount: int, pool_asset: int, pool_native: int) -> int {
    asset_amount * ((pool_native * (PADDING as int)) / (pool_asset - asset_amount)) / (PADDING as int)
}

/// What the pallet's storage holds, every map read with its default for
/// keys never written.
#[verifier::ext_equal]
pub struct State {
    /// Balance of each `(asset, account)`.
    pub balances: Map<(AssetId, AccountId), Balance>,
    /// Every `(asset, account)` whose balance was ever written, once each;
    /// all others hold nothing.
    pub holders: Seq<(AssetId, AccountId)>,
    pub next_asset_id: AssetId,
    pub total_supply: Map<AssetId, Balance>,
    /// Units of each asset held by its liquidity pool.
    pub token_balances: Map<AssetId, Balance>,
    /// Native tokens credited to each asset's liquidity pool.
    pub native_token_balances: Map<AssetId, Balance>,
    /// The liquidity token of each pool.
    pub liquidity_token_tracker: Map<AssetId, AssetId>,
    /// Whether a pool has been created for the asset.
    pub pool_exists: Map<AssetId, bool>,
    /// Free native balance of each account.
    pub free_balance: Map<AccountId, Balance>,
}

impl State {
    /// The state of a new chain: no asset, no pool, and the native balances
    /// `free_balance`.
    pub open spec fn genesis(free_balance: Map<AccountId, Balance>) -> State {
        State {
            balances: Map::new(|k: (AssetId, AccountId)| true, |k: (AssetId, AccountId)| 0u64),
            holders: Seq::empty(),
            next_asset_id: 0,
            total_supply: Map::new(|a: AssetId| true, |a: AssetId| 0u64),
            token_balances: Map::new(|a: AssetId| true, |a: AssetId| 0u64),
            native_token_balances: Map::new(|a: AssetId| true, |a: AssetId| 0u64),
            liquidity_token_tracker: Map::new(|a: AssetId| true, |a: AssetId| 0u64),
            pool_exists: Map::new(|a: AssetId| true, |a: AssetId| false),
            free_balance,
        }
    }

    /// The sum of the balances of asset `id` over all accounts.
    pub open spec fn circulating(self, id: AssetId) -> int {
        held_by(self.holders, self.balances, id)
    }

    /// Nothing circulates on a new chain, and it holds the invariant.
    pub proof fn lemma_genesis(free_balance: Map<AccountId, Balance>, a: AssetId)
        requires
            forall|w: AccountId| #[trigger] free_balance.dom().contains(w),
        ensures
            State::genesis(free_balance).circulating(a) == 0,
            State::genesis(free_balance).inv(),
    {
        let g = State::genesis(free_balance);
        lemma_held_empty(g.balances, a);
        assert forall|b: AssetId| #[trigger] g.total_supply[b] == g.circulating(b) + g.token_balances[b] by {
            lemma_held_empty(g.balances, b);
        }
        assert(g.total_maps());
        assert(g.holders.no_duplicates());
        assert forall|k: (AssetId, AccountId)| !g.holders.contains(k) implies #[trigger] g.balances[k] == 0 by {}
    }

    /// The state after setting the balance of `(id, who)` to `value`.
    pub open spec fn with_balance(self, id: AssetId, who: AccountId, value: Balance) -> State {
        State {
            balances: self.balances.insert((id, who), value),
            holders: if self.holders.contains((id, who)) {
                self.holders
            } else {
                self.holders.push((id, who))
            },
            ..self
        }
    }

    /// The holders are listed once each, and whoever is not listed holds
    /// nothing.
    pub open spec fn ledger_ok(self) -> bool {
        &&& self.holders.no_duplicates()
        &&& forall|k: (AssetId, AccountId)| !self.holders.contains(k) ==> #[trigger] self.balances[k] == 0
    }

    /// Setting one balance moves the circulating amount of its asset by the
    /// difference of the new and the old value, and no other.
    pub proof fn lemma_with_balance(self, id: AssetId, who: AccountId, value: Balance, a: AssetId)
        requires
            self.ledger_ok(),
        ensures
            self.with_balance(id, who, value).ledger_ok(),
            self.with_balance(id, who, value).circulating(a) == self.circulating(a) - (if id == a {
                self.balances[(id, who)] as int
            } else {
                0
            }) + (if id == a {
                value as int
            } else {
                0
            }),
    {
        let k = (id, who);
        let t = self.with_balance(id, who, value);
        if self.holders.contains(k) {
            lemma_held_write(self.holders, self.balances, k, value, a);
        } else {
            lemma_held_frame(self.holders, self.balances, k, value, a);
            lemma_held_push(self.holders, t.balances, k, a);
            assert(t.holders.no_duplicates()) by {
                assert forall|i: int, j: int|
                    0 <= i < t.holders.len() && 0 <= j < t.holders.len() && i != j implies t.holders[i]
                    != t.holders[j] by {
                    if i < self.holders.len() && j < self.holders.len() {
                    } else if i < self.holders.len() {
                        assert(self.holders.contains(self.holders[i]));
                    } else {
                        assert(self.holders.contains(self.holders[j]));
                    }
                }
            }
            assert forall|k2: (AssetId, AccountId)| !t.holders.contains(k2) implies #[trigger] t.balances[k2]
                == 0 by {
                if k2 != k {
                    if self.holders.contains(k2) {
                        let i = choose|i: int| 0 <= i < self.holders.len() && self.holders[i] == k2;
                        assert(t.holders[i] == k2);
                    }
                } else {
                    assert(t.holders[self.holders.len() as int] == k);
                }
            }
        }
        if self.holders.contains(k) {
            assert forall|k2: (AssetId, AccountId)| !t.holders.contains(k2) implies #[trigger] t.balances[k2]
                == 0 by {
                assert(k2 != k);
            }
        }
    }

    /// No account holds more of an asset than circulates, and no two
    /// accounts together.
    pub proof fn lemma_holdings(self, id: AssetId, w1: AccountId, w2: AccountId)
        requires
            self.ledger_ok(),
        ensures
            0 <= self.balances[(id, w1)] <= self.circulating(id),
            w1 != w2 ==> self.balances[(id, w1)] + self.balances[(id, w2)] <= self.circulating(id),
    {
        lemma_held_bound(self.holders, self.balances, id, w1, w2);
        lemma_held_bound(self.holders, self.balances, id, w2, w1);
        lemma_held_nonneg(self.holders, self.balances, id);
    }

    pub open spec fn with_total_supply(self, id: AssetId, value: Balance) -> State {
        State { total_supply: self.total_supply.insert(id, value), ..self }
    }

    pub open spec fn with_token_balance(self, id: AssetId, value: Balance) -> State {
        State { token_balances: self.token_balances.insert(id, value), ..self }
    }

    pub open spec fn with_native_token_balance(self, id: AssetId, value: Balance) -> State {
        State { native_token_balances: self.native_token_balances.insert(id, value), ..self }
    }

    /// Every map of the state has a value for every key.
    pub open spec fn total_maps(self) -> bool {
        &&& forall|k: (AssetId, AccountId)| #[trigger] self.balances.dom().contains(k)
        &&& forall|a: AssetId| #[trigger] self.total_supply.dom().contains(a)
        &&& forall|a: AssetId| #[trigger] self.token_balances.dom().contains(a)
        &&& forall|a: AssetId| #[trigger] self.native_token_balances.dom().contains(a)
        &&& forall|a: AssetId| #[trigger] self.liquidity_token_tracker.dom().contains(a)
        &&& forall|a: AssetId| #[trigger] self.pool_exists.dom().contains(a)
        &&& forall|a: AccountId| #[trigger] self.free_balance.dom().contains(a)
    }

    /// What every reachable state satisfies: every map has every key; the
    /// holders are listed once each and nobody else holds anything; each
    /// asset's supply is what accounts hold plus what its pool holds; no
    /// asset beyond the next identifier has any supply; the liquidity token
    /// of a pool is an issued identifier.
    pub open spec fn inv(self) -> bool {
        &&& self.total_maps()
        &&& self.ledger_ok()
        &&& forall|a: AssetId| #[trigger]
            self.total_supply[a] == self.circulating(a) + self.token_balances[a]
        &&& forall|a: AssetId| a >= self.next_asset_id ==> #[trigger] self.total_supply[a] == 0
        &&& forall|a: AssetId| #[trigger]
            self.pool_exists[a] ==> self.liquidity_token_tracker[a] < self.next_asset_id
    }

    /// `i` was issued by `issue`: it is below the next identifier and no
    /// pool has it as its liquidity token.
    pub open spec fn is_plain_asset(self, i: AssetId) -> bool {
        &&& i < self.next_asset_id
        &&& forall|j: AssetId| #[trigger] self.pool_exists[j] ==> self.liquidity_token_tracker[j] != i
    }

    /// `issue`: a new asset of `total` units, all held by the signer, under
    /// the next identifier.
    pub open spec fn issue(self, origin: Origin, total: Balance) -> (State, Result<(), DispatchError>) {
        match origin {
            Origin::Signed(who) => {
                let id = self.next_asset_id;
                let s = State { next_asset_id: (id + 1) as u64, ..self };
                (s.with_balance(id, who, total).with_total_supply(id, total), Ok(()))
            },
            _ => (self, Err(DispatchError::BadOrigin)),
        }
    }

    pub open spec fn issue_in_range(self, origin: Origin) -> bool {
        origin is Signed ==> self.next_asset_id < u64::MAX
    }

    /// `transfer`: `amount` of asset `id` moves from the signer to `target`.
    pub open spec fn transfer(self, origin: Origin, id: AssetId, target: AccountId, amount: Balance) -> (
        State,
        Result<(), DispatchError>,
    ) {
        match origin {
            Origin::Signed(who) => {
                let held = self.balances[(id, who)];
                if amount == 0 {
                    (self, Err(DispatchError::Module(Error::AmountZero)))
                } else if held < amount {
                    (self, Err(DispatchError::Module(Error::BalanceLow)))
                } else {
                    let s = self.with_balance(id, who, (held - amount) as u64);
                    (s.with_balance(id, target, (s.balances[(id, target)] + amount) as u64), Ok(()))
                }
            },
            _ => (self, Err(DispatchError::BadOrigin)),
        }
    }

    /// `destroy`: the signer's whole balance of `id` is removed from the
    /// supply.
    pub open spec fn destroy(self, origin: Origin, id: AssetId) -> (State, Result<(), DispatchError>) {
        match origin {
            Origin::Signed(who) => {
                let held = self.balances[(id, who)];
                if held == 0 {
                    (self, Err(DispatchError::Module(Error::BalanceZero)))
                } else {
                    (
                        self.with_balance(id, who, 0).with_total_supply(
                            id,
                            (self.total_supply[id] - held) as u64,
                        ),
                        Ok(()),
                    )
                }
            },
            _ => (self, Err(DispatchError::BadOrigin)),
        }
    }

    /// `add_liquidity`: the signer puts `asset_amount` of `id` into its pool,
    /// loses up to `native_amount` of its free native balance, the pool is
    /// credited `native_amount`, and the signer receives liquidity tokens:
    /// on the pool's first deposit a new token of `asset_amount +
    /// native_amount` units, later the `liquidity_payout`.
    pub open spec fn add_liquidity(
        self,
        origin: Origin,
        id: AssetId,
        asset_amount: Balance,
        native_amount: Balance,
    ) -> (State, Result<(), DispatchError>) {
        match origin {
            Origin::Signed(who) => {
                let held = self.balances[(id, who)];
                if held < asset_amount {
                    (self, Err(DispatchError::Module(Error::BalanceLow)))
                } else {
                    let s = State {
                        free_balance: slashed(self.free_balance, who, native_amount),
                        ..self
                    }.with_balance(id, who, (held - asset_amount) as u64).with_token_balance(
                        id,
                        (self.token_balances[id] + asset_amount) as u64,
                    ).with_native_token_balance(
                        id,
                        (self.native_token_balances[id] + native_amount) as u64,
                    );
                    if !self.pool_exists[id] {
                        let lp = self.next_asset_id;
                        let payout = (asset_amount + native_amount) as u64;
                        (
                            State {
                                next_asset_id: (lp + 1) as u64,
                                liquidity_token_tracker: s.liquidity_token_tracker.insert(id, lp),
                                pool_exists: s.pool_exists.insert(id, true),
                                ..s
                            }.with_balance(lp, who, payout).with_total_supply(lp, payout),
                            Ok(()),
                        )
                    } else {
                        let lp = self.liquidity_token_tracker[id];
                        let payout = liquidity_payout(
                            asset_amount as int,
                            native_amount as int,
                            self.token_balances[id] as int,
                            self.native_token_balances[id] as int,
                            self.total_supply[lp] as int,
                        );
                        (
                            s.with_balance(lp, who, (s.balances[(lp, who)] + payout) as u64).with_total_supply(
                                lp,
                                (self.total_supply[lp] + payout) as u64,
                            ),
                            Ok(()),
                        )
                    }
                }
            },
            _ => (self, Err(DispatchError::BadOrigin)),
        }
    }

    /// The inputs on which `add_liquidity` computes without overflow or
    /// division by zero.
    pub open spec fn add_liquidity_in_range(
        self,
        origin: Origin,
        id: AssetId,
        asset_amount: Balance,
        native_amount: Balance,
    ) -> bool {
        match origin {
            Origin::Signed(who) => self.balances[(id, who)] >= asset_amount ==> {
                &&& self.token_balances[id] + asset_amount <= u64::MAX
                &&& self.native_token_balances[id] + native_amount <= u64::MAX
                &&& if !self.pool_exists[id] {
                    &&& asset_amount + native_amount <= u64::MAX
                    &&& self.next_asset_id < u64::MAX
                } else {
                    let lp = self.liquidity_token_tracker[id];
                    let pool = self.token_balances[id] + self.native_token_balances[id];
                    let share = ((asset_amount + native_amount) * (PADDING as int)) / pool;
                    &&& (asset_amount + native_amount) * (PADDING as int) <= u64::MAX
                    &&& pool > 0
                    &&& pool <= u64::MAX
                    &&& share * self.total_supply[lp] <= u64::MAX
                    &&& self.total_supply[lp] + share * self.total_supply[lp] / (PADDING as int) <= u64::MAX
                }
            },
            _ => true,
        }
    }

    /// `swap_token_to_asset`: the signer sells `asset_amount` of `id` to its
    /// pool and is paid the `swap_payout` in native tokens; a refused
    /// deposit of the payout changes nothing.
    pub open spec fn swap_token_to_asset(self, origin: Origin, id: AssetId, asset_amount: Balance) -> (
        State,
        Result<(), DispatchError>,
    ) {
        match origin {
            Origin::Signed(who) => {
                let pool_asset = self.token_balances[id];
                let pool_native = self.native_token_balances[id];
                let payable = swap_payout(asset_amount as int, pool_asset as int, pool_native as int) as u64;
                match deposit_outcome(self.free_balance, who, payable) {
                    Err(e) => (self, Err(DispatchError::Currency(e))),
                    Ok(()) => (
                        State {
                            free_balance: deposited(self.free_balance, who, payable),
                            ..self
                        }.with_balance(
                            id,
                            who,
                            (self.balances[(id, who)] - asset_amount) as u64,
                        ).with_token_balance(id, (pool_asset + asset_amount) as u64).with_native_token_balance(
                            id,
                            (pool_native - payable) as u64,
                        ),
                        Ok(()),
                    ),
                }
            },
            _ => (self, Err(DispatchError::BadOrigin)),
        }
    }

    /// The inputs on which `swap_token_to_asset` computes without overflow,
    /// underflow or division by zero.
    pub open spec fn swap_in_range(self, origin: Origin, id: AssetId, asset_amount: Balance) -> bool {
        match origin {
            Origin::Signed(who) => {
                let pool_asset = self.token_balances[id];
                let pool_native = self.native_token_balances[id];
                let price = (pool_native * (PADDING as int)) / (pool_asset - asset_amount);
                let payable = swap_payout(asset_amount as int, pool_asset as int, pool_native as int);
                &&& pool_native * (PADDING as int) <= u64::MAX
                &&& asset_amount < pool_asset
                &&& asset_amount * price <= u64::MAX
                &&& deposit_outcome(self.free_balance, who, payable as u64) is Ok ==> {
                    &&& asset_amount <= self.balances[(id, who)]
                    &&& payable <= pool_native
                }
            },
            _ => true,
        }
    }
}

} // verus!
