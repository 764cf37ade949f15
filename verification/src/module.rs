//! The pallet's storage and its dispatchable calls.

use vstd::prelude::*;

use crate::currency::NativeCurrency;
use crate::laws::{
    law_add_liquidity_keeps_inv, law_destroy_keeps_inv, law_issue_keeps_inv, law_supply_accounted,
    law_swap_keeps_inv, law_transfer_keeps_inv,
};
use crate::pallet::{
    ensure_signed, AccountId, AssetId, Balance, DispatchError, Error, Origin, State, PADDING,
};
use crate::storage::StorageMap;

verus! {

broadcast use {crate::storage::lemma_every_key_present, crate::currency::lemma_every_account_present};

/// The pallet's storage, together with the native currency it moves.
pub struct Module {
    balances: StorageMap<(AssetId, AccountId), Balance>,
    next_asset_id: AssetId,
    total_supply: StorageMap<AssetId, Balance>,
    token_balances: StorageMap<AssetId, Balance>,
    native_token_balances: StorageMap<AssetId, Balance>,
    liquidity_token_tracker: StorageMap<AssetId, AssetId>,
    pool_exists: StorageMap<AssetId, bool>,
    currency: NativeCurrency,
}

impl View for Module {
    type V = State;

    closed spec fn view(&self) -> State {
        State {
            balances: self.balances@,
            holders: self.balances.keys(),
            next_asset_id: self.next_asset_id,
            total_supply: self.total_supply@,
            token_balances: self.token_balances@,
            native_token_balances: self.native_token_balances@,
            liquidity_token_tracker: self.liquidity_token_tracker@,
            pool_exists: self.pool_exists@,
            free_balance: self.currency@,
        }
    }
}

impl Module {
    /// Every map of the storage is well formed and reads as zero (or false)
    /// where it was never written.
    pub closed spec fn storage_wf(&self) -> bool {
        &&& self.balances.wf()
        &&& self.balances.default_value() == 0
        &&& self.total_supply.wf()
        &&& self.total_supply.default_value() == 0
        &&& self.token_balances.wf()
        &&& self.token_balances.default_value() == 0
        &&& self.native_token_balances.wf()
        &&& self.native_token_balances.default_value() == 0
        &&& self.liquidity_token_tracker.wf()
        &&& self.liquidity_token_tracker.default_value() == 0
        &&& self.pool_exists.wf()
        &&& !self.pool_exists.default_value()
        &&& self.currency.wf()
    }

    pub open spec fn wf(&self) -> bool {
        &&& self.storage_wf()
        &&& self@.inv()
    }

    /// Well-formed storage stands for a state whose maps have every key and
    /// whose holders are the keys ever written.
    proof fn lemma_storage_view(&self)
        requires
            self.storage_wf(),
        ensures
            self@.total_maps(),
            self@.ledger_ok(),
    {
        self.balances.lemma_keys();
    }

    /// A chain with no asset and no pool, over the native balances of
    /// `currency`.
    pub fn new(currency: NativeCurrency) -> (m: Module)
        requires
            currency.wf(),
        ensures
            m.wf(),
            m@ == State::genesis(currency@),
    {
        let m = Module {
            balances: StorageMap::new(0),
            next_asset_id: 0,
            total_supply: StorageMap::new(0),
            token_balances: StorageMap::new(0),
            native_token_balances: StorageMap::new(0),
            liquidity_token_tracker: StorageMap::new(0),
            pool_exists: StorageMap::new(false),
            currency,
        };
        proof {
            m.lemma_storage_view();
            assert(m@ =~= State::genesis(currency@));
            State::lemma_genesis(currency@, 0);
        }
        m
    }

    fn set_balance(&mut self, id: AssetId, who: AccountId, value: Balance)
        requires
            old(self).storage_wf(),
        ensures
            final(self).storage_wf(),
            final(self)@ == old(self)@.with_balance(id, who, value),
    {
        self.balances.insert((id, who), value);
        assert(self@ =~= old(self)@.with_balance(id, who, value));
    }

    /// Issues a new class of fungible assets: `total` units, all held by the
    /// signer, under the identifier `next_asset_id`, which then advances.
    pub fn issue(&mut self, origin: Origin, total: Balance) -> (r: Result<(), DispatchError>)
        requires
            old(self).wf(),
            old(self)@.issue_in_range(origin),
        ensures
            final(self).wf(),
            (final(self)@, r) == old(self)@.issue(origin, total),
    {
        proof {
            law_issue_keeps_inv(self@, origin, total);
        }
        let who = match ensure_signed(origin) {
            Ok(who) => who,
            Err(e) => return Err(e),
        };
        let id = self.next_asset_id;
        self.next_asset_id = id + 1;
        self.set_balance(id, who, total);
        self.total_supply.insert(id, total);
        assert(self@ =~= old(self)@.issue(origin, total).0);
        Ok(())
    }

    /// Moves `amount` of asset `id` from the signer to `target`.
    pub fn transfer(&mut self, origin: Origin, id: AssetId, target: AccountId, amount: Balance) -> (r:
        Result<(), DispatchError>)
        requires
            old(self).wf(),
        ensures
            final(self).wf(),
            (final(self)@, r) == old(self)@.transfer(origin, id, target, amount),
    {
        proof {
            law_transfer_keeps_inv(self@, origin, id, target, amount);
        }
        let who = match ensure_signed(origin) {
            Ok(who) => who,
            Err(e) => return Err(e),
        };
        let origin_balance = self.balances.get((id, who));
        if amount == 0 {
            return Err(DispatchError::Module(Error::AmountZero));
        }
        if origin_balance < amount {
            return Err(DispatchError::Module(Error::BalanceLow));
        }
        self.set_balance(id, who, origin_balance - amount);
        let target_balance = self.balances.get((id, target));
        self.set_balance(id, target, target_balance + amount);
        Ok(())
    }

    /// Destroys the signer's whole balance of asset `id`, removing it from
    /// the supply.
    pub fn destroy(&mut self, origin: Origin, id: AssetId) -> (r: Result<(), DispatchError>)
        requires
            old(self).wf(),
        ensures
            final(self).wf(),
            (final(self)@, r) == old(self)@.destroy(origin, id),
    {
        proof {
            law_destroy_keeps_inv(self@, origin, id);
        }
        let who = match ensure_signed(origin) {
            Ok(who) => who,
            Err(e) => return Err(e),
        };
        let balance = self.balances.get((id, who));
        proof {
            law_supply_accounted(self@, id, who, who);
        }
        if balance == 0 {
            return Err(DispatchError::Module(Error::BalanceZero));
        }
        self.set_balance(id, who, 0);
        let supply = self.total_supply.get(id);
        self.total_supply.insert(id, supply - balance);
        assert(self@ =~= old(self)@.destroy(origin, id).0);
        Ok(())
    }

    /// Adds `asset_amount` of asset `id` and `native_amount` of the native
    /// token to the pool of `id`, and pays the signer in liquidity tokens.
    pub fn add_liquidity(
        &mut self,
        origin: Origin,
        id: AssetId,
        asset_amount: Balance,
        native_amount: Balance,
    ) -> (r: Result<(), DispatchError>)
        requires
            old(self).wf(),
            old(self)@.add_liquidity_in_range(origin, id, asset_amount, native_amount),
        ensures
            final(self).wf(),
            (final(self)@, r) == old(self)@.add_liquidity(origin, id, asset_amount, native_amount),
    {
        proof {
            law_add_liquidity_keeps_inv(self@, origin, id, asset_amount, native_amount);
        }
        let who = match ensure_signed(origin) {
            Ok(who) => who,
            Err(e) => return Err(e),
        };
        let origin_balance = self.balances.get((id, who));
        if origin_balance < asset_amount {
            return Err(DispatchError::Module(Error::BalanceLow));
        }
        let ghost o = self@;
        self.currency.slash(who, native_amount);
        self.set_balance(id, who, origin_balance - asset_amount);
        let pool_asset = self.token_balances.get(id);
        self.token_balances.insert(id, pool_asset + asset_amount);
        let pool_native = self.native_token_balances.get(id);
        self.native_token_balances.insert(id, pool_native + native_amount);
        let total_token = self.token_balances.get(id);
        let total_native = self.native_token_balances.get(id);
        if !self.pool_exists.get(id) {
            let payout = asset_amount + native_amount;
            let lp = self.next_asset_id;
            self.next_asset_id = lp + 1;
            self.set_balance(lp, who, payout);
            self.total_supply.insert(lp, payout);
            self.liquidity_token_tracker.insert(id, lp);
            self.pool_exists.insert(id, true);
        } else {
            let share = ((asset_amount + native_amount) * PADDING) / ((total_token - asset_amount) + (
            total_native - native_amount));
            let lp = self.liquidity_token_tracker.get(id);
            let total_liq = self.total_supply.get(lp);
            let payout = share * total_liq / PADDING;
            let held = self.balances.get((lp, who));
            assert(o.balances[(id, who)] >= asset_amount);
            self.set_balance(lp, who, held + payout);
            self.total_supply.insert(lp, total_liq + payout);
        }
        assert(self@ =~= o.add_liquidity(origin, id, asset_amount, native_amount).0);
        Ok(())
    }

    /// Sells `asset_amount` of asset `id` to its pool for native tokens,
    /// which are deposited into the signer's existing account.
    pub fn swap_token_to_asset(&mut self, origin: Origin, id: AssetId, asset_amount: Balance) -> (r:
        Result<(), DispatchError>)
        requires
            old(self).wf(),
            old(self)@.swap_in_range(origin, id, asset_amount),
        ensures
            final(self).wf(),
            (final(self)@, r) == old(self)@.swap_token_to_asset(origin, id, asset_amount),
    {
        proof {
            law_swap_keeps_inv(self@, origin, id, asset_amount);
        }
        let who = match ensure_signed(origin) {
            Ok(who) => who,
            Err(e) => return Err(e),
        };
        let total_token = self.token_balances.get(id);
        let total_native = self.native_token_balances.get(id);
        let multiplier = (total_native * PADDING) / (total_token - asset_amount);
        let payable = asset_amount * multiplier / PADDING;
        match self.currency.deposit_into_existing(who, payable) {
            Ok(()) => {},
            Err(e) => {
                assert(self@ =~= old(self)@);
                return Err(DispatchError::Currency(e));
            },
        }
        let held = self.balances.get((id, who));
        self.set_balance(id, who, held - asset_amount);
        self.token_balances.insert(id, total_token + asset_amount);
        self.native_token_balances.insert(id, total_native - payable);
        assert(self@ =~= old(self)@.swap_token_to_asset(origin, id, asset_amount).0);
        Ok(())
    }

    /// Taking liquidity out of a pool is not offered yet: the call succeeds
    /// and changes nothing.
    pub fn remove_liquidity(&mut self, origin: Origin, id: AssetId, asset_amount: Balance) -> (r:
        Result<(), DispatchError>)
        requires
            old(self).wf(),
        ensures
            final(self).wf(),
            final(self)@ == old(self)@,
            r == Ok::<(), DispatchError>(()),
    {
        Ok(())
    }

    /// Selling native tokens for an asset is not offered yet: the call
    /// succeeds and changes nothing.
    pub fn swap_asset_to_token(&mut self, origin: Origin, id: AssetId, asset_amount: Balance) -> (r:
        Result<(), DispatchError>)
        requires
            old(self).wf(),
        ensures
            final(self).wf(),
            final(self)@ == old(self)@,
            r == Ok::<(), DispatchError>(()),
    {
        Ok(())
    }

    /// Swapping one asset for another is not offered yet: the call succeeds
    /// and changes nothing.
    pub fn swap_token_to_token(&mut self, origin: Origin, id1: AssetId, id2: AssetId) -> (r: Result<
        (),
        DispatchError,
    >)
        requires
            old(self).wf(),
        ensures
            final(self).wf(),
            final(self)@ == old(self)@,
            r == Ok::<(), DispatchError>(()),
    {
        Ok(())
    }

    /// The balance of asset `id` held by `who`.
    pub fn balance(&self, id: AssetId, who: AccountId) -> (b: Balance)
        requires
            self.wf(),
        ensures
            b == self@.balances[(id, who)],
    {
        self.balances.get((id, who))
    }

    /// The total supply of asset `id`.
    pub fn total_supply(&self, id: AssetId) -> (b: Balance)
        requires
            self.wf(),
        ensures
            b == self@.total_supply[id],
    {
        self.total_supply.get(id)
    }

    /// Units of asset `id` held by its pool.
    pub fn token_balance(&self, id: AssetId) -> (b: Balance)
        requires
            self.wf(),
        ensures
            b == self@.token_balances[id],
    {
        self.token_balances.get(id)
    }

    /// Native tokens credited to the pool of asset `id`.
    pub fn native_token_balance(&self, id: AssetId) -> (b: Balance)
        requires
            self.wf(),
        ensures
            b == self@.native_token_balances[id],
    {
        self.native_token_balances.get(id)
    }

    /// The liquidity token of the pool of asset `id`.
    pub fn liquidity_token_tracker(&self, id: AssetId) -> (lp: AssetId)
        requires
            self.wf(),
        ensures
            lp == self@.liquidity_token_tracker[id],
    {
        self.liquidity_token_tracker.get(id)
    }

    /// Whether a pool has been created for asset `id`.
    pub fn pool_exists(&self, id: AssetId) -> (b: bool)
        requires
            self.wf(),
        ensures
            b == self@.pool_exists[id],
    {
        self.pool_exists.get(id)
    }

    /// The identifier the next issued asset will get.
    pub fn next_asset_id(&self) -> (id: AssetId)
        requires
            self.wf(),
        ensures
            id == self@.next_asset_id,
    {
        self.next_asset_id
    }

    /// The free native balance of `who`.
    pub fn free_balance(&self, who: AccountId) -> (b: Balance)
        requires
            self.wf(),
        ensures
            b == self@.free_balance[who],
    {
        self.currency.free_balance(who)
    }
}

} // verus!
