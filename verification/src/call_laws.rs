//! What each call does, stated over its inputs and its outcome: who pays,
//! who is paid, when it is refused, and what it leaves alone.

use vstd::prelude::*;

use crate::currency::CurrencyError;
use crate::laws::{law_add_liquidity_keeps_inv, law_supply_accounted, law_transfer_keeps_inv};
use crate::pallet::{signer, AccountId, AssetId, Balance, DispatchError, Error, Origin, State, PADDING};

verus! {

broadcast use crate::storage::lemma_every_key_present;

/// A deposit into the pool of `id` is refused only when the depositor holds
/// less than `asset_amount` of `id`. When it goes through, the depositor
/// loses `asset_amount` of `id` and as much of `native_amount` as its free
/// balance covers; the pool gains `asset_amount` and is credited
/// `native_amount`; and the depositor, and nobody else, receives the
/// liquidity tokens: on the pool's first deposit `asset_amount +
/// native_amount` units of a new token numbered `next_asset_id`, later the
/// share `(asset_amount + native_amount) * PADDING / pool * supply / PADDING`
/// of the existing token, where `pool` is what the pool held before in
/// asset and native together. Nothing else changes.
pub proof fn law_add_liquidity_pays_depositor(
    s: State,
    who: AccountId,
    id: AssetId,
    asset_amount: Balance,
    native_amount: Balance,
    k: AssetId,
    w: AccountId,
)
    requires
        s.inv(),
        s.add_liquidity_in_range(Origin::Signed(who), id, asset_amount, native_amount),
    ensures
        ({
            let (t, r) = s.add_liquidity(Origin::Signed(who), id, asset_amount, native_amount);
            let held = s.balances[(id, who)];
            let free = s.free_balance[who];
            let first = !s.pool_exists[id];
            let lp = if first {
                s.next_asset_id
            } else {
                s.liquidity_token_tracker[id]
            };
            let minted = if first {
                asset_amount + native_amount
            } else {
                (asset_amount + native_amount) * (PADDING as int) / (s.token_balances[id]
                    + s.native_token_balances[id]) * s.total_supply[lp] / (PADDING as int)
            };
            &&& r is Ok <==> held >= asset_amount
            &&& r is Err ==> r == Err::<(), DispatchError>(DispatchError::Module(Error::BalanceLow))
                && t == s
            &&& r is Ok ==> {
                &&& t.free_balance[who] == if free >= native_amount {
                    free - native_amount
                } else {
                    0
                }
                &&& w != who ==> t.free_balance[w] == s.free_balance[w]
                &&& t.token_balances[id] == s.token_balances[id] + asset_amount
                &&& t.native_token_balances[id] == s.native_token_balances[id] + native_amount
                &&& k != id ==> t.token_balances[k] == s.token_balances[k]
                    && t.native_token_balances[k] == s.native_token_balances[k]
                &&& t.pool_exists[id]
                &&& t.liquidity_token_tracker[id] == lp
                &&& k != id ==> t.pool_exists[k] == s.pool_exists[k]
                    && t.liquidity_token_tracker[k] == s.liquidity_token_tracker[k]
                &&& t.next_asset_id == if first {
                    s.next_asset_id + 1
                } else {
                    s.next_asset_id as int
                }
                &&& t.total_supply[lp] == s.total_supply[lp] + minted
                &&& k != lp ==> t.total_supply[k] == s.total_supply[k]
                &&& t.balances[(lp, who)] == s.balances[(lp, who)] - (if lp == id {
                    asset_amount as int
                } else {
                    0
                }) + minted
                &&& lp != id ==> t.balances[(id, who)] == held - asset_amount
                &&& w != who ==> t.balances[(lp, w)] == s.balances[(lp, w)]
                &&& (k, w) != (id, who) && (k, w) != (lp, who) ==> t.balances[(k, w)]
                    == s.balances[(k, w)]
            }
        }),
{
    law_supply_accounted(s, id, who, who);
    law_supply_accounted(s, s.next_asset_id, who, who);
    law_add_liquidity_keeps_inv(s, Origin::Signed(who), id, asset_amount, native_amount);
    let lp = s.liquidity_token_tracker[id];
    law_supply_accounted(s, lp, who, who);
}

/// A sale of `asset_amount` of `id` to its pool pays the seller
/// `asset_amount * (native * PADDING / (asset - asset_amount)) / PADDING`
/// native tokens, where the pool held `asset` of `id` and `native` native
/// tokens. It is refused exactly when that payout cannot be deposited into
/// the seller's account: the account holds nothing (it does not exist), or
/// its balance would overflow. When it goes through, the seller's asset
/// moves into the pool, the payout moves from the pool's native credit to
/// the seller's free balance, and nothing else changes.
pub proof fn law_swap_pays_seller(
    s: State,
    who: AccountId,
    id: AssetId,
    asset_amount: Balance,
    k: AssetId,
    w: AccountId,
)
    requires
        s.inv(),
        s.swap_in_range(Origin::Signed(who), id, asset_amount),
    ensures
        ({
            let (t, r) = s.swap_token_to_asset(Origin::Signed(who), id, asset_amount);
            let pool_asset = s.token_balances[id];
            let pool_native = s.native_token_balances[id];
            let paid = asset_amount * (pool_native * (PADDING as int) / (pool_asset - asset_amount))
                / (PADDING as int);
            let free = s.free_balance[who];
            &&& r is Ok <==> paid == 0 || (free > 0 && free + paid <= u64::MAX)
            &&& paid != 0 && free == 0 ==> r == Err::<(), DispatchError>(
                DispatchError::Currency(CurrencyError::DeadAccount),
            )
            &&& paid != 0 && free > 0 && free + paid > u64::MAX ==> r == Err::<(), DispatchError>(
                DispatchError::Currency(CurrencyError::Overflow),
            )
            &&& r is Err ==> t == s
            &&& r is Ok ==> {
                &&& t.free_balance[who] == free + paid
                &&& w != who ==> t.free_balance[w] == s.free_balance[w]
                &&& t.balances[(id, who)] == s.balances[(id, who)] - asset_amount
                &&& (k, w) != (id, who) ==> t.balances[(k, w)] == s.balances[(k, w)]
                &&& t.token_balances[id] == pool_asset + asset_amount
                &&& t.native_token_balances[id] == pool_native - paid
                &&& k != id ==> t.token_balances[k] == s.token_balances[k]
                    && t.native_token_balances[k] == s.native_token_balances[k]
                &&& t.total_supply[k] == s.total_supply[k]
                &&& t.next_asset_id == s.next_asset_id
                &&& t.pool_exists[k] == s.pool_exists[k]
                &&& t.liquidity_token_tracker[k] == s.liquidity_token_tracker[k]
            }
        }),
{
    law_supply_accounted(s, id, who, who);
}

/// The calls on assets alone (`issue`, `transfer`, `destroy`) never touch a
/// pool or the native token, and change no balance but those of the signer
/// and, for a transfer, the target.
pub proof fn law_asset_calls_leave_pools(
    s: State,
    who: AccountId,
    id: AssetId,
    target: AccountId,
    amount: Balance,
    k: AssetId,
    w: AccountId,
)
    requires
        s.inv(),
    ensures
        ({
            let t = s.transfer(Origin::Signed(who), id, target, amount).0;
            &&& t.free_balance == s.free_balance
            &&& t.token_balances == s.token_balances
            &&& t.native_token_balances == s.native_token_balances
            &&& t.pool_exists == s.pool_exists
            &&& t.liquidity_token_tracker == s.liquidity_token_tracker
            &&& t.next_asset_id == s.next_asset_id
            &&& t.total_supply == s.total_supply
            &&& (k, w) != (id, who) && (k, w) != (id, target) ==> t.balances[(k, w)] == s.balances[(
                k,
                w,
            )]
        }),
        ({
            let t = s.destroy(Origin::Signed(who), id).0;
            &&& t.free_balance == s.free_balance
            &&& t.token_balances == s.token_balances
            &&& t.native_token_balances == s.native_token_balances
            &&& t.pool_exists == s.pool_exists
            &&& t.liquidity_token_tracker == s.liquidity_token_tracker
            &&& t.next_asset_id == s.next_asset_id
            &&& (k, w) != (id, who) ==> t.balances[(k, w)] == s.balances[(k, w)]
        }),
        ({
            let t = s.issue(Origin::Signed(who), amount).0;
            &&& t.free_balance == s.free_balance
            &&& t.token_balances == s.token_balances
            &&& t.native_token_balances == s.native_token_balances
            &&& t.pool_exists == s.pool_exists
            &&& t.liquidity_token_tracker == s.liquidity_token_tracker
            &&& (k, w) != (s.next_asset_id, who) ==> t.balances[(k, w)] == s.balances[(k, w)]
        }),
{
    law_transfer_keeps_inv(s, Origin::Signed(who), id, target, amount);
    law_supply_accounted(s, id, who, target);
}

/// Every call but the unfinished ones needs a signed origin, and answers
/// any other with `BadOrigin`; a signed `issue` always goes through; a
/// transfer of nothing is refused with `AmountZero` and one beyond the
/// signer's balance with `BalanceLow`; destroying a zero balance is refused
/// with `BalanceZero`.
pub proof fn law_refusals(
    s: State,
    origin: Origin,
    id: AssetId,
    target: AccountId,
    amount: Balance,
    native_amount: Balance,
)
    ensures
        signer(origin) is Ok <==> origin is Signed,
        origin matches Origin::Signed(who) ==> signer(origin) == Ok::<AccountId, DispatchError>(who),
        !(origin is Signed) ==> {
            let bad = Err::<(), DispatchError>(DispatchError::BadOrigin);
            &&& s.issue(origin, amount).1 == bad
            &&& s.transfer(origin, id, target, amount).1 == bad
            &&& s.destroy(origin, id).1 == bad
            &&& s.add_liquidity(origin, id, amount, native_amount).1 == bad
            &&& s.swap_token_to_asset(origin, id, amount).1 == bad
        },
        origin is Signed ==> s.issue(origin, amount).1 is Ok,
        origin matches Origin::Signed(who) ==> {
            let r = s.transfer(origin, id, target, amount).1;
            &&& amount == 0 ==> r == Err::<(), DispatchError>(DispatchError::Module(Error::AmountZero))
            &&& amount > 0 && s.balances[(id, who)] < amount ==> r == Err::<(), DispatchError>(
                DispatchError::Module(Error::BalanceLow),
            )
        },
        origin matches Origin::Signed(who) && s.balances[(id, who)] == 0 ==> s.destroy(origin, id).1
            == Err::<(), DispatchError>(DispatchError::Module(Error::BalanceZero)),
{
}

/// A new chain has no asset, no holder, no pool and no supply, and its
/// native balances are the ones it was given.
pub proof fn law_genesis(free_balance: Map<AccountId, Balance>, k: AssetId, w: AccountId)
    ensures
        ({
            let g = State::genesis(free_balance);
            &&& g.next_asset_id == 0
            &&& g.balances[(k, w)] == 0
            &&& g.total_supply[k] == 0
            &&& g.token_balances[k] == 0
            &&& g.native_token_balances[k] == 0
            &&& !g.pool_exists[k]
            &&& g.holders.len() == 0
            &&& g.free_balance == free_balance
        }),
{
}

} // verus!
