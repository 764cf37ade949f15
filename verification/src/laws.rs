//! Properties of the pallet as a whole, over its calls and its states.

use vstd::prelude::*;

use crate::currency::{deposit_outcome, deposited, slashed};
use crate::pallet::{liquidity_payout, swap_payout, AccountId, AssetId, Balance, Origin, State};

verus! {

/// In every state the pallet reaches, the supply of each asset is exactly
/// what the accounts hold plus what its pool holds; no account, and no two
/// accounts together, hold more than circulates; no identifier beyond the
/// next one has any supply or holder.
pub proof fn law_supply_accounted(s: State, id: AssetId, w1: AccountId, w2: AccountId)
    requires
        s.inv(),
    ensures
        s.total_supply[id] == s.circulating(id) + s.token_balances[id],
        s.balances[(id, w1)] <= s.circulating(id) <= s.total_supply[id],
        w1 != w2 ==> s.balances[(id, w1)] + s.balances[(id, w2)] <= s.circulating(id),
        id >= s.next_asset_id ==> s.total_supply[id] == 0 && s.balances[(id, w1)] == 0
            && s.token_balances[id] == 0,
{
    s.lemma_holdings(id, w1, w2);
    assert(s.total_supply[id] == s.circulating(id) + s.token_balances[id]);
}

/// `t` and `s` agree on the supply, circulating amount and pool holding of
/// every asset but `a1` and `a2`.
spec fn same_outside(s: State, t: State, a1: AssetId, a2: AssetId) -> bool {
    &&& forall|a: AssetId| a != a1 && a != a2 ==> #[trigger] t.total_supply[a] == s.total_supply[a]
    &&& forall|a: AssetId| a != a1 && a != a2 ==> #[trigger] t.circulating(a) == s.circulating(a)
    &&& forall|a: AssetId| a != a1 && a != a2 ==> #[trigger] t.token_balances[a] == s.token_balances[a]
}

/// A state `t` holds the invariant when it agrees with an invariant state
/// `s` on every asset but `a1` and `a2`, accounts for the supply of those
/// two, has no supply beyond its next identifier, and points every pool at
/// an issued liquidity token.
proof fn lemma_inv_after(s: State, t: State, a1: AssetId, a2: AssetId)
    requires
        s.inv(),
        t.total_maps(),
        t.ledger_ok(),
        s.next_asset_id <= t.next_asset_id,
        same_outside(s, t, a1, a2),
        t.total_supply[a1] == t.circulating(a1) + t.token_balances[a1],
        t.total_supply[a2] == t.circulating(a2) + t.token_balances[a2],
        a1 >= t.next_asset_id ==> t.total_supply[a1] == 0,
        a2 >= t.next_asset_id ==> t.total_supply[a2] == 0,
        forall|a: AssetId| #[trigger] t.pool_exists[a] ==> t.liquidity_token_tracker[a] < t.next_asset_id,
    ensures
        t.inv(),
{
    assert forall|a: AssetId| #[trigger]
        t.total_supply[a] == t.circulating(a) + t.token_balances[a] by {
        if a != a1 && a != a2 {
            assert(s.total_supply[a] == s.circulating(a) + s.token_balances[a]);
        }
    }
    assert forall|a: AssetId| a >= t.next_asset_id implies #[trigger] t.total_supply[a] == 0 by {
        if a != a1 && a != a2 {
            assert(s.total_supply[a] == 0);
        }
    }
}

/// `issue` keeps the invariant.
#[verifier::spinoff_prover]
pub proof fn law_issue_keeps_inv(s: State, origin: Origin, total: Balance)
    requires
        s.inv(),
        s.issue_in_range(origin),
    ensures
        s.issue(origin, total).0.inv(),
{
    if let Origin::Signed(who) = origin {
        let id = s.next_asset_id;
        law_supply_accounted(s, id, who, who);
        let s1 = State { next_asset_id: (id + 1) as u64, ..s };
        let t = s.issue(origin, total).0;
        assert forall|a: AssetId| #[trigger] t.circulating(a) == s1.with_balance(id, who, total).circulating(a) by {}
        assert(same_outside(s, t, id, id)) by {
            assert forall|a: AssetId|
                #![trigger t.total_supply[a]]
                #![trigger t.circulating(a)]
                #![trigger t.token_balances[a]]
                a != id implies t.total_supply[a] == s.total_supply[a]
                && t.circulating(a) == s.circulating(a) && t.token_balances[a] == s.token_balances[a] by {
                s1.lemma_with_balance(id, who, total, a);
            }
        }
        s1.lemma_with_balance(id, who, total, id);
        assert forall|a: AssetId| #[trigger] t.pool_exists[a] implies t.liquidity_token_tracker[a]
            < t.next_asset_id by {
            assert(s.pool_exists[a] ==> s.liquidity_token_tracker[a] < s.next_asset_id);
        }
        lemma_inv_after(s, t, id, id);
    }
}

/// `transfer` keeps the invariant, and computes without overflow on every
/// state that holds it.
#[verifier::spinoff_prover]
pub proof fn law_transfer_keeps_inv(
    s: State,
    origin: Origin,
    id: AssetId,
    target: AccountId,
    amount: Balance,
)
    requires
        s.inv(),
    ensures
        s.transfer(origin, id, target, amount).0.inv(),
        origin matches Origin::Signed(who) && amount <= s.balances[(id, who)] && who != target
            ==> s.balances[(id, target)] + amount <= u64::MAX,
{
    if let Origin::Signed(who) = origin {
        law_supply_accounted(s, id, who, target);
        let (t, r) = s.transfer(origin, id, target, amount);
        if r is Ok {
            let held = s.balances[(id, who)];
            let s1 = s.with_balance(id, who, (held - amount) as u64);
            let v = (s1.balances[(id, target)] + amount) as u64;
            assert(same_outside(s, t, id, id)) by {
                assert forall|a: AssetId|
                #![trigger t.total_supply[a]]
                #![trigger t.circulating(a)]
                #![trigger t.token_balances[a]]
                a != id implies t.total_supply[a] == s.total_supply[a]
                    && t.circulating(a) == s.circulating(a) && t.token_balances[a] == s.token_balances[a] by {
                    s.lemma_with_balance(id, who, (held - amount) as u64, a);
                    s1.lemma_with_balance(id, target, v, a);
                }
            }
            s.lemma_with_balance(id, who, (held - amount) as u64, id);
            s1.lemma_with_balance(id, target, v, id);
            assert forall|a: AssetId| #[trigger] t.pool_exists[a] implies t.liquidity_token_tracker[a]
                < t.next_asset_id by {
                assert(s.pool_exists[a] ==> s.liquidity_token_tracker[a] < s.next_asset_id);
            }
            lemma_inv_after(s, t, id, id);
        }
    }
}

/// `destroy` keeps the invariant.
#[verifier::spinoff_prover]
pub proof fn law_destroy_keeps_inv(s: State, origin: Origin, id: AssetId)
    requires
        s.inv(),
    ensures
        s.destroy(origin, id).0.inv(),
{
    if let Origin::Signed(who) = origin {
        law_supply_accounted(s, id, who, who);
        let (t, r) = s.destroy(origin, id);
        if r is Ok {
            let s1 = s.with_balance(id, who, 0);
            assert(t == s1.with_total_supply(id, (s.total_supply[id] - s.balances[(id, who)]) as u64));
            assert(same_outside(s, t, id, id)) by {
                assert forall|a: AssetId|
                #![trigger t.total_supply[a]]
                #![trigger t.circulating(a)]
                #![trigger t.token_balances[a]]
                a != id implies t.total_supply[a] == s.total_supply[a]
                    && t.circulating(a) == s.circulating(a) && t.token_balances[a] == s.token_balances[a] by {
                    s.lemma_with_balance(id, who, 0, a);
                    assert(t.circulating(a) == s1.circulating(a));
                    assert(t.total_supply[a] == s.total_supply[a]);
                    assert(t.token_balances[a] == s.token_balances[a]);
                    assert(t.circulating(a) == s.circulating(a));
                }
            }
            s.lemma_with_balance(id, who, 0, id);
            assert forall|a: AssetId| #[trigger] t.pool_exists[a] implies t.liquidity_token_tracker[a]
                < t.next_asset_id by {
                assert(s.pool_exists[a] ==> s.liquidity_token_tracker[a] < s.next_asset_id);
            }
            lemma_inv_after(s, t, id, id);
        }
    }
}

/// `add_liquidity` keeps the invariant, and computes without overflow on
/// every state that holds it and every input in range.
#[verifier::spinoff_prover]
pub proof fn law_add_liquidity_keeps_inv(
    s: State,
    origin: Origin,
    id: AssetId,
    asset_amount: Balance,
    native_amount: Balance,
)
    requires
        s.inv(),
        s.add_liquidity_in_range(origin, id, asset_amount, native_amount),
    ensures
        s.add_liquidity(origin, id, asset_amount, native_amount).0.inv(),
        forall|who: AccountId|
            origin == Origin::Signed(who) && s.pool_exists[id] && asset_amount <= #[trigger] s.balances[(
                id,
                who,
            )] ==> (if s.liquidity_token_tracker[id] == id {
                s.balances[(id, who)] - asset_amount
            } else {
                s.balances[(s.liquidity_token_tracker[id], who)] as int
            }) + liquidity_payout(
                asset_amount as int,
                native_amount as int,
                s.token_balances[id] as int,
                s.native_token_balances[id] as int,
                s.total_supply[s.liquidity_token_tracker[id]] as int,
            ) <= u64::MAX,
{
    if let Origin::Signed(who) = origin {
        let held = s.balances[(id, who)];
        if held >= asset_amount {
            law_supply_accounted(s, id, who, who);
            let lp0 = s.next_asset_id;
            law_supply_accounted(s, lp0, who, who);
            let s0 = State { free_balance: slashed(s.free_balance, who, native_amount), ..s };
            let sb = s0.with_balance(id, who, (held - asset_amount) as u64);
            let s1 = sb.with_token_balance(id, (s.token_balances[id] + asset_amount) as u64).with_native_token_balance(
                id,
                (s.native_token_balances[id] + native_amount) as u64,
            );
            assert forall|a: AssetId| #[trigger] s1.circulating(a) == sb.circulating(a) by {}
            assert forall|a: AssetId| a != id implies #[trigger] s1.circulating(a) == s.circulating(a) by {
                s0.lemma_with_balance(id, who, (held - asset_amount) as u64, a);
            }
            s0.lemma_with_balance(id, who, (held - asset_amount) as u64, id);
            assert(s1.total_supply[id] == s1.circulating(id) + s1.token_balances[id]);
            let t = s.add_liquidity(origin, id, asset_amount, native_amount).0;
            if !s.pool_exists[id] {
                let lp = lp0;
                let payout = (asset_amount + native_amount) as u64;
                let s2 = State {
                    next_asset_id: (lp + 1) as u64,
                    liquidity_token_tracker: s1.liquidity_token_tracker.insert(id, lp),
                    pool_exists: s1.pool_exists.insert(id, true),
                    ..s1
                };
                assert forall|a: AssetId| #[trigger] s2.circulating(a) == s1.circulating(a) by {}
                s1.lemma_holdings(lp, who, who);
                assert(same_outside(s, t, id, lp)) by {
                    assert forall|a: AssetId|
                #![trigger t.total_supply[a]]
                #![trigger t.circulating(a)]
                #![trigger t.token_balances[a]]
                a != id && a != lp implies t.total_supply[a] == s.total_supply[a]
                        && t.circulating(a) == s.circulating(a) && t.token_balances[a] == s.token_balances[a] by {
                        s2.lemma_with_balance(lp, who, payout, a);
                    }
                }
                s2.lemma_with_balance(lp, who, payout, lp);
                s2.lemma_with_balance(lp, who, payout, id);
                assert forall|a: AssetId| #[trigger] t.pool_exists[a] implies t.liquidity_token_tracker[a]
                    < t.next_asset_id by {
                    assert(s.pool_exists[a] ==> s.liquidity_token_tracker[a] < s.next_asset_id);
                }
                lemma_inv_after(s, t, id, lp);
            } else {
                let lp = s.liquidity_token_tracker[id];
                let payout = liquidity_payout(
                    asset_amount as int,
                    native_amount as int,
                    s.token_balances[id] as int,
                    s.native_token_balances[id] as int,
                    s.total_supply[lp] as int,
                );
                law_supply_accounted(s, lp, who, who);
                s1.lemma_holdings(lp, who, who);
                assert(s1.total_supply[lp] == s1.circulating(lp) + s1.token_balances[lp]) by {
                    if lp != id {
                        assert(s.total_supply[lp] == s.circulating(lp) + s.token_balances[lp]);
                    }
                }
                let v = (s1.balances[(lp, who)] + payout) as u64;
                assert(same_outside(s, t, id, lp)) by {
                    assert forall|a: AssetId|
                #![trigger t.total_supply[a]]
                #![trigger t.circulating(a)]
                #![trigger t.token_balances[a]]
                a != id && a != lp implies t.total_supply[a] == s.total_supply[a]
                        && t.circulating(a) == s.circulating(a) && t.token_balances[a] == s.token_balances[a] by {
                        s1.lemma_with_balance(lp, who, v, a);
                    }
                }
                s1.lemma_with_balance(lp, who, v, lp);
                s1.lemma_with_balance(lp, who, v, id);
                assert forall|a: AssetId| #[trigger] t.pool_exists[a] implies t.liquidity_token_tracker[a]
                    < t.next_asset_id by {
                    assert(s.pool_exists[a] ==> s.liquidity_token_tracker[a] < s.next_asset_id);
                }
                lemma_inv_after(s, t, id, lp);
            }
        }
    }
}

/// `swap_token_to_asset` keeps the invariant, and computes without
/// overflow on every state that holds it and every input in range.
#[verifier::spinoff_prover]
pub proof fn law_swap_keeps_inv(s: State, origin: Origin, id: AssetId, asset_amount: Balance)
    requires
        s.inv(),
        s.swap_in_range(origin, id, asset_amount),
    ensures
        s.swap_token_to_asset(origin, id, asset_amount).0.inv(),
        origin matches Origin::Signed(who) && asset_amount <= s.balances[(id, who)]
            ==> s.token_balances[id] + asset_amount <= u64::MAX,
{
    if let Origin::Signed(who) = origin {
        law_supply_accounted(s, id, who, who);
        let (t, r) = s.swap_token_to_asset(origin, id, asset_amount);
        if r is Ok {
            let payable = swap_payout(
                asset_amount as int,
                s.token_balances[id] as int,
                s.native_token_balances[id] as int,
            ) as u64;
            let s0 = State { free_balance: deposited(s.free_balance, who, payable), ..s };
            let v = (s.balances[(id, who)] - asset_amount) as u64;
            assert(same_outside(s, t, id, id)) by {
                assert forall|a: AssetId|
                #![trigger t.total_supply[a]]
                #![trigger t.circulating(a)]
                #![trigger t.token_balances[a]]
                a != id implies t.total_supply[a] == s.total_supply[a]
                    && t.circulating(a) == s.circulating(a) && t.token_balances[a] == s.token_balances[a] by {
                    s0.lemma_with_balance(id, who, v, a);
                }
            }
            s0.lemma_with_balance(id, who, v, id);
            assert forall|a: AssetId| #[trigger] t.pool_exists[a] implies t.liquidity_token_tracker[a]
                < t.next_asset_id by {
                assert(s.pool_exists[a] ==> s.liquidity_token_tracker[a] < s.next_asset_id);
            }
            lemma_inv_after(s, t, id, id);
        }
    }
}

/// A refused call leaves the state as it was.
pub proof fn law_refused_call_changes_nothing(
    s: State,
    origin: Origin,
    id: AssetId,
    target: AccountId,
    amount: Balance,
    native_amount: Balance,
)
    ensures
        s.issue(origin, amount).1 is Err ==> s.issue(origin, amount).0 == s,
        s.transfer(origin, id, target, amount).1 is Err ==> s.transfer(origin, id, target, amount).0
            == s,
        s.destroy(origin, id).1 is Err ==> s.destroy(origin, id).0 == s,
        s.add_liquidity(origin, id, amount, native_amount).1 is Err ==> s.add_liquidity(
            origin,
            id,
            amount,
            native_amount,
        ).0 == s,
        s.swap_token_to_asset(origin, id, amount).1 is Err ==> s.swap_token_to_asset(
            origin,
            id,
            amount,
        ).0 == s,
{
}

/// Issuing creates `total` units of an identifier nobody held before, all
/// held by the signer, and no pool's liquidity token; no other asset,
/// balance or supply changes, and the next identifier advances, so
/// identifiers are never reused.
pub proof fn law_issue_fresh(s: State, who: AccountId, total: Balance, a: AssetId, w: AccountId)
    requires
        s.inv(),
        s.next_asset_id < u64::MAX,
    ensures
        ({
            let id = s.next_asset_id;
            let t = s.issue(Origin::Signed(who), total).0;
            &&& s.total_supply[id] == 0 && s.balances[(id, w)] == 0
            &&& t.total_supply[id] == total && t.balances[(id, who)] == total
            &&& t.circulating(id) == total
            &&& t.is_plain_asset(id)
            &&& t.next_asset_id == id + 1
            &&& a != id ==> t.total_supply[a] == s.total_supply[a] && t.balances[(a, w)]
                == s.balances[(a, w)] && t.circulating(a) == s.circulating(a)
            &&& w != who ==> t.balances[(id, w)] == 0
        }),
{
    let id = s.next_asset_id;
    law_supply_accounted(s, id, w, w);
    law_supply_accounted(s, id, who, who);
    let s1 = State { next_asset_id: (id + 1) as u64, ..s };
    s1.lemma_with_balance(id, who, total, id);
    s1.lemma_with_balance(id, who, total, a);
    let t = s.issue(Origin::Signed(who), total).0;
    assert forall|j: AssetId| #[trigger] t.pool_exists[j] implies t.liquidity_token_tracker[j] != id by {
        assert(s.pool_exists[j] ==> s.liquidity_token_tracker[j] < s.next_asset_id);
    }
}

/// The supply of an issued asset never rises: whatever call follows, it
/// stays an asset that no pool mints, and its supply stays or falls. With
/// `law_issue_fresh`, an asset issued with `total` units never has more than
/// `total`.
pub proof fn law_issued_supply_never_rises(
    s: State,
    i: AssetId,
    origin: Origin,
    id: AssetId,
    target: AccountId,
    amount: Balance,
    native_amount: Balance,
)
    requires
        s.inv(),
        s.is_plain_asset(i),
    ensures
        s.issue_in_range(origin) ==> ({
            let t = s.issue(origin, amount).0;
            t.is_plain_asset(i) && t.total_supply[i] <= s.total_supply[i]
        }),
        ({
            let t = s.transfer(origin, id, target, amount).0;
            t.is_plain_asset(i) && t.total_supply[i] <= s.total_supply[i]
        }),
        ({
            let t = s.destroy(origin, id).0;
            t.is_plain_asset(i) && t.total_supply[i] <= s.total_supply[i]
        }),
        s.add_liquidity_in_range(origin, id, amount, native_amount) ==> ({
            let t = s.add_liquidity(origin, id, amount, native_amount).0;
            t.is_plain_asset(i) && t.total_supply[i] <= s.total_supply[i]
        }),
        s.swap_in_range(origin, id, amount) ==> ({
            let t = s.swap_token_to_asset(origin, id, amount).0;
            t.is_plain_asset(i) && t.total_supply[i] <= s.total_supply[i]
        }),
{
    if let Origin::Signed(who) = origin {
        law_supply_accounted(s, id, who, who);
        if s.add_liquidity_in_range(origin, id, amount, native_amount) {
            let t = s.add_liquidity(origin, id, amount, native_amount).0;
            assert forall|j: AssetId| #[trigger] t.pool_exists[j] implies t.liquidity_token_tracker[j]
                != i by {
                if j != id {
                    assert(s.pool_exists[j] ==> s.liquidity_token_tracker[j] != i);
                } else if s.pool_exists[id] {
                    assert(s.liquidity_token_tracker[id] != i);
                }
            }
            if s.pool_exists[id] {
                assert(s.liquidity_token_tracker[id] != i);
            }
        }
    }
}

/// A transfer moves `amount` from the signer to the target and nothing
/// else: supplies and circulating amounts stay, and a transfer to oneself
/// changes no balance.
pub proof fn law_transfer_moves_amount(
    s: State,
    who: AccountId,
    id: AssetId,
    target: AccountId,
    amount: Balance,
    a: AssetId,
    w: AccountId,
)
    requires
        s.inv(),
    ensures
        ({
            let (t, r) = s.transfer(Origin::Signed(who), id, target, amount);
            &&& t.total_supply == s.total_supply
            &&& t.circulating(a) == s.circulating(a)
            &&& r is Ok <==> amount > 0 && s.balances[(id, who)] >= amount
            &&& r is Ok && who != target ==> t.balances[(id, who)] == s.balances[(id, who)] - amount
                && t.balances[(id, target)] == s.balances[(id, target)] + amount
            &&& who == target ==> t.balances == s.balances
            &&& (a, w) != (id, who) && (a, w) != (id, target) ==> t.balances[(a, w)] == s.balances[(
                a,
                w,
            )]
        }),
{
    law_supply_accounted(s, id, who, target);
    let (t, r) = s.transfer(Origin::Signed(who), id, target, amount);
    if r is Ok {
        let held = s.balances[(id, who)];
        let s1 = s.with_balance(id, who, (held - amount) as u64);
        let v = (s1.balances[(id, target)] + amount) as u64;
        s.lemma_with_balance(id, who, (held - amount) as u64, a);
        s1.lemma_with_balance(id, target, v, a);
        if who == target {
            assert(t.balances =~= s.balances);
        }
    }
}

/// Destroying removes the signer's whole balance from the supply, and
/// touches no other asset.
pub proof fn law_destroy_burns_balance(s: State, who: AccountId, id: AssetId, a: AssetId)
    requires
        s.inv(),
    ensures
        ({
            let (t, r) = s.destroy(Origin::Signed(who), id);
            &&& r is Ok <==> s.balances[(id, who)] > 0
            &&& r is Ok ==> t.balances[(id, who)] == 0 && t.total_supply[id] == s.total_supply[id]
                - s.balances[(id, who)]
            &&& a != id ==> t.total_supply[a] == s.total_supply[a]
        }),
{
    law_supply_accounted(s, id, who, who);
}

/// A swap changes no supply: the asset moves from the seller to the pool,
/// and the native payout moves from the pool's credit to the seller.
pub proof fn law_swap_keeps_supply(s: State, who: AccountId, id: AssetId, asset_amount: Balance)
    requires
        s.inv(),
        s.swap_in_range(Origin::Signed(who), id, asset_amount),
    ensures
        ({
            let (t, r) = s.swap_token_to_asset(Origin::Signed(who), id, asset_amount);
            let paid = t.free_balance[who] - s.free_balance[who];
            &&& t.total_supply == s.total_supply
            &&& r is Ok ==> t.balances[(id, who)] == s.balances[(id, who)] - asset_amount
            &&& r is Ok ==> t.token_balances[id] == s.token_balances[id] + asset_amount
            &&& r is Ok ==> t.native_token_balances[id] == s.native_token_balances[id] - paid
            &&& r is Ok ==> t.circulating(id) + t.token_balances[id] == s.circulating(id)
                + s.token_balances[id]
        }),
{
    law_supply_accounted(s, id, who, who);
    let (t, r) = s.swap_token_to_asset(Origin::Signed(who), id, asset_amount);
    if r is Ok {
        let payable = swap_payout(
            asset_amount as int,
            s.token_balances[id] as int,
            s.native_token_balances[id] as int,
        ) as u64;
        let s0 = State { free_balance: deposited(s.free_balance, who, payable), ..s };
        s0.lemma_with_balance(id, who, (s.balances[(id, who)] - asset_amount) as u64, id);
    }
}

/// The first deposit into a pool mints `asset_amount + native_amount`
/// liquidity tokens under a fresh identifier, all to the depositor; a later
/// deposit mints the `liquidity_payout` of the pool's token; any deposit
/// leaves the supply of the deposited asset unchanged.
pub proof fn law_add_liquidity_mints(
    s: State,
    who: AccountId,
    id: AssetId,
    asset_amount: Balance,
    native_amount: Balance,
)
    requires
        s.inv(),
        s.add_liquidity_in_range(Origin::Signed(who), id, asset_amount, native_amount),
        s.balances[(id, who)] >= asset_amount,
    ensures
        ({
            let (t, r) = s.add_liquidity(Origin::Signed(who), id, asset_amount, native_amount);
            let lp = t.liquidity_token_tracker[id];
            &&& r is Ok
            &&& t.pool_exists[id]
            &&& t.token_balances[id] == s.token_balances[id] + asset_amount
            &&& t.native_token_balances[id] == s.native_token_balances[id] + native_amount
            &&& lp != id ==> t.total_supply[id] == s.total_supply[id]
            &&& !s.pool_exists[id] ==> {
                &&& lp == s.next_asset_id
                &&& s.total_supply[lp] == 0
                &&& t.total_supply[lp] == asset_amount + native_amount
                &&& t.balances[(lp, who)] == asset_amount + native_amount
            }
            &&& s.pool_exists[id] ==> {
                &&& lp == s.liquidity_token_tracker[id]
                &&& t.total_supply[lp] == s.total_supply[lp] + liquidity_payout(
                    asset_amount as int,
                    native_amount as int,
                    s.token_balances[id] as int,
                    s.native_token_balances[id] as int,
                    s.total_supply[lp] as int,
                )
            }
        }),
{
    law_supply_accounted(s, id, who, who);
    law_supply_accounted(s, s.next_asset_id, who, who);
}

} // verus!
