//! Sums of balances over the holders of an asset.

use vstd::prelude::*;

verus! {

/// The sum of `balances[k]` over the keys `k` of `holders` that belong to
/// `asset`.
#[verifier::opaque]
pub open spec fn held_by(
    holders: Seq<(u64, u64)>,
    balances: Map<(u64, u64), u64>,
    asset: u64,
) -> int
    decreases holders.len(),
{
    if holders.len() == 0 {
        0
    } else {
        held_by(holders.drop_last(), balances, asset) + if holders.last().0 == asset {
            balances[holders.last()] as int
        } else {
            0
        }
    }
}

pub proof fn lemma_held_nonneg(holders: Seq<(u64, u64)>, balances: Map<(u64, u64), u64>, asset: u64)
    ensures
        held_by(holders, balances, asset) >= 0,
    decreases holders.len(),
{
    reveal(held_by);
    if holders.len() > 0 {
        lemma_held_nonneg(holders.drop_last(), balances, asset);
    }
}

/// Nobody holds anything when there are no holders.
pub proof fn lemma_held_empty(balances: Map<(u64, u64), u64>, asset: u64)
    ensures
        held_by(Seq::empty(), balances, asset) == 0,
{
    reveal(held_by);
}

/// A new holder adds its balance to the sum of its asset.
pub proof fn lemma_held_push(
    holders: Seq<(u64, u64)>,
    balances: Map<(u64, u64), u64>,
    key: (u64, u64),
    asset: u64,
)
    ensures
        held_by(holders.push(key), balances, asset) == held_by(holders, balances, asset) + if key.0
            == asset {
            balances[key] as int
        } else {
            0
        },
{
    reveal(held_by);
    assert(holders.push(key).drop_last() =~= holders);
}

/// A write under a key that is not among the holders leaves the sum alone.
pub proof fn lemma_held_frame(
    holders: Seq<(u64, u64)>,
    balances: Map<(u64, u64), u64>,
    key: (u64, u64),
    value: u64,
    asset: u64,
)
    requires
        !holders.contains(key),
    ensures
        held_by(holders, balances.insert(key, value), asset) == held_by(holders, balances, asset),
    decreases holders.len(),
{
    reveal(held_by);
    if holders.len() > 0 {
        assert(holders.drop_last().contains(key) ==> holders.contains(key));
        assert(holders.last() == holders[holders.len() - 1]);
        lemma_held_frame(holders.drop_last(), balances, key, value, asset);
    }
}

/// A write under a holder moves the sum of its asset by the difference of
/// the new and the old value.
pub proof fn lemma_held_write(
    holders: Seq<(u64, u64)>,
    balances: Map<(u64, u64), u64>,
    key: (u64, u64),
    value: u64,
    asset: u64,
)
    requires
        holders.no_duplicates(),
        holders.contains(key),
    ensures
        held_by(holders, balances.insert(key, value), asset) == held_by(holders, balances, asset)
            - (if key.0 == asset {
            balances[key] as int
        } else {
            0
        }) + (if key.0 == asset {
            value as int
        } else {
            0
        }),
    decreases holders.len(),
{
    reveal(held_by);
    let d = holders.drop_last();
    assert(d.no_duplicates());
    if holders.last() == key {
        assert(!d.contains(key)) by {
            if d.contains(key) {
                let i = choose|i: int| 0 <= i < d.len() && d[i] == key;
                assert(holders[i] == holders[holders.len() - 1]);
            }
        }
        lemma_held_frame(d, balances, key, value, asset);
    } else {
        let i = choose|i: int| 0 <= i < holders.len() && holders[i] == key;
        assert(d[i] == key);
        lemma_held_write(d, balances, key, value, asset);
    }
}

/// A holder's balance is part of the sum of its asset, and so are the
/// balances of two distinct holders together.
pub proof fn lemma_held_bound(
    holders: Seq<(u64, u64)>,
    balances: Map<(u64, u64), u64>,
    asset: u64,
    w1: u64,
    w2: u64,
)
    ensures
        holders.contains((asset, w1)) ==> balances[(asset, w1)] <= held_by(holders, balances, asset),
        holders.contains((asset, w1)) && holders.contains((asset, w2)) && w1 != w2
            ==> balances[(asset, w1)] + balances[(asset, w2)] <= held_by(holders, balances, asset),
    decreases holders.len(),
{
    reveal(held_by);
    if holders.len() > 0 {
        let d = holders.drop_last();
        lemma_held_bound(d, balances, asset, w1, w2);
        lemma_held_bound(d, balances, asset, w2, w1);
        lemma_held_nonneg(d, balances, asset);
        assert forall|k: (u64, u64)| holders.contains(k) && k != holders.last() implies d.contains(k) by {
            let i = choose|i: int| 0 <= i < holders.len() && holders[i] == k;
            assert(i != holders.len() - 1);
            assert(d[i] == k);
        }
    }
}

} // verus!
