use uniswap::{CurrencyError, DispatchError, Error, Module, NativeCurrency, Origin};

/// A chain on which account 1 holds 10 native
/// tokens.
fn new_test_ext() -> Module {
    let mut currency = NativeCurrency::new();
    currency.make_free_balance_be(1, 10);
    Module::new(currency)
}

fn hydrate_pools(m: &mut Module) {
    assert_eq!(m.issue(Origin::signed(1), 100), Ok(()));
    assert_eq!(m.add_liquidity(Origin::signed(1), 0, 10, 5), Ok(()));
}

#[test]
fn it_adds_liquidity() {
    let mut m = new_test_ext();
    assert_eq!(m.free_balance(1), 10);
    assert_eq!(m.issue(Origin::signed(1), 100), Ok(()));
    assert_eq!(m.balance(0, 1), 100);

    assert_eq!(m.add_liquidity(Origin::signed(1), 0, 10, 5), Ok(()));
    assert_eq!(m.free_balance(1), 5);
    assert_eq!(m.balance(0, 1), 90);
    assert_eq!(m.balance(1, 1), 15);

    assert_eq!(m.add_liquidity(Origin::signed(1), 0, 10, 5), Ok(()));
    assert_eq!(m.free_balance(1), 0);
    assert_eq!(m.balance(0, 1), 80);
    assert_eq!(m.balance(1, 1), 30);
}

#[test]
fn it_swaps() {
    let mut m = new_test_ext();
    hydrate_pools(&mut m);
    assert_eq!(m.free_balance(1), 5);
    assert_eq!(m.swap_token_to_asset(Origin::signed(1), 0, 5), Ok(()));
    assert_eq!(m.balance(0, 1), 85);
    assert_eq!(m.free_balance(1), 10);
}

#[test]
fn issue_uses_consecutive_identifiers() {
    let mut m = new_test_ext();
    assert_eq!(m.next_asset_id(), 0);
    assert_eq!(m.issue(Origin::signed(1), 100), Ok(()));
    assert_eq!(m.issue(Origin::signed(2), 7), Ok(()));
    assert_eq!(m.next_asset_id(), 2);
    assert_eq!(m.total_supply(0), 100);
    assert_eq!(m.total_supply(1), 7);
    assert_eq!(m.balance(1, 2), 7);
    assert_eq!(m.balance(1, 1), 0);
    assert_eq!(m.balance(0, 2), 0);
}

#[test]
fn issue_needs_signed_origin() {
    let mut m = new_test_ext();
    assert_eq!(m.issue(Origin::Root, 100), Err(DispatchError::BadOrigin));
    assert_eq!(m.issue(Origin::Unsigned, 100), Err(DispatchError::BadOrigin));
    assert_eq!(m.next_asset_id(), 0);
    assert_eq!(m.total_supply(0), 0);
}

#[test]
fn transfer_moves_amount() {
    let mut m = new_test_ext();
    assert_eq!(m.issue(Origin::signed(1), 100), Ok(()));
    assert_eq!(m.transfer(Origin::signed(1), 0, 2, 30), Ok(()));
    assert_eq!(m.balance(0, 1), 70);
    assert_eq!(m.balance(0, 2), 30);
    assert_eq!(m.total_supply(0), 100);
}

#[test]
fn transfer_to_self_changes_nothing() {
    let mut m = new_test_ext();
    assert_eq!(m.issue(Origin::signed(1), 100), Ok(()));
    assert_eq!(m.transfer(Origin::signed(1), 0, 1, 40), Ok(()));
    assert_eq!(m.balance(0, 1), 100);
    assert_eq!(m.total_supply(0), 100);
}

#[test]
fn transfer_of_zero_is_refused() {
    let mut m = new_test_ext();
    assert_eq!(m.issue(Origin::signed(1), 100), Ok(()));
    assert_eq!(
        m.transfer(Origin::signed(1), 0, 2, 0),
        Err(DispatchError::Module(Error::AmountZero))
    );
    assert_eq!(m.balance(0, 1), 100);
}

#[test]
fn transfer_beyond_balance_is_refused() {
    let mut m = new_test_ext();
    assert_eq!(m.issue(Origin::signed(1), 100), Ok(()));
    assert_eq!(
        m.transfer(Origin::signed(1), 0, 2, 101),
        Err(DispatchError::Module(Error::BalanceLow))
    );
    assert_eq!(m.balance(0, 1), 100);
    assert_eq!(m.balance(0, 2), 0);
    assert_eq!(m.transfer(Origin::Root, 0, 2, 1), Err(DispatchError::BadOrigin));
}

#[test]
fn destroy_burns_whole_balance() {
    let mut m = new_test_ext();
    assert_eq!(m.issue(Origin::signed(1), 100), Ok(()));
    assert_eq!(m.transfer(Origin::signed(1), 0, 2, 40), Ok(()));
    assert_eq!(m.destroy(Origin::signed(2), 0), Ok(()));
    assert_eq!(m.balance(0, 2), 0);
    assert_eq!(m.total_supply(0), 60);
    assert_eq!(m.balance(0, 1), 60);
}

#[test]
fn destroy_of_nothing_is_refused() {
    let mut m = new_test_ext();
    assert_eq!(m.issue(Origin::signed(1), 100), Ok(()));
    assert_eq!(
        m.destroy(Origin::signed(2), 0),
        Err(DispatchError::Module(Error::BalanceZero))
    );
    assert_eq!(m.total_supply(0), 100);
}

#[test]
fn add_liquidity_beyond_balance_is_refused() {
    let mut m = new_test_ext();
    assert_eq!(m.issue(Origin::signed(1), 100), Ok(()));
    assert_eq!(
        m.add_liquidity(Origin::signed(1), 0, 101, 5),
        Err(DispatchError::Module(Error::BalanceLow))
    );
    assert_eq!(m.free_balance(1), 10);
    assert_eq!(m.token_balance(0), 0);
    assert!(!m.pool_exists(0));
}

#[test]
fn first_deposit_creates_pool_and_token() {
    let mut m = new_test_ext();
    hydrate_pools(&mut m);
    assert!(m.pool_exists(0));
    assert_eq!(m.liquidity_token_tracker(0), 1);
    assert_eq!(m.token_balance(0), 10);
    assert_eq!(m.native_token_balance(0), 5);
    assert_eq!(m.total_supply(1), 15);
    assert_eq!(m.total_supply(0), 100);
    assert_eq!(m.next_asset_id(), 2);
}

#[test]
fn later_deposit_pays_share_of_pool() {
    // The pool holds 10 + 5 when 6 + 3 is added: a share of
    // (9 * PADDING) / 15 = 6_000_000 of the 15 liquidity tokens,
    // 6_000_000 * 15 / PADDING = 9.
    let mut m = new_test_ext();
    hydrate_pools(&mut m);
    assert_eq!(m.add_liquidity(Origin::signed(1), 0, 6, 3), Ok(()));
    assert_eq!(m.balance(1, 1), 24);
    assert_eq!(m.total_supply(1), 24);
    assert_eq!(m.token_balance(0), 16);
    assert_eq!(m.native_token_balance(0), 8);
}

#[test]
fn slash_takes_at_most_free_balance() {
    let mut m = new_test_ext();
    assert_eq!(m.issue(Origin::signed(1), 100), Ok(()));
    assert_eq!(m.add_liquidity(Origin::signed(1), 0, 10, 50), Ok(()));
    assert_eq!(m.free_balance(1), 0);
    assert_eq!(m.native_token_balance(0), 50);
    assert_eq!(m.balance(1, 1), 60);
}

#[test]
fn swap_payout_rounds_down() {
    // Pool 20 asset / 10 native after a second deposit; selling 5:
    // price (10 * PADDING) / 15 = 6_666_666, payout 5 * 6_666_666 / PADDING = 3.
    let mut currency = NativeCurrency::new();
    currency.make_free_balance_be(1, 20);
    let mut m = Module::new(currency);
    assert_eq!(m.issue(Origin::signed(1), 100), Ok(()));
    assert_eq!(m.add_liquidity(Origin::signed(1), 0, 20, 10), Ok(()));
    assert_eq!(m.free_balance(1), 10);
    assert_eq!(m.swap_token_to_asset(Origin::signed(1), 0, 5), Ok(()));
    assert_eq!(m.free_balance(1), 13);
    assert_eq!(m.native_token_balance(0), 7);
    assert_eq!(m.token_balance(0), 25);
    assert_eq!(m.balance(0, 1), 75);
    assert_eq!(m.total_supply(0), 100);
}

#[test]
fn swap_into_dead_account_is_refused() {
    let mut m = new_test_ext();
    hydrate_pools(&mut m);
    assert_eq!(m.add_liquidity(Origin::signed(1), 0, 10, 5), Ok(()));
    assert_eq!(m.free_balance(1), 0);
    assert_eq!(
        m.swap_token_to_asset(Origin::signed(1), 0, 5),
        Err(DispatchError::Currency(CurrencyError::DeadAccount))
    );
    assert_eq!(m.balance(0, 1), 80);
    assert_eq!(m.token_balance(0), 20);
}

#[test]
fn swap_overflowing_free_balance_is_refused() {
    let mut currency = NativeCurrency::new();
    currency.make_free_balance_be(1, u64::MAX - 1);
    let mut m = Module::new(currency);
    assert_eq!(m.issue(Origin::signed(1), 100), Ok(()));
    assert_eq!(m.add_liquidity(Origin::signed(1), 0, 10, 5), Ok(()));
    assert_eq!(m.free_balance(1), u64::MAX - 6);
    assert_eq!(
        m.swap_token_to_asset(Origin::signed(1), 0, 9),
        Err(DispatchError::Currency(CurrencyError::Overflow))
    );
    assert_eq!(m.balance(0, 1), 90);
}

#[test]
fn unfinished_calls_change_nothing() {
    let mut m = new_test_ext();
    hydrate_pools(&mut m);
    assert_eq!(m.remove_liquidity(Origin::signed(1), 0, 5), Ok(()));
    assert_eq!(m.swap_asset_to_token(Origin::signed(1), 0, 5), Ok(()));
    assert_eq!(m.swap_token_to_token(Origin::signed(1), 0, 1), Ok(()));
    assert_eq!(m.balance(0, 1), 90);
    assert_eq!(m.token_balance(0), 10);
    assert_eq!(m.native_token_balance(0), 5);
}

#[test]
fn supply_is_held_plus_pooled() {
    let mut m = new_test_ext();
    hydrate_pools(&mut m);
    assert_eq!(m.transfer(Origin::signed(1), 0, 3, 25), Ok(()));
    assert_eq!(m.swap_token_to_asset(Origin::signed(1), 0, 5), Ok(()));
    let held = m.balance(0, 1) + m.balance(0, 3);
    assert_eq!(m.total_supply(0), held + m.token_balance(0));
}

#[test]
fn currency_deposit_and_slash() {
    let mut c = NativeCurrency::new();
    assert_eq!(c.deposit_into_existing(4, 0), Ok(()));
    assert_eq!(c.deposit_into_existing(4, 3), Err(CurrencyError::DeadAccount));
    c.make_free_balance_be(4, 2);
    assert_eq!(c.deposit_into_existing(4, 3), Ok(()));
    assert_eq!(c.free_balance(4), 5);
    assert_eq!(c.slash(4, 7), 2);
    assert_eq!(c.free_balance(4), 0);
}

#[test]
fn issued_supply_never_rises() {
    let mut m = new_test_ext();
    assert_eq!(m.issue(Origin::signed(1), 100), Ok(()));
    assert_eq!(m.total_supply(0), 100);
    assert_eq!(m.add_liquidity(Origin::signed(1), 0, 10, 5), Ok(()));
    assert_eq!(m.total_supply(0), 100);
    assert_ne!(m.liquidity_token_tracker(0), 0);
    assert_eq!(m.add_liquidity(Origin::signed(1), 0, 10, 5), Ok(()));
    assert_eq!(m.total_supply(0), 100);
    assert_eq!(m.transfer(Origin::signed(1), 0, 2, 30), Ok(()));
    assert_eq!(m.total_supply(0), 100);
    assert_eq!(m.destroy(Origin::signed(2), 0), Ok(()));
    assert_eq!(m.total_supply(0), 70);
    assert_eq!(m.issue(Origin::signed(2), 5), Ok(()));
    assert_eq!(m.total_supply(0), 70);
    assert_eq!(m.total_supply(2), 5);
}
