//! The liquidity bridge workflow's decisions on concrete values.

use usn::engine::Contract;
use usn::pool::{
    extend_decimals, remove_decimals, AddLiquidityAction, MintOutcome, StablePoolInfo,
    MINIMUM_DEPOSIT,
};
use usn::Error;

fn account(name: &str) -> String {
    name.to_string()
}

fn usn_addr() -> String {
    account("usn.test.near")
}

fn usdt_addr() -> String {
    account("usdt.test.near")
}

fn pool_info(ids: Vec<String>) -> StablePoolInfo {
    StablePoolInfo {
        token_account_ids: ids,
        decimals: vec![6, 18],
        amounts: vec![0, 0],
        c_amounts: vec![0, 0],
        total_fee: 25,
        shares_total_supply: 0,
        amp: 240,
    }
}

#[test]
fn decimal_scaling() {
    assert_eq!(extend_decimals(1_000_000, 6), 1_000_000_000_000);
    assert_eq!(extend_decimals(7, 0), 7);
    assert_eq!(remove_decimals(1_234_567, 6), 1);
    assert_eq!(remove_decimals(999_999, 6), 0);
}

#[test]
fn liquidity_opening_values() {
    let contract = Contract::new(account("bob"));
    let start = contract.transfer_stable_liquidity(MINIMUM_DEPOSIT, 5).unwrap();
    assert_eq!(start.usdt_amount, 1_000_000_000_000);
    assert_eq!(start.request.whole_amount, MINIMUM_DEPOSIT);
    assert_eq!(start.request.deposit_attached, 4);
}

#[test]
fn liquidity_opening_requires_deposit() {
    let contract = Contract::new(account("bob"));
    let res = contract.transfer_stable_liquidity(MINIMUM_DEPOSIT, 0);
    assert!(matches!(res, Err(Error::DepositRequired)));
}

#[test]
fn liquidity_opening_minimum() {
    let contract = Contract::new(account("bob"));
    let res = contract.transfer_stable_liquidity(MINIMUM_DEPOSIT - 1, 1);
    assert!(matches!(res, Err(Error::BelowMinimumDeposit)));
}

#[test]
fn liquidity_opening_overflow() {
    let contract = Contract::new(account("bob"));
    let res = contract.transfer_stable_liquidity(u128::MAX, 1);
    assert!(matches!(res, Err(Error::Overflow)));
}

#[test]
fn mint_skipped_when_transfer_failed() {
    let mut contract = Contract::new(account("bob"));
    let res = contract.handle_transfer_then_mint(2_000_000, false, 123, &usn_addr());
    assert_eq!(res.unwrap(), MintOutcome::Skip);
    assert_eq!(contract.ft_total_supply(), 0);

    let res = contract.handle_transfer_then_mint(2_000_000, true, 0, &usn_addr());
    assert_eq!(res.unwrap(), MintOutcome::Skip);
    assert_eq!(contract.ft_total_supply(), 0);
}

#[test]
fn mint_clamps_to_transferred_amount() {
    let mut contract = Contract::new(account("bob"));
    // only 1,500,000 of the requested 2,000,000 whole units arrived
    let transferred = 1_500_000 * 10u128.pow(6);
    let res = contract.handle_transfer_then_mint(2_000_000, true, transferred, &usn_addr());
    let usn_amount = 1_500_000 * 10u128.pow(18);
    assert_eq!(res.unwrap(), MintOutcome::TransferUsn { usn_amount, minted: usn_amount });
    assert_eq!(contract.ft_balance_of(&usn_addr()), usn_amount);
    assert_eq!(contract.ft_total_supply(), usn_amount);
}

#[test]
fn mint_covers_only_the_shortfall() {
    let mut contract = Contract::new(account("bob"));
    let existing = 400_000 * 10u128.pow(18);
    contract.token.internal_deposit(&usn_addr(), existing).unwrap();

    let transferred = 1_000_000 * 10u128.pow(6);
    let res = contract.handle_transfer_then_mint(1_000_000, true, transferred, &usn_addr());
    let usn_amount = 1_000_000 * 10u128.pow(18);
    assert_eq!(
        res.unwrap(),
        MintOutcome::TransferUsn { usn_amount, minted: usn_amount - existing }
    );
    assert_eq!(contract.ft_balance_of(&usn_addr()), usn_amount);
}

#[test]
fn deposit_check_blocks_short_usdt() {
    let contract = Contract::new(account("bob"));
    let whole = 1_000_000;
    let usdt_amount = whole * 10u128.pow(6);
    let deposits = vec![
        (usdt_addr(), usdt_amount - 1),
        (usn_addr(), whole * 10u128.pow(18)),
    ];
    let info = pool_info(vec![usdt_addr(), usn_addr()]);
    let res =
        contract.handle_deposit_then_add_liquidity(whole, &deposits, &info, &usn_addr(), &usdt_addr());
    assert!(matches!(res, Err(Error::NotEnoughUsdt)));
}

#[test]
fn deposit_check_blocks_short_usn() {
    let contract = Contract::new(account("bob"));
    let whole = 1_000_000;
    let deposits = vec![
        (usdt_addr(), whole * 10u128.pow(6)),
        (usn_addr(), whole * 10u128.pow(18) - 1),
    ];
    let info = pool_info(vec![usdt_addr(), usn_addr()]);
    let res =
        contract.handle_deposit_then_add_liquidity(whole, &deposits, &info, &usn_addr(), &usdt_addr());
    assert!(matches!(res, Err(Error::NotEnoughUsn)));
}

#[test]
fn liquidity_amounts_follow_pool_order() {
    let contract = Contract::new(account("bob"));
    let whole = 1_000_000;
    let usdt_amount = whole * 10u128.pow(6);
    let usn_amount = whole * 10u128.pow(18);
    let deposits = vec![(usdt_addr(), usdt_amount), (usn_addr(), usn_amount)];

    let info = pool_info(vec![usdt_addr(), usn_addr()]);
    let action: AddLiquidityAction = contract
        .handle_deposit_then_add_liquidity(whole, &deposits, &info, &usn_addr(), &usdt_addr())
        .unwrap();
    assert_eq!(action.pool_id, 0);
    assert_eq!(action.min_shares, 0);
    assert_eq!(action.amounts, vec![usdt_amount, usn_amount]);

    // the pool may report the opposite order; the workflow follows it
    let info = pool_info(vec![usn_addr(), usdt_addr()]);
    let action = contract
        .handle_deposit_then_add_liquidity(whole, &deposits, &info, &usn_addr(), &usdt_addr())
        .unwrap();
    assert_eq!(action.amounts, vec![usn_amount, usdt_amount]);
}

#[test]
fn unknown_pool_token_aborts() {
    let contract = Contract::new(account("bob"));
    let whole = 1_000_000;
    let deposits = vec![
        (usdt_addr(), whole * 10u128.pow(6)),
        (usn_addr(), whole * 10u128.pow(18)),
    ];
    let info = pool_info(vec![usdt_addr(), account("dai.test.near")]);
    let res =
        contract.handle_deposit_then_add_liquidity(whole, &deposits, &info, &usn_addr(), &usdt_addr());
    assert!(matches!(res, Err(Error::UnexpectedPoolToken)));
}

#[test]
fn stable_pool_id_is_fixed() {
    let contract = Contract::new(account("bob"));
    assert_eq!(contract.stable_pool_id(), 0);
}
