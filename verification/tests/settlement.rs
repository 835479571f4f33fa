//! The exchange engine end to end: buying, selling, pausing,
//! blacklisting, and the commission policies.

use usn::engine::{BlackListStatus, Contract, ContractStatus, ExpectedRate};
use usn::oracle::{ExchangeRate, RateOrPending};
use usn::spread::{clamp_whole_units, MAX_SPREAD};
use usn::Error;

const ONE_NEAR: u128 = 1_000_000_000_000_000_000_000_000;
const ONE_YOCTO: u128 = 1;

fn account(name: &str) -> String {
    name.to_string()
}

/// The adaptive commission curve, evaluated exactly as the deployment
/// shell evaluates it: the clamped whole-unit trade size through an
/// exponential decay, rounded to fixed point at denominator 10^6.
fn adaptive_fraction(amount: u128) -> u128 {
    let clamped = clamp_whole_units(amount);
    let exp = (-0.0000075 * clamped as f64).exp();
    let spread = 0.001 + (0.005 - 0.001) * exp;
    (spread * (10u32.pow(6) as f64)).round() as u128
}

fn expected_from(rate: &ExchangeRate) -> ExpectedRate {
    ExpectedRate {
        multiplier: rate.multiplier(),
        slippage: rate.multiplier() * 5 / 100,
        decimals: rate.decimals(),
    }
}

#[test]
fn test_new() {
    const TOTAL_SUPPLY: u128 = 0;
    let contract = Contract::new(account("bob"));
    assert_eq!(contract.ft_total_supply(), TOTAL_SUPPLY);
    assert_eq!(contract.ft_balance_of(&account("bob")), TOTAL_SUPPLY);
}

#[test]
fn test_blacklist() {
    let mut contract = Contract::new(account("bob"));

    assert_eq!(
        contract.blacklist_status(&account("bob")),
        BlackListStatus::Allowable
    );

    contract
        .token
        .internal_deposit(&account("charlie"), 1000)
        .unwrap();
    assert_eq!(contract.ft_balance_of(&account("charlie")), 1000);

    contract.add_to_blacklist(&account("charlie")).unwrap();
    assert_eq!(
        contract.blacklist_status(&account("charlie")),
        BlackListStatus::Banned
    );

    contract.remove_from_blacklist(&account("charlie")).unwrap();
    assert_eq!(
        contract.blacklist_status(&account("charlie")),
        BlackListStatus::Allowable
    );

    contract.add_to_blacklist(&account("charlie")).unwrap();
    let total_supply_before = contract.token.total_supply;

    assert_ne!(contract.ft_balance_of(&account("charlie")), 0);

    contract.destroy_black_funds(&account("charlie")).unwrap();
    assert_ne!(total_supply_before, contract.token.total_supply);

    assert_eq!(contract.ft_balance_of(&account("charlie")), 0);
}

#[test]
fn test_maintenance() {
    let mut contract = Contract::new(account("bob"));
    assert_eq!(contract.contract_status(), ContractStatus::Working);
    contract.pause();
    assert_eq!(contract.contract_status(), ContractStatus::Paused);
    contract.resume();
    assert_eq!(contract.contract_status(), ContractStatus::Working);
    contract.pause();
    contract.ft_total_supply();
}

#[test]
fn test_buy_sell() {
    let contract = Contract::new(account("bob"));
    let now: u64 = 0;

    let old_rate = ExchangeRate::test_old_rate(now);

    let (_, pending) = contract
        .buy(&account("charlie"), None, ONE_NEAR, None, now)
        .unwrap();
    assert!(matches!(pending, RateOrPending::Pending));

    let (_, pending) = contract
        .sell(&account("charlie"), 11032461000000000000, None, now)
        .unwrap();
    assert!(matches!(pending, RateOrPending::Pending));

    let (_, pending) = contract
        .buy(
            &account("charlie"),
            None,
            ONE_YOCTO,
            Some(expected_from(&old_rate)),
            now,
        )
        .unwrap();
    assert!(matches!(pending, RateOrPending::Pending));

    let mut expected_rate = expected_from(&old_rate);
    expected_rate.multiplier = old_rate.multiplier() * 96 / 100;

    let (request, pending) = contract
        .sell(&account("charlie"), 9900000000000000000, Some(expected_rate), now)
        .unwrap();
    assert!(matches!(pending, RateOrPending::Pending));
    assert_eq!(request.input_amount, 9900000000000000000);
}

#[test]
fn test_buy_auto_registration() {
    let contract = Contract::new(account("bob"));
    let now: u64 = 0;

    contract
        .buy(&account("charlie"), None, 0, None, now)
        .unwrap();

    contract
        .sell(&account("charlie"), 11032461000000000000, None, now)
        .unwrap();
}

#[test]
fn test_cannot_buy() {
    let mut contract = Contract::new(account("bob"));
    contract.add_to_blacklist(&account("charlie")).unwrap();

    let res = contract.buy(&account("charlie"), None, ONE_NEAR, None, 0);
    assert!(matches!(res, Err(Error::AccountBanned)));
}

#[test]
fn test_cannot_sell() {
    let mut contract = Contract::new(account("bob"));
    contract.add_to_blacklist(&account("charlie")).unwrap();

    let old_rate = ExchangeRate::test_old_rate(0);
    let res = contract.sell(&account("charlie"), 1, Some(expected_from(&old_rate)), 0);
    assert!(matches!(res, Err(Error::AccountBanned)));
}

#[test]
fn test_fixed_spread() {
    let mut contract = Contract::new(account("bob"));

    contract.set_fixed_spread(MAX_SPREAD).unwrap();
    assert_eq!(contract.spread(0), MAX_SPREAD);
    let res = contract.set_fixed_spread(MAX_SPREAD + 1);
    assert!(res.is_err());
    // the previous policy is untouched by the refusal
    assert_eq!(contract.spread(0), MAX_SPREAD);
}

#[test]
fn test_adaptive_spread() {
    let mut contract = Contract::new(account("bob"));

    let one_token = 10u128.pow(contract.decimals() as u32);
    let hundred_thousands = one_token * 100_000;
    let ten_mln = one_token * 10_000_000;

    contract.set_adaptive_spread().unwrap();
    assert_eq!(contract.spread(adaptive_fraction(one_token)), 5000); // $1: 0.0050000 = 0.5%
    assert_eq!(contract.spread(adaptive_fraction(hundred_thousands)), 2889); // $1000: 0.002889 = 0.289%
    assert_eq!(contract.spread(adaptive_fraction(ten_mln)), 1000); // $10mln: 0.001000 = 0.1%
}

#[test]
fn test_u256() {
    let mut contract = Contract::new(account("bob"));

    let fresh_rate = ExchangeRate::test_fresh_rate(0);
    let expected_rate = expected_from(&fresh_rate);

    let near = 1_000_000_000_000 * ONE_NEAR;
    let gross = Contract::buy_gross(near, fresh_rate).unwrap();
    assert_eq!(
        contract
            .finish_buy(
                &account("charlie"),
                near,
                Some(expected_rate),
                fresh_rate,
                adaptive_fraction(gross),
            )
            .unwrap(),
        11132756100000_000000000000000000
    );

    let sell_amount = 11088180500000_000000000000000000;
    assert_eq!(
        contract
            .finish_sell(
                &account("charlie"),
                sell_amount,
                Some(expected_rate),
                fresh_rate,
                adaptive_fraction(sell_amount),
            )
            .unwrap(),
        994_005_000000000000000000000000000000
    );
}

#[test]
fn test_not_enough_deposit() {
    let mut contract = Contract::new(account("bob"));

    let fresh_rate = ExchangeRate::test_fresh_rate(0);
    let expected_rate = expected_from(&fresh_rate);

    let amount = 11032461000000_000000000000000000;
    let res = contract.finish_sell(
        &account("charlie"),
        amount,
        Some(expected_rate),
        fresh_rate,
        adaptive_fraction(amount),
    );
    assert!(matches!(res, Err(Error::InsufficientBalance)));
}
