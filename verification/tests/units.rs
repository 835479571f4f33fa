//! The arithmetic core, the price cache, the commission clamp, and the
//! engine's error paths on concrete values.

use usn::engine::{Contract, ExpectedRate};
use usn::math::{div_wide, mul_div, mul_wide, pow10_u128};
use usn::oracle::{ExchangeRate, Oracle, PriceData, RateOrPending};
use usn::spread::{clamp_whole_units, MAX_SPREAD};
use usn::Error;

fn account(name: &str) -> String {
    name.to_string()
}

fn curve(amount: u128) -> u128 {
    let clamped = clamp_whole_units(amount);
    let exp = (-0.0000075 * clamped as f64).exp();
    let spread = 0.001 + (0.005 - 0.001) * exp;
    (spread * (10u32.pow(6) as f64)).round() as u128
}

#[test]
fn mul_div_exact_values() {
    assert_eq!(mul_div(3, 5, 2), Some(7));
    assert_eq!(mul_div(0, u128::MAX, 17), Some(0));
    assert_eq!(mul_div(u128::MAX, u128::MAX, u128::MAX), Some(u128::MAX));
    assert_eq!(mul_div(1_000_000_000_000, 111_439, 10_000_000_000), Some(11_143_900));
}

#[test]
fn mul_div_reports_narrowing_overflow() {
    assert_eq!(mul_div(u128::MAX, 2, 1), None);
    assert_eq!(mul_div(u128::MAX, u128::MAX, 1), None);
    assert_eq!(mul_div(u128::MAX, u128::MAX, u128::MAX - 1), None);
}

#[test]
fn wide_product_limbs() {
    assert_eq!(mul_wide(u128::MAX, u128::MAX), (u128::MAX - 1, 1));
    assert_eq!(mul_wide(0, u128::MAX), (0, 0));
    assert_eq!(mul_wide(1 << 127, 2), (1, 0));
}

#[test]
fn wide_division() {
    // 2^128 / 3, remainder 1
    assert_eq!(
        div_wide(1, 0, 3),
        (113427455640312821154458202477256070485, 1)
    );
    assert_eq!(div_wide(0, 1000, 7), (142, 6));
}

#[test]
fn powers_of_ten() {
    assert_eq!(pow10_u128(0), 1);
    assert_eq!(pow10_u128(6), 1_000_000);
    assert_eq!(pow10_u128(38), 100_000_000_000_000_000_000_000_000_000_000_000_000);
}

#[test]
fn cache_starts_empty_and_pending() {
    let oracle = Oracle::default();
    assert!(matches!(oracle.get_exchange_rate(0), RateOrPending::Pending));
}

#[test]
fn cache_freshness_boundary() {
    let mut oracle = Oracle::default();
    let rate = ExchangeRate::new(111_439, 28, 100, 50);
    oracle.set_exchange_rate(rate);
    // fresh strictly before the expiry instant 150
    assert!(matches!(oracle.get_exchange_rate(149), RateOrPending::Ready(_)));
    assert!(matches!(oracle.get_exchange_rate(150), RateOrPending::Pending));
}

#[test]
fn fetch_completion_replaces_cache() {
    let mut oracle = Oracle::default();
    let price = PriceData { multiplier: 111_439, decimals: 28, timestamp: 0, recency_duration: 5 };
    let rate = oracle.on_fetch_complete(price, 4).unwrap();
    assert_eq!(rate.multiplier(), 111_439);
    assert!(matches!(oracle.get_exchange_rate(4), RateOrPending::Ready(_)));
}

#[test]
fn fetch_completion_rejects_expired_data() {
    let mut oracle = Oracle::default();
    let price = PriceData { multiplier: 111_439, decimals: 28, timestamp: 0, recency_duration: 5 };
    // the data's own window elapsed before it landed
    let res = oracle.on_fetch_complete(price, 5);
    assert!(matches!(res, Err(Error::StalePriceFeed)));
    assert!(matches!(oracle.get_exchange_rate(5), RateOrPending::Pending));
}

#[test]
fn clamp_drops_decimals_and_saturates() {
    assert_eq!(clamp_whole_units(0), 0);
    assert_eq!(clamp_whole_units(10u128.pow(18) - 1), 0);
    assert_eq!(clamp_whole_units(10u128.pow(18)), 1);
    assert_eq!(clamp_whole_units(10_000_000 * 10u128.pow(18)), 10_000_000);
    assert_eq!(clamp_whole_units(u128::MAX), 10_000_000);
}

#[test]
fn adaptive_curve_non_increasing_samples() {
    let one = 10u128.pow(18);
    let samples = [0, one, 10 * one, 1_000 * one, 100_000 * one, 10_000_000 * one];
    let mut last = curve(samples[0]);
    for s in samples {
        let f = curve(s);
        assert!(f <= last);
        assert!(f <= MAX_SPREAD);
        last = f;
    }
    // constant above the saturation bound
    assert_eq!(curve(10_000_000 * one), curve(20_000_000 * one));
    assert_eq!(curve(10_000_000 * one), curve(u128::MAX));
}

#[test]
fn zero_slippage_is_exact() {
    let mut contract = Contract::new(account("bob"));
    contract.set_fixed_spread(0).unwrap();
    let expected = ExpectedRate { multiplier: 111_439, slippage: 0, decimals: 28 };

    let exact = ExchangeRate::new(111_439, 28, 0, 10);
    let res = contract.finish_buy(&account("charlie"), 10_000_000_000, Some(expected), exact, 0);
    assert_eq!(res.unwrap(), 111_439);

    let off_by_one = ExchangeRate::new(111_440, 28, 0, 10);
    let res =
        contract.finish_buy(&account("charlie"), 10_000_000_000, Some(expected), off_by_one, 0);
    assert!(matches!(res, Err(Error::SlippageExceeded)));
}

#[test]
fn slippage_band_edges() {
    let expected = ExpectedRate { multiplier: 100, slippage: 10, decimals: 28 };
    let at = |m: u128| ExchangeRate::new(m, 28, 0, 10);
    assert!(usn::engine::exchange_rate_ok(&at(90), &expected));
    assert!(usn::engine::exchange_rate_ok(&at(110), &expected));
    assert!(!usn::engine::exchange_rate_ok(&at(89), &expected));
    assert!(!usn::engine::exchange_rate_ok(&at(111), &expected));

    // differing decimals never pass
    let other = ExpectedRate { multiplier: 100, slippage: 10, decimals: 29 };
    assert!(!usn::engine::exchange_rate_ok(&at(100), &other));

    // a saturating band admits every multiplier
    let wide = ExpectedRate { multiplier: 100, slippage: u128::MAX, decimals: 28 };
    assert!(usn::engine::exchange_rate_ok(&at(u128::MAX), &wide));
    assert!(usn::engine::exchange_rate_ok(&at(0), &wide));
}

#[test]
fn fresh_cache_serves_a_buy_synchronously() {
    let mut contract = Contract::new(account("bob"));
    contract
        .oracle
        .set_exchange_rate(ExchangeRate::new(111_439, 28, 0, 100));

    let (request, outcome) = contract
        .buy(&account("charlie"), Some(account("danny")), 42, None, 50)
        .unwrap();
    assert_eq!(request.account, account("danny"));
    assert_eq!(request.input_amount, 42);
    match outcome {
        RateOrPending::Ready(rate) => assert_eq!(rate.multiplier(), 111_439),
        RateOrPending::Pending => panic!("cache was fresh"),
    }

    // once the window has elapsed the same cache demands a fetch
    let (_, outcome) = contract
        .buy(&account("charlie"), None, 42, None, 100)
        .unwrap();
    assert!(matches!(outcome, RateOrPending::Pending));
}

#[test]
fn dust_buy_changes_nothing() {
    let mut contract = Contract::new(account("bob"));
    contract.set_fixed_spread(0).unwrap();
    let rate = ExchangeRate::test_fresh_rate(0);
    let supply_before = contract.ft_total_supply();

    // 1000 base-asset units exchange to 0 tokens at this rate
    let res = contract.finish_buy(&account("charlie"), 1000, None, rate, 0);
    assert!(matches!(res, Err(Error::ZeroOutput)));
    assert_eq!(contract.ft_balance_of(&account("charlie")), 0);
    assert_eq!(contract.ft_total_supply(), supply_before);
}

#[test]
fn selling_zero_is_rejected() {
    let contract = Contract::new(account("bob"));
    let res = contract.sell(&account("charlie"), 0, None, 0);
    assert!(matches!(res, Err(Error::ZeroInput)));
}

#[test]
fn paused_contract_rejects_operations() {
    let mut contract = Contract::new(account("bob"));
    contract.pause();
    assert!(matches!(
        contract.buy(&account("charlie"), None, 1, None, 0),
        Err(Error::ContractPaused)
    ));
    assert!(matches!(
        contract.sell(&account("charlie"), 1, None, 0),
        Err(Error::ContractPaused)
    ));
    assert!(matches!(contract.set_fixed_spread(1), Err(Error::ContractPaused)));
    assert!(matches!(contract.set_adaptive_spread(), Err(Error::ContractPaused)));
    assert!(matches!(
        contract.add_to_blacklist(&account("charlie")),
        Err(Error::ContractPaused)
    ));
}

#[test]
fn buy_conversion_overflow_is_fatal() {
    let mut contract = Contract::new(account("bob"));
    let rate = ExchangeRate::new(u128::MAX, 18, 0, 10);
    let res = contract.finish_buy(&account("charlie"), u128::MAX, None, rate, curve(0));
    assert!(matches!(res, Err(Error::Overflow)));
}

#[test]
fn destroying_funds_needs_a_ban() {
    let mut contract = Contract::new(account("bob"));
    contract
        .token
        .internal_deposit(&account("charlie"), 10)
        .unwrap();
    let res = contract.destroy_black_funds(&account("charlie"));
    assert!(matches!(res, Err(Error::AccountNotBanned)));
    assert_eq!(contract.ft_balance_of(&account("charlie")), 10);
}

#[test]
fn transfer_confirmation() {
    assert_eq!(Contract::return_value(true, 55), Ok(55));
    assert_eq!(Contract::return_value(false, 55), Err(Error::TransferFailed));
}

#[test]
fn refund_decision() {
    assert_eq!(Contract::handle_refund(true, 1_000), None);
    assert_eq!(Contract::handle_refund(false, 1_000), Some(1_000));
}

#[test]
fn buy_sell_round_trip_loss_is_bounded() {
    let mut contract = Contract::new(account("bob"));
    contract.set_fixed_spread(5_000).unwrap(); // 0.5%
    let rate = ExchangeRate::test_fresh_rate(0);

    let near = 10u128.pow(24);
    let net = contract.finish_buy(&account("charlie"), near, None, rate, 0).unwrap();
    let back = contract.finish_sell(&account("charlie"), net, None, rate, 0).unwrap();

    assert!(back <= near);
    // twice the commission fraction, plus one base-asset rounding unit
    // of each conversion
    let bound = 2 * 5_000 * near / 1_000_000 + 10u128.pow(10) / 111_439 + 3;
    assert!(near - back <= bound);
}
