use hero_dex::fund_me::is_min_payment;
use hero_dex::fund_me::Error;
use hero_dex::fund_me::FundMe;

#[test]
fn min_payment_exact_threshold() {
    // At a price of 1.0 (eight decimals, scaled by ten thousand to twelve),
    // the payment equals the value, and the bar is strictly above
    // 50 * 10^12.
    assert_eq!(is_min_payment(100_000_000, 50_000_000_000_000), Ok(false));
    assert_eq!(is_min_payment(100_000_000, 50_000_000_000_001), Ok(true));
}

#[test]
fn min_payment_overflow_is_reported() {
    assert_eq!(is_min_payment(u64::MAX, 1), Err(Error::MulOverFlow));
}

#[test]
fn fund_records_payment_and_founder() {
    let mut fund_me = FundMe::new(1, 9);
    fund_me.fund(2, 60_000_000_000_000, 100_000_000);
    assert!(fund_me.am_i_founder(2));
    assert!(!fund_me.am_i_founder(3));
    assert_eq!(fund_me.address_to_amount, vec![(2, 60_000_000_000_000)]);
    // A founder may pay any further amount.
    fund_me.fund(2, 5, 100_000_000);
    assert_eq!(fund_me.address_to_amount, vec![(2, 60_000_000_000_005)]);
    assert_eq!(fund_me.founders, vec![2]);
}

#[test]
fn only_owner_can_withdraw() {
    let mut fund_me = FundMe::new(1, 9);
    assert!(fund_me.can_withdraw(1));
    assert!(!fund_me.can_withdraw(2));
    fund_me.set_oracle_address(7);
    assert_eq!(fund_me.diadata, 7);
}
