use hero_dex::erc20::Erc20;
use hero_dex::pair::Event;
use hero_dex::pair::OwnableError;
use hero_dex::pair::Pair;
use hero_dex::pair::PairError;
use hero_dex::pair::ReentrancyGuardError;
use hero_dex::pair::MINIMUM_LIQUIDITY;
use hero_dex::pair::PRICE_SCALE;

const ALICE: u128 = 1;
const BOB: u128 = 2;
const OWNER: u128 = 3;
const CHARLIE: u128 = 4;
const POOL: u128 = 10;
const T0: u128 = 100;
const T1: u128 = 101;

fn fresh_pair(supply: u128) -> Pair {
    let ledger_0 = Erc20::new(ALICE, supply);
    let ledger_1 = Erc20::new(ALICE, supply);
    let mut pair = Pair::new(POOL, OWNER, ledger_0, ledger_1);
    pair.initialize(T0, T1).unwrap();
    pair
}

fn bootstrapped_pair() -> Pair {
    let mut pair = fresh_pair(1_000_000_000);
    pair.ledger_0.transfer(ALICE, POOL, 1000).unwrap();
    pair.ledger_1.transfer(ALICE, POOL, 1000).unwrap();
    assert_eq!(pair.mint(ALICE, ALICE, 1), Ok(1000 - MINIMUM_LIQUIDITY));
    pair
}

#[test]
fn bootstrap_mint_works() {
    let pair = bootstrapped_pair();
    assert_eq!(pair.get_reserves(), (1000, 1000, 1));
    assert_eq!(pair.lp.balance_of(ALICE), 1000 - MINIMUM_LIQUIDITY);
    assert_eq!(pair.lp.balance_of(0), MINIMUM_LIQUIDITY);
    assert_eq!(pair.lp.total_supply(), 1000);
    assert_eq!(pair.get_token_0(), T0);
    assert_eq!(pair.get_token_1(), T1);
}

#[test]
fn bootstrap_events_emitted() {
    let pair = bootstrapped_pair();
    assert_eq!(
        pair.events,
        vec![
            Event::Sync { reserve_0: 1000, reserve_1: 1000 },
            Event::Mint { sender: ALICE, amount_0: 1000, amount_1: 1000 },
        ]
    );
}

#[test]
fn swap_succeeds_above_break_even() {
    let mut pair = bootstrapped_pair();
    pair.ledger_0.transfer(ALICE, POOL, 111).unwrap();
    assert_eq!(pair.swap(ALICE, 0, 90, BOB, 2), Ok(()));
    assert_eq!(pair.get_reserves(), (1111, 910, 2));
    assert_eq!(pair.ledger_1.balance_of(BOB), 90);
}

#[test]
fn swap_violating_k_fails() {
    let mut pair = bootstrapped_pair();
    pair.ledger_0.transfer(ALICE, POOL, 10).unwrap();
    assert_eq!(pair.swap(ALICE, 0, 90, BOB, 2), Err(PairError::K));
    assert_eq!(pair.get_reserves(), (1000, 1000, 1));
    assert_eq!(pair.ledger_1.balance_of(BOB), 0);
}

#[test]
fn swap_without_output_fails() {
    let mut pair = bootstrapped_pair();
    assert_eq!(pair.swap(ALICE, 0, 0, BOB, 2), Err(PairError::InsufficientOutputAmout));
}

#[test]
fn swap_exceeding_reserves_fails() {
    let mut pair = bootstrapped_pair();
    assert_eq!(pair.swap(ALICE, 0, 1000, BOB, 2), Err(PairError::InsufficientLiquidity));
}

#[test]
fn swap_to_token_identity_fails() {
    let mut pair = bootstrapped_pair();
    pair.ledger_0.transfer(ALICE, POOL, 111).unwrap();
    let events_before = pair.events.len();
    assert_eq!(pair.swap(ALICE, 0, 90, T1, 2), Err(PairError::InvalidTo));
    assert_eq!(pair.swap(ALICE, 0, 90, T0, 2), Err(PairError::InvalidTo));
    assert_eq!(pair.get_reserves(), (1000, 1000, 1));
    assert_eq!(pair.events.len(), events_before);
    assert_eq!(pair.ledger_1.balance_of(T0), 0);
    assert_eq!(pair.ledger_1.balance_of(T1), 0);
}

#[test]
fn swap_without_input_fails() {
    let mut pair = bootstrapped_pair();
    assert_eq!(pair.swap(ALICE, 0, 90, BOB, 2), Err(PairError::InsufficientInputAmount));
    assert_eq!(pair.get_reserves(), (1000, 1000, 1));
}

#[test]
fn reentrant_swap_fails() {
    let mut pair = bootstrapped_pair();
    pair.ledger_0.transfer(ALICE, POOL, 111).unwrap();
    let events_before = pair.events.len();
    pair.locked = true;
    assert_eq!(
        pair.swap(ALICE, 0, 90, BOB, 2),
        Err(PairError::ReentrancyGuardError(ReentrancyGuardError::ReentrantCall))
    );
    assert!(pair.locked);
    assert_eq!(pair.get_reserves(), (1000, 1000, 1));
    assert_eq!(pair.events.len(), events_before);
    assert_eq!(pair.ledger_1.balance_of(BOB), 0);
}

#[test]
fn reentrant_mint_and_burn_fail() {
    let mut pair = bootstrapped_pair();
    pair.locked = true;
    assert_eq!(
        pair.mint(ALICE, ALICE, 2),
        Err(PairError::ReentrancyGuardError(ReentrancyGuardError::ReentrantCall))
    );
    assert_eq!(
        pair.burn(ALICE, ALICE, 2),
        Err(PairError::ReentrancyGuardError(ReentrancyGuardError::ReentrantCall))
    );
}

#[test]
fn mint_zero_contribution_fails() {
    let mut pair = bootstrapped_pair();
    assert_eq!(pair.mint(ALICE, ALICE, 2), Err(PairError::InsufficientLiquidityMinted));
    assert_eq!(pair.get_reserves(), (1000, 1000, 1));
}

#[test]
fn burn_zero_shares_fails() {
    let mut pair = bootstrapped_pair();
    assert_eq!(pair.burn(ALICE, ALICE, 2), Err(PairError::InsufficientLiquidityBurned));
    assert_eq!(pair.lp.total_supply(), 1000);
}

#[test]
fn burn_after_mint_redeems_deposit_minus_lock() {
    let mut pair = bootstrapped_pair();
    pair.lp.transfer(ALICE, POOL, 1000 - MINIMUM_LIQUIDITY).unwrap();
    assert_eq!(pair.burn(ALICE, BOB, 2), Ok((900, 900)));
    assert_eq!(pair.ledger_0.balance_of(BOB), 900);
    assert_eq!(pair.ledger_1.balance_of(BOB), 900);
    assert_eq!(pair.get_reserves(), (100, 100, 2));
    assert_eq!(pair.lp.total_supply(), MINIMUM_LIQUIDITY);
}

#[test]
fn mint_pays_proportional_shares() {
    let mut pair = bootstrapped_pair();
    pair.ledger_0.transfer(ALICE, POOL, 500).unwrap();
    pair.ledger_1.transfer(ALICE, POOL, 300).unwrap();
    assert_eq!(pair.mint(ALICE, ALICE, 2), Ok(300));
    assert_eq!(pair.get_reserves(), (1500, 1300, 2));
    assert!(1500u128 * 1300 * (1000 * 1000) >= 1000u128 * 1000 * (1300 * 1300));
}

#[test]
fn set_fee_to_requires_owner() {
    let mut pair = fresh_pair(1000);
    assert_eq!(
        pair.set_fee_to(BOB, BOB),
        Err(PairError::OwnableError(OwnableError::CallerIsNotOwner))
    );
    assert_eq!(pair.fee_to, 0);
    assert_eq!(pair.set_fee_to(OWNER, CHARLIE), Ok(()));
    assert_eq!(pair.fee_to, CHARLIE);
}

#[test]
fn fee_skim_mints_to_recipient() {
    let mut pair = fresh_pair(1_000_000_000);
    pair.set_fee_to(OWNER, CHARLIE).unwrap();
    pair.ledger_0.transfer(ALICE, POOL, 1_000_000).unwrap();
    pair.ledger_1.transfer(ALICE, POOL, 1_000_000).unwrap();
    assert_eq!(pair.mint(ALICE, ALICE, 1), Ok(1_000_000 - MINIMUM_LIQUIDITY));
    assert_eq!(pair.root_k_last, 1_000_000);
    pair.ledger_0.transfer(ALICE, POOL, 100_000).unwrap();
    assert_eq!(pair.swap(ALICE, 0, 90_000, BOB, 2), Ok(()));
    assert_eq!(pair.get_reserves(), (1_100_000, 910_000, 2));
    pair.ledger_0.transfer(ALICE, POOL, 1_100).unwrap();
    pair.ledger_1.transfer(ALICE, POOL, 910).unwrap();
    assert_eq!(pair.mint(ALICE, ALICE, 3), Ok(1000));
    assert_eq!(pair.lp.balance_of(CHARLIE), 83);
}

#[test]
fn price_accumulators_advance_with_time() {
    let mut pair = bootstrapped_pair();
    pair.ledger_0.transfer(ALICE, POOL, 111).unwrap();
    assert_eq!(pair.swap(ALICE, 0, 90, BOB, 11), Ok(()));
    assert_eq!(pair.price_0_cumulative_last, 10 * PRICE_SCALE);
    assert_eq!(pair.price_1_cumulative_last, 10 * PRICE_SCALE);
}

#[test]
fn bootstrap_product_overflow_fails() {
    let huge: u128 = 1 << 70;
    let ledger_0 = Erc20::new(ALICE, u128::MAX);
    let ledger_1 = Erc20::new(ALICE, u128::MAX);
    let mut pair = Pair::new(POOL, OWNER, ledger_0, ledger_1);
    pair.initialize(T0, T1).unwrap();
    pair.ledger_0.transfer(ALICE, POOL, huge).unwrap();
    pair.ledger_1.transfer(ALICE, POOL, huge).unwrap();
    assert_eq!(pair.mint(ALICE, ALICE, 1), Err(PairError::MulOverFlow1));
    assert_eq!(pair.get_reserves(), (0, 0, 0));
    assert_eq!(pair.lp.total_supply(), 0);
}

#[test]
fn price_accumulation_overflow_fails() {
    let huge: u128 = 1 << 70;
    let mut pair = fresh_pair(1000);
    assert_eq!(pair._update(1, 1, huge, huge, 5), Err(PairError::Overflow));
    assert_eq!(pair.get_reserves(), (0, 0, 0));
    assert_eq!(pair.price_0_cumulative_last, 0);
}
