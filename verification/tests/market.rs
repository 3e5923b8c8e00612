use definex::dispatch::{DispatchError, Origin};
use definex::ls_biding::{BorrowOptions, BorrowStatus, Call, Error, GenesisConfig, Module, TradingPair};

const ROOT: u64 = 1;
const EVE: u64 = 5;
const DAVE: u64 = 4;
const MONEY_POOL: u64 = 100;
const PLATFORM: u64 = 101;
const BTC: u32 = 0;
const USDT: u32 = 1;

/// A market over a ledger with BTC and USDT, priced at 10000 and 1 USDT, scaled by ten thousand.
fn market() -> Module {
    let mut ga = definex::generic_asset::Module::new(ROOT);
    ga.create(Origin::Root, 0, b"BTC".to_vec()).unwrap();
    ga.create(Origin::Root, 0, b"USDT".to_vec()).unwrap();
    let mut oracle = definex::new_oracle::Module::new();
    oracle.set_token_price(b"BTC".to_vec(), 100000000);
    oracle.set_token_price(b"USDT".to_vec(), 10000);
    let config = GenesisConfig {
        money_pool: MONEY_POOL,
        platform: PLATFORM,
        trading_pairs: vec![TradingPair { collateral: BTC, borrow: USDT }],
        safe_ltv: 50000,
        liquidate_ltv: 20000,
        min_borrow_terms: 1,
        min_borrow_interest_rate: 1,
    };
    config.build_storage(ga, oracle, 10)
}

fn fund(m: &mut Module) {
    assert_eq!(m.generic_asset.mint_free(&BTC, &ROOT, &EVE, &1000_00000000), Ok(()));
    assert_eq!(m.generic_asset.mint_free(&USDT, &ROOT, &DAVE, &1000_00000000), Ok(()));
}

fn options(amount: u128) -> BorrowOptions {
    BorrowOptions { amount, terms: 10, interest_rate: 20000, warranty: Some(30) }
}

#[test]
fn unittest_works() {
    let _m = market();
    println!("hello world");
}

#[test]
fn fetch_prices_works() {
    let m = market();
    let prices = m.fetch_trading_pair_prices(USDT, BTC);
    assert_eq!(prices.is_some(), true);
    let prices = prices.unwrap();
    assert_eq!(prices.borrow_asset_price, 10000);
    assert_eq!(prices.collateral_asset_price, 100000000);
}

#[test]
fn borrow_works() {
    let mut m = market();
    fund(&mut m);
    let trading_pair = TradingPair { collateral: BTC, borrow: USDT };
    let borrow_id = m.next_borrow_id();
    assert_eq!(m.create_borrow(EVE, 100000000, trading_pair, options(100_00000000)), Ok(()));
    let borrow = m.borrows(borrow_id);
    println!("{:?}", borrow);
    assert_eq!(borrow.id, borrow_id);
    assert_eq!(borrow.who, EVE);
    assert_eq!(borrow.collateral_balance, 100000000);
    assert_eq!(borrow.borrow_balance, 100_00000000);
    assert_eq!(borrow.status, BorrowStatus::Alive);
    assert_eq!(borrow.dead_after, Some(30));
    assert_eq!(m.generic_asset.free_balance(&BTC, &EVE), 1000_00000000 - 100000000);
    assert_eq!(m.generic_asset.reserved_balance(&BTC, &EVE), 100000000);
}

#[test]
fn ltv_meet_safty_works() {
    let m = market();
    let prices = m.fetch_trading_pair_prices(USDT, BTC);
    let borrow_amount = 10000_00000000u128;
    let collateral_amount = 1_00000000u128;
    assert_eq!(m.ltv_meet_safty(&prices.unwrap(), borrow_amount, collateral_amount), false);
}

#[test]
fn invalid_borrow_works() {
    let mut m = market();
    fund(&mut m);
    let trading_pair = TradingPair { collateral: BTC, borrow: USDT };
    let before_next = m.next_borrow_id();
    assert_eq!(
        m.create_borrow(EVE, 100000000, trading_pair, options(3000_00000000)),
        Err(DispatchError::LsBiding(Error::InitialCollateralRateFail))
    );
    assert_eq!(m.next_borrow_id(), before_next);
    assert_eq!(m.generic_asset.reserved_balance(&BTC, &EVE), 0);
}

#[test]
fn ltv_of_a_pair_is_collateral_value_over_borrow_value() {
    let m = market();
    let prices = m.fetch_trading_pair_prices(USDT, BTC).unwrap();
    // 1 BTC against 100 USDT: 1e8 * 1e8 * 1e4 / (1e4 * 1e10) = 1e6.
    assert!(m.ltv_meet_safty(&prices, 100_00000000, 100000000));
    assert!(!m.ltv_meet_liquidation(&prices, 100_00000000, 100000000));
    // 1 BTC against 5000 USDT: 1e20 / 5e15 = 20000, at the liquidation ratio: not below it.
    assert!(!m.ltv_meet_liquidation(&prices, 5000_00000000, 100000000));
    // 1 BTC against 5001 USDT: 19996, below it.
    assert!(m.ltv_meet_liquidation(&prices, 5001_00000000, 100000000));
    // 1 BTC against 2000 USDT: 50000, at the safe ratio: not above it.
    assert!(!m.ltv_meet_safty(&prices, 2000_00000000, 100000000));
    assert!(m.ltv_meet_safty(&prices, 1999_00000000, 100000000));
}

#[test]
fn expected_interest_is_rate_times_terms_times_amount_over_ten_to_eight() {
    assert_eq!(Module::calculate_expected_interest(20000, 10, 100_00000000), 20000000);
    assert_eq!(Module::calculate_expected_interest(1, 1, 99999999), 0);
}

#[test]
fn prices_missing_for_an_unknown_asset() {
    let m = market();
    assert_eq!(m.fetch_trading_pair_prices(USDT, 7), None);
}

#[test]
fn second_alive_borrow_is_refused() {
    let mut m = market();
    fund(&mut m);
    let pair = TradingPair { collateral: BTC, borrow: USDT };
    assert_eq!(m.create_borrow(EVE, 100000000, pair, options(100_00000000)), Ok(()));
    assert_eq!(
        m.create_borrow(EVE, 100000000, pair, options(100_00000000)),
        Err(DispatchError::LsBiding(Error::MultipleAliveBorrows))
    );
}

#[test]
fn unknown_pair_and_short_terms_are_refused() {
    let mut m = market();
    fund(&mut m);
    let reversed = TradingPair { collateral: USDT, borrow: BTC };
    assert_eq!(
        m.create_borrow(DAVE, 100, reversed, options(1)),
        Err(DispatchError::LsBiding(Error::TradingPairNotAllowed))
    );
    let pair = TradingPair { collateral: BTC, borrow: USDT };
    let short = BorrowOptions { amount: 100, terms: 0, interest_rate: 20000, warranty: None };
    assert_eq!(m.create_borrow(EVE, 100, pair, short), Err(DispatchError::LsBiding(Error::MinBorrowTerms)));
    let cheap = BorrowOptions { amount: 100, terms: 10, interest_rate: 0, warranty: None };
    assert_eq!(m.create_borrow(EVE, 100, pair, cheap), Err(DispatchError::LsBiding(Error::MinBorrowInterestRate)));
}

#[test]
fn list_then_unlist_returns_the_collateral() {
    let mut m = market();
    fund(&mut m);
    let pair = TradingPair { collateral: BTC, borrow: USDT };
    let id = m.next_borrow_id();
    assert_eq!(m.list_borrow(Origin::Signed(EVE), 100000000, pair, options(100_00000000)), Ok(()));
    assert_eq!(m.generic_asset.free_balance(&BTC, &EVE), 1000_00000000 - 100000000);
    assert_eq!(m.unlist_borrow(Origin::Signed(EVE), id), Ok(()));
    assert_eq!(m.generic_asset.free_balance(&BTC, &EVE), 1000_00000000);
    assert_eq!(m.generic_asset.reserved_balance(&BTC, &EVE), 0);
    let b = m.borrows(id);
    assert_eq!(b.status, BorrowStatus::Alive);
    assert_eq!(b.collateral_balance, 100000000);
    assert_eq!(m.generic_asset.locked_balance(&BTC, &EVE, b.lock_id), None);
}

#[test]
fn paused_market_refuses_calls_and_settings_need_root() {
    let mut m = market();
    fund(&mut m);
    assert_eq!(m.pause(Origin::Signed(EVE)), Err(DispatchError::BadOrigin));
    assert_eq!(m.pause(Origin::Root), Ok(()));
    assert!(m.paused());
    let pair = TradingPair { collateral: BTC, borrow: USDT };
    assert_eq!(
        m.list_borrow(Origin::Signed(EVE), 100000000, pair, options(100_00000000)),
        Err(DispatchError::LsBiding(Error::Paused))
    );
    assert_eq!(m.resume(Origin::Root), Ok(()));
    assert_eq!(m.change_safe_ltv(Origin::Root, 60000), Ok(()));
    assert_eq!(m.safe_ltv(), 60000);
}

#[test]
fn lend_then_repay_settles_the_loan() {
    let mut m = market();
    fund(&mut m);
    let pair = TradingPair { collateral: BTC, borrow: USDT };
    let borrow_id = m.next_borrow_id();
    assert_eq!(m.list_borrow(Origin::Signed(EVE), 100000000, pair, options(100_00000000)), Ok(()));
    let loan_id = m.next_loan_id();
    assert_eq!(m.lend(Origin::Signed(DAVE), borrow_id), Ok(()));
    // the borrower received the loan; the collateral sits in the money pool
    assert_eq!(m.generic_asset.free_balance(&USDT, &EVE), 100_00000000);
    assert_eq!(m.generic_asset.free_balance(&BTC, &MONEY_POOL), 100000000);
    assert_eq!(m.loans(loan_id).id, loan_id);
    assert_eq!(m.loans(loan_id).borrow_id, borrow_id);
    assert_eq!(m.borrows(borrow_id).loan_id, Some(loan_id));
    assert_eq!(m.borrows(borrow_id).status, BorrowStatus::Taken);
    // the borrower pays back the loan and the interest
    let interest = Module::calculate_expected_interest(20000, 10, 100_00000000);
    assert_eq!(m.generic_asset.mint_free(&USDT, &ROOT, &EVE, &interest), Ok(()));
    assert_eq!(m.repay(Origin::Signed(EVE), borrow_id), Ok(()));
    assert_eq!(m.generic_asset.free_balance(&BTC, &EVE), 1000_00000000);
    assert_eq!(m.generic_asset.free_balance(&USDT, &DAVE), 1000_00000000 + interest);
}

#[test]
fn blocks_advance() {
    let mut m = market();
    m.next_block();
    m.next_block();
    assert_eq!(m.block_number, 2);
    m.next_block();
    assert_eq!(m.block_number, 3);
}

#[test]
fn error_indices_and_names() {
    assert_eq!(Error::Paused.as_u8(), 0);
    assert_eq!(Error::InitialCollateralRateFail.as_u8(), 11);
    assert_eq!(Error::LoanNotWell.as_u8(), 18);
    assert_eq!(Error::LTVNotMeet.as_str(), "LTVNotMeet");
}

#[test]
fn call_names() {
    let names = Call::get_call_names();
    assert_eq!(names.len(), 14);
    assert_eq!(names[12], "add");
    assert_eq!(Call::lend(3).get_call_name(), "lend");
    assert_eq!(Call::add_collateral(3, 4).get_call_name(), "add");
}

#[test]
fn genesis_default_is_empty() {
    let c = GenesisConfig::default();
    assert_eq!(c.trading_pairs.len(), 0);
    assert_eq!(c.safe_ltv, 0);
}

#[test]
fn liquidation_pays_lender_and_liquidator() {
    let mut m = market();
    fund(&mut m);
    let pair = TradingPair { collateral: BTC, borrow: USDT };
    let borrow_id = m.next_borrow_id();
    assert_eq!(m.list_borrow(Origin::Signed(EVE), 100000000, pair, options(100_00000000)), Ok(()));
    let loan_id = m.next_loan_id();
    assert_eq!(m.lend(Origin::Signed(DAVE), borrow_id), Ok(()));
    // a healthy loan may not be liquidated
    assert_eq!(m.liquidate(Origin::Signed(ROOT), loan_id), Err(DispatchError::LsBiding(Error::LTVNotMeet)));
    // BTC falls to a hundredth: the ratio drops to 10000, below the liquidation ratio
    m.oracle.set_token_price(b"BTC".to_vec(), 1000000);
    assert_eq!(m.liquidate(Origin::Signed(ROOT), loan_id), Ok(()));
    assert_eq!(m.generic_asset.free_balance(&BTC, &DAVE), 95000000);
    assert_eq!(m.generic_asset.free_balance(&BTC, &ROOT), 5000000);
    assert_eq!(m.generic_asset.free_balance(&BTC, &MONEY_POOL), 0);
    assert_eq!(m.loans(loan_id).status, definex::ls_biding::LoanHealth::Liquidated);
}

#[test]
fn paused_market_answers_paused_to_every_origin() {
    let mut m = market();
    assert_eq!(m.pause(Origin::Root), Ok(()));
    let pair = TradingPair { collateral: BTC, borrow: USDT };
    assert_eq!(m.list_borrow(Origin::Unsigned, 1, pair, options(1)), Err(DispatchError::LsBiding(Error::Paused)));
    assert_eq!(m.lend(Origin::Root, 1), Err(DispatchError::LsBiding(Error::Paused)));
    assert_eq!(m.repay(Origin::Signed(EVE), 1), Err(DispatchError::LsBiding(Error::Paused)));
}

#[test]
fn calls_are_equal_exactly_when_variant_and_arguments_are() {
    assert_ne!(Call::change_safe_ltv(5), Call::change_liquidate_ltv(5));
    assert_ne!(Call::add_collateral(1, 2), Call::add_collateral(1, 3));
    assert_eq!(Call::lend(4), Call::lend(4));
}
