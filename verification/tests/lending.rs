use akkuea_contracts::lending::interest::{
    InterestRateModel, InterestStorage, PRECISION, SECONDS_PER_YEAR,
};
use akkuea_contracts::lending::oracle::{OracleError, PriceData, PriceOracle};
use akkuea_contracts::lending::positions::{BorrowPosition, DepositPosition, PositionStorage};
use akkuea_contracts::lending::LendingStore;

const PCT: i128 = PRECISION / 100;

#[test]
fn default_model_parameters() {
    let m = InterestRateModel::default();
    assert_eq!(m.base_rate, 2 * PCT);
    assert_eq!(m.slope1, 4 * PCT);
    assert_eq!(m.slope2, 75 * PCT);
    assert_eq!(m.optimal_utilization, 80 * PCT);
}

#[test]
fn borrow_rate_two_slopes() {
    let m = InterestRateModel::default();
    assert_eq!(m.calculate_borrow_rate(0), 2 * PCT);
    assert_eq!(m.calculate_borrow_rate(40 * PCT), 4 * PCT);
    assert_eq!(m.calculate_borrow_rate(80 * PCT), 6 * PCT);
    // 6% + 10/20 of 75%
    assert_eq!(m.calculate_borrow_rate(90 * PCT), 6 * PCT + 375 * PCT / 10);
    assert_eq!(m.calculate_borrow_rate(100 * PCT), 81 * PCT);
}

#[test]
fn borrow_rate_rounds_toward_zero() {
    let m = InterestRateModel { base_rate: 0, slope1: 1, slope2: 0, optimal_utilization: 3 };
    assert_eq!(m.calculate_borrow_rate(2), 0);
    assert_eq!(m.calculate_borrow_rate(-2), 0);
    assert_eq!(m.calculate_borrow_rate(-3), -1);
}

#[test]
fn supply_rate_formula() {
    let m = InterestRateModel::default();
    // 10% borrow rate, 50% utilization, 20% reserve: 10% * 0.5 * 0.8 = 4%
    assert_eq!(m.calculate_supply_rate(10 * PCT, 50 * PCT, 20 * PCT), 4 * PCT);
    assert_eq!(m.calculate_supply_rate(10 * PCT, 0, 20 * PCT), 0);
    assert_eq!(m.calculate_supply_rate(10 * PCT, 100 * PCT, 0), 10 * PCT);
}

#[test]
fn new_index_accrues_simple_interest() {
    assert_eq!(InterestStorage::calculate_new_index(PRECISION, 10 * PCT, 0), PRECISION);
    let rate = 31_536_000 * 1_000_000_000; // exactly 1e9 per second
    let idx = InterestStorage::calculate_new_index(PRECISION, rate, SECONDS_PER_YEAR);
    assert_eq!(idx, PRECISION + 1_000_000_000 * 31_536_000);
    let idx2 = InterestStorage::calculate_new_index(2 * PRECISION, rate, 10);
    assert_eq!(idx2, 2 * (PRECISION + 10_000_000_000));
}

#[test]
fn stored_models_indexes_and_accruals() {
    let mut store = LendingStore::new();
    let pool = String::from("usdc");
    let other = String::from("xlm");
    assert_eq!(InterestStorage::get_model(&store, &pool), InterestRateModel::default());
    assert_eq!(InterestStorage::get_interest_index(&store, &pool), PRECISION);
    assert_eq!(InterestStorage::get_last_accrual(&store, &pool), 0);

    let custom = InterestRateModel { base_rate: 1, slope1: 2, slope2: 3, optimal_utilization: 4 };
    InterestStorage::set_model(&mut store, &pool, &custom);
    InterestStorage::set_interest_index(&mut store, &pool, 5 * PRECISION);
    InterestStorage::set_last_accrual(&mut store, &pool, 1234);

    assert_eq!(InterestStorage::get_model(&store, &pool), custom);
    assert_eq!(InterestStorage::get_interest_index(&store, &pool), 5 * PRECISION);
    assert_eq!(InterestStorage::get_last_accrual(&store, &pool), 1234);
    assert_eq!(InterestStorage::get_model(&store, &other), InterestRateModel::default());
    assert_eq!(InterestStorage::get_interest_index(&store, &other), PRECISION);
}

fn deposit(user: &str, pool: &str, amount: i128, index: i128) -> DepositPosition {
    DepositPosition {
        pool_id: String::from(pool),
        depositor: String::from(user),
        amount,
        shares: amount,
        index_at_deposit: index,
        deposited_at: 10,
    }
}

fn borrow(user: &str, pool: &str, principal: i128, index: i128) -> BorrowPosition {
    BorrowPosition {
        pool_id: String::from(pool),
        borrower: String::from(user),
        principal,
        index_at_borrow: index,
        collateral_amount: 2 * principal,
        collateral_asset: String::from("GCOLLATERAL"),
        borrowed_at: 20,
    }
}

#[test]
fn deposits_are_stored_and_listed_once() {
    let mut store = LendingStore::new();
    let alice = String::from("GALICE");
    let pool_a = String::from("a");
    let pool_b = String::from("b");
    assert!(PositionStorage::get_deposit(&store, &alice, &pool_a).is_none());

    PositionStorage::set_deposit(&mut store, &deposit("GALICE", "a", 100, PRECISION));
    PositionStorage::set_deposit(&mut store, &deposit("GALICE", "b", 50, PRECISION));
    PositionStorage::set_deposit(&mut store, &deposit("GALICE", "a", 150, PRECISION));

    let p = PositionStorage::get_deposit(&store, &alice, &pool_a).unwrap();
    assert_eq!(p.amount, 150);
    assert_eq!(PositionStorage::get_user_deposits(&store, &alice), vec![pool_a.clone(), pool_b.clone()]);

    PositionStorage::remove_deposit(&mut store, &alice, &pool_a);
    assert!(PositionStorage::get_deposit(&store, &alice, &pool_a).is_none());
    assert_eq!(PositionStorage::get_user_deposits(&store, &alice), vec![pool_b.clone()]);
    assert!(PositionStorage::get_user_borrows(&store, &alice).is_empty());
}

#[test]
fn borrows_are_stored_and_listed_once() {
    let mut store = LendingStore::new();
    let bob = String::from("GBOB");
    let pool = String::from("a");
    PositionStorage::set_borrow(&mut store, &borrow("GBOB", "a", 100, PRECISION));
    PositionStorage::set_borrow(&mut store, &borrow("GBOB", "a", 200, PRECISION));
    assert_eq!(PositionStorage::get_borrow(&store, &bob, &pool).unwrap().principal, 200);
    assert_eq!(PositionStorage::get_user_borrows(&store, &bob), vec![pool.clone()]);
    assert!(PositionStorage::get_user_deposits(&store, &bob).is_empty());
    PositionStorage::remove_borrow(&mut store, &bob, &pool);
    assert!(PositionStorage::get_borrow(&store, &bob, &pool).is_none());
    assert!(PositionStorage::get_user_borrows(&store, &bob).is_empty());
}

#[test]
fn deposit_interest_follows_the_index() {
    let mut store = LendingStore::new();
    let pool = String::from("a");
    let d = deposit("GALICE", "a", 1000, PRECISION);
    assert_eq!(PositionStorage::calculate_deposit_interest(&store, &d), 0);
    InterestStorage::set_interest_index(&mut store, &pool, PRECISION + 5 * PCT);
    assert_eq!(PositionStorage::calculate_deposit_interest(&store, &d), 50);
    let zero_index = deposit("GALICE", "a", 1000, 0);
    assert_eq!(PositionStorage::calculate_deposit_interest(&store, &zero_index), 0);
    let later = deposit("GALICE", "a", 1000, 2 * PRECISION);
    assert_eq!(PositionStorage::calculate_deposit_interest(&store, &later), 0);
}

#[test]
fn debt_follows_the_index() {
    let mut store = LendingStore::new();
    let pool = String::from("a");
    let b = borrow("GBOB", "a", 1000, PRECISION);
    assert_eq!(PositionStorage::calculate_current_debt(&store, &b), 1000);
    InterestStorage::set_interest_index(&mut store, &pool, PRECISION + 10 * PCT);
    assert_eq!(PositionStorage::calculate_current_debt(&store, &b), 1100);
    let no_index = borrow("GBOB", "a", 1000, 0);
    assert_eq!(PositionStorage::calculate_current_debt(&store, &no_index), 1000);
}

#[test]
fn health_factor_formula() {
    assert_eq!(PositionStorage::calculate_health_factor(1000, 0, 80 * PCT), i128::MAX);
    // 1000 * 0.8 / 400 = 2 (in whole units, as the formula divides by PRECISION)
    assert_eq!(PositionStorage::calculate_health_factor(1000, 400, 80 * PCT), 2);
    assert_eq!(PositionStorage::calculate_health_factor(1000, 1000, 80 * PCT), 0);
}

#[test]
fn oracle_address_configuration() {
    let mut store = LendingStore::new();
    assert_eq!(PriceOracle::get_oracle_address(&store), Err(OracleError::OracleNotConfigured));
    PriceOracle::set_oracle_address(&mut store, &String::from("CORACLE"));
    assert_eq!(PriceOracle::get_oracle_address(&store), Ok(String::from("CORACLE")));
}

#[test]
fn price_scaling_and_staleness() {
    let fresh = PriceData { price: 12_345, timestamp: 1_000 };
    assert_eq!(PriceOracle::get_price(None, 1_000, 7), Err(OracleError::PriceUnavailable));
    assert_eq!(PriceOracle::get_price(Some(fresh), 1_000, 18), Ok(12_345));
    assert_eq!(PriceOracle::get_price(Some(fresh), 4_600, 7), Ok(12_345 * 100_000_000_000));
    assert_eq!(PriceOracle::get_price(Some(fresh), 4_601, 7), Err(OracleError::StalePrice));
    // A timestamp in the future is never stale.
    assert_eq!(PriceOracle::get_price(Some(fresh), 10, 18), Ok(12_345));
    assert_eq!(PriceOracle::get_price(Some(fresh), 1_000, 20), Ok(123));
    let negative = PriceData { price: -12_345, timestamp: 1_000 };
    assert_eq!(PriceOracle::get_price(Some(negative), 1_000, 20), Ok(-123));
    let huge = PriceData { price: i128::MAX / 10, timestamp: 1_000 };
    assert_eq!(PriceOracle::get_price(Some(huge), 1_000, 0), Err(OracleError::ScalingOverflow));
    assert_eq!(PriceOracle::get_price(Some(huge), 1_000, 56), Ok(0));
}
