use radiswap::asset::{AssetId, Bucket, PoolError};
use radiswap::decimal::ONE;
use radiswap::pool::{Radiswap, BASELINE_UNITS};

const A: AssetId = AssetId { id: 1 };
const B: AssetId = AssetId { id: 2 };
const UNITS: AssetId = AssetId { id: 3 };
const OTHER: AssetId = AssetId { id: 4 };

fn units(n: u128) -> u128 {
    n * ONE
}

fn pool(a: u128, b: u128, fee: u128) -> Radiswap {
    let (p, minted) = Radiswap::instantiate_radiswap(
        Bucket::new(A, units(a)),
        Bucket::new(B, units(b)),
        fee,
        UNITS,
    )
    .unwrap();
    assert_eq!(minted, Bucket::new(UNITS, BASELINE_UNITS));
    p
}

#[test]
fn instantiate_seeds_reserves_and_mints_baseline() {
    let p = pool(1000, 500, 0);
    assert_eq!(p.reserve_amounts(), (units(1000), units(500)));
    assert_eq!(p.total_supply(), units(100));
    assert_eq!(p.assets(), (A, B, UNITS));
    assert_eq!(p.fee(), 0);
}

#[test]
fn instantiate_refuses_bad_inputs() {
    let r = Radiswap::instantiate_radiswap(Bucket::new(A, 0), Bucket::new(B, 5), 0, UNITS);
    assert_eq!(r.err(), Some(PoolError::EmptyInput));
    let r = Radiswap::instantiate_radiswap(Bucket::new(A, 5), Bucket::new(B, 5), ONE + 1, UNITS);
    assert_eq!(r.err(), Some(PoolError::InvalidFee));
    let r = Radiswap::instantiate_radiswap(Bucket::new(A, 5), Bucket::new(A, 5), 0, UNITS);
    assert_eq!(r.err(), Some(PoolError::InvalidAsset));
    let r = Radiswap::instantiate_radiswap(Bucket::new(A, 5), Bucket::new(B, 5), 0, B);
    assert_eq!(r.err(), Some(PoolError::InvalidAsset));
    let r = Radiswap::instantiate_radiswap(Bucket::new(A, 5), Bucket::new(B, 5), ONE, UNITS);
    assert!(r.is_ok());
}

#[test]
fn swap_without_fee_follows_the_curve() {
    let mut p = pool(1000, 1000, 0);
    let out = p.swap(Bucket::new(A, units(100))).unwrap();
    assert_eq!(out, Bucket::new(B, 90_909_090_909_090_909_090));
    assert_eq!(p.reserve_amounts(), (units(1100), 909_090_909_090_909_090_910));
}

#[test]
fn swap_with_fee_raises_the_product() {
    let mut p = pool(1000, 1000, 3_000_000_000_000_000);
    let out = p.swap(Bucket::new(B, units(100))).unwrap();
    assert_eq!(out, Bucket::new(A, 90_661_089_388_014_913_158));
    let (ra, rb) = p.reserve_amounts();
    assert_eq!((ra, rb), (909_338_910_611_985_086_842, units(1100)));
    let before = units(1000) * 1000;
    let after = (ra / 1_000_000) * (rb / 1_000_000_000_000_000);
    assert!(after > before / 1_000_000);
}

#[test]
fn swap_without_fee_keeps_the_product() {
    let mut p = pool(1000, 1000, 0);
    p.swap(Bucket::new(A, units(100))).unwrap();
    let (ra, rb) = p.reserve_amounts();
    let after = (ra / ONE) * rb;
    assert!(after >= units(1000) * 1000);
}

#[test]
fn swap_refuses_empty_and_foreign_input() {
    let mut p = pool(1000, 1000, 0);
    assert_eq!(p.swap(Bucket::new(A, 0)), Err(PoolError::EmptyInput));
    assert_eq!(p.swap(Bucket::new(OTHER, 5)), Err(PoolError::InvalidAsset));
    assert_eq!(p.swap(Bucket::new(UNITS, 5)), Err(PoolError::InvalidAsset));
    assert_eq!(p.reserve_amounts(), (units(1000), units(1000)));
}

#[test]
fn swap_refuses_negligible_input() {
    let mut p = pool(1000, 1000, 0);
    assert_eq!(p.swap(Bucket::new(A, 1)), Err(PoolError::NegligibleInput));
    assert_eq!(p.reserve_amounts(), (units(1000), units(1000)));
}

#[test]
fn swap_on_a_drained_pool_lacks_liquidity() {
    let mut p = pool(1000, 1000, 0);
    p.remove_liquidity(Bucket::new(UNITS, units(100))).unwrap();
    assert_eq!(p.swap(Bucket::new(A, units(10))), Err(PoolError::InsufficientLiquidity));
}

#[test]
fn swap_never_drains_the_other_reserve() {
    let mut p = pool(1000, 1000, 0);
    let out = p.swap(Bucket::new(A, units(1_000_000_000))).unwrap();
    assert!(out.amount < units(1000));
    assert!(p.reserve_amounts().1 > 0);
}

#[test]
fn add_liquidity_in_ratio_mints_proportionally() {
    let mut p = pool(1000, 1000, 0);
    let (rest_a, rest_b, minted) = p.add_liquidity(Bucket::new(A, units(50)), Bucket::new(B, units(50))).unwrap();
    assert_eq!(rest_a, Bucket::new(A, 0));
    assert_eq!(rest_b, Bucket::new(B, 0));
    assert_eq!(minted, Bucket::new(UNITS, units(5)));
    assert_eq!(p.reserve_amounts(), (units(1050), units(1050)));
    assert_eq!(p.total_supply(), units(105));
}

#[test]
fn add_liquidity_clamps_the_excess_side() {
    let mut p = pool(1000, 1000, 0);
    let (rest_a, rest_b, minted) = p.add_liquidity(Bucket::new(A, units(100)), Bucket::new(B, units(50))).unwrap();
    assert_eq!(rest_a, Bucket::new(A, units(50)));
    assert_eq!(rest_b, Bucket::new(B, 0));
    assert_eq!(minted, Bucket::new(UNITS, units(5)));
    assert_eq!(p.reserve_amounts(), (units(1050), units(1050)));

    let (rest_a, rest_b, minted) = p.add_liquidity(Bucket::new(B, units(210)), Bucket::new(A, units(21))).unwrap();
    assert_eq!(rest_a, Bucket::new(A, 0));
    assert_eq!(rest_b, Bucket::new(B, units(189)));
    assert_eq!(minted, Bucket::new(UNITS, 2_100_000_000_000_000_000));
    assert_eq!(p.reserve_amounts(), (units(1071), units(1071)));
}

#[test]
fn add_liquidity_refuses_bad_buckets() {
    let mut p = pool(1000, 1000, 0);
    assert_eq!(
        p.add_liquidity(Bucket::new(A, 5), Bucket::new(A, 5)),
        Err(PoolError::InvalidAsset)
    );
    assert_eq!(
        p.add_liquidity(Bucket::new(A, 5), Bucket::new(OTHER, 5)),
        Err(PoolError::InvalidAsset)
    );
    assert_eq!(
        p.add_liquidity(Bucket::new(A, 0), Bucket::new(B, 5)),
        Err(PoolError::EmptyInput)
    );
    assert_eq!(p.reserve_amounts(), (units(1000), units(1000)));
    assert_eq!(p.total_supply(), units(100));
}

#[test]
fn first_deposit_into_an_empty_pool_mints_the_baseline() {
    let mut p = pool(1000, 1000, 0);
    p.remove_liquidity(Bucket::new(UNITS, units(100))).unwrap();
    assert_eq!(p.reserve_amounts(), (0, 0));
    assert_eq!(p.total_supply(), 0);
    let (rest_a, rest_b, minted) = p.add_liquidity(Bucket::new(A, units(100)), Bucket::new(B, units(50))).unwrap();
    assert_eq!(rest_a.amount, 0);
    assert_eq!(rest_b.amount, 0);
    assert_eq!(minted, Bucket::new(UNITS, BASELINE_UNITS));
    assert_eq!(p.reserve_amounts(), (units(100), units(50)));
}

#[test]
fn remove_liquidity_pays_the_share() {
    let mut p = pool(1000, 400, 0);
    let (a, b) = p.remove_liquidity(Bucket::new(UNITS, units(10))).unwrap();
    assert_eq!(a, Bucket::new(A, units(100)));
    assert_eq!(b, Bucket::new(B, units(40)));
    assert_eq!(p.reserve_amounts(), (units(900), units(360)));
    assert_eq!(p.total_supply(), units(90));
}

#[test]
fn remove_liquidity_refuses_bad_units() {
    let mut p = pool(1000, 1000, 0);
    assert_eq!(p.remove_liquidity(Bucket::new(A, 5)), Err(PoolError::InvalidAsset));
    assert_eq!(p.remove_liquidity(Bucket::new(UNITS, 0)), Err(PoolError::EmptyInput));
    assert_eq!(
        p.remove_liquidity(Bucket::new(UNITS, units(101))),
        Err(PoolError::InsufficientBalance)
    );
    p.remove_liquidity(Bucket::new(UNITS, units(100))).unwrap();
    assert_eq!(p.remove_liquidity(Bucket::new(UNITS, 5)), Err(PoolError::NoLiquidity));
}

#[test]
fn deposit_then_withdraw_returns_the_deposit() {
    let mut p = pool(1000, 1000, 0);
    let (_, _, minted) = p.add_liquidity(Bucket::new(A, units(50)), Bucket::new(B, units(50))).unwrap();
    let (a, b) = p.remove_liquidity(minted).unwrap();
    assert_eq!(a, Bucket::new(A, units(50)));
    assert_eq!(b, Bucket::new(B, units(50)));
    assert_eq!(p.reserve_amounts(), (units(1000), units(1000)));
}

#[test]
fn deposit_then_withdraw_never_gains_after_a_swap() {
    let mut p = pool(1000, 1000, 0);
    p.swap(Bucket::new(A, units(100))).unwrap();
    let (rest_a, rest_b, minted) = p.add_liquidity(Bucket::new(A, units(30)), Bucket::new(B, units(30))).unwrap();
    let taken_a = units(30) - rest_a.amount;
    let taken_b = units(30) - rest_b.amount;
    let (a, b) = p.remove_liquidity(minted).unwrap();
    assert!(a.amount <= taken_a);
    assert!(b.amount <= taken_b);
    assert!(taken_a - a.amount < units(1) / 1_000_000);
    assert!(taken_b - b.amount < units(1) / 1_000_000);
}

#[test]
fn liquidity_changes_keep_the_ratio() {
    let mut p = pool(1000, 1000, 0);
    p.swap(Bucket::new(A, units(100))).unwrap();
    let (ra, rb) = p.reserve_amounts();
    p.add_liquidity(Bucket::new(A, units(11)), Bucket::new(B, units(11))).unwrap();
    let (ra2, rb2) = p.reserve_amounts();
    let before = ra / (rb / 1_000_000_000);
    let after = ra2 / (rb2 / 1_000_000_000);
    assert!(before.abs_diff(after) <= 1);
    p.remove_liquidity(Bucket::new(UNITS, units(7))).unwrap();
    let (ra3, rb3) = p.reserve_amounts();
    let after_remove = ra3 / (rb3 / 1_000_000_000);
    assert!(before.abs_diff(after_remove) <= 1);
}

#[test]
fn pool_state_round_trips_and_is_checked() {
    let mut p = pool(1000, 1000, 0);
    p.swap(Bucket::new(A, units(100))).unwrap();
    let s = p.state();
    let q = Radiswap::from_state(s).unwrap();
    assert_eq!(q.state(), s);
    let mut bad = s;
    bad.supply = 0;
    assert!(Radiswap::from_state(bad).is_none());
    let mut bad = s;
    bad.fee = ONE + 1;
    assert!(Radiswap::from_state(bad).is_none());
    let mut bad = s;
    bad.asset_b = bad.asset_a;
    assert!(Radiswap::from_state(bad).is_none());
}

#[test]
fn add_liquidity_refuses_a_deposit_that_earns_no_units() {
    let mut p = pool(1000, 1000, 0);
    assert_eq!(
        p.add_liquidity(Bucket::new(A, 1), Bucket::new(B, 1)),
        Err(PoolError::NegligibleInput)
    );
    assert_eq!(p.reserve_amounts(), (units(1000), units(1000)));
    assert_eq!(p.total_supply(), units(100));
}
