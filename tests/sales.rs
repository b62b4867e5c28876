use radiswap::asset::{AssetId, Bucket, SaleError};
use radiswap::decimal::ONE;
use radiswap::giveaway::{TokenGiveaway, CLAIM_AMOUNT, GIVEAWAY_SUPPLY};
use radiswap::launchpad::Launchpad;
use radiswap::token_sale::{TokenSale, SALE_SUPPLY};
use std::time::{SystemTime, UNIX_EPOCH};

const SOLD: AssetId = AssetId { id: 10 };
const PAY: AssetId = AssetId { id: 11 };
const RECEIPT: AssetId = AssetId { id: 12 };
const OWNER: AssetId = AssetId { id: 13 };
const OTHER: AssetId = AssetId { id: 14 };

fn units(n: u128) -> u128 {
    n * ONE
}

fn launchpad(start: i64) -> Launchpad {
    Launchpad::instantiate_launchpad(start, start + 100, SOLD, PAY, units(5), Bucket::new(SOLD, units(1000)), RECEIPT, OWNER)
        .unwrap()
}

#[test]
fn test_hello() {
    let current_timestamp = SystemTime::now()
        .duration_since(UNIX_EPOCH)
        .expect("Time went backwards")
        .as_secs() as i64;
    let sale = Launchpad::instantiate_launchpad(
        current_timestamp,
        current_timestamp + 100,
        SOLD,
        PAY,
        units(5),
        Bucket::new(SOLD, units(1000)),
        RECEIPT,
        OWNER,
    )
    .unwrap();
    assert_eq!(sale.start_time(), current_timestamp);
    assert_eq!(sale.end_time(), current_timestamp + 100);
    assert_eq!(sale.sold_token_vault_amount(), units(1000));
    assert_eq!(sale.pay_token_vault_amount(), 0);
}

#[test]
fn launchpad_refuses_bad_setup() {
    let b = Bucket::new(SOLD, units(10));
    assert_eq!(Launchpad::instantiate_launchpad(5, 5, SOLD, PAY, 1, b, RECEIPT, OWNER).err(), Some(SaleError::InvalidWindow));
    assert_eq!(Launchpad::instantiate_launchpad(5, 6, SOLD, PAY, 0, b, RECEIPT, OWNER).err(), Some(SaleError::InvalidPrice));
    assert_eq!(
        Launchpad::instantiate_launchpad(5, 6, SOLD, PAY, 1, Bucket::new(SOLD, 0), RECEIPT, OWNER).err(),
        Some(SaleError::EmptyInput)
    );
    assert_eq!(
        Launchpad::instantiate_launchpad(5, 6, SOLD, PAY, 1, Bucket::new(OTHER, 3), RECEIPT, OWNER).err(),
        Some(SaleError::InvalidAsset)
    );
}

#[test]
fn launchpad_buy_then_claim() {
    let mut sale = launchpad(1000);
    let (receipt, change) = sale.buy(1050, Bucket::new(PAY, units(1001))).unwrap();
    assert_eq!(receipt.amount(), 200_200_000_000_000_000_000);
    assert_eq!(receipt.asset(), RECEIPT);
    assert_eq!(change, Bucket::new(PAY, 0));
    assert_eq!(sale.pay_token_vault_amount(), units(1001));

    let (receipt, change) = sale.buy(1050, Bucket::new(PAY, 7)).unwrap();
    assert_eq!(receipt.amount(), 1);
    assert_eq!(change, Bucket::new(PAY, 2));
    assert_eq!(sale.pay_token_vault_amount(), units(1001) + 5);
    assert_eq!(sale.claim(1099, receipt).err(), Some(SaleError::NotEnded));
}

#[test]
fn launchpad_buy_in_the_window_only() {
    let mut sale = launchpad(1000);
    assert_eq!(sale.buy(999, Bucket::new(PAY, units(5))).err(), Some(SaleError::NotStarted));
    assert_eq!(sale.buy(1100, Bucket::new(PAY, units(5))).err(), Some(SaleError::Ended));
    assert_eq!(sale.buy(1000, Bucket::new(OTHER, units(5))).err(), Some(SaleError::InvalidAsset));
    assert_eq!(sale.buy(1000, Bucket::new(PAY, 0)).err(), Some(SaleError::EmptyInput));
    assert_eq!(sale.buy(1000, Bucket::new(PAY, units(5001))).err(), Some(SaleError::SoldOut));
    assert_eq!(sale.pay_token_vault_amount(), 0);
}

#[test]
fn launchpad_claim_and_withdraw_after_the_end() {
    let mut sale = launchpad(1000);
    let (receipt, _) = sale.buy(1000, Bucket::new(PAY, units(500))).unwrap();
    assert_eq!(receipt.amount(), units(100));
    assert_eq!(sale.buy(1001, Bucket::new(PAY, units(4501))).err(), Some(SaleError::SoldOut));
    assert_eq!(sale.withdraw_funds(1100, OTHER).err(), Some(SaleError::Unauthorized));
    assert_eq!(sale.withdraw_funds(1099, OWNER).err(), Some(SaleError::NotEnded));
    assert_eq!(sale.withdraw_unsold_tokens(1099, OWNER).err(), Some(SaleError::NotEnded));
    assert_eq!(sale.withdraw_funds(1100, OWNER), Ok(Bucket::new(PAY, units(500))));
    assert_eq!(sale.withdraw_unsold_tokens(1100, OWNER), Ok(Bucket::new(SOLD, units(900))));
    assert_eq!(sale.claim(1100, receipt), Ok(Bucket::new(SOLD, units(100))));
    assert_eq!(sale.sold_token_vault_amount(), 0);
}

#[test]
fn launchpad_refuses_foreign_receipts() {
    let mut sale = launchpad(1000);
    let mut other = Launchpad::instantiate_launchpad(1000, 1100, SOLD, PAY, units(5), Bucket::new(SOLD, units(10)), OTHER, OWNER)
        .unwrap();
    let (receipt, _) = other.buy(1000, Bucket::new(PAY, units(5))).unwrap();
    assert_eq!(sale.claim(1200, receipt).err(), Some(SaleError::InvalidAsset));
}

#[test]
fn token_sale_sells_one_token_per_price() {
    let mut sale = TokenSale::instantiate_token_sale(units(3), SOLD, PAY);
    let (token, change) = sale.buy_useful_tokens(Bucket::new(PAY, units(5))).unwrap();
    assert_eq!(token, Bucket::new(SOLD, ONE));
    assert_eq!(change, Bucket::new(PAY, units(2)));
    assert_eq!(sale.buy_useful_tokens(Bucket::new(PAY, units(2))).err(), Some(SaleError::InsufficientBalance));
    assert_eq!(sale.buy_useful_tokens(Bucket::new(OTHER, units(9))).err(), Some(SaleError::InvalidAsset));
}

#[test]
fn token_sale_runs_out() {
    let mut sale = TokenSale::instantiate_token_sale(0, SOLD, PAY);
    let mut bought: u128 = 0;
    while sale.buy_useful_tokens(Bucket::new(PAY, 0)).is_ok() {
        bought += 1;
    }
    assert_eq!(bought * ONE, SALE_SUPPLY);
    assert_eq!(sale.buy_useful_tokens(Bucket::new(PAY, 0)).err(), Some(SaleError::SoldOut));
}

#[test]
fn giveaway_pays_each_badge_once() {
    let mut g = TokenGiveaway::instantiate_token_giveaway(SOLD, RECEIPT);
    let first = g.mint_claim_badge().unwrap();
    let second = g.mint_claim_badge().unwrap();
    assert_eq!(first.id(), 0);
    assert_eq!(second.id(), 1);
    assert_eq!(first.asset(), RECEIPT);
    assert_eq!(g.claim_tokens(&first), Ok(Bucket::new(SOLD, CLAIM_AMOUNT)));
    assert_eq!(g.claim_tokens(&first).err(), Some(SaleError::AlreadyClaimed));
    assert_eq!(g.claim_tokens(&second), Ok(Bucket::new(SOLD, units(10))));
}

#[test]
fn giveaway_refuses_foreign_badges_and_runs_out() {
    let mut g = TokenGiveaway::instantiate_token_giveaway(SOLD, RECEIPT);
    let mut other = TokenGiveaway::instantiate_token_giveaway(SOLD, OTHER);
    let foreign = other.mint_claim_badge().unwrap();
    assert_eq!(g.claim_tokens(&foreign).err(), Some(SaleError::InvalidAsset));
    let mut paid: u128 = 0;
    loop {
        let badge = g.mint_claim_badge().unwrap();
        match g.claim_tokens(&badge) {
            Ok(b) => paid += b.amount,
            Err(e) => {
                assert_eq!(e, SaleError::InsufficientBalance);
                break;
            }
        }
    }
    assert_eq!(paid, GIVEAWAY_SUPPLY);
}
