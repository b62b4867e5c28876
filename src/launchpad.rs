//! A time-gated sale of a fixed token supply at a fixed price. Buyers pay
//! within the window and get a receipt; after the window closes each receipt
//! is exchanged for the tokens it records, and the owner collects the payments
//! and whatever was not sold. The caller supplies the current time.
use crate::asset::{AssetId, Bucket, SaleError, Vault};
use crate::decimal::{div_dec, div_value, fits, lemma_cost_within, mul_dec, mul_value};
use vstd::prelude::*;

verus! {

/// A receipt for tokens bought in a sale, redeemable once the sale has ended.
/// Only a sale can issue one.
pub struct PurchaseReceipt {
    asset: AssetId,
    amount: u128,
}

impl View for PurchaseReceipt {
    type V = Bucket;

    /// A receipt is seen as the receipt asset and the amount of sold tokens it records.
    closed spec fn view(&self) -> Bucket {
        Bucket { asset: self.asset, amount: self.amount }
    }
}

impl PurchaseReceipt {
    pub fn asset(&self) -> (r: AssetId)
        ensures
            r == self@.asset,
    {
        self.asset
    }

    pub fn amount(&self) -> (r: u128)
        ensures
            r == self@.amount,
    {
        self.amount
    }
}

/// What a sale holds, as plain values.
#[derive(PartialEq, Eq, Structural, Clone, Copy, Debug)]
pub struct LaunchpadState {
    pub start_time: i64,
    pub end_time: i64,
    pub sold_token: AssetId,
    pub pay_token: AssetId,
    pub receipt_asset: AssetId,
    pub owner_badge: AssetId,
    pub price: u128,
    pub sold: u128,
    pub paid: u128,
    pub reserved: u128,
}

/// A sale's invariant: a non-empty window, a positive price, and no more
/// tokens promised to receipts than are held.
pub open spec fn launchpad_wf(s: LaunchpadState) -> bool {
    &&& s.start_time < s.end_time
    &&& s.price > 0
    &&& s.reserved <= s.sold
}

/// A sale after a purchase made at `now`, the amount recorded on the receipt
/// and the change, or why the purchase is refused.
pub open spec fn buy_result(s: LaunchpadState, now: i64, payment: Bucket) -> Result<(LaunchpadState, u128, Bucket), SaleError> {
    let amount = div_value(payment.amount as int, s.price as int);
    let cost = mul_value(amount, s.price as int);
    if now < s.start_time {
        Err(SaleError::NotStarted)
    } else if now >= s.end_time {
        Err(SaleError::Ended)
    } else if payment.asset != s.pay_token {
        Err(SaleError::InvalidAsset)
    } else if !fits(amount) {
        Err(SaleError::Overflow)
    } else if amount == 0 {
        Err(SaleError::EmptyInput)
    } else if amount > s.sold - s.reserved {
        Err(SaleError::SoldOut)
    } else if !fits(s.paid + cost) {
        Err(SaleError::Overflow)
    } else {
        Ok(
            (
                LaunchpadState { paid: (s.paid + cost) as u128, reserved: (s.reserved + amount) as u128, ..s },
                amount as u128,
                Bucket { asset: s.pay_token, amount: (payment.amount - cost) as u128 },
            ),
        )
    }
}

/// A sale of a fixed supply within a time window.
pub struct Launchpad {
    start_time: i64,
    end_time: i64,
    sold_token: AssetId,
    pay_token: AssetId,
    receipt_asset: AssetId,
    owner_badge: AssetId,
    price: u128,
    sold_token_vault: Vault,
    pay_token_vault: Vault,
    reserved: u128,
}

impl View for Launchpad {
    type V = LaunchpadState;

    closed spec fn view(&self) -> LaunchpadState {
        LaunchpadState {
            start_time: self.start_time,
            end_time: self.end_time,
            sold_token: self.sold_token,
            pay_token: self.pay_token,
            receipt_asset: self.receipt_asset,
            owner_badge: self.owner_badge,
            price: self.price,
            sold: self.sold_token_vault@.amount,
            paid: self.pay_token_vault@.amount,
            reserved: self.reserved,
        }
    }
}

impl Launchpad {
    pub closed spec fn vaults_bound(&self) -> bool {
        self.sold_token_vault@.asset == self.sold_token && self.pay_token_vault@.asset == self.pay_token
    }

    pub open spec fn wf(&self) -> bool {
        launchpad_wf(self@) && self.vaults_bound()
    }

    /// Opens a sale of the tokens in `sold_token_bucket` at `price` pay tokens
    /// each, between `start_time` (included) and `end_time` (excluded).
    pub fn instantiate_launchpad(
        start_time: i64,
        end_time: i64,
        sold_token: AssetId,
        pay_token: AssetId,
        price: u128,
        sold_token_bucket: Bucket,
        receipt_asset: AssetId,
        owner_badge: AssetId,
    ) -> (r: Result<Launchpad, SaleError>)
        ensures
            start_time >= end_time ==> r == Err::<Launchpad, SaleError>(SaleError::InvalidWindow),
            start_time < end_time && price == 0 ==> r == Err::<Launchpad, SaleError>(SaleError::InvalidPrice),
            start_time < end_time && price > 0 && sold_token_bucket.amount == 0 ==> r == Err::<Launchpad, SaleError>(
                SaleError::EmptyInput,
            ),
            start_time < end_time && price > 0 && sold_token_bucket.amount > 0 && sold_token_bucket.asset != sold_token
                ==> r == Err::<Launchpad, SaleError>(SaleError::InvalidAsset),
            start_time < end_time && price > 0 && sold_token_bucket.amount > 0 && sold_token_bucket.asset == sold_token
                ==> r is Ok && r->Ok_0.wf() && r->Ok_0@ == (LaunchpadState {
                    start_time,
                    end_time,
                    sold_token,
                    pay_token,
                    receipt_asset,
                    owner_badge,
                    price,
                    sold: sold_token_bucket.amount,
                    paid: 0,
                    reserved: 0,
                }),
    {
        if start_time >= end_time {
            return Err(SaleError::InvalidWindow);
        }
        if price == 0 {
            return Err(SaleError::InvalidPrice);
        }
        if sold_token_bucket.amount == 0 {
            return Err(SaleError::EmptyInput);
        }
        if sold_token_bucket.asset != sold_token {
            return Err(SaleError::InvalidAsset);
        }
        Ok(Launchpad {
            start_time,
            end_time,
            sold_token,
            pay_token,
            receipt_asset,
            owner_badge,
            price,
            sold_token_vault: Vault::with_bucket(sold_token_bucket),
            pay_token_vault: Vault::new(pay_token),
            reserved: 0,
        })
    }

    /// Buys, at `now`, as many tokens as the payment covers, keeps their cost
    /// and hands back a receipt and the change.
    pub fn buy(&mut self, now: i64, payment: Bucket) -> (r: Result<(PurchaseReceipt, Bucket), SaleError>)
        requires
            old(self).wf(),
        ensures
            final(self).wf(),
            match buy_result(old(self)@, now, payment) {
                Ok((s, amount, change)) => r is Ok && r->Ok_0.0@ == (Bucket { asset: s.receipt_asset, amount })
                    && r->Ok_0.1 == change && final(self)@ == s,
                Err(e) => r == Err::<(PurchaseReceipt, Bucket), SaleError>(e) && final(self)@ == old(self)@,
            },
    {
        if now < self.start_time {
            return Err(SaleError::NotStarted);
        }
        if now >= self.end_time {
            return Err(SaleError::Ended);
        }
        if payment.asset != self.pay_token {
            return Err(SaleError::InvalidAsset);
        }
        let amount = match div_dec(payment.amount, self.price) {
            Some(v) => v,
            None => return Err(SaleError::Overflow),
        };
        if amount == 0 {
            return Err(SaleError::EmptyInput);
        }
        if amount > self.sold_token_vault.amount() - self.reserved {
            return Err(SaleError::SoldOut);
        }
        proof {
            lemma_cost_within(payment.amount as int, self.price as int);
        }
        let cost = match mul_dec(amount, self.price) {
            Some(v) => v,
            None => return Err(SaleError::Overflow),
        };
        if cost > u128::MAX - self.pay_token_vault.amount() {
            return Err(SaleError::Overflow);
        }
        self.pay_token_vault.put(Bucket { asset: self.pay_token, amount: cost });
        self.reserved = self.reserved + amount;
        Ok((PurchaseReceipt { asset: self.receipt_asset, amount }, Bucket { asset: self.pay_token, amount: payment.amount - cost }))
    }

    /// Redeems a receipt, once the sale has ended, for the tokens it records.
    pub fn claim(&mut self, now: i64, receipt: PurchaseReceipt) -> (r: Result<Bucket, SaleError>)
        requires
            old(self).wf(),
        ensures
            final(self).wf(),
            now < old(self)@.end_time ==> r == Err::<Bucket, SaleError>(SaleError::NotEnded) && final(self)@ == old(self)@,
            now >= old(self)@.end_time && receipt@.asset != old(self)@.receipt_asset ==> r == Err::<Bucket, SaleError>(
                SaleError::InvalidAsset,
            ) && final(self)@ == old(self)@,
            now >= old(self)@.end_time && receipt@.asset == old(self)@.receipt_asset && receipt@.amount > old(self)@.reserved
                ==> r == Err::<Bucket, SaleError>(SaleError::InsufficientBalance) && final(self)@ == old(self)@,
            now >= old(self)@.end_time && receipt@.asset == old(self)@.receipt_asset && receipt@.amount <= old(self)@.reserved
                ==> r == Ok::<Bucket, SaleError>(Bucket { asset: old(self)@.sold_token, amount: receipt@.amount })
                && final(self)@ == (LaunchpadState {
                    sold: (old(self)@.sold - receipt@.amount) as u128,
                    reserved: (old(self)@.reserved - receipt@.amount) as u128,
                    ..old(self)@
                }),
    {
        if now < self.end_time {
            return Err(SaleError::NotEnded);
        }
        if receipt.asset != self.receipt_asset {
            return Err(SaleError::InvalidAsset);
        }
        if receipt.amount > self.reserved {
            return Err(SaleError::InsufficientBalance);
        }
        self.reserved = self.reserved - receipt.amount;
        match self.sold_token_vault.take(receipt.amount) {
            Ok(b) => Ok(b),
            Err(_) => Err(SaleError::InsufficientBalance),
        }
    }

    /// Hands the owner, once the sale has ended, every payment collected.
    pub fn withdraw_funds(&mut self, now: i64, badge: AssetId) -> (r: Result<Bucket, SaleError>)
        requires
            old(self).wf(),
        ensures
            final(self).wf(),
            badge != old(self)@.owner_badge ==> r == Err::<Bucket, SaleError>(SaleError::Unauthorized) && final(self)@ == old(self)@,
            badge == old(self)@.owner_badge && now < old(self)@.end_time ==> r == Err::<Bucket, SaleError>(SaleError::NotEnded)
                && final(self)@ == old(self)@,
            badge == old(self)@.owner_badge && now >= old(self)@.end_time ==> r == Ok::<Bucket, SaleError>(
                Bucket { asset: old(self)@.pay_token, amount: old(self)@.paid },
            ) && final(self)@ == (LaunchpadState { paid: 0, ..old(self)@ }),
    {
        if badge != self.owner_badge {
            return Err(SaleError::Unauthorized);
        }
        if now < self.end_time {
            return Err(SaleError::NotEnded);
        }
        let all = self.pay_token_vault.amount();
        match self.pay_token_vault.take(all) {
            Ok(b) => Ok(b),
            Err(_) => Err(SaleError::InsufficientBalance),
        }
    }

    /// Hands the owner, once the sale has ended, the tokens that no receipt
    /// records.
    pub fn withdraw_unsold_tokens(&mut self, now: i64, badge: AssetId) -> (r: Result<Bucket, SaleError>)
        requires
            old(self).wf(),
        ensures
            final(self).wf(),
            badge != old(self)@.owner_badge ==> r == Err::<Bucket, SaleError>(SaleError::Unauthorized) && final(self)@ == old(self)@,
            badge == old(self)@.owner_badge && now < old(self)@.end_time ==> r == Err::<Bucket, SaleError>(SaleError::NotEnded)
                && final(self)@ == old(self)@,
            badge == old(self)@.owner_badge && now >= old(self)@.end_time ==> r == Ok::<Bucket, SaleError>(
                Bucket { asset: old(self)@.sold_token, amount: (old(self)@.sold - old(self)@.reserved) as u128 },
            ) && final(self)@ == (LaunchpadState { sold: old(self)@.reserved, ..old(self)@ }),
    {
        if badge != self.owner_badge {
            return Err(SaleError::Unauthorized);
        }
        if now < self.end_time {
            return Err(SaleError::NotEnded);
        }
        let unsold = self.sold_token_vault.amount() - self.reserved;
        match self.sold_token_vault.take(unsold) {
            Ok(b) => Ok(b),
            Err(_) => Err(SaleError::InsufficientBalance),
        }
    }

    pub fn sold_token_vault_amount(&self) -> (r: u128)
        ensures
            r == self@.sold,
    {
        self.sold_token_vault.amount()
    }

    pub fn pay_token_vault_amount(&self) -> (r: u128)
        ensures
            r == self@.paid,
    {
        self.pay_token_vault.amount()
    }

    pub fn start_time(&self) -> (r: i64)
        ensures
            r == self@.start_time,
    {
        self.start_time
    }

    pub fn end_time(&self) -> (r: i64)
        ensures
            r == self@.end_time,
    {
        self.end_time
    }
}

} // verus!
