//! Asset identities, buckets, custody vaults and the pool's error kinds.
use vstd::prelude::*;

verus! {

/// The identity of one asset type.
#[derive(PartialEq, Eq, Structural, Clone, Copy, Debug)]
pub struct AssetId {
    pub id: u64,
}

/// A transient, caller-held quantity of one asset type, in subunits.
#[derive(PartialEq, Eq, Structural, Clone, Copy, Debug)]
pub struct Bucket {
    pub asset: AssetId,
    pub amount: u128,
}

impl Bucket {
    pub fn new(asset: AssetId, amount: u128) -> (r: Bucket)
        ensures
            r == (Bucket { asset, amount }),
    {
        Bucket { asset, amount }
    }
}

/// Why an operation was refused.
#[derive(PartialEq, Eq, Structural, Clone, Copy, Debug)]
pub enum PoolError {
    InvalidAsset,
    EmptyInput,
    InsufficientBalance,
    InsufficientLiquidity,
    NegligibleInput,
    InvalidFee,
    NoLiquidity,
    Overflow,
}

/// Why a sale or a giveaway refused an operation.
#[derive(PartialEq, Eq, Structural, Clone, Copy, Debug)]
pub enum SaleError {
    InvalidAsset,
    EmptyInput,
    InvalidWindow,
    InvalidPrice,
    NotStarted,
    Ended,
    NotEnded,
    SoldOut,
    InsufficientBalance,
    AlreadyClaimed,
    Unauthorized,
    Overflow,
}

/// An exclusively owned holding area, bound for good to one asset type.
pub struct Vault {
    asset: AssetId,
    amount: u128,
}

impl View for Vault {
    type V = Bucket;

    /// A vault is seen as the bucket it holds.
    closed spec fn view(&self) -> Bucket {
        Bucket { asset: self.asset, amount: self.amount }
    }
}

impl Vault {
    pub fn new(asset: AssetId) -> (r: Vault)
        ensures
            r@ == (Bucket { asset, amount: 0 }),
    {
        Vault { asset, amount: 0 }
    }

    pub fn with_bucket(b: Bucket) -> (r: Vault)
        ensures
            r@ == b,
    {
        Vault { asset: b.asset, amount: b.amount }
    }

    pub fn asset(&self) -> (r: AssetId)
        ensures
            r == self@.asset,
    {
        self.asset
    }

    pub fn amount(&self) -> (r: u128)
        ensures
            r == self@.amount,
    {
        self.amount
    }

    /// Deposits a bucket of the vault's own asset.
    pub fn put(&mut self, b: Bucket)
        requires
            b.asset == old(self)@.asset,
            old(self)@.amount + b.amount <= u128::MAX,
        ensures
            final(self)@ == (Bucket { asset: old(self)@.asset, amount: (old(self)@.amount + b.amount) as u128 }),
    {
        self.amount = self.amount + b.amount;
    }

    /// Withdraws exactly `amount`, or refuses when the balance is short.
    pub fn take(&mut self, amount: u128) -> (r: Result<Bucket, PoolError>)
        ensures
            amount > old(self)@.amount ==> r == Err::<Bucket, PoolError>(PoolError::InsufficientBalance)
                && *final(self) == *old(self),
            amount <= old(self)@.amount ==> r == Ok::<Bucket, PoolError>(Bucket { asset: old(self)@.asset, amount })
                && final(self)@ == (Bucket { asset: old(self)@.asset, amount: (old(self)@.amount - amount) as u128 }),
    {
        if amount > self.amount {
            Err(PoolError::InsufficientBalance)
        } else {
            self.amount = self.amount - amount;
            Ok(Bucket { asset: self.asset, amount })
        }
    }
}

} // verus!
