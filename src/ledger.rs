//! The pool-unit ledger: the one authority that mints and burns a pool's units.
use crate::asset::{AssetId, Bucket, PoolError};
use vstd::prelude::*;

verus! {

/// The issuer of one pool's units, with the total supply in circulation.
pub struct PoolUnits {
    asset: AssetId,
    supply: u128,
}

impl View for PoolUnits {
    type V = Bucket;

    /// The issuer is seen as its asset and its total supply.
    closed spec fn view(&self) -> Bucket {
        Bucket { asset: self.asset, amount: self.supply }
    }
}

impl PoolUnits {
    pub(crate) fn new(asset: AssetId) -> (r: PoolUnits)
        ensures
            r@ == (Bucket { asset, amount: 0 }),
    {
        PoolUnits { asset, supply: 0 }
    }

    pub(crate) fn with_supply(asset: AssetId, supply: u128) -> (r: PoolUnits)
        ensures
            r@ == (Bucket { asset, amount: supply }),
    {
        PoolUnits { asset, supply }
    }

    pub fn asset(&self) -> (r: AssetId)
        ensures
            r == self@.asset,
    {
        self.asset
    }

    pub fn total_supply(&self) -> (r: u128)
        ensures
            r == self@.amount,
    {
        self.supply
    }

    /// Issues `amount` new units; refuses only when the supply would overflow.
    pub(crate) fn mint(&mut self, amount: u128) -> (r: Result<Bucket, PoolError>)
        ensures
            old(self)@.amount + amount > u128::MAX ==> r == Err::<Bucket, PoolError>(PoolError::Overflow)
                && *final(self) == *old(self),
            old(self)@.amount + amount <= u128::MAX ==> r == Ok::<Bucket, PoolError>(Bucket { asset: old(self)@.asset, amount })
                && final(self)@ == (Bucket { asset: old(self)@.asset, amount: (old(self)@.amount + amount) as u128 }),
    {
        if amount > u128::MAX - self.supply {
            Err(PoolError::Overflow)
        } else {
            self.supply = self.supply + amount;
            Ok(Bucket { asset: self.asset, amount })
        }
    }

    /// Destroys a bucket of this issuer's units.
    pub(crate) fn burn(&mut self, b: Bucket) -> (r: Result<(), PoolError>)
        ensures
            b.asset != old(self)@.asset ==> r == Err::<(), PoolError>(PoolError::InvalidAsset) && *final(self) == *old(self),
            b.asset == old(self)@.asset && b.amount > old(self)@.amount ==> r == Err::<(), PoolError>(PoolError::InsufficientBalance)
                && *final(self) == *old(self),
            b.asset == old(self)@.asset && b.amount <= old(self)@.amount ==> r == Ok::<(), PoolError>(())
                && final(self)@ == (Bucket { asset: old(self)@.asset, amount: (old(self)@.amount - b.amount) as u128 }),
    {
        if b.asset != self.asset {
            Err(PoolError::InvalidAsset)
        } else if b.amount > self.supply {
            Err(PoolError::InsufficientBalance)
        } else {
            self.supply = self.supply - b.amount;
            Ok(())
        }
    }
}

} // verus!
