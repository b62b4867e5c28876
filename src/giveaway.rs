//! A giveaway: anyone may take a claim badge, and each badge can be exchanged
//! once for a fixed amount of tokens.
use crate::asset::{AssetId, Bucket, SaleError, Vault};
use vstd::prelude::*;

verus! {

/// The tokens a new giveaway holds: one thousand whole tokens.
pub const GIVEAWAY_SUPPLY: u128 = 1_000_000_000_000_000_000_000;

/// The tokens handed out for each badge: ten whole tokens.
pub const CLAIM_AMOUNT: u128 = 10_000_000_000_000_000_000;

/// A badge that entitles its holder to one claim. Only a giveaway can issue one.
pub struct ClaimBadge {
    asset: AssetId,
    id: u64,
}

impl ClaimBadge {
    pub closed spec fn spec_asset(&self) -> AssetId {
        self.asset
    }

    pub closed spec fn spec_id(&self) -> u64 {
        self.id
    }

    pub fn asset(&self) -> (r: AssetId)
        ensures
            r == self.spec_asset(),
    {
        self.asset
    }

    pub fn id(&self) -> (r: u64)
        ensures
            r == self.spec_id(),
    {
        self.id
    }
}

/// A giveaway of tokens against claim badges.
pub struct TokenGiveaway {
    vault: Vault,
    claim_badge_asset: AssetId,
    claimed: Vec<bool>,
}

impl TokenGiveaway {
    /// The asset of the tokens given away.
    pub closed spec fn token(&self) -> AssetId {
        self.vault@.asset
    }

    /// The tokens still held.
    pub closed spec fn stock(&self) -> u128 {
        self.vault@.amount
    }

    /// The asset of this giveaway's badges.
    pub closed spec fn badge_asset(&self) -> AssetId {
        self.claim_badge_asset
    }

    /// For each badge issued so far, by its number, whether it has been used.
    pub closed spec fn claimed_flags(&self) -> Seq<bool> {
        self.claimed@
    }

    /// Opens a giveaway of a fresh supply of `token`, with badges of `badge_asset`.
    pub fn instantiate_token_giveaway(token: AssetId, badge_asset: AssetId) -> (r: TokenGiveaway)
        ensures
            r.token() == token,
            r.stock() == GIVEAWAY_SUPPLY,
            r.badge_asset() == badge_asset,
            r.claimed_flags() == Seq::<bool>::empty(),
    {
        TokenGiveaway {
            vault: Vault::with_bucket(Bucket { asset: token, amount: GIVEAWAY_SUPPLY }),
            claim_badge_asset: badge_asset,
            claimed: Vec::new(),
        }
    }

    /// Issues a fresh, unused badge, numbered after those issued before it.
    pub fn mint_claim_badge(&mut self) -> (r: Result<ClaimBadge, SaleError>)
        ensures
            final(self).token() == old(self).token(),
            final(self).stock() == old(self).stock(),
            final(self).badge_asset() == old(self).badge_asset(),
            old(self).claimed_flags().len() >= u64::MAX ==> r == Err::<ClaimBadge, SaleError>(SaleError::Overflow)
                && final(self).claimed_flags() == old(self).claimed_flags(),
            old(self).claimed_flags().len() < u64::MAX ==> r is Ok && r->Ok_0.spec_asset() == old(self).badge_asset()
                && r->Ok_0.spec_id() == old(self).claimed_flags().len() && final(self).claimed_flags()
                == old(self).claimed_flags().push(false),
    {
        let n = self.claimed.len();
        if n as u128 >= u64::MAX as u128 {
            return Err(SaleError::Overflow);
        }
        self.claimed.push(false);
        Ok(ClaimBadge { asset: self.claim_badge_asset, id: n as u64 })
    }

    /// Hands out the claim amount for a badge of this giveaway that has not
    /// been used, and marks it used.
    pub fn claim_tokens(&mut self, badge: &ClaimBadge) -> (r: Result<Bucket, SaleError>)
        ensures
            final(self).token() == old(self).token(),
            final(self).badge_asset() == old(self).badge_asset(),
            ({
                let flags = old(self).claimed_flags();
                let id = badge.spec_id() as int;
                if badge.spec_asset() != old(self).badge_asset() || id >= flags.len() {
                    r == Err::<Bucket, SaleError>(SaleError::InvalidAsset) && final(self).stock() == old(self).stock()
                        && final(self).claimed_flags() == flags
                } else if flags[id] {
                    r == Err::<Bucket, SaleError>(SaleError::AlreadyClaimed) && final(self).stock() == old(self).stock()
                        && final(self).claimed_flags() == flags
                } else if old(self).stock() < CLAIM_AMOUNT {
                    r == Err::<Bucket, SaleError>(SaleError::InsufficientBalance) && final(self).stock() == old(self).stock()
                        && final(self).claimed_flags() == flags
                } else {
                    r == Ok::<Bucket, SaleError>(Bucket { asset: old(self).token(), amount: CLAIM_AMOUNT })
                        && final(self).stock() == old(self).stock() - CLAIM_AMOUNT
                        && final(self).claimed_flags() == flags.update(id, true)
                }
            }),
    {
        if badge.asset != self.claim_badge_asset {
            return Err(SaleError::InvalidAsset);
        }
        if badge.id as u128 >= self.claimed.len() as u128 {
            return Err(SaleError::InvalidAsset);
        }
        let id = badge.id as usize;
        if self.claimed[id] {
            return Err(SaleError::AlreadyClaimed);
        }
        if self.vault.amount() < CLAIM_AMOUNT {
            return Err(SaleError::InsufficientBalance);
        }
        self.claimed.set(id, true);
        match self.vault.take(CLAIM_AMOUNT) {
            Ok(b) => Ok(b),
            Err(_) => Err(SaleError::InsufficientBalance),
        }
    }
}

} // verus!
