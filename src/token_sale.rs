//! A flat fixed-price exchange: one whole useful token for each payment of
//! the set price.
use crate::asset::{AssetId, Bucket, SaleError, Vault};
use crate::decimal::ONE;
use vstd::prelude::*;

verus! {

/// The useful tokens a new sale starts with: one hundred whole tokens.
pub const SALE_SUPPLY: u128 = 100_000_000_000_000_000_000;

/// What a fixed-price sale holds, as plain values.
#[derive(PartialEq, Eq, Structural, Clone, Copy, Debug)]
pub struct TokenSaleState {
    pub useful_token: AssetId,
    pub pay_token: AssetId,
    pub stock: u128,
    pub collected: u128,
    pub price_per_token: u128,
}

/// A sale of useful tokens for a fixed price each.
pub struct TokenSale {
    useful_tokens_vault: Vault,
    collected_xrd: Vault,
    price_per_token: u128,
}

impl View for TokenSale {
    type V = TokenSaleState;

    closed spec fn view(&self) -> TokenSaleState {
        TokenSaleState {
            useful_token: self.useful_tokens_vault@.asset,
            pay_token: self.collected_xrd@.asset,
            stock: self.useful_tokens_vault@.amount,
            collected: self.collected_xrd@.amount,
            price_per_token: self.price_per_token,
        }
    }
}

impl TokenSale {
    /// Opens a sale of a fresh supply of useful tokens, paid in `pay_token`.
    pub fn instantiate_token_sale(price_per_token: u128, useful_token: AssetId, pay_token: AssetId) -> (r: TokenSale)
        ensures
            r@ == (TokenSaleState { useful_token, pay_token, stock: SALE_SUPPLY, collected: 0, price_per_token }),
    {
        TokenSale {
            useful_tokens_vault: Vault::with_bucket(Bucket { asset: useful_token, amount: SALE_SUPPLY }),
            collected_xrd: Vault::new(pay_token),
            price_per_token,
        }
    }

    /// Keeps the price out of the payment and hands back one whole useful
    /// token and the change.
    pub fn buy_useful_tokens(&mut self, payment: Bucket) -> (r: Result<(Bucket, Bucket), SaleError>)
        ensures
            ({
                let s = old(self)@;
                if payment.asset != s.pay_token {
                    r == Err::<(Bucket, Bucket), SaleError>(SaleError::InvalidAsset) && final(self)@ == s
                } else if payment.amount < s.price_per_token {
                    r == Err::<(Bucket, Bucket), SaleError>(SaleError::InsufficientBalance) && final(self)@ == s
                } else if s.stock < ONE {
                    r == Err::<(Bucket, Bucket), SaleError>(SaleError::SoldOut) && final(self)@ == s
                } else if s.collected + s.price_per_token > u128::MAX {
                    r == Err::<(Bucket, Bucket), SaleError>(SaleError::Overflow) && final(self)@ == s
                } else {
                    &&& r == Ok::<(Bucket, Bucket), SaleError>(
                        (
                            Bucket { asset: s.useful_token, amount: ONE },
                            Bucket { asset: s.pay_token, amount: (payment.amount - s.price_per_token) as u128 },
                        ),
                    )
                    &&& final(self)@ == (TokenSaleState {
                        stock: (s.stock - ONE) as u128,
                        collected: (s.collected + s.price_per_token) as u128,
                        ..s
                    })
                }
            }),
    {
        let pay_token = self.collected_xrd.asset();
        if payment.asset != pay_token {
            return Err(SaleError::InvalidAsset);
        }
        if payment.amount < self.price_per_token {
            return Err(SaleError::InsufficientBalance);
        }
        if self.useful_tokens_vault.amount() < ONE {
            return Err(SaleError::SoldOut);
        }
        if self.price_per_token > u128::MAX - self.collected_xrd.amount() {
            return Err(SaleError::Overflow);
        }
        self.collected_xrd.put(Bucket { asset: pay_token, amount: self.price_per_token });
        let token = match self.useful_tokens_vault.take(ONE) {
            Ok(b) => b,
            Err(_) => return Err(SaleError::SoldOut),
        };
        Ok((token, Bucket { asset: pay_token, amount: payment.amount - self.price_per_token }))
    }
}

} // verus!
