//! A constant-product liquidity pool for two assets, with the pool-unit
//! ledger that tracks each provider's share, and the sale and giveaway
//! components that share its custody vaults. Amounts are fixed-point values
//! with eighteen decimal places, held as counts of subunits.

pub mod asset;
pub mod decimal;
pub mod giveaway;
pub mod launchpad;
pub mod laws;
pub mod ledger;
pub mod pool;
pub mod token_sale;
