//! The constant-product liquidity pool: two reserve vaults, a pool-unit ledger
//! and a fixed fee, with swap and proportional deposit and withdrawal.
use crate::asset::{AssetId, Bucket, PoolError, Vault};
use crate::decimal::{div_dec, div_value, fits, lemma_floor_cross, lemma_mul_div, mul_dec, mul_value, ONE};
use crate::ledger::PoolUnits;
use vstd::prelude::*;

verus! {

/// The pool units minted for the first deposit into an empty pool: one hundred
/// whole units, so that later small deposits keep enough precision.
pub const BASELINE_UNITS: u128 = 100_000_000_000_000_000_000;

/// What a pool holds, as plain values.
#[derive(PartialEq, Eq, Structural, Clone, Copy, Debug)]
pub struct PoolState {
    pub asset_a: AssetId,
    pub asset_b: AssetId,
    pub unit_asset: AssetId,
    pub reserve_a: u128,
    pub reserve_b: u128,
    pub supply: u128,
    pub fee: u128,
}

/// The pool's invariant: three distinct assets, a fee in `[0, 1]`, and a unit
/// supply that is zero exactly when both reserves are.
pub open spec fn pool_wf(s: PoolState) -> bool {
    &&& s.asset_a != s.asset_b
    &&& s.unit_asset != s.asset_a
    &&& s.unit_asset != s.asset_b
    &&& s.fee <= ONE
    &&& (s.supply == 0 <==> s.reserve_a == 0)
    &&& (s.supply == 0 <==> s.reserve_b == 0)
}

/// The same pool with new reserves and a new unit supply.
pub open spec fn with_reserves(s: PoolState, reserve_a: int, reserve_b: int, supply: int) -> PoolState {
    PoolState {
        asset_a: s.asset_a,
        asset_b: s.asset_b,
        unit_asset: s.unit_asset,
        reserve_a: reserve_a as u128,
        reserve_b: reserve_b as u128,
        supply: supply as u128,
        fee: s.fee,
    }
}

/// A pool made from two initial buckets, a fee and the asset of its units,
/// with the units minted to its creator.
pub open spec fn instantiate_result(a: Bucket, b: Bucket, fee: u128, unit_asset: AssetId) -> Result<
    (PoolState, Bucket),
    PoolError,
> {
    if a.amount == 0 || b.amount == 0 {
        Err(PoolError::EmptyInput)
    } else if fee > ONE {
        Err(PoolError::InvalidFee)
    } else if a.asset == b.asset || unit_asset == a.asset || unit_asset == b.asset {
        Err(PoolError::InvalidAsset)
    } else {
        Ok(
            (
                PoolState {
                    asset_a: a.asset,
                    asset_b: b.asset,
                    unit_asset,
                    reserve_a: a.amount,
                    reserve_b: b.amount,
                    supply: BASELINE_UNITS,
                    fee,
                },
                Bucket { asset: unit_asset, amount: BASELINE_UNITS },
            ),
        )
    }
}

/// The input left after the fee is taken.
pub open spec fn effective_input(amount: int, fee: int) -> int {
    mul_value(amount, ONE - fee)
}

/// The constant-product curve: `out_res * eff / (in_res + eff)`, each step
/// truncated.
pub open spec fn swap_output(in_res: int, out_res: int, amount: int, fee: int) -> int {
    div_value(mul_value(out_res, effective_input(amount, fee)), in_res + effective_input(amount, fee))
}

/// The pool after a swap and the bucket paid out, or why the swap is refused.
pub open spec fn swap_result(s: PoolState, input: Bucket) -> Result<(PoolState, Bucket), PoolError> {
    let from_a = input.asset == s.asset_a;
    let in_res: int = if from_a { s.reserve_a as int } else { s.reserve_b as int };
    let out_res: int = if from_a { s.reserve_b as int } else { s.reserve_a as int };
    let eff = effective_input(input.amount as int, s.fee as int);
    let num = mul_value(out_res, eff);
    let den = in_res + eff;
    let out = div_value(num, den);
    if input.asset != s.asset_a && input.asset != s.asset_b {
        Err(PoolError::InvalidAsset)
    } else if input.amount == 0 {
        Err(PoolError::EmptyInput)
    } else if in_res == 0 || out_res == 0 {
        Err(PoolError::InsufficientLiquidity)
    } else if !fits(eff) || !fits(num) || !fits(den) || !fits(out) {
        Err(PoolError::Overflow)
    } else if out >= out_res {
        Err(PoolError::InsufficientLiquidity)
    } else if out == 0 {
        Err(PoolError::NegligibleInput)
    } else if !fits(in_res + input.amount) {
        Err(PoolError::Overflow)
    } else if from_a {
        Ok((with_reserves(s, in_res + input.amount, out_res - out, s.supply as int), Bucket { asset: s.asset_b, amount: out as u128 }))
    } else {
        Ok((with_reserves(s, out_res - out, in_res + input.amount, s.supply as int), Bucket { asset: s.asset_a, amount: out as u128 }))
    }
}

/// The amount of a reserve that `units` of a supply of `supply` stand for:
/// `reserve * units / supply`, truncated, and the whole reserve for the whole
/// supply.
pub open spec fn share_of(reserve: int, units: int, supply: int) -> int {
    if units == supply {
        reserve
    } else {
        div_value(mul_value(reserve, units), supply)
    }
}

/// The pool after pool units are burned and the two buckets paid out, or why
/// the withdrawal is refused.
pub open spec fn remove_result(s: PoolState, units: Bucket) -> Result<(PoolState, Bucket, Bucket), PoolError> {
    let u = units.amount as int;
    let total = s.supply as int;
    let wa = share_of(s.reserve_a as int, u, total);
    let wb = share_of(s.reserve_b as int, u, total);
    if units.asset != s.unit_asset {
        Err(PoolError::InvalidAsset)
    } else if u == 0 {
        Err(PoolError::EmptyInput)
    } else if total == 0 {
        Err(PoolError::NoLiquidity)
    } else if u > total {
        Err(PoolError::InsufficientBalance)
    } else if u < total && (!fits(mul_value(s.reserve_a as int, u)) || !fits(mul_value(s.reserve_b as int, u))
        || !fits(wa) || !fits(wb)) {
        Err(PoolError::Overflow)
    } else {
        Ok(
            (
                with_reserves(s, s.reserve_a - wa, s.reserve_b - wb, total - u),
                Bucket { asset: s.asset_a, amount: wa as u128 },
                Bucket { asset: s.asset_b, amount: wb as u128 },
            ),
        )
    }
}

/// The smaller of two values.
pub open spec fn min_of(x: int, y: int) -> int {
    if x <= y {
        x
    } else {
        y
    }
}

/// The amounts of a deposit of `(dm, dn)` that a non-empty pool takes, and the
/// units it mints for them; `None` when a step overflows. The side supplied in
/// excess is clamped to the pool's ratio, and the units are the smaller of the
/// two proportional shares of the supply.
pub open spec fn deposit_plan(m: int, n: int, total: int, dm: int, dn: int) -> Option<(int, int, int)> {
    let vault_ratio = div_value(m, n);
    let input_ratio = div_value(dm, dn);
    let a_used = if input_ratio > vault_ratio {
        div_value(mul_value(dn, m), n)
    } else {
        dm
    };
    let b_used = if input_ratio < vault_ratio {
        div_value(mul_value(dm, n), m)
    } else {
        dn
    };
    let by_a = div_value(mul_value(a_used, total), m);
    let by_b = div_value(mul_value(b_used, total), n);
    if !fits(vault_ratio) || !fits(input_ratio) {
        None
    } else if input_ratio > vault_ratio && (!fits(mul_value(dn, m)) || !fits(a_used)) {
        None
    } else if input_ratio < vault_ratio && (!fits(mul_value(dm, n)) || !fits(b_used)) {
        None
    } else if !fits(mul_value(a_used, total)) || !fits(by_a) || !fits(mul_value(b_used, total)) || !fits(by_b) {
        None
    } else {
        Some((a_used, b_used, min_of(by_a, by_b)))
    }
}

/// The pool after a deposit, the two unused remainders and the minted units,
/// or why the deposit is refused.
pub open spec fn add_result(s: PoolState, x: Bucket, y: Bucket) -> Result<(PoolState, Bucket, Bucket, Bucket), PoolError> {
    let in_order = x.asset == s.asset_a && y.asset == s.asset_b;
    let swapped = x.asset == s.asset_b && y.asset == s.asset_a;
    let dm: int = if in_order { x.amount as int } else { y.amount as int };
    let dn: int = if in_order { y.amount as int } else { x.amount as int };
    let m = s.reserve_a as int;
    let n = s.reserve_b as int;
    let total = s.supply as int;
    let plan = if total == 0 {
        Some((dm, dn, BASELINE_UNITS as int))
    } else {
        deposit_plan(m, n, total, dm, dn)
    };
    if !in_order && !swapped {
        Err(PoolError::InvalidAsset)
    } else if dm == 0 || dn == 0 {
        Err(PoolError::EmptyInput)
    } else {
        match plan {
            None => Err(PoolError::Overflow),
            Some((a_used, b_used, minted)) => if minted == 0 {
                Err(PoolError::NegligibleInput)
            } else if !fits(m + a_used) || !fits(n + b_used) || !fits(total + minted) {
                Err(PoolError::Overflow)
            } else {
                Ok(
                    (
                        with_reserves(s, m + a_used, n + b_used, total + minted),
                        Bucket { asset: s.asset_a, amount: (dm - a_used) as u128 },
                        Bucket { asset: s.asset_b, amount: (dn - b_used) as u128 },
                        Bucket { asset: s.unit_asset, amount: minted as u128 },
                    ),
                )
            },
        }
    }
}

/// A constant-product pool of two assets.
pub struct Radiswap {
    vault_a: Vault,
    vault_b: Vault,
    pool_units: PoolUnits,
    fee: u128,
}

impl View for Radiswap {
    type V = PoolState;

    closed spec fn view(&self) -> PoolState {
        PoolState {
            asset_a: self.vault_a@.asset,
            asset_b: self.vault_b@.asset,
            unit_asset: self.pool_units@.asset,
            reserve_a: self.vault_a@.amount,
            reserve_b: self.vault_b@.amount,
            supply: self.pool_units@.amount,
            fee: self.fee,
        }
    }
}

impl Radiswap {
    pub open spec fn wf(&self) -> bool {
        pool_wf(self@)
    }

    /// Creates a pool from two non-empty buckets of distinct assets and a fee
    /// in `[0, 1]`, and mints the baseline units to the creator.
    pub fn instantiate_radiswap(bucket_a: Bucket, bucket_b: Bucket, fee: u128, unit_asset: AssetId) -> (r: Result<
        (Radiswap, Bucket),
        PoolError,
    >)
        ensures
            match instantiate_result(bucket_a, bucket_b, fee, unit_asset) {
                Ok((s, units)) => r is Ok && r->Ok_0.0@ == s && r->Ok_0.0.wf() && r->Ok_0.1 == units,
                Err(e) => r == Err::<(Radiswap, Bucket), PoolError>(e),
            },
    {
        if bucket_a.amount == 0 || bucket_b.amount == 0 {
            return Err(PoolError::EmptyInput);
        }
        if fee > ONE {
            return Err(PoolError::InvalidFee);
        }
        if bucket_a.asset == bucket_b.asset || unit_asset == bucket_a.asset || unit_asset == bucket_b.asset {
            return Err(PoolError::InvalidAsset);
        }
        let mut pool_units = PoolUnits::new(unit_asset);
        let units = match pool_units.mint(BASELINE_UNITS) {
            Ok(u) => u,
            Err(e) => return Err(e),
        };
        let pool = Radiswap {
            vault_a: Vault::with_bucket(bucket_a),
            vault_b: Vault::with_bucket(bucket_b),
            pool_units,
            fee,
        };
        Ok((pool, units))
    }

    /// Restores a pool from a state kept elsewhere between calls, provided it
    /// meets the pool's invariant.
    pub fn from_state(s: PoolState) -> (r: Option<Radiswap>)
        ensures
            pool_wf(s) ==> r is Some && r->Some_0@ == s,
            !pool_wf(s) ==> r is None,
    {
        if s.asset_a == s.asset_b || s.unit_asset == s.asset_a || s.unit_asset == s.asset_b || s.fee > ONE {
            return None;
        }
        if (s.supply == 0) != (s.reserve_a == 0) || (s.supply == 0) != (s.reserve_b == 0) {
            return None;
        }
        Some(Radiswap {
            vault_a: Vault::with_bucket(Bucket { asset: s.asset_a, amount: s.reserve_a }),
            vault_b: Vault::with_bucket(Bucket { asset: s.asset_b, amount: s.reserve_b }),
            pool_units: PoolUnits::with_supply(s.unit_asset, s.supply),
            fee: s.fee,
        })
    }

    /// What the pool holds, to be kept between calls.
    pub fn state(&self) -> (r: PoolState)
        ensures
            r == self@,
    {
        PoolState {
            asset_a: self.vault_a.asset(),
            asset_b: self.vault_b.asset(),
            unit_asset: self.pool_units.asset(),
            reserve_a: self.vault_a.amount(),
            reserve_b: self.vault_b.amount(),
            supply: self.pool_units.total_supply(),
            fee: self.fee,
        }
    }

    /// The two reserve balances, in the pool's own order.
    pub fn reserve_amounts(&self) -> (r: (u128, u128))
        ensures
            r == (self@.reserve_a, self@.reserve_b),
    {
        (self.vault_a.amount(), self.vault_b.amount())
    }

    /// The total supply of this pool's units.
    pub fn total_supply(&self) -> (r: u128)
        ensures
            r == self@.supply,
    {
        self.pool_units.total_supply()
    }

    /// The fee rate, a fraction in `[0, 1]` held in subunits.
    pub fn fee(&self) -> (r: u128)
        ensures
            r == self@.fee,
    {
        self.fee
    }

    /// The assets of the two reserves and of the pool units.
    pub fn assets(&self) -> (r: (AssetId, AssetId, AssetId))
        ensures
            r == (self@.asset_a, self@.asset_b, self@.unit_asset),
    {
        (self.vault_a.asset(), self.vault_b.asset(), self.pool_units.asset())
    }

    /// Exchanges a bucket of either reserve asset for the other along the
    /// constant-product curve, less the fee.
    pub fn swap(&mut self, input: Bucket) -> (r: Result<Bucket, PoolError>)
        requires
            old(self).wf(),
        ensures
            final(self).wf(),
            match swap_result(old(self)@, input) {
                Ok((s, out)) => r == Ok::<Bucket, PoolError>(out) && final(self)@ == s,
                Err(e) => r == Err::<Bucket, PoolError>(e) && final(self)@ == old(self)@,
            },
    {
        let from_a = input.asset == self.vault_a.asset();
        if !from_a && input.asset != self.vault_b.asset() {
            return Err(PoolError::InvalidAsset);
        }
        if input.amount == 0 {
            return Err(PoolError::EmptyInput);
        }
        let in_res = if from_a { self.vault_a.amount() } else { self.vault_b.amount() };
        let out_res = if from_a { self.vault_b.amount() } else { self.vault_a.amount() };
        if in_res == 0 || out_res == 0 {
            return Err(PoolError::InsufficientLiquidity);
        }
        let eff = match mul_dec(input.amount, ONE - self.fee) {
            Some(v) => v,
            None => return Err(PoolError::Overflow),
        };
        let num = match mul_dec(out_res, eff) {
            Some(v) => v,
            None => return Err(PoolError::Overflow),
        };
        let den = match in_res.checked_add(eff) {
            Some(v) => v,
            None => return Err(PoolError::Overflow),
        };
        let out = match div_dec(num, den) {
            Some(v) => v,
            None => return Err(PoolError::Overflow),
        };
        if out >= out_res {
            return Err(PoolError::InsufficientLiquidity);
        }
        if out == 0 {
            return Err(PoolError::NegligibleInput);
        }
        if input.amount > u128::MAX - in_res {
            return Err(PoolError::Overflow);
        }
        let taken = if from_a {
            self.vault_a.put(input);
            self.vault_b.take(out)
        } else {
            self.vault_b.put(input);
            self.vault_a.take(out)
        };
        taken
    }
    /// Burns a bucket of this pool's units and pays out the same share of
    /// each reserve.
    pub fn remove_liquidity(&mut self, pool_units: Bucket) -> (r: Result<(Bucket, Bucket), PoolError>)
        requires
            old(self).wf(),
        ensures
            final(self).wf(),
            match remove_result(old(self)@, pool_units) {
                Ok((s, a, b)) => r == Ok::<(Bucket, Bucket), PoolError>((a, b)) && final(self)@ == s,
                Err(e) => r == Err::<(Bucket, Bucket), PoolError>(e) && final(self)@ == old(self)@,
            },
    {
        if pool_units.asset != self.pool_units.asset() {
            return Err(PoolError::InvalidAsset);
        }
        let u = pool_units.amount;
        if u == 0 {
            return Err(PoolError::EmptyInput);
        }
        let total = self.pool_units.total_supply();
        if total == 0 {
            return Err(PoolError::NoLiquidity);
        }
        if u > total {
            return Err(PoolError::InsufficientBalance);
        }
        let m = self.vault_a.amount();
        let n = self.vault_b.amount();
        let (wa, wb) = if u == total {
            (m, n)
        } else {
            let pa = match mul_dec(m, u) {
                Some(v) => v,
                None => return Err(PoolError::Overflow),
            };
            let pb = match mul_dec(n, u) {
                Some(v) => v,
                None => return Err(PoolError::Overflow),
            };
            let wa = match div_dec(pa, total) {
                Some(v) => v,
                None => return Err(PoolError::Overflow),
            };
            let wb = match div_dec(pb, total) {
                Some(v) => v,
                None => return Err(PoolError::Overflow),
            };
            proof {
                lemma_share_below(m as int, u as int, total as int);
                lemma_share_below(n as int, u as int, total as int);
            }
            (wa, wb)
        };
        let out_a = match self.vault_a.take(wa) {
            Ok(b) => b,
            Err(e) => return Err(e),
        };
        let out_b = match self.vault_b.take(wb) {
            Ok(b) => b,
            Err(e) => return Err(e),
        };
        match self.pool_units.burn(pool_units) {
            Ok(()) => {},
            Err(e) => return Err(e),
        }
        Ok((out_a, out_b))
    }

    /// Deposits a bucket of each reserve asset, in either order. The side
    /// supplied in excess of the pool's ratio is clamped and its remainder
    /// handed back, with the newly minted pool units. A deposit too small to
    /// earn any unit is refused.
    pub fn add_liquidity(&mut self, bucket_a: Bucket, bucket_b: Bucket) -> (r: Result<(Bucket, Bucket, Bucket), PoolError>)
        requires
            old(self).wf(),
        ensures
            final(self).wf(),
            match add_result(old(self)@, bucket_a, bucket_b) {
                Ok((s, rest_a, rest_b, units)) => r == Ok::<(Bucket, Bucket, Bucket), PoolError>((rest_a, rest_b, units))
                    && final(self)@ == s,
                Err(e) => r == Err::<(Bucket, Bucket, Bucket), PoolError>(e) && final(self)@ == old(self)@,
            },
    {
        let asset_a = self.vault_a.asset();
        let asset_b = self.vault_b.asset();
        let (dm, dn) = if bucket_a.asset == asset_a && bucket_b.asset == asset_b {
            (bucket_a.amount, bucket_b.amount)
        } else if bucket_a.asset == asset_b && bucket_b.asset == asset_a {
            (bucket_b.amount, bucket_a.amount)
        } else {
            return Err(PoolError::InvalidAsset);
        };
        if dm == 0 || dn == 0 {
            return Err(PoolError::EmptyInput);
        }
        let m = self.vault_a.amount();
        let n = self.vault_b.amount();
        let total = self.pool_units.total_supply();
        let (a_used, b_used, minted) = if total == 0 {
            (dm, dn, BASELINE_UNITS)
        } else {
            let vault_ratio = match div_dec(m, n) {
                Some(v) => v,
                None => return Err(PoolError::Overflow),
            };
            let input_ratio = match div_dec(dm, dn) {
                Some(v) => v,
                None => return Err(PoolError::Overflow),
            };
            proof {
                lemma_clamp(m as int, n as int, dm as int, dn as int);
            }
            let a_used = if input_ratio > vault_ratio {
                let p = match mul_dec(dn, m) {
                    Some(v) => v,
                    None => return Err(PoolError::Overflow),
                };
                match div_dec(p, n) {
                    Some(v) => v,
                    None => return Err(PoolError::Overflow),
                }
            } else {
                dm
            };
            let b_used = if input_ratio < vault_ratio {
                let p = match mul_dec(dm, n) {
                    Some(v) => v,
                    None => return Err(PoolError::Overflow),
                };
                match div_dec(p, m) {
                    Some(v) => v,
                    None => return Err(PoolError::Overflow),
                }
            } else {
                dn
            };
            let pa = match mul_dec(a_used, total) {
                Some(v) => v,
                None => return Err(PoolError::Overflow),
            };
            let by_a = match div_dec(pa, m) {
                Some(v) => v,
                None => return Err(PoolError::Overflow),
            };
            let pb = match mul_dec(b_used, total) {
                Some(v) => v,
                None => return Err(PoolError::Overflow),
            };
            let by_b = match div_dec(pb, n) {
                Some(v) => v,
                None => return Err(PoolError::Overflow),
            };
            (a_used, b_used, if by_a <= by_b { by_a } else { by_b })
        };
        if minted == 0 {
            return Err(PoolError::NegligibleInput);
        }
        if a_used > u128::MAX - m || b_used > u128::MAX - n || minted > u128::MAX - total {
            return Err(PoolError::Overflow);
        }
        self.vault_a.put(Bucket { asset: asset_a, amount: a_used });
        self.vault_b.put(Bucket { asset: asset_b, amount: b_used });
        let units = match self.pool_units.mint(minted) {
            Ok(u) => u,
            Err(e) => return Err(e),
        };
        Ok((Bucket { asset: asset_a, amount: dm - a_used }, Bucket { asset: asset_b, amount: dn - b_used }, units))
    }
}

/// Clamping the side supplied in excess never asks for more than was supplied.
pub proof fn lemma_clamp(m: int, n: int, dm: int, dn: int)
    requires
        m > 0,
        n > 0,
        dm > 0,
        dn > 0,
    ensures
        div_value(dm, dn) > div_value(m, n) ==> 0 <= div_value(mul_value(dn, m), n) < dm,
        div_value(dm, dn) < div_value(m, n) ==> 0 <= div_value(mul_value(dm, n), m) < dn,
{
    let one = ONE as int;
    lemma_mul_div(dn, m, n);
    lemma_mul_div(dm, n, m);
    if dm * n <= m * dn {
        assert((dm * one) * n <= (m * one) * dn) by (nonlinear_arith)
            requires
                dm * n <= m * dn,
                one > 0,
        ;
        lemma_floor_cross(dm * one, dn, m * one, n);
    }
    if m * dn <= dm * n {
        assert((m * one) * dn <= (dm * one) * n) by (nonlinear_arith)
            requires
                m * dn <= dm * n,
                one > 0,
        ;
        lemma_floor_cross(m * one, n, dm * one, dn);
    }
    let a_used = div_value(mul_value(dn, m), n);
    let b_used = div_value(mul_value(dm, n), m);
    assert(dm * n > m * dn ==> a_used < dm) by (nonlinear_arith)
        requires
            a_used * n <= dn * m,
            n > 0,
    ;
    assert(m * dn > dm * n ==> b_used < dn) by (nonlinear_arith)
        requires
            b_used * m <= dm * n,
            m > 0,
    ;
}

/// A share of less than the whole supply is less than the whole reserve, and
/// none of a reserve that is empty.
pub proof fn lemma_share_below(reserve: int, units: int, supply: int)
    requires
        reserve >= 0,
        0 <= units < supply,
    ensures
        0 <= share_of(reserve, units, supply) <= reserve,
        reserve > 0 ==> share_of(reserve, units, supply) < reserve,
{
    lemma_mul_div(reserve, units, supply);
    let w = share_of(reserve, units, supply);
    assert(w <= reserve && (reserve > 0 ==> w < reserve)) by (nonlinear_arith)
        requires
            w * supply <= reserve * units,
            0 <= units < supply,
            reserve >= 0,
    ;
}

} // verus!
