//! Laws of the pool, stated over the spec functions that the operations'
//! contracts use, and proved.
use crate::asset::{Bucket, PoolError};
use crate::decimal::{div_value, fits, lemma_floor, lemma_mul_div, mul_value, ONE};
use crate::pool::{add_result, effective_input, lemma_share_below, pool_wf, remove_result, share_of, swap_output, swap_result, PoolState};
use vstd::prelude::*;

verus! {

/// A swap never lowers the product of the two reserves, and raises it
/// whenever the fee is positive.
pub proof fn lemma_swap_keeps_product(s: PoolState, input: Bucket)
    requires
        pool_wf(s),
        swap_result(s, input) is Ok,
    ensures
        ({
            let after = swap_result(s, input)->Ok_0.0;
            &&& after.reserve_a * after.reserve_b >= s.reserve_a * s.reserve_b
            &&& s.fee > 0 ==> after.reserve_a * after.reserve_b > s.reserve_a * s.reserve_b
        }),
{
    let from_a = input.asset == s.asset_a;
    let in_res: int = if from_a { s.reserve_a as int } else { s.reserve_b as int };
    let out_res: int = if from_a { s.reserve_b as int } else { s.reserve_a as int };
    let amount = input.amount as int;
    let one = ONE as int;
    let fee = s.fee as int;
    let eff = effective_input(amount, fee);
    let den = in_res + eff;
    let out = swap_result(s, input)->Ok_0.1.amount as int;
    lemma_floor(amount * (one - fee), one);
    assert(eff <= amount && (fee > 0 ==> eff < amount)) by (nonlinear_arith)
        requires
            eff * one <= amount * (one - fee),
            0 <= fee <= one,
            amount > 0,
            one > 0,
    ;
    lemma_mul_div(out_res, eff, den);
    assert(out * den <= out_res * eff);
    assert((in_res + amount) * (out_res - out) >= in_res * out_res
        && (eff < amount ==> (in_res + amount) * (out_res - out) > in_res * out_res)) by (nonlinear_arith)
        requires
            out * den <= out_res * eff,
            den == in_res + eff,
            0 <= eff <= amount,
            0 < out < out_res,
            in_res > 0,
    ;
    let after = swap_result(s, input)->Ok_0.0;
    if from_a {
        assert(after.reserve_a == in_res + amount && after.reserve_b == out_res - out);
    } else {
        assert(after.reserve_b == in_res + amount && after.reserve_a == out_res - out);
        assert(after.reserve_a * after.reserve_b == (in_res + amount) * (out_res - out)) by (nonlinear_arith)
            requires
                after.reserve_b == in_res + amount,
                after.reserve_a == out_res - out,
        ;
        assert(s.reserve_a * s.reserve_b == in_res * out_res) by (nonlinear_arith)
            requires
                s.reserve_b == in_res,
                s.reserve_a == out_res,
        ;
    }
}

/// Depositing and then at once withdrawing the units that the deposit minted
/// never pays out more of either asset than the deposit took; into an empty
/// pool it pays back exactly what was taken.
pub proof fn lemma_round_trip_never_gains(s: PoolState, x: Bucket, y: Bucket)
    requires
        pool_wf(s),
        add_result(s, x, y) is Ok,
        remove_result(add_result(s, x, y)->Ok_0.0, add_result(s, x, y)->Ok_0.3) is Ok,
    ensures
        ({
            let (mid, rest_a, rest_b, units) = add_result(s, x, y)->Ok_0;
            let (after, out_a, out_b) = remove_result(mid, units)->Ok_0;
            let taken_a = mid.reserve_a - s.reserve_a;
            let taken_b = mid.reserve_b - s.reserve_b;
            &&& out_a.amount <= taken_a
            &&& out_b.amount <= taken_b
            &&& s.supply == 0 ==> out_a.amount == taken_a && out_b.amount == taken_b && after == s
        }),
{
    let (mid, rest_a, rest_b, units) = add_result(s, x, y)->Ok_0;
    let m = s.reserve_a as int;
    let n = s.reserve_b as int;
    let total = s.supply as int;
    let minted = units.amount as int;
    let taken_a = mid.reserve_a - m;
    let taken_b = mid.reserve_b - n;
    if total > 0 {
        let by_a = div_value(mul_value(taken_a, total), m);
        let by_b = div_value(mul_value(taken_b, total), n);
        lemma_mul_div(taken_a, total, m);
        lemma_mul_div(taken_b, total, n);
        assert(minted <= by_a && minted <= by_b);
        let total2 = total + minted;
        lemma_mul_div(mid.reserve_a as int, minted, total2);
        lemma_mul_div(mid.reserve_b as int, minted, total2);
        let out_a = share_of(mid.reserve_a as int, minted, total2);
        let out_b = share_of(mid.reserve_b as int, minted, total2);
        assert(out_a <= taken_a) by (nonlinear_arith)
            requires
                out_a * total2 <= (m + taken_a) * minted,
                by_a * m <= taken_a * total,
                0 <= minted <= by_a,
                total2 == total + minted,
                total > 0,
                m > 0,
                taken_a >= 0,
        ;
        assert(out_b <= taken_b) by (nonlinear_arith)
            requires
                out_b * total2 <= (n + taken_b) * minted,
                by_b * n <= taken_b * total,
                0 <= minted <= by_b,
                total2 == total + minted,
                total > 0,
                n > 0,
                taken_b >= 0,
        ;
    }
}

/// A withdrawal pays out `share * reserve` of each reserve, for the share
/// `units / supply`, and keeps the ratio of the reserves up to truncation: the
/// two cross products of the reserves before and after differ by less than
/// `reserve * (10^18 + supply) / supply`.
pub proof fn lemma_remove_keeps_ratio(s: PoolState, units: Bucket)
    requires
        pool_wf(s),
        remove_result(s, units) is Ok,
    ensures
        ({
            let (after, out_a, out_b) = remove_result(s, units)->Ok_0;
            let m = s.reserve_a as int;
            let n = s.reserve_b as int;
            let total = s.supply as int;
            let d = after.reserve_a * n - m * after.reserve_b;
            &&& out_a.amount == share_of(m, units.amount as int, total)
            &&& out_b.amount == share_of(n, units.amount as int, total)
            &&& -(m * (ONE + total)) < d * total < n * (ONE + total)
        }),
{
    let (after, out_a, out_b) = remove_result(s, units)->Ok_0;
    let m = s.reserve_a as int;
    let n = s.reserve_b as int;
    let total = s.supply as int;
    let u = units.amount as int;
    let one = ONE as int;
    let wa = out_a.amount as int;
    let wb = out_b.amount as int;
    let d = after.reserve_a * n - m * after.reserve_b;
    if u == total {
        assert(after.reserve_a == 0 && after.reserve_b == 0);
        assert(d == 0) by (nonlinear_arith)
            requires
                d == after.reserve_a * n - m * after.reserve_b,
                after.reserve_a == 0,
                after.reserve_b == 0,
        ;
        assert(0 < m * (one + total) && 0 < n * (one + total)) by (nonlinear_arith)
            requires
                m > 0,
                n > 0,
                total > 0,
                one > 0,
        ;
    } else {
        lemma_mul_div(m, u, total);
        lemma_mul_div(n, u, total);
        lemma_share_below(m, u, total);
        lemma_share_below(n, u, total);
        assert(after.reserve_a == m - wa && after.reserve_b == n - wb);
        assert(d == m * wb - n * wa) by (nonlinear_arith)
            requires
                d == after.reserve_a * n - m * after.reserve_b,
                after.reserve_a == m - wa,
                after.reserve_b == n - wb,
        ;
        assert(-(m * (one + total)) < d * total < n * (one + total)) by (nonlinear_arith)
            requires
                d == m * wb - n * wa,
                wa * total <= m * u,
                m * u < wa * total + one + total,
                wb * total <= n * u,
                n * u < wb * total + one + total,
                m > 0,
                n > 0,
        ;
    }
}

/// A deposit into a non-empty pool keeps the ratio of the reserves up to
/// truncation: the two cross products of the reserves before and after differ
/// by less than `10^18 + reserve + taken_b * reserve_b / 10^18`.
pub proof fn lemma_add_keeps_ratio(s: PoolState, x: Bucket, y: Bucket)
    requires
        pool_wf(s),
        s.supply > 0,
        add_result(s, x, y) is Ok,
    ensures
        ({
            let after = add_result(s, x, y)->Ok_0.0;
            let m = s.reserve_a as int;
            let n = s.reserve_b as int;
            let slack = (after.reserve_b - n) * n;
            let d = after.reserve_a * n - m * after.reserve_b;
            -((ONE + n) * ONE + slack) < d * ONE < (ONE + m) * ONE + slack
        }),
{
    let after = add_result(s, x, y)->Ok_0.0;
    let m = s.reserve_a as int;
    let n = s.reserve_b as int;
    let one = ONE as int;
    let in_order = x.asset == s.asset_a && y.asset == s.asset_b;
    let dm: int = if in_order { x.amount as int } else { y.amount as int };
    let dn: int = if in_order { y.amount as int } else { x.amount as int };
    let a_used = after.reserve_a - m;
    let b_used = after.reserve_b - n;
    let d = after.reserve_a * n - m * after.reserve_b;
    assert(d == a_used * n - b_used * m) by (nonlinear_arith)
        requires
            d == after.reserve_a * n - m * after.reserve_b,
            a_used == after.reserve_a - m,
            b_used == after.reserve_b - n,
    ;
    let vault_ratio = div_value(m, n);
    let input_ratio = div_value(dm, dn);
    if input_ratio > vault_ratio {
        lemma_mul_div(dn, m, n);
        assert(b_used == dn);
        assert(-((one + n) * one + b_used * n) < d * one <= 0) by (nonlinear_arith)
            requires
                d == a_used * n - b_used * m,
                a_used * n <= dn * m,
                dn * m < a_used * n + one + n,
                b_used == dn,
                b_used >= 0,
                n >= 0,
                one > 0,
        ;
    } else if input_ratio < vault_ratio {
        lemma_mul_div(dm, n, m);
        assert(a_used == dm);
        assert(0 <= d * one < (one + m) * one + b_used * n) by (nonlinear_arith)
            requires
                d == a_used * n - b_used * m,
                b_used * m <= dm * n,
                dm * n < b_used * m + one + m,
                a_used == dm,
                b_used >= 0,
                n >= 0,
                one > 0,
        ;
    } else {
        assert(a_used == dm && b_used == dn);
        lemma_floor(dm * one, dn);
        lemma_floor(m * one, n);
        let k = input_ratio;
        assert(-(b_used * n) < d * one < b_used * n) by (nonlinear_arith)
            requires
                d == dm * n - dn * m,
                k * dn <= dm * one,
                dm * one < k * dn + dn,
                k * n <= m * one,
                m * one < k * n + n,
                b_used == dn,
                n > 0,
                dn > 0,
        ;
        assert(0 < (one + n) * one && 0 < (one + m) * one) by (nonlinear_arith)
            requires
                one > 0,
                m >= 0,
                n >= 0,
        ;
    }
}

/// A swap of nothing is refused as empty; a swap against an empty reserve, or
/// one whose output would reach the whole reserve, is refused for want of
/// liquidity; so a swap that succeeds pays out less than the reserve.
pub proof fn lemma_swap_boundary(s: PoolState, input: Bucket)
    requires
        pool_wf(s),
        input.asset == s.asset_a || input.asset == s.asset_b,
    ensures
        input.amount == 0 ==> swap_result(s, input) == Err::<(PoolState, Bucket), PoolError>(PoolError::EmptyInput),
        ({
            let from_a = input.asset == s.asset_a;
            let in_res: int = if from_a { s.reserve_a as int } else { s.reserve_b as int };
            let out_res: int = if from_a { s.reserve_b as int } else { s.reserve_a as int };
            let eff = effective_input(input.amount as int, s.fee as int);
            let out = swap_output(in_res, out_res, input.amount as int, s.fee as int);
            &&& input.amount > 0 && out_res == 0 ==> swap_result(s, input) == Err::<(PoolState, Bucket), PoolError>(
                PoolError::InsufficientLiquidity,
            )
            &&& input.amount > 0 && in_res > 0 && fits(eff) && fits(mul_value(out_res, eff)) && fits(in_res + eff)
                && fits(out) && out >= out_res ==> swap_result(s, input) == Err::<(PoolState, Bucket), PoolError>(
                PoolError::InsufficientLiquidity,
            )
            &&& swap_result(s, input) is Ok ==> 0 < swap_result(s, input)->Ok_0.1.amount < out_res
        }),
{
}

/// The unit supply strictly grows with every deposit that succeeds, and a
/// withdrawal lowers it by exactly the units burned.
pub proof fn lemma_supply_moves(s: PoolState, x: Bucket, y: Bucket, units: Bucket)
    requires
        pool_wf(s),
    ensures
        add_result(s, x, y) is Ok ==> add_result(s, x, y)->Ok_0.0.supply > s.supply
            && add_result(s, x, y)->Ok_0.0.supply == s.supply + add_result(s, x, y)->Ok_0.3.amount,
        remove_result(s, units) is Ok ==> remove_result(s, units)->Ok_0.0.supply == s.supply - units.amount
            && units.amount > 0,
{
}

} // verus!
