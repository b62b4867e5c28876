//! Fixed-point amounts with eighteen decimal places, held as `u128` counts of
//! `10^-18` subunits ("attos"). Multiplication and division go through the
//! ledger's `Decimal` type, truncating toward zero.
use scrypto::prelude::CheckedDiv;
use scrypto::prelude::CheckedMul;
use vstd::prelude::*;

verus! {

/// The number of subunits in one whole unit.
pub const ONE: u128 = 1_000_000_000_000_000_000;

/// Whether a mathematical value can be held as an amount.
pub open spec fn fits(v: int) -> bool {
    0 <= v <= u128::MAX
}

/// The fixed-point product of two amounts, truncated.
pub open spec fn mul_value(a: int, b: int) -> int {
    a * b / (ONE as int)
}

/// The fixed-point quotient of two amounts, truncated.
pub open spec fn div_value(a: int, b: int) -> int {
    a * (ONE as int) / b
}

/// Truncating division of non-negative values, as bounds on the quotient.
pub proof fn lemma_floor(a: int, b: int)
    requires
        a >= 0,
        b > 0,
    ensures
        0 <= a / b,
        (a / b) * b <= a,
        a < (a / b) * b + b,
{
    vstd::arithmetic::div_mod::lemma_fundamental_div_mod(a, b);
    vstd::arithmetic::div_mod::lemma_mod_pos_bound(a, b);
    vstd::arithmetic::div_mod::lemma_div_pos_is_pos(a, b);
    vstd::arithmetic::mul::lemma_mul_is_commutative(a / b, b);
}

/// Truncated quotients keep the order of the exact ones.
pub proof fn lemma_floor_cross(p: int, q: int, r: int, t: int)
    requires
        p >= 0,
        r >= 0,
        q > 0,
        t > 0,
        p * t <= r * q,
    ensures
        p / q <= r / t,
{
    lemma_floor(p, q);
    lemma_floor(r, t);
    let k = p / q;
    let j = r / t;
    assert(k * q * t <= r * q) by (nonlinear_arith)
        requires
            k * q <= p,
            p * t <= r * q,
            t > 0,
    ;
    assert(k * t <= r) by (nonlinear_arith)
        requires
            k * q * t <= r * q,
            q > 0,
    ;
    assert(k <= j) by (nonlinear_arith)
        requires
            k * t <= r,
            r < j * t + t,
            t > 0,
    ;
}

/// A product followed by a quotient never exceeds the exact `a * b / c`, and
/// falls short of it by less than `(10^18 + c) / c`.
pub proof fn lemma_mul_div(a: int, b: int, c: int)
    requires
        a >= 0,
        b >= 0,
        c > 0,
    ensures
        0 <= div_value(mul_value(a, b), c),
        div_value(mul_value(a, b), c) * c <= a * b,
        a * b < div_value(mul_value(a, b), c) * c + ONE + c,
{
    lemma_floor(a * b, ONE as int);
    let x = mul_value(a, b);
    lemma_floor(x * ONE, c);
}

/// Paying for the whole units that `paid / price` buys never costs more than
/// was paid.
pub proof fn lemma_cost_within(paid: int, price: int)
    requires
        paid >= 0,
        price > 0,
    ensures
        0 <= mul_value(div_value(paid, price), price) <= paid,
{
    let one = ONE as int;
    lemma_floor(paid * one, price);
    let amount = div_value(paid, price);
    lemma_floor(amount * price, one);
    let cost = mul_value(amount, price);
    assert(cost <= paid) by (nonlinear_arith)
        requires
            cost * one <= amount * price,
            amount * price <= paid * one,
            one > 0,
    ;
}

/// Relies on `Decimal::checked_mul` of radix-common: it multiplies the subunits
/// in 256 bits, divides by `10^18` truncating, and gives `None` when the result
/// leaves the 192-bit range; the result is then brought back to `u128`.
#[verifier::external_body]
pub(crate) fn mul_dec(a: u128, b: u128) -> (r: Option<u128>)
    ensures
        fits(mul_value(a as int, b as int)) ==> r == Some(mul_value(a as int, b as int) as u128),
        !fits(mul_value(a as int, b as int)) ==> r is None,
{
    let x = scrypto::prelude::Decimal::from_attos(scrypto::prelude::I192::from(a));
    let y = scrypto::prelude::Decimal::from_attos(scrypto::prelude::I192::from(b));
    match x.checked_mul(y) {
        Some(c) => u128::try_from(c.attos()).ok(),
        None => None,
    }
}

/// Relies on `Decimal::checked_div` of radix-common: it multiplies the dividend's
/// subunits by `10^18` in 256 bits, divides truncating, and gives `None` for a
/// zero divisor; the result is then brought back to `u128`.
#[verifier::external_body]
pub(crate) fn div_dec(a: u128, b: u128) -> (r: Option<u128>)
    ensures
        b == 0 ==> r is None,
        b != 0 && fits(div_value(a as int, b as int)) ==> r == Some(div_value(a as int, b as int) as u128),
        b != 0 && !fits(div_value(a as int, b as int)) ==> r is None,
{
    let x = scrypto::prelude::Decimal::from_attos(scrypto::prelude::I192::from(a));
    let y = scrypto::prelude::Decimal::from_attos(scrypto::prelude::I192::from(b));
    match x.checked_div(y) {
        Some(c) => u128::try_from(c.attos()).ok(),
        None => None,
    }
}

} // verus!
