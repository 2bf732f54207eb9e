//! Fixed-point arithmetic used throughout the crate.
//!
//! Conventions:
//! - monetary amounts are `i64` cents (scale `100`);
//! - prices, quantities, point values and slippage fractions are `i64`
//!   scaled by [`SCALE_E5`];
//! - dimensionless ratios (returns, drawdowns) are `i64` scaled by
//!   [`SCALE_E9`].
//!
//! Every division rounds half away from zero, mirroring decimal rounding
//! of monetary values; [`round_div`] is the single spec-level definition
//! that all contracts refer to.

use vstd::prelude::*;

verus! {

/// Scale of prices, quantities and point values: five decimal places.
pub const SCALE_E5: i64 = 100_000;

/// Scale of dimensionless ratios: nine decimal places.
pub const SCALE_E9: i64 = 1_000_000_000;

/// Largest magnitude accepted by [`rdiv`] for numerator and divisor.
pub const RDIV_LIMIT: i128 = 1_000_000_000_000_000_000_000_000_000_000_000_000;

/// Largest admissible price magnitude (`1e8` currency units), scaled by `1e5`.
pub const PRICE_E5_MAX: i64 = 10_000_000_000_000;

/// Largest admissible quantity (`1e6` contracts), scaled by `1e5`.
pub const QTY_E5_MAX: i64 = 100_000_000_000;

/// Largest admissible point value (`1e5` currency per point), scaled by `1e5`.
pub const PV_E5_MAX: i64 = 10_000_000_000;

/// Largest admissible monetary magnitude, in cents (`1e16` currency units).
pub const MONEY_CENTS_MAX: i64 = 1_000_000_000_000_000_000;

/// Division of `n` by `d > 0`, rounding half away from zero.
pub open spec fn round_div(n: int, d: int) -> int
    recommends
        d > 0,
{
    if n >= 0 {
        (2 * n + d) / (2 * d)
    } else {
        -((2 * (-n) + d) / (2 * d))
    }
}

/// Rounding division on machine integers; the executable form of
/// [`round_div`].
pub fn rdiv(n: i128, d: i128) -> (r: i128)
    requires
        0 < d <= RDIV_LIMIT,
        -RDIV_LIMIT <= n <= RDIV_LIMIT,
    ensures
        r == round_div(n as int, d as int),
{
    let m: u128 = if n >= 0 {
        n as u128
    } else {
        (-n) as u128
    };
    let dd: u128 = d as u128;
    let q: u128 = (2 * m + dd) / (2 * dd);
    if n >= 0 {
        q as i128
    } else {
        -(q as i128)
    }
}

/// `10^n`.
pub open spec fn pow10(n: nat) -> int
    decreases n,
{
    if n == 0 {
        1
    } else {
        10 * pow10((n - 1) as nat)
    }
}

/// Executable `10^n` for exponents that fit an `i64`.
pub fn pow10_i64(n: u32) -> (r: i64)
    requires
        n <= 18,
    ensures
        r == pow10(n as nat),
        r >= 1,
{
    let mut r: i64 = 1;
    let mut i: u32 = 0;
    while i < n
        invariant
            i <= n <= 18,
            r == pow10(i as nat),
        decreases n - i,
    {
        proof {
            lemma_pow10_pos(i as nat);
            lemma_pow10_increases(i as nat, 17);
            lemma_pow10_18_value();
        }
        r = r * 10;
        i = i + 1;
    }
    proof {
        lemma_pow10_pos(n as nat);
    }
    r
}

/// `pow10` is positive.
pub proof fn lemma_pow10_pos(n: nat)
    ensures
        pow10(n) >= 1,
    decreases n,
{
    if n > 0 {
        lemma_pow10_pos((n - 1) as nat);
    }
}

/// `pow10` is monotone in its exponent.
pub proof fn lemma_pow10_increases(m: nat, n: nat)
    requires
        m <= n,
    ensures
        pow10(m) <= pow10(n),
    decreases n - m,
{
    if m < n {
        lemma_pow10_increases(m, (n - 1) as nat);
        lemma_pow10_pos((n - 1) as nat);
    }
}

/// The concrete value of `pow10(18)`.
pub proof fn lemma_pow10_18_value()
    ensures
        pow10(18) == 1_000_000_000_000_000_000,
        pow10(17) == 100_000_000_000_000_000,
        pow10(5) == 100_000,
        pow10(4) == 10_000,
        pow10(0) == 1,
{
    reveal_with_fuel(pow10, 20);
}

/// Product of two non-negative bounded factors stays within the product
/// of the bounds.
pub proof fn lemma_mul_le(a: int, amax: int, b: int, bmax: int)
    by (nonlinear_arith)
    requires
        0 <= a <= amax,
        0 <= b <= bmax,
    ensures
        0 <= a * b <= amax * bmax,
{
}

/// Product of two factors of bounded magnitude stays within the product
/// of the bounds.
pub proof fn lemma_mul_abs_le(a: int, amax: int, b: int, bmax: int)
    by (nonlinear_arith)
    requires
        -amax <= a <= amax,
        -bmax <= b <= bmax,
        0 <= amax,
        0 <= bmax,
    ensures
        -(amax * bmax) <= a * b <= amax * bmax,
{
}

/// A rounded quotient of a numerator within `d` times a band stays in
/// the band.
pub proof fn lemma_round_div_in_band(n: int, d: int, m: int)
    requires
        d > 0,
        m >= 0,
        -(d * m) <= n <= d * m,
    ensures
        -m <= round_div(n, d) <= m,
{
    if n >= 0 {
        assert((2 * n + d) / (2 * d) <= m) by (nonlinear_arith)
            requires d > 0 && m >= 0 && 0 <= n <= d * m;
        assert((2 * n + d) / (2 * d) >= 0) by (nonlinear_arith)
            requires d > 0 && n >= 0;
    } else {
        assert((2 * (-n) + d) / (2 * d) <= m) by (nonlinear_arith)
            requires d > 0 && m >= 0 && n < 0 && -(d * m) <= n;
        assert((2 * (-n) + d) / (2 * d) >= 0) by (nonlinear_arith)
            requires d > 0 && n < 0;
    }
}

/// A rounded mean of machine-range values stays in machine range.
pub proof fn lemma_round_div_machine_range(n: int, d: int)
    requires
        d > 0,
        -(d * 0x8000_0000_0000_0000) <= n <= d * 0x7FFF_FFFF_FFFF_FFFF,
    ensures
        -0x8000_0000_0000_0000 <= round_div(n, d) <= 0x7FFF_FFFF_FFFF_FFFF,
{
    if n >= 0 {
        assert((2 * n + d) / (2 * d) <= 0x7FFF_FFFF_FFFF_FFFF) by (nonlinear_arith)
            requires d > 0 && 0 <= n <= d * 0x7FFF_FFFF_FFFF_FFFF;
        assert((2 * n + d) / (2 * d) >= 0) by (nonlinear_arith)
            requires d > 0 && n >= 0;
    } else {
        assert((2 * (-n) + d) / (2 * d) <= 0x8000_0000_0000_0000) by (nonlinear_arith)
            requires d > 0 && n < 0 && -(d * 0x8000_0000_0000_0000) <= n;
        assert((2 * (-n) + d) / (2 * d) >= 0) by (nonlinear_arith)
            requires d > 0 && n < 0;
    }
}

/// The magnitude of a rounded quotient never exceeds the magnitude of the
/// numerator (the divisor being at least one).
pub proof fn lemma_round_div_abs_le(n: int, d: int)
    requires
        d > 0,
    ensures
        round_div(n, d) <= if n >= 0 { n } else { -n },
        -(if n >= 0 { n } else { -n }) <= round_div(n, d),
        n >= 0 ==> round_div(n, d) >= 0,
        n < 0 ==> round_div(n, d) <= 0,
{
    if n >= 0 {
        assert((2 * n + d) / (2 * d) <= n) by (nonlinear_arith)
            requires d > 0 && n >= 0;
        assert((2 * n + d) / (2 * d) >= 0) by (nonlinear_arith)
            requires d > 0 && n >= 0;
    } else {
        assert((2 * (-n) + d) / (2 * d) <= -n) by (nonlinear_arith)
            requires d > 0 && n < 0;
        assert((2 * (-n) + d) / (2 * d) >= 0) by (nonlinear_arith)
            requires d > 0 && n < 0;
    }
}

} // verus!
