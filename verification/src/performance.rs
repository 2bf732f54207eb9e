//! Performance metrics: returns, drawdowns, annualized return and
//! composite factors, computed either incrementally per bar or offline
//! from the full equity series.
//!
//! All ratios are scaled by `1e9` and clamped to [`RATIO_E9_CAP`].  Both
//! the incremental and the offline path fold the same per-element
//! drawdown step, so the two modes agree exactly on every scalar.

use vstd::prelude::*;

use vstd::arithmetic::div_mod::lemma_div_is_ordered;

use crate::fixed::{
    round_div, rdiv, lemma_round_div_abs_le, lemma_mul_le, MONEY_CENTS_MAX, SCALE_E9,
};
use crate::settings::MetricsMode;
use crate::text::{cents_digits, format_cents, format_ratio_e9, format_u64, nat_digits, ratio_digits};

verus! {

/// Largest ratio magnitude a metric can carry, scaled by `1e9`.
pub const RATIO_E9_CAP: i64 = 1_000_000_000_000_000_000;

/// Largest growth factor (scaled by `1e9`) fed into the annualization
/// power: factors beyond `1e5` times the start are treated as that much.
pub const APR_BASE_CAP_E9: i128 = 100_000_000_000_000;

/// Saturation bound of the annualization power, scaled by `1e9`.
pub const POW_CAP_E9: i128 = 100_000_000_000_000_000_000;

/// Largest number of days the annualization exponent distinguishes.
pub const APR_DAYS_CAP: i64 = 36_500;

/// Clamps a ratio to the representable band.
pub open spec fn clamp_ratio(x: int) -> int {
    if x > RATIO_E9_CAP {
        RATIO_E9_CAP as int
    } else if x < -RATIO_E9_CAP {
        -RATIO_E9_CAP as int
    } else {
        x
    }
}

/// Whole days between two timestamps in seconds; never negative.
pub open spec fn spec_days_between(start_ts: int, end_ts: int) -> int {
    if end_ts >= start_ts {
        (end_ts - start_ts) / 86400
    } else {
        0
    }
}

/// Executable form of [`spec_days_between`].
pub fn days_between(start_ts: i64, end_ts: i64) -> (r: i64)
    ensures
        r == spec_days_between(start_ts as int, end_ts as int),
        r >= 0,
{
    if end_ts >= start_ts {
        let diff: i128 = (end_ts as i128) - (start_ts as i128);
        (diff / 86400) as i64
    } else {
        0
    }
}

/// Relative change `last/initial - 1`, scaled by `1e9` and clamped.
pub open spec fn spec_pct_e9(initial: int, last: int) -> int
    recommends
        initial > 0,
{
    clamp_ratio(round_div(last * SCALE_E9, initial) - SCALE_E9)
}

/// Drawdown of `cap` against `peak`: `cap/peak - 1` scaled by `1e9` and
/// clamped, and zero while the peak is not positive.
pub open spec fn spec_dd_e9(cap: int, peak: int) -> int {
    if peak > 0 {
        clamp_ratio(round_div(cap * SCALE_E9, peak) - SCALE_E9)
    } else {
        0
    }
}

/// One drawdown step: raise the peak, then lower the running minimum.
pub open spec fn dd_step(peak: int, dd: int, v: int) -> (int, int) {
    let p2 = if v > peak {
        v
    } else {
        peak
    };
    let d = spec_dd_e9(v, p2);
    (p2, if d < dd {
        d
    } else {
        dd
    })
}

/// Drawdown state after folding [`dd_step`] over `s` from index `i` on.
pub open spec fn dd_scan(s: Seq<i64>, i: int, peak: int, dd: int) -> (int, int)
    decreases s.len() - i,
{
    if i < 0 || i >= s.len() {
        (peak, dd)
    } else {
        let st = dd_step(peak, dd, s[i] as int);
        dd_scan(s, i + 1, st.0, st.1)
    }
}

/// Saturating fixed-point power: `(b/1e9)^n`, rounded at every step and
/// capped at [`POW_CAP_E9`].
pub open spec fn pow_sat(b: int, n: nat) -> int
    decreases n,
{
    if n == 0 {
        SCALE_E9 as int
    } else {
        let p = pow_sat(b, (n - 1) as nat);
        let q = round_div(p * b, SCALE_E9 as int);
        if q > POW_CAP_E9 {
            POW_CAP_E9 as int
        } else {
            q
        }
    }
}

/// The saturating power of a non-negative base stays within `[0, cap]`.
pub proof fn lemma_pow_sat_nonneg(b: int, n: nat)
    requires
        b >= 0,
    ensures
        0 <= pow_sat(b, n) <= POW_CAP_E9,
    decreases n,
{
    if n == 0 {
    } else {
        lemma_pow_sat_nonneg(b, (n - 1) as nat);
        let p = pow_sat(b, (n - 1) as nat);
        assert(p * b >= 0) by (nonlinear_arith)
            requires p >= 0 && b >= 0;
        lemma_round_div_abs_le(p * b, SCALE_E9 as int);
    }
}

/// Rounding division is monotone in the numerator.
pub proof fn lemma_round_div_mono(n1: int, n2: int, d: int)
    requires
        n1 <= n2,
        d > 0,
    ensures
        round_div(n1, d) <= round_div(n2, d),
{
    if n1 >= 0 {
        lemma_div_is_ordered(2 * n1 + d, 2 * n2 + d, 2 * d);
    } else if n2 >= 0 {
        lemma_round_div_abs_le(n1, d);
        lemma_round_div_abs_le(n2, d);
    } else {
        lemma_div_is_ordered(2 * (-n2) + d, 2 * (-n1) + d, 2 * d);
    }
}

/// The saturating power is monotone in its base.
pub proof fn lemma_pow_sat_mono(b1: int, b2: int, n: nat)
    requires
        0 <= b1 <= b2,
    ensures
        pow_sat(b1, n) <= pow_sat(b2, n),
    decreases n,
{
    if n > 0 {
        lemma_pow_sat_mono(b1, b2, (n - 1) as nat);
        lemma_pow_sat_nonneg(b1, (n - 1) as nat);
        lemma_pow_sat_nonneg(b2, (n - 1) as nat);
        let p1 = pow_sat(b1, (n - 1) as nat);
        let p2 = pow_sat(b2, (n - 1) as nat);
        assert(p1 * b1 <= p2 * b2) by (nonlinear_arith)
            requires 0 <= p1 <= p2 && 0 <= b1 <= b2;
        lemma_round_div_mono(p1 * b1, p2 * b2, SCALE_E9 as int);
    }
}

/// A zero base collapses the power to zero after the first step.
pub proof fn lemma_pow_sat_zero(n: nat)
    requires
        n >= 1,
    ensures
        pow_sat(0, n) == 0,
    decreases n,
{
    lemma_round_div_abs_le(0, SCALE_E9 as int);
    if n > 1 {
        lemma_pow_sat_zero((n - 1) as nat);
    } else {
        reveal_with_fuel(pow_sat, 3);
    }
}

/// The annualization exponent in effect: days, capped.
pub open spec fn spec_days_eff(days: int) -> int {
    if days > APR_DAYS_CAP {
        APR_DAYS_CAP as int
    } else {
        days
    }
}

/// Euclid's greatest common divisor.
pub open spec fn spec_gcd(a: nat, b: nat) -> nat
    decreases b,
{
    if b == 0 {
        a
    } else {
        spec_gcd(b, a % b)
    }
}

/// The greatest common divisor of two positive numbers lies between
/// one and either number.
pub proof fn lemma_gcd_bounds(a: nat, b: nat)
    requires
        a >= 1,
        b >= 1,
    ensures
        1 <= spec_gcd(a, b),
        spec_gcd(a, b) <= a,
        spec_gcd(a, b) <= b,
    decreases b,
{
    let r = a % b;
    if r == 0 {
        if b > a {
            assert(a % b == a) by (nonlinear_arith)
                requires 1 <= a < b;
            assert(false);
        }
    } else {
        assert(a % b < b && a % b <= a) by (nonlinear_arith)
            requires a >= 1 && b >= 1;
        lemma_gcd_bounds(b, r);
    }
}

/// Executable greatest common divisor.
pub fn gcd_u32(a: u32, b: u32) -> (r: u32)
    requires
        a >= 1,
    ensures
        r == spec_gcd(a as nat, b as nat),
        r >= 1,
{
    let mut x: u32 = a;
    let mut y: u32 = b;
    while y != 0
        invariant
            x >= 1,
            spec_gcd(x as nat, y as nat) == spec_gcd(a as nat, b as nat),
        decreases y,
    {
        let t = x % y;
        x = y;
        y = t;
    }
    x
}

/// The growth factor fed to the power: `1 + trp`, clamped to
/// `[0, APR_BASE_CAP_E9]`.
pub open spec fn spec_apr_base(trp: int) -> int {
    let b = SCALE_E9 + trp;
    if b < 0 {
        0
    } else if b > APR_BASE_CAP_E9 {
        APR_BASE_CAP_E9 as int
    } else {
        b
    }
}

/// What the annualized return is: for a window under a day, the total
/// return itself; otherwise the largest rate `apr` whose compounding
/// over the window's days stays within the total growth compounded over
/// a 365-day year, both sides computed by the same saturating power.
pub open spec fn spec_apr_ok(trp: int, days: int, apr: int) -> bool {
    let de = spec_days_eff(days);
    if de <= 0 {
        apr == trp
    } else {
        let g = spec_gcd(de as nat, 365);
        let e_apr = de / g as int;
        let e_year = 365int / g as int;
        let target = pow_sat(spec_apr_base(trp), e_year as nat);
        &&& -SCALE_E9 <= apr <= APR_BASE_CAP_E9 - SCALE_E9
        &&& pow_sat(SCALE_E9 + apr, e_apr as nat) <= target
        &&& (apr == APR_BASE_CAP_E9 - SCALE_E9 || pow_sat(SCALE_E9 + apr + 1, e_apr as nat)
            > target)
    }
}

/// Only one rate satisfies [`spec_apr_ok`] for a given window.
pub proof fn lemma_apr_unique(trp: int, days: int, apr1: int, apr2: int)
    requires
        spec_apr_ok(trp, days, apr1),
        spec_apr_ok(trp, days, apr2),
    ensures
        apr1 == apr2,
{
    let de = spec_days_eff(days);
    if de > 0 {
        let g = spec_gcd(de as nat, 365);
        let e_apr = (de / g as int) as nat;
        if apr1 < apr2 {
            lemma_pow_sat_mono(SCALE_E9 + apr1 + 1, SCALE_E9 + apr2, e_apr);
            assert(false);
        }
        if apr2 < apr1 {
            lemma_pow_sat_mono(SCALE_E9 + apr2 + 1, SCALE_E9 + apr1, e_apr);
            assert(false);
        }
    }
}

/// Executable saturating power.
fn pow_sat_exec(b: i128, n: u32) -> (r: i128)
    requires
        0 <= b <= APR_BASE_CAP_E9,
        n <= 36_500,
    ensures
        r == pow_sat(b as int, n as nat),
        0 <= r <= POW_CAP_E9,
{
    let mut p: i128 = SCALE_E9 as i128;
    let mut i: u32 = 0;
    proof {
        lemma_pow_sat_nonneg(b as int, 0);
    }
    while i < n
        invariant
            i <= n,
            0 <= b <= APR_BASE_CAP_E9,
            p == pow_sat(b as int, i as nat),
            0 <= p <= POW_CAP_E9,
        decreases n - i,
    {
        proof {
            lemma_mul_le(p as int, POW_CAP_E9 as int, b as int, APR_BASE_CAP_E9 as int);
            lemma_round_div_abs_le(p as int * b as int, SCALE_E9 as int);
        }
        let q: i128 = rdiv(p * b, SCALE_E9 as i128);
        p = if q > POW_CAP_E9 {
            POW_CAP_E9
        } else {
            q
        };
        proof {
            lemma_pow_sat_nonneg(b as int, (i + 1) as nat);
        }
        i = i + 1;
    }
    p
}

/// Annualized return, scaled by `1e9`; see [`spec_apr_ok`].
pub fn calc_apr_e9(trp_e9: i64, days: i64) -> (r: i64)
    requires
        -RATIO_E9_CAP <= trp_e9 <= RATIO_E9_CAP,
    ensures
        spec_apr_ok(trp_e9 as int, days as int, r as int),
        -RATIO_E9_CAP <= r <= RATIO_E9_CAP,
{
    let de: i64 = if days > APR_DAYS_CAP {
        APR_DAYS_CAP
    } else {
        days
    };
    if de <= 0 {
        return trp_e9;
    }
    let g: u32 = gcd_u32(de as u32, 365);
    let n: u32 = (de as u32) / g;
    let e_year: u32 = 365 / g;
    proof {
        lemma_gcd_bounds(de as nat, 365);
        lemma_div_pos(de as int, g as int);
        lemma_div_le(de as int, g as int, APR_DAYS_CAP as int);
        lemma_div_le(365, g as int, 365);
        lemma_div_pos(365, g as int);
    }
    let bt: i128 = {
        let b = (SCALE_E9 as i128) + (trp_e9 as i128);
        if b < 0 {
            0
        } else if b > APR_BASE_CAP_E9 {
            APR_BASE_CAP_E9
        } else {
            b
        }
    };
    let target: i128 = pow_sat_exec(bt, e_year);
    let top: i128 = pow_sat_exec(APR_BASE_CAP_E9, n);
    if top <= target {
        return (APR_BASE_CAP_E9 - SCALE_E9 as i128) as i64;
    }
    let mut lo: i128 = -(SCALE_E9 as i128);
    let mut hi: i128 = APR_BASE_CAP_E9 - SCALE_E9 as i128;
    proof {
        lemma_pow_sat_zero(n as nat);
        lemma_pow_sat_nonneg(spec_apr_base(trp_e9 as int), e_year as nat);
    }
    while hi - lo > 1
        invariant
            -SCALE_E9 <= lo < hi <= APR_BASE_CAP_E9 - SCALE_E9,
            n as int == spec_days_eff(days as int) / spec_gcd(
                spec_days_eff(days as int) as nat,
                365,
            ) as int,
            n >= 1,
            n <= 36_500,
            target == pow_sat(
                spec_apr_base(trp_e9 as int),
                (365int / spec_gcd(spec_days_eff(days as int) as nat, 365) as int) as nat,
            ),
            pow_sat(SCALE_E9 + lo, n as nat) <= target,
            pow_sat(SCALE_E9 + hi, n as nat) > target,
        decreases hi - lo,
    {
        let mid: i128 = lo + (hi - lo) / 2;
        let pm: i128 = pow_sat_exec((SCALE_E9 as i128) + mid, n);
        if pm <= target {
            lo = mid;
        } else {
            hi = mid;
        }
    }
    lo as i64
}

/// All scalar metrics of one backtest.
#[derive(Clone, Copy, Debug, PartialEq, Eq, Structural)]
pub struct PerformanceMetrics {
    /// Profit or loss over the run, in cents.
    pub total_return_cents: i64,
    /// Relative return, scaled by `1e9`.
    pub total_return_pct_e9: i64,
    /// Annualized return, scaled by `1e9`.
    pub apr_e9: i64,
    /// Largest drawdown, scaled by `1e9`; never positive.
    pub max_drawdown_e9: i64,
    /// `|apr| / |max drawdown|`, scaled by `1e9`.
    pub apr_to_drawdown_ratio_e9: i64,
    /// `|relative return| / |max drawdown|`, scaled by `1e9`.
    pub recovery_factor_e9: i64,
    /// Completed deals over the run.
    pub deals_count: usize,
}

/// The metrics determined by the scalar state of a run: initial and last
/// capital, folded drawdown, window length and deal count, with the
/// annualized rate supplied by [`spec_apr_ok`].
pub open spec fn spec_metrics(
    initial: int,
    last: int,
    dd_e9: int,
    days: int,
    deals: usize,
    apr: int,
) -> PerformanceMetrics {
    let trp = spec_pct_e9(initial, last);
    let add = if dd_e9 < 0 {
        -dd_e9
    } else {
        dd_e9
    };
    let aapr = if apr >= 0 {
        apr
    } else {
        -apr
    };
    let atrp = if trp >= 0 {
        trp
    } else {
        -trp
    };
    PerformanceMetrics {
        total_return_cents: (last - initial) as i64,
        total_return_pct_e9: trp as i64,
        apr_e9: apr as i64,
        max_drawdown_e9: dd_e9 as i64,
        apr_to_drawdown_ratio_e9: (if add > 10 {
            clamp_ratio(round_div(aapr * SCALE_E9, add))
        } else {
            0
        }) as i64,
        recovery_factor_e9: clamp_ratio(
            round_div(atrp * SCALE_E9, if add > 10 {
                add
            } else {
                10
            }),
        ) as i64,
        deals_count: deals,
    }
}

impl PerformanceMetrics {
    /// Metrics of a run that has not produced anything yet.
    pub fn default() -> (r: Self)
        ensures
            r == (PerformanceMetrics {
                total_return_cents: 0i64,
                total_return_pct_e9: 0i64,
                apr_e9: 0i64,
                max_drawdown_e9: 0i64,
                apr_to_drawdown_ratio_e9: 0i64,
                recovery_factor_e9: 0i64,
                deals_count: 0usize,
            }),
    {
        PerformanceMetrics {
            total_return_cents: 0,
            total_return_pct_e9: 0,
            apr_e9: 0,
            max_drawdown_e9: 0,
            apr_to_drawdown_ratio_e9: 0,
            recovery_factor_e9: 0,
            deals_count: 0,
        }
    }

    /// The metrics as labelled display rows, one per scalar.
    pub fn to_stats_list(&self) -> (r: Vec<(String, String)>)
        ensures
            r@.len() == 7,
            r@[0].1@ == cents_digits(self.total_return_cents as int),
            r@[1].1@ == ratio_digits(self.total_return_pct_e9 as int),
            r@[2].1@ == ratio_digits(self.apr_e9 as int),
            r@[3].1@ == ratio_digits(self.max_drawdown_e9 as int),
            r@[4].1@ == ratio_digits(self.apr_to_drawdown_ratio_e9 as int),
            r@[5].1@ == ratio_digits(self.recovery_factor_e9 as int),
            r@[6].1@ == nat_digits(self.deals_count as nat),
    {
        let mut stats: Vec<(String, String)> = Vec::new();
        stats.push(("Total_Return".to_owned(), format_cents(self.total_return_cents)));
        stats.push(("Total_Return_Pct".to_owned(), format_ratio_e9(self.total_return_pct_e9)));
        stats.push(("APR".to_owned(), format_ratio_e9(self.apr_e9)));
        stats.push(("Max_Drawdown".to_owned(), format_ratio_e9(self.max_drawdown_e9)));
        stats.push(
            ("APR_Drawdown_Factor".to_owned(), format_ratio_e9(self.apr_to_drawdown_ratio_e9)),
        );
        stats.push(("Recovery_Factor".to_owned(), format_ratio_e9(self.recovery_factor_e9)));
        stats.push(("Deals_Count".to_owned(), format_u64(self.deals_count as u64)));
        stats
    }

    pub fn get_total_return(&self) -> (r: i64)
        ensures
            r == self.total_return_cents,
    {
        self.total_return_cents
    }

    pub fn get_total_return_percent(&self) -> (r: i64)
        ensures
            r == self.total_return_pct_e9,
    {
        self.total_return_pct_e9
    }

    pub fn get_apr(&self) -> (r: i64)
        ensures
            r == self.apr_e9,
    {
        self.apr_e9
    }

    pub fn get_max_drawdown(&self) -> (r: i64)
        ensures
            r == self.max_drawdown_e9,
    {
        self.max_drawdown_e9
    }

    pub fn get_apr_to_drawdown_ratio(&self) -> (r: i64)
        ensures
            r == self.apr_to_drawdown_ratio_e9,
    {
        self.apr_to_drawdown_ratio_e9
    }

    pub fn get_recovery_factor(&self) -> (r: i64)
        ensures
            r == self.recovery_factor_e9,
    {
        self.recovery_factor_e9
    }

    pub fn get_deals_count(&self) -> (r: usize)
        ensures
            r == self.deals_count,
    {
        self.deals_count
    }
}

/// Computes performance metrics, incrementally during a run or offline
/// from the full equity series.
#[derive(Debug)]
pub struct PerformanceManager {
    /// Starting capital, in cents; positive.
    pub initial_capital_cents: i64,
    /// When metrics are recomputed.
    pub metrics_calculation_mode: MetricsMode,
    /// Metrics as of the last update.
    pub metrics: PerformanceMetrics,
    /// Per-step relative returns of the last offline pass, scaled `1e9`.
    pub returns_e9: Vec<i64>,
    /// Capital after each recorded step, in cents.
    pub equity_curve: Vec<i64>,
    /// Highest capital seen, in cents.
    pub peak_cents: i64,
    /// Lowest drawdown seen, scaled by `1e9`; never positive.
    pub max_drawdown_e9: i64,
}

impl PerformanceManager {
    /// Bounds every update relies on.
    pub open spec fn wf(self) -> bool {
        &&& 0 < self.initial_capital_cents <= MONEY_CENTS_MAX
        &&& -MONEY_CENTS_MAX <= self.peak_cents <= MONEY_CENTS_MAX
        &&& -RATIO_E9_CAP <= self.max_drawdown_e9 <= 0
        &&& self.equity_curve@.len() >= 1
        &&& forall|i: int|
            0 <= i < self.equity_curve@.len() ==> -MONEY_CENTS_MAX <= #[trigger] self.equity_curve@[i]
                <= MONEY_CENTS_MAX
    }

    /// A fresh manager: the curve holds the starting capital, the peak is
    /// the starting capital and no drawdown has been seen.
    pub fn new(initial_capital_cents: i64, mode: MetricsMode) -> (r: Self)
        requires
            0 < initial_capital_cents <= MONEY_CENTS_MAX,
        ensures
            r.wf(),
            r.initial_capital_cents == initial_capital_cents,
            r.metrics_calculation_mode == mode,
            r.returns_e9@.len() == 0,
            r.metrics == (PerformanceMetrics {
                total_return_cents: 0i64,
                total_return_pct_e9: 0i64,
                apr_e9: 0i64,
                max_drawdown_e9: 0i64,
                apr_to_drawdown_ratio_e9: 0i64,
                recovery_factor_e9: 0i64,
                deals_count: 0usize,
            }),
            r.equity_curve@ == seq![initial_capital_cents],
            r.peak_cents == initial_capital_cents,
            r.max_drawdown_e9 == 0,
    {
        let mut curve: Vec<i64> = Vec::new();
        curve.push(initial_capital_cents);
        proof {
            assert(curve@ =~= seq![initial_capital_cents]);
        }
        PerformanceManager {
            initial_capital_cents,
            metrics_calculation_mode: mode,
            metrics: PerformanceMetrics::default(),
            returns_e9: Vec::new(),
            equity_curve: curve,
            peak_cents: initial_capital_cents,
            max_drawdown_e9: 0,
        }
    }

    /// Recomputes the scalar metrics from the current state.
    fn update_metrics(&mut self, start_ts: i64, end_ts: i64, deals_count: usize)
        requires
            old(self).wf(),
        ensures
            final(self).wf(),
            final(self).initial_capital_cents == old(self).initial_capital_cents,
            final(self).metrics_calculation_mode == old(self).metrics_calculation_mode,
            final(self).returns_e9@ == old(self).returns_e9@,
            final(self).equity_curve@ == old(self).equity_curve@,
            final(self).peak_cents == old(self).peak_cents,
            final(self).max_drawdown_e9 == old(self).max_drawdown_e9,
            spec_apr_ok(
                spec_pct_e9(
                    old(self).initial_capital_cents as int,
                    old(self).equity_curve@.last() as int,
                ),
                spec_days_between(start_ts as int, end_ts as int),
                final(self).metrics.apr_e9 as int,
            ),
            final(self).metrics == spec_metrics(
                old(self).initial_capital_cents as int,
                old(self).equity_curve@.last() as int,
                old(self).max_drawdown_e9 as int,
                spec_days_between(start_ts as int, end_ts as int),
                deals_count,
                final(self).metrics.apr_e9 as int,
            ),
    {
        let days = days_between(start_ts, end_ts);
        let last = self.equity_curve[self.equity_curve.len() - 1];
        let initial = self.initial_capital_cents;
        let trp: i64 = {
            let n: i128 = (last as i128) * (SCALE_E9 as i128);
            proof {
                lemma_round_div_abs_le(last as int * SCALE_E9 as int, initial as int);
            }
            let q: i128 = rdiv(n, initial as i128) - (SCALE_E9 as i128);
            clamp_ratio_exec(q)
        };
        let apr: i64 = calc_apr_e9(trp, days);
        let add: i64 = if self.max_drawdown_e9 < 0 {
            -self.max_drawdown_e9
        } else {
            self.max_drawdown_e9
        };
        let aapr: i64 = if apr >= 0 {
            apr
        } else {
            -apr
        };
        let atrp: i64 = if trp >= 0 {
            trp
        } else {
            -trp
        };
        let apr_dd: i64 = if add > 10 {
            proof {
                lemma_round_div_abs_le(aapr as int * SCALE_E9 as int, add as int);
            }
            clamp_ratio_exec(rdiv((aapr as i128) * (SCALE_E9 as i128), add as i128))
        } else {
            0
        };
        let denom: i64 = if add > 10 {
            add
        } else {
            10
        };
        proof {
            lemma_round_div_abs_le(atrp as int * SCALE_E9 as int, denom as int);
        }
        let rf: i64 = clamp_ratio_exec(rdiv((atrp as i128) * (SCALE_E9 as i128), denom as i128));
        self.metrics = PerformanceMetrics {
            total_return_cents: last - initial,
            total_return_pct_e9: trp,
            apr_e9: apr,
            max_drawdown_e9: self.max_drawdown_e9,
            apr_to_drawdown_ratio_e9: apr_dd,
            recovery_factor_e9: rf,
            deals_count,
        };
    }

    /// Appends one bar's capital and folds it into peak, drawdown and
    /// metrics.  The running maximum drawdown never increases.
    pub fn update_incremental(
        &mut self,
        current_total_cents: i64,
        start_ts: i64,
        end_ts: i64,
        deals_count: usize,
    )
        requires
            old(self).wf(),
            -MONEY_CENTS_MAX <= current_total_cents <= MONEY_CENTS_MAX,
        ensures
            final(self).wf(),
            final(self).initial_capital_cents == old(self).initial_capital_cents,
            final(self).metrics_calculation_mode == old(self).metrics_calculation_mode,
            final(self).equity_curve@ == old(self).equity_curve@.push(current_total_cents),
            (final(self).peak_cents as int, final(self).max_drawdown_e9 as int) == dd_step(
                old(self).peak_cents as int,
                old(self).max_drawdown_e9 as int,
                current_total_cents as int,
            ),
            final(self).max_drawdown_e9 <= old(self).max_drawdown_e9,
            spec_apr_ok(
                spec_pct_e9(old(self).initial_capital_cents as int, current_total_cents as int),
                spec_days_between(start_ts as int, end_ts as int),
                final(self).metrics.apr_e9 as int,
            ),
            final(self).metrics == spec_metrics(
                old(self).initial_capital_cents as int,
                current_total_cents as int,
                final(self).max_drawdown_e9 as int,
                spec_days_between(start_ts as int, end_ts as int),
                deals_count,
                final(self).metrics.apr_e9 as int,
            ),
    {
        self.equity_curve.push(current_total_cents);
        if current_total_cents > self.peak_cents {
            self.peak_cents = current_total_cents;
        }
        if self.peak_cents > 0 {
            proof {
                lemma_round_div_abs_le(
                    current_total_cents as int * SCALE_E9 as int,
                    self.peak_cents as int,
                );
            }
            let q: i128 = rdiv(
                (current_total_cents as i128) * (SCALE_E9 as i128),
                self.peak_cents as i128,
            ) - (SCALE_E9 as i128);
            let dd = clamp_ratio_exec(q);
            if dd < self.max_drawdown_e9 {
                self.max_drawdown_e9 = dd;
            }
        }
        self.update_metrics(start_ts, end_ts, deals_count);
    }

    /// Recomputes everything from a full equity series: per-step returns,
    /// the drawdown folded over the whole series with the series' first
    /// element as the starting peak, and the scalar metrics from the
    /// series' last element.  A series shorter than two entries changes
    /// nothing.
    pub fn calculate_final(
        &mut self,
        equity_series: &Vec<i64>,
        start_ts: i64,
        end_ts: i64,
        deals_count: usize,
    )
        requires
            old(self).wf(),
            forall|i: int|
                0 <= i < equity_series@.len() ==> -MONEY_CENTS_MAX <= #[trigger] equity_series@[i]
                    <= MONEY_CENTS_MAX,
        ensures
            final(self).wf(),
            final(self).initial_capital_cents == old(self).initial_capital_cents,
            final(self).metrics_calculation_mode == old(self).metrics_calculation_mode,
            equity_series@.len() < 2 ==> *final(self) == *old(self),
            equity_series@.len() >= 2 ==> {
                &&& final(self).equity_curve@ == equity_series@
                &&& final(self).returns_e9@.len() == equity_series@.len()
                &&& final(self).returns_e9@[0] == 0
                &&& forall|i: int|
                    1 <= i < equity_series@.len() ==> #[trigger] final(self).returns_e9@[i] as int
                        == spec_return_e9(
                        equity_series@[i - 1] as int,
                        equity_series@[i] as int,
                    )
                &&& (final(self).peak_cents as int, final(self).max_drawdown_e9 as int) == dd_scan(
                    equity_series@,
                    0,
                    equity_series@[0] as int,
                    0,
                )
                &&& spec_apr_ok(
                    spec_pct_e9(
                        old(self).initial_capital_cents as int,
                        equity_series@.last() as int,
                    ),
                    spec_days_between(start_ts as int, end_ts as int),
                    final(self).metrics.apr_e9 as int,
                )
                &&& final(self).metrics == spec_metrics(
                    old(self).initial_capital_cents as int,
                    equity_series@.last() as int,
                    final(self).max_drawdown_e9 as int,
                    spec_days_between(start_ts as int, end_ts as int),
                    deals_count,
                    final(self).metrics.apr_e9 as int,
                )
            },
    {
        let n = equity_series.len();
        if n < 2 {
            return ;
        }
        // Per-step returns.
        let mut rets: Vec<i64> = Vec::new();
        rets.push(0);
        let mut i: usize = 1;
        while i < n
            invariant
                1 <= i <= n,
                n == equity_series@.len(),
                rets@.len() == i,
                rets@[0] == 0,
                forall|k: int|
                    1 <= k < i ==> #[trigger] rets@[k] as int == spec_return_e9(
                        equity_series@[k - 1] as int,
                        equity_series@[k] as int,
                    ),
                forall|k: int|
                    0 <= k < equity_series@.len() ==> -MONEY_CENTS_MAX
                        <= #[trigger] equity_series@[k] <= MONEY_CENTS_MAX,
            decreases n - i,
        {
            let prev = equity_series[i - 1];
            let cur = equity_series[i];
            let r: i64 = if prev != 0 {
                let num: i128 = (cur as i128) * (SCALE_E9 as i128);
                let den: i128 = if prev > 0 {
                    prev as i128
                } else {
                    -(prev as i128)
                };
                proof {
                    lemma_round_div_abs_le(cur as int * SCALE_E9 as int, den as int);
                }
                let q0: i128 = rdiv(num, den);
                let q: i128 = if prev > 0 {
                    q0
                } else {
                    -q0
                };
                clamp_ratio_exec(q - SCALE_E9 as i128)
            } else {
                0
            };
            rets.push(r);
            i = i + 1;
        }
        // Fresh copy of the series as the equity curve.
        let mut curve: Vec<i64> = Vec::new();
        let mut j: usize = 0;
        while j < n
            invariant
                j <= n,
                n == equity_series@.len(),
                curve@ == equity_series@.take(j as int),
            decreases n - j,
        {
            curve.push(equity_series[j]);
            proof {
                assert(curve@ =~= equity_series@.take(j + 1));
            }
            j = j + 1;
        }
        proof {
            assert(equity_series@.take(n as int) =~= equity_series@);
        }
        // Maximum drawdown in one pass, carrying a running peak.
        let mut peak: i64 = equity_series[0];
        let mut dd: i64 = 0;
        let mut k: usize = 0;
        while k < n
            invariant
                k <= n,
                n == equity_series@.len(),
                n >= 1,
                -MONEY_CENTS_MAX <= peak <= MONEY_CENTS_MAX,
                -RATIO_E9_CAP <= dd <= 0,
                dd_scan(equity_series@, 0, equity_series@[0] as int, 0) == dd_scan(
                    equity_series@,
                    k as int,
                    peak as int,
                    dd as int,
                ),
                forall|m: int|
                    0 <= m < equity_series@.len() ==> -MONEY_CENTS_MAX
                        <= #[trigger] equity_series@[m] <= MONEY_CENTS_MAX,
            decreases n - k,
        {
            let v = equity_series[k];
            if v > peak {
                peak = v;
            }
            if peak > 0 {
                proof {
                    lemma_round_div_abs_le(v as int * SCALE_E9 as int, peak as int);
                }
                let q: i128 = rdiv((v as i128) * (SCALE_E9 as i128), peak as i128) - (
                SCALE_E9 as i128);
                let d = clamp_ratio_exec(q);
                if d < dd {
                    dd = d;
                }
            }
            k = k + 1;
        }
        self.returns_e9 = rets;
        self.equity_curve = curve;
        self.peak_cents = peak;
        self.max_drawdown_e9 = dd;
        self.update_metrics(start_ts, end_ts, deals_count);
    }

    /// The metrics as of the last update.
    pub fn get_current_performance_metrics(&self) -> (r: &PerformanceMetrics)
        ensures
            r == self.metrics,
    {
        &self.metrics
    }
}

/// Per-step relative return `cur/prev - 1`, scaled by `1e9`, clamped,
/// and zero where the previous value is zero.
pub open spec fn spec_return_e9(prev: int, cur: int) -> int {
    if prev > 0 {
        clamp_ratio(round_div(cur * SCALE_E9, prev) - SCALE_E9)
    } else if prev < 0 {
        clamp_ratio(-round_div(cur * SCALE_E9, -prev) - SCALE_E9)
    } else {
        0
    }
}

/// A positive numerator divided by a positive divisor that divides into
/// it at least once stays positive.
proof fn lemma_div_pos(a: int, g: int)
    by (nonlinear_arith)
    requires
        a >= 1,
        1 <= g <= a,
    ensures
        a / g >= 1,
{
}

/// Dividing by at least one does not increase.
proof fn lemma_div_le(a: int, g: int, cap: int)
    by (nonlinear_arith)
    requires
        1 <= a <= cap,
        g >= 1,
    ensures
        a / g <= cap,
        a / g >= 0,
{
}

/// Executable form of [`clamp_ratio`].
pub fn clamp_ratio_exec(x: i128) -> (r: i64)
    ensures
        r as int == clamp_ratio(x as int),
        -RATIO_E9_CAP <= r <= RATIO_E9_CAP,
{
    if x > RATIO_E9_CAP as i128 {
        RATIO_E9_CAP
    } else if x < -(RATIO_E9_CAP as i128) {
        -RATIO_E9_CAP
    } else {
        x as i64
    }
}

/// Offline and incremental drawdown agree: folding the series from its
/// first element with the first element as the starting peak is the same
/// as seeding peak and minimum from that element and folding the rest.
pub proof fn lemma_dd_offline_incremental(s: Seq<i64>)
    requires
        s.len() >= 1,
        s[0] > 0,
    ensures
        dd_scan(s, 0, s[0] as int, 0) == dd_scan(s, 1, s[0] as int, 0),
{
    let v = s[0] as int;
    assert(round_div(v * SCALE_E9, v) == SCALE_E9) by (nonlinear_arith)
        requires v > 0;
}

/// Offline and incremental metrics agree: on the same equity series,
/// with the series' first element as the starting capital, the offline
/// pass and the stream of per-bar updates fold to the same drawdown,
/// the same annualized rate, and hence the same metrics.
pub proof fn lemma_offline_incremental_agreement(
    s: Seq<i64>,
    days: int,
    deals: usize,
    apr_off: int,
    apr_inc: int,
)
    requires
        s.len() >= 1,
        s[0] > 0,
        spec_apr_ok(spec_pct_e9(s[0] as int, s.last() as int), days, apr_off),
        spec_apr_ok(spec_pct_e9(s[0] as int, s.last() as int), days, apr_inc),
    ensures
        dd_scan(s, 0, s[0] as int, 0) == dd_scan(s, 1, s[0] as int, 0),
        apr_off == apr_inc,
        spec_metrics(
            s[0] as int,
            s.last() as int,
            dd_scan(s, 0, s[0] as int, 0).1,
            days,
            deals,
            apr_off,
        ) == spec_metrics(
            s[0] as int,
            s.last() as int,
            dd_scan(s, 1, s[0] as int, 0).1,
            days,
            deals,
            apr_inc,
        ),
{
    lemma_dd_offline_incremental(s);
    lemma_apr_unique(spec_pct_e9(s[0] as int, s.last() as int), days, apr_off, apr_inc);
}

} // verus!
