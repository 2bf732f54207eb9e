//! Technical indicators over fixed-point series: the simple moving
//! average, and the highest and lowest value of a shifted window.
//!
//! Each yields nothing when the series is shorter than the requested
//! window; that is the contract of a young history, not an error.

use vstd::prelude::*;

use crate::fixed::{
    round_div, rdiv, lemma_round_div_in_band, PRICE_E5_MAX,
};

verus! {

/// Sum of the values from index `i` on.
pub open spec fn values_sum_from(s: Seq<i64>, i: int) -> int
    decreases s.len() - i,
{
    if i < 0 || i >= s.len() {
        0
    } else {
        s[i] + values_sum_from(s, i + 1)
    }
}

/// Tail sums of banded values stay within the band times the number of
/// elements left.
proof fn lemma_values_sum_bound(s: Seq<i64>, i: int)
    requires
        0 <= i <= s.len(),
        forall|k: int| 0 <= k < s.len() ==> -PRICE_E5_MAX <= #[trigger] s[k] <= PRICE_E5_MAX,
    ensures
        -((s.len() - i) * PRICE_E5_MAX) <= values_sum_from(s, i) <= (s.len() - i) * PRICE_E5_MAX,
    decreases s.len() - i,
{
    if i < s.len() {
        lemma_values_sum_bound(s, i + 1);
    }
}

/// Simple moving average of the last `n` values, rounded; nothing for
/// an empty window or a series shorter than the window.
pub fn sma(values: &Vec<i64>, n: usize) -> (r: Option<i64>)
    requires
        forall|k: int|
            0 <= k < values@.len() ==> -PRICE_E5_MAX <= #[trigger] values@[k] <= PRICE_E5_MAX,
    ensures
        r == if n == 0 || values@.len() < n {
            None::<i64>
        } else {
            Some(
                round_div(
                    values_sum_from(values@, values@.len() - n) - values_sum_from(
                        values@,
                        values@.len() as int,
                    ),
                    n as int,
                ) as i64,
            )
        },
{
    if n == 0 || values.len() < n {
        return None;
    }
    let len = values.len();
    let start = len - n;
    let mut sum: i128 = 0;
    let mut i: usize = len;
    while i > start
        invariant
            start <= i <= len,
            len == values@.len(),
            forall|k: int|
                0 <= k < values@.len() ==> -PRICE_E5_MAX <= #[trigger] values@[k] <= PRICE_E5_MAX,
            sum == values_sum_from(values@, i as int) - values_sum_from(values@, len as int),
        decreases i,
    {
        proof {
            lemma_values_sum_bound(values@, i as int);
            lemma_values_sum_bound(values@, i - 1);
            lemma_values_sum_bound(values@, len as int);
        }
        i = i - 1;
        sum = sum + (values[i] as i128);
    }
    proof {
        lemma_values_sum_bound(values@, start as int);
        lemma_values_sum_bound(values@, len as int);
        assert(values_sum_from(values@, len as int) == 0);
        lemma_round_div_in_band(
            values_sum_from(values@, start as int),
            n as int,
            PRICE_E5_MAX as int,
        );
        lemma_band_scale(n as int, len as int, PRICE_E5_MAX as int);
    }
    Some(rdiv(sum, n as i128) as i64)
}

/// The window sum stays within the divisor times the band.
proof fn lemma_band_scale(n: int, len: int, band: int)
    by (nonlinear_arith)
    requires
        1 <= n <= len,
        band >= 0,
    ensures
        n * band <= len * band,
{
}

/// Whether an optional value is at most `m`; absent values pass.
pub open spec fn opt_le(o: Option<i64>, m: i64) -> bool {
    match o {
        Some(v) => v <= m,
        None => true,
    }
}

/// Whether an optional value is at least `m`; absent values pass.
pub open spec fn opt_ge(o: Option<i64>, m: i64) -> bool {
    match o {
        Some(v) => v >= m,
        None => true,
    }
}

/// Largest value of the last `n` entries as of `shift` entries ago.
/// The window this reads is `[len - n - shift, len - n - shift + n)`,
/// ending `shift` entries before the newest.  A window that holds any
/// absent value yields nothing: a gap invalidates the whole channel
/// reading here, where [`lowest`] merely skips gaps; the asymmetry is
/// deliberate and matches how the two are consumed.
pub fn highest(values: &Vec<Option<i64>>, n: usize, shift: usize) -> (r: Option<i64>)
    ensures
        match r {
            Some(m) => {
                &&& n >= 1
                &&& values@.len() >= n + shift
                &&& exists|k: int|
                    values@.len() - n - shift <= k < values@.len() - shift && values@[k] == Some(m)
                &&& forall|k: int|
                    values@.len() - n - shift <= k < values@.len() - shift ==> (
                    #[trigger] values@[k]) is Some && opt_le(values@[k], m)
            },
            None => n == 0 || values@.len() < n + shift || (exists|k: int|
                values@.len() - n - shift <= k < values@.len() - shift && (#[trigger] values@[k])
                    is None),
        },
{
    if n == 0 || values.len() < shift || values.len() - shift < n {
        return None;
    }
    let len = values.len();
    let start = len - n - shift;
    let end = len - shift;
    let mut best: Option<i64> = None;
    let mut i: usize = start;
    while i < end
        invariant
            start <= i <= end,
            end <= values@.len(),
            start == values@.len() - n - shift,
            end == values@.len() - shift,
            n >= 1,
            match best {
                Some(m) => i > start && (exists|k: int|
                    start <= k < i && values@[k] == Some(m)) && (forall|k: int|
                    start <= k < i ==> (#[trigger] values@[k]) is Some && opt_le(values@[k], m)),
                None => i == start,
            },
        decreases end - i,
    {
        match values[i] {
            Some(v) => {
                best = match best {
                    Some(m) => if v > m {
                        Some(v)
                    } else {
                        Some(m)
                    },
                    None => Some(v),
                };
            },
            None => {
                return None;
            },
        }
        i = i + 1;
    }
    best
}

/// Smallest present value among the last `n` entries as of `shift`
/// entries ago; the mirror of [`highest`].
pub fn lowest(values: &Vec<Option<i64>>, n: usize, shift: usize) -> (r: Option<i64>)
    ensures
        match r {
            Some(m) => {
                &&& n >= 1
                &&& values@.len() >= n + shift
                &&& exists|k: int|
                    values@.len() - n - shift <= k < values@.len() - shift && values@[k] == Some(m)
                &&& forall|k: int|
                    values@.len() - n - shift <= k < values@.len() - shift ==> opt_ge(
                        #[trigger] values@[k],
                        m,
                    )
            },
            None => n == 0 || values@.len() < n + shift || (forall|k: int|
                values@.len() - n - shift <= k < values@.len() - shift ==> (#[trigger] values@[k])
                    is None),
        },
{
    if n == 0 || values.len() < shift || values.len() - shift < n {
        return None;
    }
    let len = values.len();
    let start = len - n - shift;
    let end = len - shift;
    let mut best: Option<i64> = None;
    let mut i: usize = start;
    while i < end
        invariant
            start <= i <= end,
            end <= values@.len(),
            start == values@.len() - n - shift,
            end == values@.len() - shift,
            match best {
                Some(m) => (exists|k: int| start <= k < i && values@[k] == Some(m)) && (forall|
                    k: int,
                |
                    start <= k < i ==> opt_ge(#[trigger] values@[k], m)),
                None => forall|k: int| start <= k < i ==> (#[trigger] values@[k]) is None,
            },
        decreases end - i,
    {
        match values[i] {
            Some(v) => {
                best = match best {
                    Some(m) => if v < m {
                        Some(v)
                    } else {
                        Some(m)
                    },
                    None => Some(v),
                };
            },
            None => {},
        }
        i = i + 1;
    }
    best
}

} // verus!
