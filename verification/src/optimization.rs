//! Hyperparameter optimization: parameter sets, the Cartesian
//! combination generator, exhaustive grid search, and the genetic
//! optimizer with its fitness cache.

use vstd::prelude::*;

use vstd::arithmetic::div_mod::{lemma_div_denominator, lemma_fundamental_div_mod_converse};

use crate::fixed::{rdiv, round_div, lemma_round_div_abs_le, lemma_round_div_machine_range};
use crate::params::{clone_named_values, ParamValue};
use crate::performance::PerformanceMetrics;
use crate::settings::{
    fitness_value_equiv, CompositeMetric, FitnessDirection, FitnessValue, GAParams,
    StrategySettings,
};
use crate::text::{format_i64, format_scaled_e5, int_digits, scaled_digits};

verus! {

/// One evaluated candidate: its parameters and its metrics.
#[derive(Debug)]
pub struct OptimizationResult {
    pub parameters: ParameterSet,
    pub results: PerformanceMetrics,
}

impl Clone for OptimizationResult {
    fn clone(&self) -> (r: Self)
        ensures
            param_set_equiv(r.parameters, self.parameters),
            r.results == self.results,
    {
        OptimizationResult { parameters: self.parameters.clone(), results: self.results }
    }
}

impl OptimizationResult {
    /// An empty result.
    pub fn new() -> (r: Self)
        ensures
            r.parameters.strategy_params@.len() == 0,
            r.parameters.pos_sizer_additional_params@.len() == 0,
    {
        OptimizationResult { parameters: ParameterSet::new(), results: PerformanceMetrics::default() }
    }

    pub fn with_parameters(self, parameters: ParameterSet) -> (r: Self)
        ensures
            r.parameters == parameters,
            r.results == self.results,
    {
        OptimizationResult { parameters, results: self.results }
    }

    pub fn with_results(self, results: PerformanceMetrics) -> (r: Self)
        ensures
            r.parameters == self.parameters,
            r.results == results,
    {
        OptimizationResult { parameters: self.parameters, results }
    }

    pub fn get_parameters(&self) -> (r: &ParameterSet)
        ensures
            r == self.parameters,
    {
        &self.parameters
    }

    pub fn get_results(&self) -> (r: &PerformanceMetrics)
        ensures
            r == self.results,
    {
        &self.results
    }
}

/// One point of the search space: strategy parameters, the sizer, and
/// the slippage.
#[derive(Debug)]
pub struct ParameterSet {
    /// Named strategy parameters, in axis order.
    pub strategy_params: Vec<(String, ParamValue)>,
    pub pos_sizer_name: String,
    /// The sizer's value, scaled by `1e5`.
    pub pos_sizer_value_e5: i64,
    /// Additional sizer parameters.
    pub pos_sizer_additional_params: Vec<(String, ParamValue)>,
    /// Slippage fraction, scaled by `1e5`.
    pub slippage_e5: i64,
}

/// Agreement of two parameter values, up to the view of a text value.
pub open spec fn param_value_equiv(a: ParamValue, b: ParamValue) -> bool {
    match (a, b) {
        (ParamValue::Text(x), ParamValue::Text(y)) => x@ == y@,
        _ => a == b,
    }
}

/// Element-wise agreement of two named value lists.
pub open spec fn named_values_equiv(
    a: Seq<(String, ParamValue)>,
    b: Seq<(String, ParamValue)>,
) -> bool {
    &&& a.len() == b.len()
    &&& forall|i: int|
        0 <= i < a.len() ==> (#[trigger] a[i]).0@ == b[i].0@ && param_value_equiv(a[i].1, b[i].1)
}

/// Field-for-field agreement of two parameter sets, as values: what a
/// clone produces.
pub open spec fn param_set_fields_eq(a: ParameterSet, b: ParameterSet) -> bool {
    &&& a.strategy_params@ == b.strategy_params@
    &&& a.pos_sizer_name == b.pos_sizer_name
    &&& a.pos_sizer_value_e5 == b.pos_sizer_value_e5
    &&& a.pos_sizer_additional_params@ == b.pos_sizer_additional_params@
    &&& a.slippage_e5 == b.slippage_e5
}

/// Agreement of two parameter sets, up to views: the tuple the cache
/// and equality of candidates speak about.
pub open spec fn param_set_equiv(a: ParameterSet, b: ParameterSet) -> bool {
    &&& named_values_equiv(a.strategy_params@, b.strategy_params@)
    &&& a.pos_sizer_name@ == b.pos_sizer_name@
    &&& a.pos_sizer_value_e5 == b.pos_sizer_value_e5
    &&& named_values_equiv(a.pos_sizer_additional_params@, b.pos_sizer_additional_params@)
    &&& a.slippage_e5 == b.slippage_e5
}

impl Clone for ParameterSet {
    fn clone(&self) -> (r: Self)
        ensures
            param_set_equiv(r, *self),
            param_set_fields_eq(r, *self),
    {
        ParameterSet {
            strategy_params: clone_named_values(&self.strategy_params),
            pos_sizer_name: self.pos_sizer_name.clone(),
            pos_sizer_value_e5: self.pos_sizer_value_e5,
            pos_sizer_additional_params: clone_named_values(&self.pos_sizer_additional_params),
            slippage_e5: self.slippage_e5,
        }
    }
}

impl ParameterSet {
    /// An empty parameter set.
    pub fn new() -> (r: Self)
        ensures
            r.strategy_params@.len() == 0,
            r.pos_sizer_name@.len() == 0,
            r.pos_sizer_value_e5 == 0,
            r.pos_sizer_additional_params@.len() == 0,
            r.slippage_e5 == 0,
    {
        ParameterSet {
            strategy_params: Vec::new(),
            pos_sizer_name: String::new(),
            pos_sizer_value_e5: 0,
            pos_sizer_additional_params: Vec::new(),
            slippage_e5: 0,
        }
    }

    pub fn with_strategy_params(self, params: Vec<(String, ParamValue)>) -> (r: Self)
        ensures
            r == (ParameterSet { strategy_params: params, ..self }),
    {
        ParameterSet { strategy_params: params, ..self }
    }

    pub fn with_pos_sizer_name(self, name: String) -> (r: Self)
        ensures
            r == (ParameterSet { pos_sizer_name: name, ..self }),
    {
        ParameterSet { pos_sizer_name: name, ..self }
    }

    pub fn with_pos_sizer_value(self, value_e5: i64) -> (r: Self)
        ensures
            r == (ParameterSet { pos_sizer_value_e5: value_e5, ..self }),
    {
        ParameterSet { pos_sizer_value_e5: value_e5, ..self }
    }

    pub fn with_pos_sizer_additional_params(self, params: Vec<(String, ParamValue)>) -> (r: Self)
        ensures
            r == (ParameterSet { pos_sizer_additional_params: params, ..self }),
    {
        ParameterSet { pos_sizer_additional_params: params, ..self }
    }

    pub fn with_slippage(self, value_e5: i64) -> (r: Self)
        ensures
            r == (ParameterSet { slippage_e5: value_e5, ..self }),
    {
        ParameterSet { slippage_e5: value_e5, ..self }
    }

    pub fn get_strategy_params(&self) -> (r: &Vec<(String, ParamValue)>)
        ensures
            r == self.strategy_params,
    {
        &self.strategy_params
    }

    pub fn get_pos_sizer_value(&self) -> (r: i64)
        ensures
            r == self.pos_sizer_value_e5,
    {
        self.pos_sizer_value_e5
    }

    pub fn get_pos_sizer_name(&self) -> (r: &String)
        ensures
            r == self.pos_sizer_name,
    {
        &self.pos_sizer_name
    }

    pub fn get_pos_sizer_additional_params(&self) -> (r: &Vec<(String, ParamValue)>)
        ensures
            r == self.pos_sizer_additional_params,
    {
        &self.pos_sizer_additional_params
    }

    pub fn get_slippage(&self) -> (r: i64)
        ensures
            r == self.slippage_e5,
    {
        self.slippage_e5
    }
}

/// Ranges to sweep: per-axis value lists for the strategy, the sizer
/// and the slippage.
#[derive(Debug)]
pub struct OptimizationConfig {
    /// Strategy axes: name against candidate values, in a stable order.
    pub strategy_params_ranges: Vec<(String, Vec<ParamValue>)>,
    /// Candidate sizer values, scaled by `1e5`.
    pub pos_sizer_value_range: Vec<i64>,
    /// Candidate slippage fractions, scaled by `1e5`.
    pub slippage_range: Vec<i64>,
    pub pos_sizer_name: String,
    /// Additional sizer axes.
    pub pos_sizer_additional_params: Vec<(String, Vec<ParamValue>)>,
}

impl OptimizationConfig {
    /// An empty configuration.
    pub fn new() -> (r: Self)
        ensures
            r.strategy_params_ranges@.len() == 0,
            r.pos_sizer_value_range@.len() == 0,
            r.slippage_range@.len() == 0,
            r.pos_sizer_additional_params@.len() == 0,
    {
        OptimizationConfig {
            strategy_params_ranges: Vec::new(),
            pos_sizer_value_range: Vec::new(),
            slippage_range: Vec::new(),
            pos_sizer_name: String::new(),
            pos_sizer_additional_params: Vec::new(),
        }
    }

    pub fn with_strategy_params_ranges(self, ranges: Vec<(String, Vec<ParamValue>)>) -> (r: Self)
        ensures
            r == (OptimizationConfig { strategy_params_ranges: ranges, ..self }),
    {
        OptimizationConfig { strategy_params_ranges: ranges, ..self }
    }

    pub fn with_pos_sizer_name(self, name: String) -> (r: Self)
        ensures
            r == (OptimizationConfig { pos_sizer_name: name, ..self }),
    {
        OptimizationConfig { pos_sizer_name: name, ..self }
    }

    pub fn with_pos_sizer_additional_params(self, params: Vec<(String, Vec<ParamValue>)>) -> (r:
        Self)
        ensures
            r == (OptimizationConfig { pos_sizer_additional_params: params, ..self }),
    {
        OptimizationConfig { pos_sizer_additional_params: params, ..self }
    }

    pub fn with_pos_sizer_value_ranges(self, range: Vec<i64>) -> (r: Self)
        ensures
            r == (OptimizationConfig { pos_sizer_value_range: range, ..self }),
    {
        OptimizationConfig { pos_sizer_value_range: range, ..self }
    }

    pub fn with_slippage_range(self, range: Vec<i64>) -> (r: Self)
        ensures
            r == (OptimizationConfig { slippage_range: range, ..self }),
    {
        OptimizationConfig { slippage_range: range, ..self }
    }

    /// Number of points the sweep visits: the product of the strategy
    /// axis sizes, times the sizer range (an empty one counts once),
    /// times the slippage range.
    pub open spec fn spec_total_combinations(self) -> int {
        axes_product_from(self.strategy_params_ranges@, 0) * (
        if self.pos_sizer_value_range@.len() == 0 {
            1int
        } else {
            self.pos_sizer_value_range@.len() as int
        }) * self.slippage_range@.len()
    }

    /// Every combination of the configured axes, enumerated
    /// positionally: element `j` is the `j`-th tuple in generation
    /// order - slippage-major, then the sizer value, then the strategy
    /// axes with the last axis varying fastest ([`combo_at`]).  Its
    /// length is exactly [`Self::spec_total_combinations`], so with
    /// pairwise-distinct values on every axis the enumeration is
    /// exhaustive; an axis holding the same value twice legitimately
    /// repeats its tuples.
    pub fn generate_all_combinations_vec(&self) -> (r: Vec<ParameterSet>)
        ensures
            r@.len() == self.spec_total_combinations(),
            combos_ok(r@, *self),
            forall|j: int| 0 <= j < r@.len() ==> combo_at(*self, j, #[trigger] r@[j]),
    {
        // Cartesian product over the strategy axes.
        let mut assignments: Vec<Vec<(String, ParamValue)>> = Vec::new();
        assignments.push(Vec::new());
        let mut a: usize = 0;
        let na = self.strategy_params_ranges.len();
        while a < na
            invariant
                a <= na,
                na == self.strategy_params_ranges@.len(),
                assignments@.len() == axes_product_from(
                    self.strategy_params_ranges@.take(a as int),
                    0,
                ),
                forall|j: int|
                    0 <= j < assignments@.len() ==> (#[trigger] assignments@[j])@.len() == a
                        && (forall|k: int|
                        0 <= k < a ==> (#[trigger] assignments@[j]@[k]).0@
                            == self.strategy_params_ranges@[k].0@
                            && self.strategy_params_ranges@[k].1@.contains(
                            assignments@[j]@[k].1,
                        )),
                forall|j: int, k: int|
                    0 <= j < assignments@.len() && 0 <= k < a ==> (#[trigger] assignments@[j]@[k]).1
                        == self.strategy_params_ranges@[k].1@[axis_digit_upto(
                        self.strategy_params_ranges@,
                        a as int,
                        j,
                        k,
                    )],
            decreases na - a,
        {
            let axis = &self.strategy_params_ranges[a];
            let mut next: Vec<Vec<(String, ParamValue)>> = Vec::new();
            let mut j: usize = 0;
            let cur = assignments.len();
            while j < cur
                invariant
                    j <= cur,
                    a < na,
                    na == self.strategy_params_ranges@.len(),
                    axis == &self.strategy_params_ranges@[a as int],
                    cur == assignments@.len(),
                    assignments@.len() == axes_product_from(
                        self.strategy_params_ranges@.take(a as int),
                        0,
                    ),
                    next@.len() == j * axis.1@.len(),
                    forall|p: int|
                        0 <= p < assignments@.len() ==> (#[trigger] assignments@[p])@.len() == a
                            && (forall|k: int|
                            0 <= k < a ==> (#[trigger] assignments@[p]@[k]).0@
                                == self.strategy_params_ranges@[k].0@
                                && self.strategy_params_ranges@[k].1@.contains(
                                assignments@[p]@[k].1,
                            )),
                    forall|q: int|
                        0 <= q < next@.len() ==> (#[trigger] next@[q])@.len() == a + 1 && (forall|
                            k: int,
                        |
                            0 <= k < a + 1 ==> (#[trigger] next@[q]@[k]).0@
                                == self.strategy_params_ranges@[k].0@
                                && self.strategy_params_ranges@[k].1@.contains(next@[q]@[k].1)),
                    forall|p: int, k: int|
                        0 <= p < assignments@.len() && 0 <= k < a ==> (
                        #[trigger] assignments@[p]@[k]).1 == self.strategy_params_ranges@[k].1@[
                        axis_digit_upto(self.strategy_params_ranges@, a as int, p, k)],
                    forall|q: int, k: int|
                        0 <= q < next@.len() && 0 <= k < a + 1 ==> (#[trigger] next@[q]@[k]).1
                            == self.strategy_params_ranges@[k].1@[axis_digit_upto(
                            self.strategy_params_ranges@,
                            a + 1,
                            q,
                            k,
                        )],
                decreases cur - j,
            {
                let mut v: usize = 0;
                let nv = axis.1.len();
                while v < nv
                    invariant
                        v <= nv,
                        j < cur,
                        a < na,
                        na == self.strategy_params_ranges@.len(),
                        axis == &self.strategy_params_ranges@[a as int],
                        cur == assignments@.len(),
                        assignments@.len() == axes_product_from(
                            self.strategy_params_ranges@.take(a as int),
                            0,
                        ),
                        nv == axis.1@.len(),
                        next@.len() == j * axis.1@.len() + v,
                        forall|p: int|
                            0 <= p < assignments@.len() ==> (#[trigger] assignments@[p])@.len()
                                == a && (forall|k: int|
                                0 <= k < a ==> (#[trigger] assignments@[p]@[k]).0@
                                    == self.strategy_params_ranges@[k].0@
                                    && self.strategy_params_ranges@[k].1@.contains(
                                    assignments@[p]@[k].1,
                                )),
                        forall|q: int|
                            0 <= q < next@.len() ==> (#[trigger] next@[q])@.len() == a + 1 && (
                            forall|k: int|
                                0 <= k < a + 1 ==> (#[trigger] next@[q]@[k]).0@
                                    == self.strategy_params_ranges@[k].0@
                                    && self.strategy_params_ranges@[k].1@.contains(
                                    next@[q]@[k].1,
                                )),
                        forall|p: int, k: int|
                            0 <= p < assignments@.len() && 0 <= k < a ==> (
                            #[trigger] assignments@[p]@[k]).1 == self.strategy_params_ranges@[k].1@[
                            axis_digit_upto(self.strategy_params_ranges@, a as int, p, k)],
                        forall|q: int, k: int|
                            0 <= q < next@.len() && 0 <= k < a + 1 ==> (#[trigger] next@[q]@[k]).1
                                == self.strategy_params_ranges@[k].1@[axis_digit_upto(
                                self.strategy_params_ranges@,
                                a + 1,
                                q,
                                k,
                            )],
                    decreases nv - v,
                {
                    let mut extended = clone_named_values(&assignments[j]);
                    extended.push((axis.0.clone(), axis.1[v].clone()));
                    next.push(extended);
                    proof {
                        let axes = self.strategy_params_ranges@;
                        let aa = a as int;
                        let l = axes[aa].1@.len() as int;
                        let q = j * l + v;
                        assert(axes.take(aa).len() == aa);
                        assert(axes.take(aa + 1).len() == aa + 1);
                        assert(axes_product_from(axes.take(aa + 1), aa + 1) == 1);
                        lemma_extend_digit(j as int, v as int, l, 1);
                        assert(next@[q]@[aa].1 == axes[aa].1@[v as int]);
                        assert(next@[q]@[aa].1 == axes[aa].1@[axis_digit_upto(
                            axes,
                            aa + 1,
                            q,
                            aa,
                        )]);
                        assert forall|k: int| 0 <= k < aa implies (#[trigger] next@[q]@[k]).1
                            == axes[k].1@[axis_digit_upto(axes, aa + 1, q, k)] by {
                            lemma_axes_product_suffix_pos(axes.take(aa), k + 1);
                            let pk = axes_product_from(axes.take(aa), k + 1);
                            lemma_axes_product_take_general(axes, aa, k + 1);
                            assert(axes_product_from(axes.take(aa + 1), k + 1) == pk * l);
                            lemma_extend_digit(j as int, v as int, l, pk);
                            assert(pk * l == l * pk) by (nonlinear_arith);
                            assert(q / (pk * l) == j as int / pk);
                            assert(next@[q]@[k].1 == assignments@[j as int]@[k].1);
                        }
                    }
                    v = v + 1;
                }
                proof {
                    assert((j + 1) * axis.1@.len() == j * axis.1@.len() + axis.1@.len())
                        by (nonlinear_arith);
                }
                j = j + 1;
            }
            proof {
                lemma_axes_product_take_step(self.strategy_params_ranges@, a as int);
            }
            assignments = next;
            a = a + 1;
        }
        proof {
            assert(self.strategy_params_ranges@.take(na as int) =~= self.strategy_params_ranges@);
            assert forall|p: int, k: int|
                0 <= p < assignments@.len() && 0 <= k < na implies (
            #[trigger] assignments@[p]@[k]).1 == self.strategy_params_ranges@[k].1@[axis_digit(
                self.strategy_params_ranges@,
                p,
                k,
            )] by {
                assert(assignments@[p]@[k].1 == self.strategy_params_ranges@[k].1@[axis_digit_upto(
                    self.strategy_params_ranges@,
                    na as int,
                    p,
                    k,
                )]);
            }
        }
        // One parameter set per (slippage, sizer value, assignment).
        let mut out: Vec<ParameterSet> = Vec::new();
        let psv_count: usize = if self.pos_sizer_value_range.len() == 0 {
            1
        } else {
            self.pos_sizer_value_range.len()
        };
        let mut si: usize = 0;
        let ns = self.slippage_range.len();
        let base = assignments.len();
        while si < ns
            invariant
                si <= ns,
                ns == self.slippage_range@.len(),
                base == assignments@.len(),
                psv_count == if self.pos_sizer_value_range@.len() == 0 {
                    1int
                } else {
                    self.pos_sizer_value_range@.len() as int
                },
                out@.len() == si * base * psv_count,
                combos_ok(out@, *self),
                base == axes_product_from(self.strategy_params_ranges@, 0),
                forall|p: int, k: int|
                    0 <= p < base && 0 <= k < na ==> (#[trigger] assignments@[p]@[k]).1
                        == self.strategy_params_ranges@[k].1@[axis_digit(
                        self.strategy_params_ranges@,
                        p,
                        k,
                    )],
                forall|jj: int| 0 <= jj < out@.len() ==> combo_at(*self, jj, #[trigger] out@[jj]),
                forall|p: int|
                    0 <= p < assignments@.len() ==> (#[trigger] assignments@[p])@.len() == na
                        && (forall|k: int|
                        0 <= k < na ==> (#[trigger] assignments@[p]@[k]).0@
                            == self.strategy_params_ranges@[k].0@
                            && self.strategy_params_ranges@[k].1@.contains(
                            assignments@[p]@[k].1,
                        )),
                na == self.strategy_params_ranges@.len(),
            decreases ns - si,
        {
            let slippage = self.slippage_range[si];
            let mut pi: usize = 0;
            while pi < psv_count
                invariant
                    pi <= psv_count,
                    si < ns,
                    ns == self.slippage_range@.len(),
                    slippage == self.slippage_range@[si as int],
                    base == assignments@.len(),
                    psv_count == if self.pos_sizer_value_range@.len() == 0 {
                        1int
                    } else {
                        self.pos_sizer_value_range@.len() as int
                    },
                    out@.len() == si * base * psv_count + pi * base,
                    combos_ok(out@, *self),
                    base == axes_product_from(self.strategy_params_ranges@, 0),
                    forall|p: int, k: int|
                        0 <= p < base && 0 <= k < na ==> (#[trigger] assignments@[p]@[k]).1
                            == self.strategy_params_ranges@[k].1@[axis_digit(
                            self.strategy_params_ranges@,
                            p,
                            k,
                        )],
                    forall|jj: int|
                        0 <= jj < out@.len() ==> combo_at(*self, jj, #[trigger] out@[jj]),
                    forall|p: int|
                        0 <= p < assignments@.len() ==> (#[trigger] assignments@[p])@.len() == na
                            && (forall|k: int|
                            0 <= k < na ==> (#[trigger] assignments@[p]@[k]).0@
                                == self.strategy_params_ranges@[k].0@
                                && self.strategy_params_ranges@[k].1@.contains(
                                assignments@[p]@[k].1,
                            )),
                    na == self.strategy_params_ranges@.len(),
                decreases psv_count - pi,
            {
                let psv: i64 = if self.pos_sizer_value_range.len() == 0 {
                    0
                } else {
                    self.pos_sizer_value_range[pi]
                };
                let mut ai: usize = 0;
                while ai < base
                    invariant
                        ai <= base,
                        si < ns,
                        pi < psv_count,
                        ns == self.slippage_range@.len(),
                        slippage == self.slippage_range@[si as int],
                        base == assignments@.len(),
                        psv_count == if self.pos_sizer_value_range@.len() == 0 {
                            1int
                        } else {
                            self.pos_sizer_value_range@.len() as int
                        },
                        self.pos_sizer_value_range@.len() == 0 ==> psv == 0,
                        self.pos_sizer_value_range@.len() > 0 ==> psv
                            == self.pos_sizer_value_range@[pi as int],
                        out@.len() == si * base * psv_count + pi * base + ai,
                        combos_ok(out@, *self),
                        base == axes_product_from(self.strategy_params_ranges@, 0),
                        forall|p: int, k: int|
                            0 <= p < base && 0 <= k < na ==> (#[trigger] assignments@[p]@[k]).1
                                == self.strategy_params_ranges@[k].1@[axis_digit(
                                self.strategy_params_ranges@,
                                p,
                                k,
                            )],
                        forall|jj: int|
                            0 <= jj < out@.len() ==> combo_at(*self, jj, #[trigger] out@[jj]),
                        forall|p: int|
                            0 <= p < assignments@.len() ==> (#[trigger] assignments@[p])@.len()
                                == na && (forall|k: int|
                                0 <= k < na ==> (#[trigger] assignments@[p]@[k]).0@
                                    == self.strategy_params_ranges@[k].0@
                                    && self.strategy_params_ranges@[k].1@.contains(
                                    assignments@[p]@[k].1,
                                )),
                        na == self.strategy_params_ranges@.len(),
                    decreases base - ai,
                {
                    let extras = flatten_axes(&self.pos_sizer_additional_params);
                    let ps = ParameterSet {
                        strategy_params: clone_named_values(&assignments[ai]),
                        pos_sizer_name: self.pos_sizer_name.clone(),
                        pos_sizer_value_e5: psv,
                        pos_sizer_additional_params: extras,
                        slippage_e5: slippage,
                    };
                    proof {
                        let axes = self.strategy_params_ranges@;
                        let b = axes_product_from(axes, 0);
                        let pc = psv_count as int;
                        let jx = out@.len() as int;
                        assert(jx == si * (b * pc) + pi * b + ai) by (nonlinear_arith)
                            requires
                                jx == si * base * psv_count + pi * base + ai,
                                base == b,
                                psv_count == pc,
                        ;
                        lemma_flat_index_3(si as int, pi as int, ai as int, b, pc);
                        assert(ps.strategy_params@ == assignments@[ai as int]@);
                        assert(combo_at(*self, jx, ps));
                    }
                    out.push(ps);
                    ai = ai + 1;
                }
                proof {
                    assert((pi + 1) * base == pi * base + base) by (nonlinear_arith);
                }
                pi = pi + 1;
            }
            proof {
                assert((si + 1) * base * psv_count == si * base * psv_count + psv_count * base)
                    by (nonlinear_arith);
            }
            si = si + 1;
        }
        proof {
            assert(out@.len() == ns * base * psv_count) by (nonlinear_arith)
                requires
                    out@.len() == ns * base * psv_count,
            ;
            assert(ns * base * psv_count == base * psv_count * ns) by (nonlinear_arith);
        }
        out
    }
}

/// Whether one parameter set is drawn from the configured axes.
pub open spec fn combo_ok_one(ps: ParameterSet, config: OptimizationConfig) -> bool {
    &&& ps.pos_sizer_name@ == config.pos_sizer_name@
    &&& ps.strategy_params@.len() == config.strategy_params_ranges@.len()
    &&& (forall|k: int|
        0 <= k < config.strategy_params_ranges@.len() ==> (#[trigger] ps.strategy_params@[k]).0@
            == config.strategy_params_ranges@[k].0@ && config.strategy_params_ranges@[k].1@.contains(
            ps.strategy_params@[k].1,
        ))
    &&& (config.pos_sizer_value_range@.len() == 0 ==> ps.pos_sizer_value_e5 == 0)
    &&& (config.pos_sizer_value_range@.len() > 0 ==> config.pos_sizer_value_range@.contains(
        ps.pos_sizer_value_e5,
    ))
    &&& config.slippage_range@.contains(ps.slippage_e5)
    &&& ps.pos_sizer_additional_params@.len() == axes_values_from(
        config.pos_sizer_additional_params@,
        0,
    )
    &&& (forall|k: int|
        0 <= k < ps.pos_sizer_additional_params@.len() ==> drawn_from_axes(
            config.pos_sizer_additional_params@,
            #[trigger] ps.pos_sizer_additional_params@[k],
        ))
}

/// Whether every parameter set in `s` is drawn from the configured
/// axes.
pub open spec fn combos_ok(s: Seq<ParameterSet>, config: OptimizationConfig) -> bool {
    forall|j: int| 0 <= j < s.len() ==> combo_ok_one(#[trigger] s[j], config)
}

/// Field-equal parameter sets are drawn from the same axes, and are
/// equivalent to the same parameter sets.
pub proof fn lemma_fields_eq_congruence(a: ParameterSet, b: ParameterSet, config: OptimizationConfig)
    requires
        param_set_fields_eq(a, b),
    ensures
        combo_ok_one(a, config) == combo_ok_one(b, config),
        forall|x: ParameterSet| #[trigger] param_set_equiv(x, a) == param_set_equiv(x, b),
        forall|x: ParameterSet| #[trigger] param_set_equiv(a, x) == param_set_equiv(b, x),
{
}

/// The value index of axis `k` encoded in a flat assignment index,
/// reading the axes most-significant-first (the last axis varies
/// fastest).
pub open spec fn axis_digit(axes: Seq<(String, Vec<ParamValue>)>, idx: int, k: int) -> int {
    (idx / axes_product_from(axes, k + 1)) % (axes[k].1@.len() as int)
}

/// [`axis_digit`] over the first `upto` axes only; the form the
/// product construction maintains axis by axis.
spec fn axis_digit_upto(axes: Seq<(String, Vec<ParamValue>)>, upto: int, idx: int, k: int) -> int {
    (idx / axes_product_from(axes.take(upto), k + 1)) % (axes[k].1@.len() as int)
}

/// Element `j` of the generated enumeration: the `j`-th tuple in
/// generation order - slippage-major, then the sizer value, then the
/// strategy axes with the last axis varying fastest.
pub open spec fn combo_at(config: OptimizationConfig, j: int, ps: ParameterSet) -> bool {
    let b = axes_product_from(config.strategy_params_ranges@, 0);
    let pc = if config.pos_sizer_value_range@.len() == 0 {
        1int
    } else {
        config.pos_sizer_value_range@.len() as int
    };
    let si = j / (b * pc);
    let pi = (j / b) % pc;
    let ai = j % b;
    &&& ps.slippage_e5 == config.slippage_range@[si]
    &&& (config.pos_sizer_value_range@.len() > 0 ==> ps.pos_sizer_value_e5
        == config.pos_sizer_value_range@[pi])
    &&& forall|k: int|
        0 <= k < config.strategy_params_ranges@.len() ==> (#[trigger] ps.strategy_params@[k]).1
            == config.strategy_params_ranges@[k].1@[axis_digit(
            config.strategy_params_ranges@,
            ai,
            k,
        )]
}

/// Recovers the three outer coordinates of a flat generation index.
proof fn lemma_flat_index_3(si: int, pi: int, ai: int, b: int, pc: int)
    requires
        b >= 1,
        pc >= 1,
        0 <= ai < b,
        0 <= pi < pc,
        si >= 0,
    ensures
        (si * (b * pc) + pi * b + ai) / (b * pc) == si,
        ((si * (b * pc) + pi * b + ai) / b) % pc == pi,
        (si * (b * pc) + pi * b + ai) % b == ai,
{
    let j = si * (b * pc) + pi * b + ai;
    assert(0 <= pi * b + ai < b * pc) by (nonlinear_arith)
        requires b >= 1 && pc >= 1 && 0 <= ai < b && 0 <= pi < pc;
    assert(j == si * (b * pc) + (pi * b + ai));
    lemma_fundamental_div_mod_converse(j, b * pc, si, pi * b + ai);
    assert(j == (si * pc + pi) * b + ai) by (nonlinear_arith)
        requires j == si * (b * pc) + pi * b + ai;
    lemma_fundamental_div_mod_converse(j, b, si * pc + pi, ai);
    lemma_fundamental_div_mod_converse(si * pc + pi, pc, si, pi);
}

/// Extending an assignment index by one axis position leaves every
/// earlier digit in place and writes the new position as the last one.
proof fn lemma_extend_digit(j: int, v: int, l: int, p: int)
    requires
        j >= 0,
        1 <= l,
        0 <= v < l,
        1 <= p,
    ensures
        (j * l + v) / (l * p) == j / p,
        (j * l + v) % l == v,
        (j * l + v) / 1 == j * l + v,
{
    lemma_fundamental_div_mod_converse(j * l + v, l, j, v);
    lemma_div_denominator(j * l + v, l, p);
}

/// A positive whole product keeps every suffix product positive.
proof fn lemma_axes_product_suffix_pos(axes: Seq<(String, Vec<ParamValue>)>, i: int)
    requires
        0 <= i <= axes.len(),
        axes_product_from(axes, 0) >= 1,
    ensures
        axes_product_from(axes, i) >= 1,
    decreases i,
{
    if i > 0 {
        lemma_axes_product_suffix_pos(axes, i - 1);
        lemma_axes_values_nonneg_product(axes, i);
        assert(axes_product_from(axes, i - 1) == axes[i - 1].1@.len() * axes_product_from(
            axes,
            i,
        ));
        if axes_product_from(axes, i) == 0 {
            assert(axes[i - 1].1@.len() * 0 == 0) by (nonlinear_arith);
            assert(false);
        }
    }
}

/// Suffix products of axis sizes are never negative.
proof fn lemma_axes_values_nonneg_product(axes: Seq<(String, Vec<ParamValue>)>, i: int)
    requires
        0 <= i <= axes.len(),
    ensures
        axes_product_from(axes, i) >= 0,
    decreases axes.len() - i,
{
    if i < axes.len() {
        lemma_axes_values_nonneg_product(axes, i + 1);
        assert(axes[i].1@.len() * axes_product_from(axes, i + 1) >= 0) by (nonlinear_arith)
            requires axes[i].1@.len() >= 0 && axes_product_from(axes, i + 1) >= 0;
    }
}

/// Product of the axis sizes from index `i` on.
pub open spec fn axes_product_from(axes: Seq<(String, Vec<ParamValue>)>, i: int) -> int
    decreases axes.len() - i,
{
    if i < 0 || i >= axes.len() {
        1
    } else {
        axes[i].1@.len() * axes_product_from(axes, i + 1)
    }
}

/// Extending the prefix by one axis multiplies its product by that
/// axis's size.
proof fn lemma_axes_product_take_step(axes: Seq<(String, Vec<ParamValue>)>, a: int)
    requires
        0 <= a < axes.len(),
    ensures
        axes_product_from(axes.take(a + 1), 0) == axes_product_from(axes.take(a), 0) * axes[a].1@.len(),
{
    lemma_axes_product_take_general(axes, a, 0);
}

/// See [`lemma_axes_product_take_step`].
proof fn lemma_axes_product_take_general(axes: Seq<(String, Vec<ParamValue>)>, a: int, i: int)
    requires
        0 <= i <= a < axes.len(),
    ensures
        axes_product_from(axes.take(a + 1), i) == axes_product_from(axes.take(a), i) * axes[
            a
        ].1@.len(),
    decreases a - i,
{
    if i == a {
        assert(axes.take(a + 1)[a] == axes[a]);
        assert(axes_product_from(axes.take(a + 1), a + 1) == 1);
        assert(axes_product_from(axes.take(a), a) == 1);
    } else {
        lemma_axes_product_take_general(axes, a, i + 1);
        assert(axes.take(a + 1)[i] == axes[i]);
        assert(axes.take(a)[i] == axes[i]);
        assert(axes[i].1@.len() * (axes_product_from(axes.take(a), i + 1) * axes[a].1@.len())
            == (axes[i].1@.len() * axes_product_from(axes.take(a), i + 1)) * axes[a].1@.len())
            by (nonlinear_arith);
    }
}

/// Whether a named value is one of an axis's values under that axis's
/// name.
pub open spec fn drawn_from_axes(
    axes: Seq<(String, Vec<ParamValue>)>,
    p: (String, ParamValue),
) -> bool {
    exists|a: int, b: int|
        0 <= a < axes.len() && 0 <= b < axes[a].1@.len() && p.0@ == axes[a].0@ && p.1
            == #[trigger] axes[a].1@[b]
}

/// Total number of values over the axes from index `i` on.
pub open spec fn axes_values_from(axes: Seq<(String, Vec<ParamValue>)>, i: int) -> int
    decreases axes.len() - i,
{
    if i < 0 || i >= axes.len() {
        0
    } else {
        axes[i].1@.len() + axes_values_from(axes, i + 1)
    }
}

/// Flattens additional sizer axes into one `(name, value)` list: every
/// value of every axis, paired with its axis name, in axis order.
pub fn flatten_axes(axes: &Vec<(String, Vec<ParamValue>)>) -> (r: Vec<(String, ParamValue)>)
    ensures
        r@.len() == axes_values_from(axes@, 0),
        forall|k: int| 0 <= k < r@.len() ==> drawn_from_axes(axes@, #[trigger] r@[k]),
{
    let mut out: Vec<(String, ParamValue)> = Vec::new();
    let mut i: usize = 0;
    while i < axes.len()
        invariant
            i <= axes@.len(),
            out@.len() == axes_values_from(axes@, 0) - axes_values_from(axes@, i as int),
            forall|k: int| 0 <= k < out@.len() ==> drawn_from_axes(axes@, #[trigger] out@[k]),
        decreases axes@.len() - i,
    {
        proof {
            lemma_axes_values_bound(axes@, 0);
            lemma_axes_values_bound(axes@, i as int);
            lemma_axes_values_bound(axes@, i + 1);
        }
        let mut j: usize = 0;
        let vals = &axes[i].1;
        while j < vals.len()
            invariant
                i < axes@.len(),
                vals == &axes@[i as int].1,
                j <= vals@.len(),
                out@.len() == axes_values_from(axes@, 0) - axes_values_from(axes@, i as int) + j,
                forall|k: int| 0 <= k < out@.len() ==> drawn_from_axes(axes@, #[trigger] out@[k]),
            decreases vals@.len() - j,
        {
            out.push((axes[i].0.clone(), vals[j].clone()));
            proof {
                assert(out@[out@.len() - 1].0@ == axes@[i as int].0@ && out@[out@.len() - 1].1
                    == axes@[i as int].1@[j as int]);
                assert(drawn_from_axes(axes@, out@[out@.len() - 1]));
            }
            j = j + 1;
        }
        i = i + 1;
    }
    out
}

/// Tail counts of axis values never go negative.
proof fn lemma_axes_values_bound(axes: Seq<(String, Vec<ParamValue>)>, i: int)
    requires
        0 <= i <= axes.len(),
    ensures
        axes_values_from(axes, i) >= 0,
    decreases axes.len() - i,
{
    if i < axes.len() {
        lemma_axes_values_bound(axes, i + 1);
    }
}


/// The canonical rendering of one parameter value: a kind letter
/// followed by the value.
pub open spec fn param_value_chars(v: ParamValue) -> Seq<char> {
    match v {
        ParamValue::Int(i) => seq!['i'] + int_digits(i as int),
        ParamValue::Fixed(x) => seq!['f'] + scaled_digits(x as int),
        ParamValue::Text(t) => seq!['t'] + t@,
        ParamValue::Flag(b) => if b {
            seq!['b', '1']
        } else {
            seq!['b', '0']
        },
    }
}

/// Renders one parameter value canonically.
pub fn format_param_value(v: &ParamValue) -> (r: String)
    ensures
        r@ == param_value_chars(*v),
{
    let mut s = String::new();
    match v {
        ParamValue::Int(i) => {
            s.append("i");
            let d = format_i64(*i);
            s.append(d.as_str());
            proof {
                reveal_strlit("i");
                assert(s@ =~= param_value_chars(*v));
            }
        },
        ParamValue::Fixed(x) => {
            s.append("f");
            let d = format_scaled_e5(*x);
            s.append(d.as_str());
            proof {
                reveal_strlit("f");
                assert(s@ =~= param_value_chars(*v));
            }
        },
        ParamValue::Text(t) => {
            s.append("t");
            s.append(t.as_str());
            proof {
                reveal_strlit("t");
                assert(s@ =~= param_value_chars(*v));
            }
        },
        ParamValue::Flag(b) => {
            if *b {
                s.append("b1");
                proof {
                    reveal_strlit("b1");
                    assert(s@ =~= param_value_chars(*v));
                }
            } else {
                s.append("b0");
                proof {
                    reveal_strlit("b0");
                    assert(s@ =~= param_value_chars(*v));
                }
            }
        },
    }
    s
}

/// The canonical rendering of the first `n` named values, each as
/// `name=value;`.
pub open spec fn named_values_chars_upto(params: Seq<(String, ParamValue)>, n: int) -> Seq<char>
    decreases n,
{
    if n <= 0 {
        Seq::empty()
    } else {
        named_values_chars_upto(params, n - 1) + params[n - 1].0@ + seq!['='] + param_value_chars(
            params[n - 1].1,
        ) + seq![';']
    }
}

/// Renders named values as `name=value;` runs.
pub fn format_named_values(params: &Vec<(String, ParamValue)>) -> (r: String)
    ensures
        r@ == named_values_chars_upto(params@, params@.len() as int),
{
    let mut s = String::new();
    let mut i: usize = 0;
    while i < params.len()
        invariant
            i <= params@.len(),
            s@ == named_values_chars_upto(params@, i as int),
        decreases params@.len() - i,
    {
        s.append(params[i].0.as_str());
        s.append("=");
        let vstr = format_param_value(&params[i].1);
        s.append(vstr.as_str());
        s.append(";");
        proof {
            reveal_strlit("=");
            reveal_strlit(";");
            assert(s@ =~= named_values_chars_upto(params@, i + 1));
        }
        i = i + 1;
    }
    s
}

impl ParameterSet {
    /// The canonical display rendering of a parameter set: the strategy
    /// parameters, the sizer name, the sizer value, the additional
    /// sizer parameters and the slippage, separated by `|`.
    pub open spec fn spec_display(self) -> Seq<char> {
        named_values_chars_upto(self.strategy_params@, self.strategy_params@.len() as int) + seq![
            '|',
        ] + self.pos_sizer_name@ + seq!['|'] + scaled_digits(self.pos_sizer_value_e5 as int)
            + seq!['|'] + named_values_chars_upto(
            self.pos_sizer_additional_params@,
            self.pos_sizer_additional_params@.len() as int,
        ) + seq!['|'] + scaled_digits(self.slippage_e5 as int)
    }

    /// Renders the set for logs and identifiers; see
    /// [`Self::spec_display`].
    pub fn format_for_display(&self) -> (r: String)
        ensures
            r@ == self.spec_display(),
    {
        let mut s = format_named_values(&self.strategy_params);
        s.append("|");
        s.append(self.pos_sizer_name.as_str());
        s.append("|");
        let psv = format_scaled_e5(self.pos_sizer_value_e5);
        s.append(psv.as_str());
        s.append("|");
        let extras = format_named_values(&self.pos_sizer_additional_params);
        s.append(extras.as_str());
        s.append("|");
        let slip = format_scaled_e5(self.slippage_e5);
        s.append(slip.as_str());
        proof {
            reveal_strlit("|");
            assert(s@ =~= self.spec_display());
        }
        s
    }
}

/// The search over every combination.
#[derive(Debug)]
pub struct GridSearchOptimizer {
    pub config: OptimizationConfig,
}

impl GridSearchOptimizer {
    /// An optimizer with an empty configuration.
    pub fn new() -> (r: Self)
        ensures
            r.config.strategy_params_ranges@.len() == 0,
            r.config.pos_sizer_value_range@.len() == 0,
            r.config.slippage_range@.len() == 0,
    {
        GridSearchOptimizer { config: OptimizationConfig::new() }
    }

    pub fn with_optimization_config(self, config: OptimizationConfig) -> (r: Self)
        ensures
            r.config == config,
    {
        GridSearchOptimizer { config }
    }

    pub fn get_config(&self) -> (r: &OptimizationConfig)
        ensures
            r == self.config,
    {
        &self.config
    }

    /// How many combinations the sweep will visit, saturating at the
    /// machine's collection limit.
    pub fn calculate_total_combinations(&self) -> (r: usize)
        ensures
            r as int == if self.config.spec_total_combinations() > usize::MAX as int {
                usize::MAX as int
            } else {
                self.config.spec_total_combinations()
            },
    {
        let cap: u128 = usize::MAX as u128;
        let mut p: u128 = 1;
        let mut a: usize = 0;
        let na = self.config.strategy_params_ranges.len();
        while a < na
            invariant
                a <= na,
                na == self.config.strategy_params_ranges@.len(),
                p <= cap,
                cap == usize::MAX as u128,
                p as int == spec_cap(
                    axes_product_from(self.config.strategy_params_ranges@.take(a as int), 0),
                    usize::MAX as int,
                ),
            decreases na - a,
        {
            let f = self.config.strategy_params_ranges[a].1.len();
            let ghost x = axes_product_from(
                self.config.strategy_params_ranges@.take(a as int),
                0,
            );
            proof {
                lemma_axes_product_take_step(self.config.strategy_params_ranges@, a as int);
                lemma_axes_product_nonneg(
                    self.config.strategy_params_ranges@.take(a as int),
                    0,
                );
                lemma_cap_mul(x, f as int, usize::MAX as int);
            }
            p = mul_capped(p, f as u128, cap);
            proof {
                assert(p as int == spec_cap(spec_cap(x, usize::MAX as int) * f, usize::MAX as int));
                assert(p as int == spec_cap(x * f, usize::MAX as int));
                assert(axes_product_from(
                    self.config.strategy_params_ranges@.take(a + 1),
                    0,
                ) == x * f);
            }
            a = a + 1;
        }
        proof {
            assert(self.config.strategy_params_ranges@.take(na as int)
                =~= self.config.strategy_params_ranges@);
        }
        let psv: usize = if self.config.pos_sizer_value_range.len() == 0 {
            1
        } else {
            self.config.pos_sizer_value_range.len()
        };
        proof {
            lemma_axes_product_nonneg(self.config.strategy_params_ranges@, 0);
            lemma_cap_mul(
                axes_product_from(self.config.strategy_params_ranges@, 0),
                psv as int,
                usize::MAX as int,
            );
        }
        p = mul_capped(p, psv as u128, cap);
        let ns = self.config.slippage_range.len();
        proof {
            lemma_axes_product_nonneg(self.config.strategy_params_ranges@, 0);
            lemma_cap_mul(
                axes_product_from(self.config.strategy_params_ranges@, 0) * (
                if self.config.pos_sizer_value_range@.len() == 0 {
                    1int
                } else {
                    self.config.pos_sizer_value_range@.len() as int
                }),
                ns as int,
                usize::MAX as int,
            );
            lemma_cap_nonneg_factor(
                axes_product_from(self.config.strategy_params_ranges@, 0),
                psv as int,
            );
        }
        p = mul_capped(p, ns as u128, cap);
        p as usize
    }

    /// Evaluates every combination in order with the given fitness
    /// function; one result per combination.
    pub fn run_optimization<F: Fn(&ParameterSet) -> OptimizationResult>(
        &self,
        fitness_function: F,
        threads: usize,
        combinations: Vec<ParameterSet>,
    ) -> (r: Vec<OptimizationResult>)
        requires
            forall|ps: &ParameterSet| call_requires(fitness_function, (ps,)),
        ensures
            r@.len() == combinations@.len(),
            forall|i: int|
                0 <= i < r@.len() ==> call_ensures(
                    fitness_function,
                    (&combinations@[i],),
                    #[trigger] r@[i],
                ),
    {
        let _configured_threads = threads;
        let mut out: Vec<OptimizationResult> = Vec::new();
        let mut i: usize = 0;
        while i < combinations.len()
            invariant
                i <= combinations@.len(),
                out@.len() == i,
                forall|ps: &ParameterSet| call_requires(fitness_function, (ps,)),
                forall|k: int|
                    0 <= k < i ==> call_ensures(
                        fitness_function,
                        (&combinations@[k],),
                        #[trigger] out@[k],
                    ),
            decreases combinations@.len() - i,
        {
            let result = fitness_function(&combinations[i]);
            out.push(result);
            i = i + 1;
        }
        out
    }
}

/// `x` capped at `c`.
pub open spec fn spec_cap(x: int, c: int) -> int {
    if x > c {
        c
    } else {
        x
    }
}

/// Capped multiplication of non-negative numbers.
fn mul_capped(a: u128, b: u128, cap: u128) -> (r: u128)
    requires
        a <= cap,
        cap <= 0xFFFF_FFFF_FFFF_FFFFu128,
        b <= 0xFFFF_FFFF_FFFF_FFFFu128,
    ensures
        r as int == spec_cap(a as int * b as int, cap as int),
        r <= cap,
{
    proof {
        assert(a as int * b as int <= 0xFFFF_FFFF_FFFF_FFFFint * 0xFFFF_FFFF_FFFF_FFFFint)
            by (nonlinear_arith)
            requires
                0 <= a <= 0xFFFF_FFFF_FFFF_FFFFu128 && 0 <= b <= 0xFFFF_FFFF_FFFF_FFFFu128,
        ;
    }
    let p = a * b;
    if p > cap {
        cap
    } else {
        p
    }
}

/// Axis products are non-negative.
proof fn lemma_axes_product_nonneg(axes: Seq<(String, Vec<ParamValue>)>, i: int)
    ensures
        axes_product_from(axes, i) >= 0,
    decreases axes.len() - i,
{
    if 0 <= i < axes.len() {
        lemma_axes_product_nonneg(axes, i + 1);
        assert(axes[i].1@.len() * axes_product_from(axes, i + 1) >= 0) by (nonlinear_arith)
            requires
                axes[i].1@.len() >= 0 && axes_product_from(axes, i + 1) >= 0,
        ;
    }
}

/// Capping then multiplying equals multiplying then capping, for
/// non-negative factors.
proof fn lemma_cap_mul(x: int, f: int, c: int)
    by (nonlinear_arith)
    requires
        x >= 0,
        f >= 0,
        c >= 0,
    ensures
        spec_cap(spec_cap(x, c) * f, c) == spec_cap(x * f, c),
{
}

/// A product of non-negative factors is non-negative.
proof fn lemma_cap_nonneg_factor(x: int, f: int)
    by (nonlinear_arith)
    requires
        x >= 0,
        f >= 0,
    ensures
        x * f >= 0,
{
}


/// Draws one value below `n` uniformly.
///
/// Relies on rand::Rng::gen_range over `0..n`: it yields a value of the
/// given range and panics only on an empty range, which the bound
/// excludes.
#[verifier::external_body]
fn rand_below(n: usize) -> (r: usize)
    requires
        n > 0,
    ensures
        r < n,
{
    rand::Rng::gen_range(&mut rand::thread_rng(), 0..n)
}

/// Executable form of [`param_value_equiv`].
pub fn eq_param_value(a: &ParamValue, b: &ParamValue) -> (r: bool)
    ensures
        r == param_value_equiv(*a, *b),
{
    match (a, b) {
        (ParamValue::Int(x), ParamValue::Int(y)) => *x == *y,
        (ParamValue::Fixed(x), ParamValue::Fixed(y)) => *x == *y,
        (ParamValue::Text(x), ParamValue::Text(y)) => x.eq(y),
        (ParamValue::Flag(x), ParamValue::Flag(y)) => *x == *y,
        _ => false,
    }
}

/// Executable form of [`named_values_equiv`].
pub fn eq_named_values(a: &Vec<(String, ParamValue)>, b: &Vec<(String, ParamValue)>) -> (r: bool)
    ensures
        r == named_values_equiv(a@, b@),
{
    if a.len() != b.len() {
        return false;
    }
    let mut i: usize = 0;
    while i < a.len()
        invariant
            i <= a@.len(),
            a@.len() == b@.len(),
            forall|k: int|
                0 <= k < i ==> (#[trigger] a@[k]).0@ == b@[k].0@ && param_value_equiv(
                    a@[k].1,
                    b@[k].1,
                ),
        decreases a@.len() - i,
    {
        if !a[i].0.eq(&b[i].0) {
            return false;
        }
        if !eq_param_value(&a[i].1, &b[i].1) {
            return false;
        }
        i = i + 1;
    }
    true
}

/// Executable form of [`param_set_equiv`].
pub fn eq_param_sets(a: &ParameterSet, b: &ParameterSet) -> (r: bool)
    ensures
        r == param_set_equiv(*a, *b),
{
    eq_named_values(&a.strategy_params, &b.strategy_params) && a.pos_sizer_name.eq(
        &b.pos_sizer_name,
    ) && a.pos_sizer_value_e5 == b.pos_sizer_value_e5 && eq_named_values(
        &a.pos_sizer_additional_params,
        &b.pos_sizer_additional_params,
    ) && a.slippage_e5 == b.slippage_e5
}

/// The cached fitness of the first bank entry equivalent to `key`,
/// scanning from `i`.
pub open spec fn bank_lookup_from(
    bank: Seq<(ParameterSet, i64)>,
    key: ParameterSet,
    i: int,
) -> Option<i64>
    decreases bank.len() - i,
{
    if i < 0 || i >= bank.len() {
        None
    } else if param_set_equiv(bank[i].0, key) {
        Some(bank[i].1)
    } else {
        bank_lookup_from(bank, key, i + 1)
    }
}

/// A hit is unaffected by appending entries.
proof fn lemma_lookup_push_stable(bank: Seq<(ParameterSet, i64)>, key: ParameterSet, x: (
    ParameterSet,
    i64,
), i: int)
    requires
        0 <= i <= bank.len(),
        bank_lookup_from(bank, key, i) is Some,
    ensures
        bank_lookup_from(bank.push(x), key, i) == bank_lookup_from(bank, key, i),
    decreases bank.len() - i,
{
    assert(bank.push(x)[i] == bank[i]);
    if !param_set_equiv(bank[i].0, key) {
        lemma_lookup_push_stable(bank, key, x, i + 1);
    }
}

/// A hit is unaffected by any extension that keeps the prefix.
proof fn lemma_lookup_prefix_stable(
    bank1: Seq<(ParameterSet, i64)>,
    bank2: Seq<(ParameterSet, i64)>,
    key: ParameterSet,
    i: int,
)
    requires
        0 <= i <= bank1.len(),
        bank1.len() <= bank2.len(),
        forall|k: int| 0 <= k < bank1.len() ==> #[trigger] bank2[k] == bank1[k],
        bank_lookup_from(bank1, key, i) is Some,
    ensures
        bank_lookup_from(bank2, key, i) == bank_lookup_from(bank1, key, i),
    decreases bank1.len() - i,
{
    assert(bank2[i] == bank1[i]);
    if !param_set_equiv(bank1[i].0, key) {
        lemma_lookup_prefix_stable(bank1, bank2, key, i + 1);
    }
}

/// Parameter-set agreement chains across a middle term.
proof fn lemma_param_set_equiv_trans(a: ParameterSet, b: ParameterSet, c: ParameterSet)
    requires
        param_set_equiv(a, b),
        param_set_equiv(b, c),
    ensures
        param_set_equiv(a, c),
{
}

/// Equivalent keys find the same entry.
proof fn lemma_lookup_respects_equiv(
    bank: Seq<(ParameterSet, i64)>,
    k1: ParameterSet,
    k2: ParameterSet,
    i: int,
)
    requires
        param_set_equiv(k1, k2),
    ensures
        bank_lookup_from(bank, k1, i) == bank_lookup_from(bank, k2, i),
    decreases bank.len() - i,
{
    if 0 <= i < bank.len() {
        assert(param_set_equiv(bank[i].0, k1) == param_set_equiv(bank[i].0, k2));
        lemma_lookup_respects_equiv(bank, k1, k2, i + 1);
    }
}

/// Configuration of the genetic optimizer.
#[derive(Debug)]
pub struct GAConfig {
    pub population_size: usize,
    pub max_generations: usize,
    /// Crossover probability, scaled by `1e5`.
    pub p_crossover_e5: i64,
    /// Mutation probability, scaled by `1e5`.
    pub p_mutation_e5: i64,
    pub fitness_metric: FitnessValue,
    pub fitness_direction: FitnessDirection,
}

impl Clone for GAConfig {
    fn clone(&self) -> (r: Self)
        ensures
            r.population_size == self.population_size,
            r.max_generations == self.max_generations,
            r.p_crossover_e5 == self.p_crossover_e5,
            r.p_mutation_e5 == self.p_mutation_e5,
            fitness_value_equiv(r.fitness_metric, self.fitness_metric),
            r.fitness_direction == self.fitness_direction,
    {
        GAConfig {
            population_size: self.population_size,
            max_generations: self.max_generations,
            p_crossover_e5: self.p_crossover_e5,
            p_mutation_e5: self.p_mutation_e5,
            fitness_metric: self.fitness_metric.clone(),
            fitness_direction: self.fitness_direction,
        }
    }
}

impl GAConfig {
    /// An inert configuration: no generations, no population.
    pub fn new() -> (r: Self)
        ensures
            r.population_size == 0,
            r.max_generations == 0,
            r.p_crossover_e5 == 0,
            r.p_mutation_e5 == 0,
            r.fitness_direction is Max,
    {
        GAConfig {
            population_size: 0,
            max_generations: 0,
            p_crossover_e5: 0,
            p_mutation_e5: 0,
            fitness_metric: FitnessValue::default(),
            fitness_direction: FitnessDirection::Max,
        }
    }

    /// The configuration the settings ask for.
    pub fn from_settings(ga_params: &GAParams) -> (r: Self)
        ensures
            r.population_size == ga_params.population_size,
            r.max_generations == ga_params.max_generations,
            r.p_crossover_e5 == ga_params.p_crossover_e5,
            r.p_mutation_e5 == ga_params.p_mutation_e5,
            fitness_value_equiv(r.fitness_metric, ga_params.fitness_params.fitness_value),
            r.fitness_direction == ga_params.fitness_params.fitness_direction,
    {
        GAConfig {
            population_size: ga_params.population_size,
            max_generations: ga_params.max_generations,
            p_crossover_e5: ga_params.p_crossover_e5,
            p_mutation_e5: ga_params.p_mutation_e5,
            fitness_metric: ga_params.fitness_params.fitness_value.clone(),
            fitness_direction: ga_params.fitness_params.fitness_direction,
        }
    }

    pub fn get_fitness_metric(&self) -> (r: &FitnessValue)
        ensures
            r == self.fitness_metric,
    {
        &self.fitness_metric
    }

    pub fn get_fitness_direction(&self) -> (r: FitnessDirection)
        ensures
            r == self.fitness_direction,
    {
        self.fitness_direction
    }
}

/// Fitness statistics of one generation.
#[derive(Debug)]
pub struct GAStatsPerGeneration {
    pub best_fitness: i64,
    pub worst_fitness: i64,
    pub mean_fitness: i64,
    pub best_chromosome_id: Vec<String>,
    pub generation: usize,
}

impl GAStatsPerGeneration {
    pub fn new() -> (r: Self)
        ensures
            r.best_fitness == 0,
            r.worst_fitness == 0,
            r.mean_fitness == 0,
            r.best_chromosome_id@.len() == 0,
            r.generation == 0,
    {
        GAStatsPerGeneration {
            best_fitness: 0,
            worst_fitness: 0,
            mean_fitness: 0,
            best_chromosome_id: Vec::new(),
            generation: 0,
        }
    }

    pub fn with_best_fitness(self, value: i64) -> (r: Self)
        ensures
            r == (GAStatsPerGeneration { best_fitness: value, ..self }),
    {
        GAStatsPerGeneration { best_fitness: value, ..self }
    }

    pub fn with_worst_fitness(self, value: i64) -> (r: Self)
        ensures
            r == (GAStatsPerGeneration { worst_fitness: value, ..self }),
    {
        GAStatsPerGeneration { worst_fitness: value, ..self }
    }

    pub fn with_mean_fitness(self, value: i64) -> (r: Self)
        ensures
            r == (GAStatsPerGeneration { mean_fitness: value, ..self }),
    {
        GAStatsPerGeneration { mean_fitness: value, ..self }
    }

    pub fn with_best_chromosome_id(self, id: Vec<String>) -> (r: Self)
        ensures
            r == (GAStatsPerGeneration { best_chromosome_id: id, ..self }),
    {
        GAStatsPerGeneration { best_chromosome_id: id, ..self }
    }

    pub fn with_generation(self, number: usize) -> (r: Self)
        ensures
            r == (GAStatsPerGeneration { generation: number, ..self }),
    {
        GAStatsPerGeneration { generation: number, ..self }
    }
}

/// Bounds of `n` copies of the machine range against the range scaled
/// by `n`.
proof fn lemma_mul_band(n: int)
    by (nonlinear_arith)
    requires
        n >= 1,
    ensures
        n * 0x8000_0000_0000_0000 >= 0x8000_0000_0000_0000,
        n * 0x7FFF_FFFF_FFFF_FFFF >= 0x7FFF_FFFF_FFFF_FFFF,
{
}

/// Sum of the fitness values from index `i` on.
pub open spec fn fitness_sum_from(values: Seq<i64>, i: int) -> int
    decreases values.len() - i,
{
    if i < 0 || i >= values.len() {
        0
    } else {
        values[i] + fitness_sum_from(values, i + 1)
    }
}

/// Largest fitness from index `i` on (for a non-empty tail).
pub open spec fn fitness_max_from(values: Seq<i64>, i: int) -> int
    decreases values.len() - i,
{
    if i < 0 || i >= values.len() {
        i64::MIN as int
    } else {
        let rest = fitness_max_from(values, i + 1);
        if values[i] >= rest {
            values[i] as int
        } else {
            rest
        }
    }
}

/// Smallest fitness from index `i` on (for a non-empty tail).
pub open spec fn fitness_min_from(values: Seq<i64>, i: int) -> int
    decreases values.len() - i,
{
    if i < 0 || i >= values.len() {
        i64::MAX as int
    } else {
        let rest = fitness_min_from(values, i + 1);
        if values[i] <= rest {
            values[i] as int
        } else {
            rest
        }
    }
}

/// Tail sums of fitness values stay within the element bound times the
/// number of elements left.
proof fn lemma_fitness_sum_bound(values: Seq<i64>, i: int)
    requires
        0 <= i <= values.len(),
    ensures
        -((values.len() - i) * 0x8000_0000_0000_0000) <= fitness_sum_from(values, i) <= (
        values.len() - i) * 0x7FFF_FFFF_FFFF_FFFF,
    decreases values.len() - i,
{
    if i < values.len() {
        lemma_fitness_sum_bound(values, i + 1);
    }
}

/// What one bred child satisfies relative to its parents: axis names
/// and order from the first parent, each value from either parent, the
/// sizer name and the additional parameters from the first parent, the
/// sizer value and the slippage from the first parent or the configured
/// ranges - and from the first parent alone under a zero mutation
/// probability.
pub open spec fn spec_crossover_props(
    opt: OptimizationConfig,
    ga: GAConfig,
    a: ParameterSet,
    b: ParameterSet,
    r: ParameterSet,
) -> bool {
    &&& r.strategy_params@.len() == if a.strategy_params@.len() <= b.strategy_params@.len() {
        a.strategy_params@.len() as int
    } else {
        b.strategy_params@.len() as int
    }
    &&& (forall|i: int|
        0 <= i < r.strategy_params@.len() ==> (#[trigger] r.strategy_params@[i]).0@
            == a.strategy_params@[i].0@ && (param_value_equiv(
            r.strategy_params@[i].1,
            a.strategy_params@[i].1,
        ) || param_value_equiv(r.strategy_params@[i].1, b.strategy_params@[i].1)))
    &&& r.pos_sizer_name@ == a.pos_sizer_name@
    &&& (r.pos_sizer_value_e5 == a.pos_sizer_value_e5 || opt.pos_sizer_value_range@.contains(
        r.pos_sizer_value_e5,
    ))
    &&& (r.slippage_e5 == a.slippage_e5 || opt.slippage_range@.contains(r.slippage_e5))
    &&& named_values_equiv(r.pos_sizer_additional_params@, a.pos_sizer_additional_params@)
    &&& (ga.p_mutation_e5 <= 0 ==> r.pos_sizer_value_e5 == a.pos_sizer_value_e5 && r.slippage_e5
        == a.slippage_e5)
}

/// Whether a cache entry's fitness is what the oracle yields for an
/// equivalent member of the evaluated population.
pub open spec fn oracle_approved<F: Fn(&ParameterSet) -> i64>(
    evaluate: F,
    population: Seq<ParameterSet>,
    entry: (ParameterSet, i64),
) -> bool {
    exists|m: int|
        0 <= m < population.len() && param_set_equiv(entry.0, #[trigger] population[m])
            && call_ensures(evaluate, (&population[m],), entry.1)
}

/// The fitness column of evaluated results.
/// Whether `results` is the evaluation of `population` through the
/// cache: one entry per candidate, agreeing with it, whose fitness is
/// exactly the bank's entry for that candidate.
pub open spec fn evaluated_against(
    bank: Seq<(ParameterSet, i64)>,
    population: Seq<ParameterSet>,
    results: Seq<(ParameterSet, i64)>,
) -> bool {
    &&& results.len() == population.len()
    &&& forall|k: int|
        0 <= k < results.len() ==> param_set_equiv((#[trigger] results[k]).0, population[k])
    &&& forall|k: int|
        0 <= k < results.len() ==> Some((#[trigger] results[k]).1) == bank_lookup_from(
            bank,
            population[k],
            0,
        )
}

/// Whether one recorded statistics entry is the summary of `results`:
/// the stated generation index, and the best, worst and mean of the
/// results' fitness values under the configured direction.
pub open spec fn stats_of_results(
    direction: FitnessDirection,
    results: Seq<(ParameterSet, i64)>,
    gen_idx: int,
    stat: GAStatsPerGeneration,
) -> bool {
    &&& stat.generation == gen_idx
    &&& (results.len() == 0 ==> stat.best_fitness == 0 && stat.worst_fitness == 0
        && stat.mean_fitness == 0)
    &&& (results.len() > 0 ==> {
        let fitness = results_fitness(results);
        &&& stat.best_fitness as int == (match direction {
            FitnessDirection::Max => fitness_max_from(fitness, 0),
            FitnessDirection::Min => fitness_min_from(fitness, 0),
        })
        &&& stat.worst_fitness as int == (match direction {
            FitnessDirection::Max => fitness_min_from(fitness, 0),
            FitnessDirection::Min => fitness_max_from(fitness, 0),
        })
        &&& stat.mean_fitness as int == round_div(fitness_sum_from(fitness, 0), fitness.len() as int)
    })
}

/// Whether a recorded statistics entry summarizes an evaluation of
/// the given population against the bank.
pub open spec fn generation_recorded(
    bank: Seq<(ParameterSet, i64)>,
    direction: FitnessDirection,
    population: Seq<ParameterSet>,
    gen_idx: int,
    stat: GAStatsPerGeneration,
) -> bool {
    exists|results: Seq<(ParameterSet, i64)>|
        #[trigger] evaluated_against(bank, population, results) && stats_of_results(
            direction,
            results,
            gen_idx,
            stat,
        )
}

pub open spec fn results_fitness(results: Seq<(ParameterSet, i64)>) -> Seq<i64> {
    Seq::new(results.len(), |i: int| results[i].1)
}

/// Whether a chromosome is the bred child of two binary-tournament
/// winners over the evaluated results.
pub open spec fn spec_tournament_child(
    results: Seq<(ParameterSet, i64)>,
    opt: OptimizationConfig,
    ga: GAConfig,
    c: ParameterSet,
) -> bool {
    exists|x1: int, y1: int, x2: int, y2: int|
        0 <= x1 < results.len() && 0 <= y1 < results.len() && 0 <= x2 < results.len() && 0 <= y2
            < results.len() && #[trigger] spec_crossover_props(
            opt,
            ga,
            tournament_winner(results, x1, y1, ga.fitness_direction),
            tournament_winner(results, x2, y2, ga.fitness_direction),
            c,
        )
}

/// The crossover properties only read the parents' fields, so they
/// carry over to field-equal parents.
pub proof fn lemma_crossover_props_transfer(
    opt: OptimizationConfig,
    ga: GAConfig,
    a: ParameterSet,
    b: ParameterSet,
    a2: ParameterSet,
    b2: ParameterSet,
    c: ParameterSet,
)
    requires
        param_set_fields_eq(a, a2),
        param_set_fields_eq(b, b2),
        spec_crossover_props(opt, ga, a, b, c),
    ensures
        spec_crossover_props(opt, ga, a2, b2, c),
{
}

/// The winner of one binary tournament.
pub open spec fn tournament_winner(
    results: Seq<(ParameterSet, i64)>,
    x: int,
    y: int,
    direction: FitnessDirection,
) -> ParameterSet
    recommends
        0 <= x < results.len(),
        0 <= y < results.len(),
{
    match direction {
        FitnessDirection::Max => if results[x].1 >= results[y].1 {
            results[x].0
        } else {
            results[y].0
        },
        FitnessDirection::Min => if results[x].1 <= results[y].1 {
            results[x].0
        } else {
            results[y].0
        },
    }
}

/// The genetic optimizer: populations of parameter sets, evolved by
/// tournament selection, uniform crossover and mutation, with a fitness
/// cache shared by the whole run.
#[derive(Debug)]
pub struct GeneticAlgorythm {
    pub ga_config: GAConfig,
    pub optimization_config: OptimizationConfig,
    /// Evaluated chromosomes and their fitness; no two entries hold
    /// equivalent parameter sets.
    pub chromosome_bank: Vec<(ParameterSet, i64)>,
    /// One population per generation.
    pub populations: Vec<Vec<ParameterSet>>,
}

/// No two bank entries hold equivalent parameter sets: each distinct
/// chromosome is evaluated once per run.
pub open spec fn bank_wf(bank: Seq<(ParameterSet, i64)>) -> bool {
    forall|a: int, b: int|
        0 <= a < b < bank.len() ==> !param_set_equiv(
            (#[trigger] bank[a]).0,
            (#[trigger] bank[b]).0,
        )
}

impl GeneticAlgorythm {
    /// An optimizer with nothing configured and an empty cache.
    pub fn new() -> (r: Self)
        ensures
            r.chromosome_bank@.len() == 0,
            r.populations@.len() == 0,
            bank_wf(r.chromosome_bank@),
            r.ga_config.population_size == 0,
            r.ga_config.max_generations == 0,
    {
        GeneticAlgorythm {
            ga_config: GAConfig::new(),
            optimization_config: OptimizationConfig::new(),
            chromosome_bank: Vec::new(),
            populations: Vec::new(),
        }
    }

    pub fn with_ga_config(self, ga_config: GAConfig) -> (r: Self)
        ensures
            r == (GeneticAlgorythm { ga_config, ..self }),
    {
        GeneticAlgorythm { ga_config, ..self }
    }

    pub fn with_optimization_config(self, opt_config: OptimizationConfig) -> (r: Self)
        ensures
            r == (GeneticAlgorythm { optimization_config: opt_config, ..self }),
    {
        GeneticAlgorythm { optimization_config: opt_config, ..self }
    }

    /// The cached fitness for a chromosome, if one is recorded.
    fn bank_lookup(&self, key: &ParameterSet) -> (r: Option<i64>)
        ensures
            r == bank_lookup_from(self.chromosome_bank@, *key, 0),
    {
        let mut i: usize = 0;
        while i < self.chromosome_bank.len()
            invariant
                i <= self.chromosome_bank@.len(),
                bank_lookup_from(self.chromosome_bank@, *key, 0) == bank_lookup_from(
                    self.chromosome_bank@,
                    *key,
                    i as int,
                ),
            decreases self.chromosome_bank@.len() - i,
        {
            if eq_param_sets(&self.chromosome_bank[i].0, key) {
                return Some(self.chromosome_bank[i].1);
            }
            i = i + 1;
        }
        None
    }

    /// Evaluates one population through the cache: a chromosome already
    /// recorded reuses its fitness and the user's fitness function is
    /// not consulted; a new one is evaluated once and recorded.  Two
    /// equivalent chromosomes therefore carry the same fitness, within
    /// one generation and across the whole run.
    pub fn evaluate_population<F: Fn(&ParameterSet) -> i64>(
        &mut self,
        population: &Vec<ParameterSet>,
        evaluate: F,
    ) -> (r: Vec<(ParameterSet, i64)>)
        requires
            bank_wf(old(self).chromosome_bank@),
            forall|ps: &ParameterSet| call_requires(evaluate, (ps,)),
        ensures
            final(self).ga_config == old(self).ga_config,
            final(self).optimization_config == old(self).optimization_config,
            final(self).populations@ == old(self).populations@,
            bank_wf(final(self).chromosome_bank@),
            final(self).chromosome_bank@.len() >= old(self).chromosome_bank@.len(),
            forall|k: int|
                0 <= k < old(self).chromosome_bank@.len()
                    ==> #[trigger] final(self).chromosome_bank@[k] == old(
                    self,
                ).chromosome_bank@[k],
            r@.len() == population@.len(),
            forall|i: int|
                0 <= i < r@.len() ==> param_set_equiv((#[trigger] r@[i]).0, population@[i]),
            forall|i: int|
                0 <= i < r@.len() ==> Some((#[trigger] r@[i]).1) == bank_lookup_from(
                    final(self).chromosome_bank@,
                    population@[i],
                    0,
                ),
            forall|i: int, j: int|
                0 <= i < r@.len() && 0 <= j < r@.len() && param_set_equiv(
                    population@[i],
                    population@[j],
                ) ==> (#[trigger] r@[i]).1 == (#[trigger] r@[j]).1,
            forall|k: int|
                old(self).chromosome_bank@.len() <= k < final(self).chromosome_bank@.len()
                    ==> oracle_approved(
                    evaluate,
                    population@,
                    #[trigger] final(self).chromosome_bank@[k],
                ),
    {
        let mut out: Vec<(ParameterSet, i64)> = Vec::new();
        let mut i: usize = 0;
        while i < population.len()
            invariant
                i <= population@.len(),
                out@.len() == i,
                bank_wf(self.chromosome_bank@),
                self.ga_config == old(self).ga_config,
                self.optimization_config == old(self).optimization_config,
                self.populations@ == old(self).populations@,
                self.chromosome_bank@.len() >= old(self).chromosome_bank@.len(),
                forall|k: int|
                    0 <= k < old(self).chromosome_bank@.len()
                        ==> #[trigger] self.chromosome_bank@[k] == old(self).chromosome_bank@[k],
                forall|k: int|
                    0 <= k < i ==> param_set_equiv((#[trigger] out@[k]).0, population@[k]),
                forall|k: int|
                    0 <= k < i ==> Some((#[trigger] out@[k]).1) == bank_lookup_from(
                        self.chromosome_bank@,
                        population@[k],
                        0,
                    ),
                forall|k: int|
                    old(self).chromosome_bank@.len() <= k < self.chromosome_bank@.len()
                        ==> oracle_approved(
                        evaluate,
                        population@,
                        #[trigger] self.chromosome_bank@[k],
                    ),
                forall|ps: &ParameterSet| call_requires(evaluate, (ps,)),
            decreases population@.len() - i,
        {
            let candidate = &population[i];
            let fitness: i64 = match self.bank_lookup(candidate) {
                Some(v) => v,
                None => {
                    let ghost bank0 = self.chromosome_bank@;
                    let v = evaluate(candidate);
                    let entry = (candidate.clone(), v);
                    proof {
                        lemma_lookup_none_no_equiv(bank0, *candidate, 0);
                    }
                    self.chromosome_bank.push(entry);
                    proof {
                        assert forall|k: int| 0 <= k < i implies Some(
                            (#[trigger] out@[k]).1,
                        ) == bank_lookup_from(self.chromosome_bank@, population@[k], 0) by {
                            assert(Some(out@[k].1) == bank_lookup_from(
                                bank0,
                                population@[k],
                                0,
                            ));
                            lemma_lookup_push_stable(bank0, population@[k], entry, 0);
                        }
                        assert(param_set_equiv(entry.0, *candidate));
                        lemma_lookup_at_push(bank0, entry, *candidate);
                        assert(*candidate == population@[i as int]);
                        assert(call_ensures(evaluate, (&population@[i as int],), v));
                        assert(oracle_approved(evaluate, population@, entry));
                    }
                    v
                },
            };
            out.push((candidate.clone(), fitness));
            proof {
                lemma_lookup_respects_equiv(
                    self.chromosome_bank@,
                    out@[i as int].0,
                    population@[i as int],
                    0,
                );
            }
            i = i + 1;
        }
        proof {
            assert forall|i: int, j: int|
                0 <= i < out@.len() && 0 <= j < out@.len() && param_set_equiv(
                    population@[i],
                    population@[j],
                ) implies (#[trigger] out@[i]).1 == (#[trigger] out@[j]).1 by {
                lemma_lookup_respects_equiv(
                    self.chromosome_bank@,
                    population@[i],
                    population@[j],
                    0,
                );
            }
        }
        out
    }
}

/// A missed lookup means no entry is equivalent to the key.
proof fn lemma_lookup_none_no_equiv(bank: Seq<(ParameterSet, i64)>, key: ParameterSet, i: int)
    requires
        0 <= i <= bank.len(),
        bank_lookup_from(bank, key, i) is None,
    ensures
        forall|k: int| i <= k < bank.len() ==> !param_set_equiv((#[trigger] bank[k]).0, key),
    decreases bank.len() - i,
{
    if i < bank.len() {
        lemma_lookup_none_no_equiv(bank, key, i + 1);
    }
}

/// After appending an entry whose key is equivalent to `key` to a bank
/// that missed it, the lookup finds exactly that entry.
proof fn lemma_lookup_at_push(bank: Seq<(ParameterSet, i64)>, entry: (ParameterSet, i64), key: ParameterSet)
    requires
        bank_lookup_from(bank, key, 0) is None,
        param_set_equiv(entry.0, key),
    ensures
        bank_lookup_from(bank.push(entry), key, 0) == Some(entry.1),
{
    lemma_lookup_at_push_from(bank, entry, key, 0);
}

/// See [`lemma_lookup_at_push`].
proof fn lemma_lookup_at_push_from(
    bank: Seq<(ParameterSet, i64)>,
    entry: (ParameterSet, i64),
    key: ParameterSet,
    i: int,
)
    requires
        0 <= i <= bank.len(),
        bank_lookup_from(bank, key, i) is None,
        param_set_equiv(entry.0, key),
    ensures
        bank_lookup_from(bank.push(entry), key, i) == Some(entry.1),
    decreases bank.len() - i,
{
    if i < bank.len() {
        assert(bank.push(entry)[i] == bank[i]);
        lemma_lookup_at_push_from(bank, entry, key, i + 1);
    } else {
        assert(bank.push(entry)[i] == entry);
    }
}


impl GeneticAlgorythm {
    /// Whether some element of `v` is equivalent to `x`.
    fn contains_equiv(v: &Vec<ParameterSet>, x: &ParameterSet) -> (r: bool)
        ensures
            r == exists|k: int| 0 <= k < v@.len() && param_set_equiv(#[trigger] v@[k], *x),
    {
        let mut i: usize = 0;
        while i < v.len()
            invariant
                i <= v@.len(),
                forall|k: int| 0 <= k < i ==> !param_set_equiv(#[trigger] v@[k], *x),
            decreases v@.len() - i,
        {
            if eq_param_sets(&v[i], x) {
                return true;
            }
            i = i + 1;
        }
        false
    }

    /// Draws up to `target_size` distinct combinations uniformly at
    /// random, without replacement, and records them as the first
    /// population: every member drawn from the configured axes, no two
    /// members equivalent, and at least one member whenever the target
    /// and the pool allow one.
    pub fn create_initial_population(&mut self, target_size: usize)
        ensures
            final(self).ga_config == old(self).ga_config,
            final(self).optimization_config == old(self).optimization_config,
            final(self).chromosome_bank@ == old(self).chromosome_bank@,
            final(self).populations@.len() == old(self).populations@.len() + 1,
            forall|k: int|
                0 <= k < old(self).populations@.len() ==> #[trigger] final(self).populations@[k]
                    == old(self).populations@[k],
            final(self).populations@.last()@.len() <= target_size,
            combos_ok(final(self).populations@.last()@, old(self).optimization_config),
            forall|i: int, j: int|
                0 <= i < j < final(self).populations@.last()@.len() ==> !param_set_equiv(
                    (#[trigger] final(self).populations@.last()@[i]),
                    (#[trigger] final(self).populations@.last()@[j]),
                ),
            (target_size > 0 && old(self).optimization_config.spec_total_combinations() > 0)
                ==> final(self).populations@.last()@.len() >= 1,
    {
        let all_combinations = self.optimization_config.generate_all_combinations_vec();
        let n = all_combinations.len();
        let sample_size = if target_size < n {
            target_size
        } else {
            n
        };
        // A partial shuffle picks `sample_size` distinct indices.
        let mut idxs: Vec<usize> = Vec::new();
        let mut i: usize = 0;
        while i < n
            invariant
                i <= n,
                idxs@.len() == i,
                forall|k: int| 0 <= k < i ==> #[trigger] idxs@[k] < n,
            decreases n - i,
        {
            idxs.push(i);
            i = i + 1;
        }
        let mut k: usize = 0;
        while k < sample_size
            invariant
                k <= sample_size,
                sample_size <= n,
                idxs@.len() == n,
                forall|m: int| 0 <= m < n ==> #[trigger] idxs@[m] < n,
            decreases sample_size - k,
        {
            let j = k + rand_below(n - k);
            let a = idxs[k];
            let b = idxs[j];
            idxs.set(k, b);
            idxs.set(j, a);
            k = k + 1;
        }
        // Deduplicate the sample, keeping the drawn order.
        let mut population: Vec<ParameterSet> = Vec::new();
        let mut s: usize = 0;
        while s < sample_size
            invariant
                s <= sample_size,
                sample_size <= n,
                n == all_combinations@.len(),
                idxs@.len() == n,
                forall|m: int| 0 <= m < n ==> #[trigger] idxs@[m] < n,
                population@.len() <= s,
                combos_ok(all_combinations@, self.optimization_config),
                combos_ok(population@, self.optimization_config),
                forall|i: int, j: int|
                    0 <= i < j < population@.len() ==> !param_set_equiv(
                        (#[trigger] population@[i]),
                        (#[trigger] population@[j]),
                    ),
                s >= 1 ==> population@.len() >= 1,
            decreases sample_size - s,
        {
            let candidate = &all_combinations[idxs[s]];
            if !Self::contains_equiv(&population, candidate) {
                let ghost pool_elem = all_combinations@[idxs@[s as int] as int];
                let added = candidate.clone();
                proof {
                    lemma_fields_eq_congruence(added, pool_elem, self.optimization_config);
                }
                population.push(added);
            }
            s = s + 1;
        }
        self.populations.push(population);
    }

    /// A human-readable identifier of one chromosome: each strategy
    /// parameter, then the sizer value and the slippage.
    pub fn create_chromosome_id_for_display(&self, params: &ParameterSet) -> (r: Vec<String>)
        ensures
            r@.len() == params.strategy_params@.len() + 2,
    {
        let mut id: Vec<String> = Vec::new();
        let mut i: usize = 0;
        while i < params.strategy_params.len()
            invariant
                i <= params.strategy_params@.len(),
                id@.len() == i,
            decreases params.strategy_params@.len() - i,
        {
            let mut line = params.strategy_params[i].0.clone();
            line.append(":");
            let v = format_param_value(&params.strategy_params[i].1);
            line.append(v.as_str());
            id.push(line);
            i = i + 1;
        }
        let mut psv = String::new();
        psv.append("pos_sizer_value:");
        let pv = format_scaled_e5(params.pos_sizer_value_e5);
        psv.append(pv.as_str());
        id.push(psv);
        let mut sl = String::new();
        sl.append("slippage:");
        let sv = format_scaled_e5(params.slippage_e5);
        sl.append(sv.as_str());
        id.push(sl);
        id
    }

    /// Mean, largest and smallest of a fitness list; zeros for an empty
    /// one.
    pub fn calculate_stats(&self, values: &Vec<i64>) -> (r: (i64, i64, i64))
        requires
            values@.len() <= 1_000_000_000,
        ensures
            values@.len() == 0 ==> r == (0i64, 0i64, 0i64),
            values@.len() > 0 ==> {
                &&& r.0 as int == round_div(fitness_sum_from(values@, 0), values@.len() as int)
                &&& r.1 as int == fitness_max_from(values@, 0)
                &&& r.2 as int == fitness_min_from(values@, 0)
            },
    {
        let n = values.len();
        if n == 0 {
            return (0, 0, 0);
        }
        let mut sum: i128 = 0;
        let mut mx: i128 = i64::MIN as i128;
        let mut mn: i128 = i64::MAX as i128;
        let mut i: usize = n;
        while i > 0
            invariant
                i <= n,
                n == values@.len(),
                n <= 1_000_000_000,
                sum == fitness_sum_from(values@, i as int),
                mx == fitness_max_from(values@, i as int),
                mn == fitness_min_from(values@, i as int),
                i64::MIN <= mx <= i64::MAX,
                i64::MIN <= mn <= i64::MAX,
            decreases i,
        {
            proof {
                lemma_fitness_sum_bound(values@, i as int);
                lemma_fitness_sum_bound(values@, i - 1);
            }
            i = i - 1;
            let v = values[i];
            sum = sum + (v as i128);
            if (v as i128) > mx {
                mx = v as i128;
            }
            if (v as i128) < mn {
                mn = v as i128;
            }
        }
        proof {
            lemma_fitness_sum_bound(values@, 0);
            lemma_round_div_machine_range(fitness_sum_from(values@, 0), n as int);
            lemma_mul_band(n as int);
        }
        let mean: i64 = rdiv(sum, n as i128) as i64;
        (mean, mx as i64, mn as i64)
    }

    /// One binary tournament: two uniformly drawn contestants, the
    /// fitter one (per direction) wins.
    pub fn choose_parent(&self, results: &Vec<(ParameterSet, i64)>) -> (r: ParameterSet)
        requires
            results@.len() > 0,
        ensures
            exists|x: int, y: int|
                0 <= x < results@.len() && 0 <= y < results@.len() && param_set_fields_eq(
                    r,
                    #[trigger] tournament_winner(results@, x, y, self.ga_config.fitness_direction),
                ),
    {
        let idx_a = rand_below(results.len());
        let idx_b = rand_below(results.len());
        let winner: &ParameterSet = match self.ga_config.fitness_direction {
            FitnessDirection::Max => if results[idx_a].1 >= results[idx_b].1 {
                &results[idx_a].0
            } else {
                &results[idx_b].0
            },
            FitnessDirection::Min => if results[idx_a].1 <= results[idx_b].1 {
                &results[idx_a].0
            } else {
                &results[idx_b].0
            },
        };
        let r = winner.clone();
        proof {
            assert(param_set_fields_eq(
                r,
                tournament_winner(
                    results@,
                    idx_a as int,
                    idx_b as int,
                    self.ga_config.fitness_direction,
                ),
            ));
        }
        r
    }

    /// One child: uniform crossover over the strategy axes, then
    /// mutation of the sizer value and the slippage, each with its
    /// configured probability; the sizer name and the additional
    /// parameters come from the first parent unchanged, and with a zero
    /// mutation probability so do the sizer value and the slippage.
    pub fn crossover_mutation(&self, a: &ParameterSet, b: &ParameterSet) -> (r: ParameterSet)
        ensures
            spec_crossover_props(self.optimization_config, self.ga_config, *a, *b, r),
    {
        let n = if a.strategy_params.len() <= b.strategy_params.len() {
            a.strategy_params.len()
        } else {
            b.strategy_params.len()
        };
        let mut new_params: Vec<(String, ParamValue)> = Vec::new();
        let mut i: usize = 0;
        while i < n
            invariant
                i <= n,
                n <= a.strategy_params@.len(),
                n <= b.strategy_params@.len(),
                new_params@.len() == i,
                forall|k: int|
                    0 <= k < i ==> (#[trigger] new_params@[k]).0@ == a.strategy_params@[k].0@ && (
                    param_value_equiv(new_params@[k].1, a.strategy_params@[k].1)
                        || param_value_equiv(new_params@[k].1, b.strategy_params@[k].1)),
            decreases n - i,
        {
            let take_a = (rand_below(100_000) as i64) < self.ga_config.p_crossover_e5;
            let value = if take_a {
                a.strategy_params[i].1.clone()
            } else {
                b.strategy_params[i].1.clone()
            };
            new_params.push((a.strategy_params[i].0.clone(), value));
            i = i + 1;
        }
        let pos_sizer_value = if (rand_below(100_000) as i64) < self.ga_config.p_mutation_e5
            && self.optimization_config.pos_sizer_value_range.len() > 0 {
            let j = rand_below(self.optimization_config.pos_sizer_value_range.len());
            self.optimization_config.pos_sizer_value_range[j]
        } else {
            a.pos_sizer_value_e5
        };
        let slippage = if (rand_below(100_000) as i64) < self.ga_config.p_mutation_e5
            && self.optimization_config.slippage_range.len() > 0 {
            let j = rand_below(self.optimization_config.slippage_range.len());
            self.optimization_config.slippage_range[j]
        } else {
            a.slippage_e5
        };
        ParameterSet {
            strategy_params: new_params,
            pos_sizer_name: a.pos_sizer_name.clone(),
            pos_sizer_value_e5: pos_sizer_value,
            pos_sizer_additional_params: clone_named_values(&a.pos_sizer_additional_params),
            slippage_e5: slippage,
        }
    }

    /// The next generation: the best chromosome unchanged, then
    /// children of binary tournaments until the population is full.
    pub fn tournament_selection(&self, results: &Vec<(ParameterSet, i64)>) -> (r: Vec<
        ParameterSet,
    >)
        requires
            results@.len() > 0,
        ensures
            r@.len() == if self.ga_config.population_size > 0 {
                self.ga_config.population_size as int
            } else {
                1int
            },
            exists|bi: int|
                0 <= bi < results@.len() && param_set_equiv(r@[0], (#[trigger] results@[bi]).0)
                    && (forall|j: int|
                    0 <= j < results@.len() ==> (match self.ga_config.fitness_direction {
                        FitnessDirection::Max => results@[bi].1 >= (#[trigger] results@[j]).1,
                        FitnessDirection::Min => results@[bi].1 <= (#[trigger] results@[j]).1,
                    })),
            forall|m: int|
                1 <= m < r@.len() ==> spec_tournament_child(
                    results@,
                    self.optimization_config,
                    self.ga_config,
                    #[trigger] r@[m],
                ),
    {
        // The elite: the single best chromosome survives unchanged.
        let mut best: usize = 0;
        let mut i: usize = 1;
        while i < results.len()
            invariant
                1 <= i <= results@.len(),
                best < i,
                forall|j: int|
                    0 <= j < i ==> (match self.ga_config.fitness_direction {
                        FitnessDirection::Max => results@[best as int].1 >= (
                        #[trigger] results@[j]).1,
                        FitnessDirection::Min => results@[best as int].1 <= (
                        #[trigger] results@[j]).1,
                    }),
            decreases results@.len() - i,
        {
            match self.ga_config.fitness_direction {
                FitnessDirection::Max => {
                    if results[i].1 > results[best].1 {
                        best = i;
                    }
                },
                FitnessDirection::Min => {
                    if results[i].1 < results[best].1 {
                        best = i;
                    }
                },
            }
            i = i + 1;
        }
        let mut next_gen: Vec<ParameterSet> = Vec::new();
        next_gen.push(results[best].0.clone());
        let target = if self.ga_config.population_size > 0 {
            self.ga_config.population_size
        } else {
            1
        };
        while next_gen.len() < target
            invariant
                1 <= next_gen@.len(),
                next_gen@.len() <= target,
                results@.len() > 0,
                exists|bi: int|
                    0 <= bi < results@.len() && param_set_equiv(
                        next_gen@[0],
                        (#[trigger] results@[bi]).0,
                    ) && (forall|j: int|
                        0 <= j < results@.len() ==> (match self.ga_config.fitness_direction {
                            FitnessDirection::Max => results@[bi].1 >= (#[trigger] results@[j]).1,
                            FitnessDirection::Min => results@[bi].1 <= (#[trigger] results@[j]).1,
                        })),
                forall|m: int|
                    1 <= m < next_gen@.len() ==> spec_tournament_child(
                        results@,
                        self.optimization_config,
                        self.ga_config,
                        #[trigger] next_gen@[m],
                    ),
            decreases target - next_gen@.len(),
        {
            let parent_a = self.choose_parent(results);
            let parent_b = self.choose_parent(results);
            let child = self.crossover_mutation(&parent_a, &parent_b);
            proof {
                let dir = self.ga_config.fitness_direction;
                let (x1, y1) = choose|x: int, y: int|
                    0 <= x < results@.len() && 0 <= y < results@.len() && param_set_fields_eq(
                        parent_a,
                        #[trigger] tournament_winner(results@, x, y, dir),
                    );
                let (x2, y2) = choose|x: int, y: int|
                    0 <= x < results@.len() && 0 <= y < results@.len() && param_set_fields_eq(
                        parent_b,
                        #[trigger] tournament_winner(results@, x, y, dir),
                    );
                lemma_crossover_props_transfer(
                    self.optimization_config,
                    self.ga_config,
                    parent_a,
                    parent_b,
                    tournament_winner(results@, x1, y1, dir),
                    tournament_winner(results@, x2, y2, dir),
                    child,
                );
                assert(spec_tournament_child(
                    results@,
                    self.optimization_config,
                    self.ga_config,
                    child,
                ));
            }
            next_gen.push(child);
        }
        next_gen
    }
}


impl GeneticAlgorythm {
    /// Statistics of one generation: mean, best and worst fitness per
    /// the configured direction, and the best chromosome's identifier.
    pub fn calculate_generation_stats(
        &self,
        results: &Vec<(ParameterSet, i64)>,
        gen_idx: usize,
    ) -> (r: GAStatsPerGeneration)
        requires
            results@.len() <= 1_000_000_000,
        ensures
            r.generation == gen_idx,
            results@.len() == 0 ==> r.best_fitness == 0 && r.worst_fitness == 0 && r.mean_fitness
                == 0,
            results@.len() > 0 ==> {
                let fitness = results_fitness(results@);
                &&& r.best_fitness as int == (match self.ga_config.fitness_direction {
                    FitnessDirection::Max => fitness_max_from(fitness, 0),
                    FitnessDirection::Min => fitness_min_from(fitness, 0),
                })
                &&& r.worst_fitness as int == (match self.ga_config.fitness_direction {
                    FitnessDirection::Max => fitness_min_from(fitness, 0),
                    FitnessDirection::Min => fitness_max_from(fitness, 0),
                })
                &&& r.mean_fitness as int == round_div(
                    fitness_sum_from(fitness, 0),
                    fitness.len() as int,
                )
            },
    {
        let mut fitness_values: Vec<i64> = Vec::new();
        let mut i: usize = 0;
        while i < results.len()
            invariant
                i <= results@.len(),
                fitness_values@.len() == i,
                forall|k: int| 0 <= k < i ==> #[trigger] fitness_values@[k] == results@[k].1,
            decreases results@.len() - i,
        {
            fitness_values.push(results[i].1);
            i = i + 1;
        }
        proof {
            assert(fitness_values@ =~= results_fitness(results@));
        }
        let (mean, mx, mn) = self.calculate_stats(&fitness_values);
        let (best, worst): (i64, i64) = match self.ga_config.fitness_direction {
            FitnessDirection::Max => (mx, mn),
            FitnessDirection::Min => (mn, mx),
        };
        let mut best_id: Vec<String> = Vec::new();
        let mut bi: usize = 0;
        let mut found = false;
        while bi < results.len()
            invariant
                bi <= results@.len(),
            decreases results@.len() - bi,
        {
            if results[bi].1 == best {
                best_id = self.create_chromosome_id_for_display(&results[bi].0);
                found = true;
                break ;
            }
            bi = bi + 1;
        }
        if !found && results.len() > 0 {
            best_id = self.create_chromosome_id_for_display(&results[0].0);
        }
        GAStatsPerGeneration {
            best_fitness: best,
            worst_fitness: worst,
            mean_fitness: mean,
            best_chromosome_id: best_id,
            generation: gen_idx,
        }
    }

    /// The whole genetic run: draw the initial population, then for
    /// each generation evaluate through the cache, record statistics
    /// and breed the next population.  One entry of statistics per
    /// generation.
    pub fn run<F: Fn(&ParameterSet) -> i64>(
        &mut self,
        initial_strategy_settings: &StrategySettings,
        evaluate: F,
    ) -> (r: Vec<GAStatsPerGeneration>)
        requires
            bank_wf(old(self).chromosome_bank@),
            forall|ps: &ParameterSet| call_requires(evaluate, (ps,)),
            old(self).ga_config.population_size <= 1_000_000_000,
        ensures
            r@.len() == old(self).ga_config.max_generations,
            forall|i: int| 0 <= i < r@.len() ==> (#[trigger] r@[i]).generation == i,
            forall|i: int|
                0 <= i < r@.len() ==> generation_recorded(
                    final(self).chromosome_bank@,
                    old(self).ga_config.fitness_direction,
                    final(self).populations@[old(self).populations@.len() + i]@,
                    i,
                    #[trigger] r@[i],
                ),
            bank_wf(final(self).chromosome_bank@),
            final(self).populations@.len() == old(self).populations@.len() + 1 + (if old(
                self,
            ).ga_config.max_generations == 0 {
                0int
            } else {
                old(self).ga_config.max_generations - 1
            }),
    {
        let _settings = initial_strategy_settings;
        let total_population = self.ga_config.population_size;
        self.create_initial_population(total_population);
        let mut stats: Vec<GAStatsPerGeneration> = Vec::new();
        let max_generations = self.ga_config.max_generations;
        let mut gen_idx: usize = 0;
        let ghost base_len = self.populations@.len();
        while gen_idx < max_generations
            invariant
                gen_idx <= max_generations,
                stats@.len() == gen_idx,
                forall|i: int| 0 <= i < gen_idx ==> (#[trigger] stats@[i]).generation == i,
                forall|i: int|
                    0 <= i < gen_idx ==> generation_recorded(
                        self.chromosome_bank@,
                        self.ga_config.fitness_direction,
                        self.populations@[base_len - 1 + i]@,
                        i,
                        #[trigger] stats@[i],
                    ),
                self.populations@.len() >= 1,
                self.populations@.len() == base_len + (if max_generations == 0 {
                    0int
                } else if gen_idx < max_generations {
                    gen_idx as int
                } else {
                    max_generations - 1
                }),
                base_len == old(self).populations@.len() + 1,
                self.populations@.last()@.len() <= 1_000_000_000,
                bank_wf(self.chromosome_bank@),
                self.ga_config == old(self).ga_config,
                max_generations == self.ga_config.max_generations,
                self.ga_config.population_size <= 1_000_000_000,
                forall|ps: &ParameterSet| call_requires(evaluate, (ps,)),
            decreases max_generations - gen_idx,
        {
            let ghost bank0 = self.chromosome_bank@;
            let ghost pops0 = self.populations@;
            let ghost stats0 = stats@;
            let ghost dir = self.ga_config.fitness_direction;
            let current_population = clone_population(
                &self.populations[self.populations.len() - 1],
            );
            let results = self.evaluate_population(&current_population, &evaluate);
            let ghost bank1 = self.chromosome_bank@;
            let ghost res_v = results@;
            let stat = self.calculate_generation_stats(&results, gen_idx);
            stats.push(stat);
            if gen_idx + 1 < max_generations {
                if results.len() > 0 {
                    let next_population = self.tournament_selection(&results);
                    self.populations.push(next_population);
                } else {
                    self.populations.push(Vec::new());
                }
            }
            proof {
                let orig = pops0[base_len - 1 + gen_idx]@;
                assert(pops0[base_len - 1 + gen_idx] == pops0.last());
                assert forall|k: int| 0 <= k < res_v.len() implies param_set_equiv(
                    (#[trigger] res_v[k]).0,
                    orig[k],
                ) && Some(res_v[k].1) == bank_lookup_from(bank1, orig[k], 0) by {
                    lemma_param_set_equiv_trans(res_v[k].0, current_population@[k], orig[k]);
                    lemma_lookup_respects_equiv(bank1, current_population@[k], orig[k], 0);
                }
                assert(evaluated_against(bank1, orig, res_v));
                assert(stats_of_results(dir, res_v, gen_idx as int, stat));
                assert(generation_recorded(bank1, dir, orig, gen_idx as int, stat));
                assert forall|i: int| 0 <= i < gen_idx + 1 implies generation_recorded(
                    self.chromosome_bank@,
                    self.ga_config.fitness_direction,
                    (#[trigger] self.populations@[base_len - 1 + i])@,
                    i,
                    stats@[i],
                ) by {
                    assert(self.populations@[base_len - 1 + i] == pops0[base_len - 1 + i]);
                    if i < gen_idx {
                        let pop_i = pops0[base_len - 1 + i]@;
                        assert(stats@[i] == stats0[i]);
                        assert(generation_recorded(bank0, dir, pop_i, i, stats0[i]));
                        let res_i = choose|results: Seq<(ParameterSet, i64)>|
                            #[trigger] evaluated_against(bank0, pop_i, results)
                                && stats_of_results(dir, results, i, stats0[i]);
                        assert forall|k: int| 0 <= k < res_i.len() implies Some(
                            (#[trigger] res_i[k]).1,
                        ) == bank_lookup_from(bank1, pop_i[k], 0) by {
                            assert(Some(res_i[k].1) == bank_lookup_from(bank0, pop_i[k], 0));
                            lemma_lookup_prefix_stable(bank0, bank1, pop_i[k], 0);
                        }
                        assert(evaluated_against(bank1, pop_i, res_i));
                        assert(generation_recorded(bank1, dir, pop_i, i, stats0[i]));
                    } else {
                        assert(stats@[i] == stat);
                    }
                }
            }
            gen_idx = gen_idx + 1;
        }
        stats
    }
}

/// Clones a population.
fn clone_population(src: &Vec<ParameterSet>) -> (r: Vec<ParameterSet>)
    ensures
        r@.len() == src@.len(),
        forall|i: int| 0 <= i < r@.len() ==> param_set_equiv(#[trigger] r@[i], src@[i]),
{
    let mut out: Vec<ParameterSet> = Vec::new();
    let mut i: usize = 0;
    while i < src.len()
        invariant
            i <= src@.len(),
            out@.len() == i,
            forall|k: int| 0 <= k < i ==> param_set_equiv(#[trigger] out@[k], src@[k]),
        decreases src@.len() - i,
    {
        out.push(src[i].clone());
        i = i + 1;
    }
    out
}


/// The scalar one composite metric contributes: the named field, with
/// the drawdown and the deal count negated so that larger is better.
pub open spec fn spec_composite_component(metrics: PerformanceMetrics, name: CompositeMetric) -> int {
    match name {
        CompositeMetric::TotalReturn => metrics.total_return_cents as int,
        CompositeMetric::TotalReturnPercent => metrics.total_return_pct_e9 as int,
        CompositeMetric::Apr => metrics.apr_e9 as int,
        CompositeMetric::MaxDD => if metrics.max_drawdown_e9 == i64::MIN {
            i64::MAX as int
        } else {
            -(metrics.max_drawdown_e9 as int)
        },
        CompositeMetric::AprDDFactor => metrics.apr_to_drawdown_ratio_e9 as int,
        CompositeMetric::RecoveryFactor => metrics.recovery_factor_e9 as int,
        CompositeMetric::DealsCount => -(if metrics.deals_count > i64::MAX as usize {
            i64::MAX as int
        } else {
            metrics.deals_count as int
        }),
    }
}

/// Sum of composite components from index `i` on.
pub open spec fn composite_sum_from(
    metrics: PerformanceMetrics,
    names: Seq<CompositeMetric>,
    i: int,
) -> int
    decreases names.len() - i,
{
    if i < 0 || i >= names.len() {
        0
    } else {
        spec_composite_component(metrics, names[i]) + composite_sum_from(metrics, names, i + 1)
    }
}

/// Composite tail sums stay within the machine band times the number
/// of components left.
proof fn lemma_composite_sum_bound(metrics: PerformanceMetrics, names: Seq<CompositeMetric>, i: int)
    requires
        0 <= i <= names.len(),
    ensures
        -((names.len() - i) * 0x8000_0000_0000_0000) <= composite_sum_from(metrics, names, i) <= (
        names.len() - i) * 0x7FFF_FFFF_FFFF_FFFF,
    decreases names.len() - i,
{
    if i < names.len() {
        lemma_composite_sum_bound(metrics, names, i + 1);
    }
}

/// The raw fitness scalar of one metrics record: the named field, or
/// the equal-weighted composite mean.
pub open spec fn spec_raw_fitness(metrics: PerformanceMetrics, metric: FitnessValue) -> int {
    match metric {
        FitnessValue::TotalReturn => metrics.total_return_cents as int,
        FitnessValue::TotalReturnPercent => metrics.total_return_pct_e9 as int,
        FitnessValue::Apr => metrics.apr_e9 as int,
        FitnessValue::MaxDD => metrics.max_drawdown_e9 as int,
        FitnessValue::AprDDFactor => metrics.apr_to_drawdown_ratio_e9 as int,
        FitnessValue::RecoveryFactor => metrics.recovery_factor_e9 as int,
        FitnessValue::DealsCount => if metrics.deals_count > i64::MAX as usize {
            i64::MAX as int
        } else {
            metrics.deals_count as int
        },
        FitnessValue::Composite { metrics: names } => if names@.len() == 0 {
            0
        } else {
            round_div(composite_sum_from(metrics, names@, 0), names@.len() as int)
        },
    }
}

/// The fitness scalar the optimizer ranks by: the raw scalar, negated
/// under a minimizing direction.
pub open spec fn spec_fitness_score(
    metrics: PerformanceMetrics,
    metric: FitnessValue,
    direction: FitnessDirection,
) -> int {
    match direction {
        FitnessDirection::Max => spec_raw_fitness(metrics, metric),
        FitnessDirection::Min => if spec_raw_fitness(metrics, metric) == i64::MIN {
            i64::MAX as int
        } else {
            -spec_raw_fitness(metrics, metric)
        },
    }
}

/// Maps a metrics record to the scalar the optimizer ranks by; see
/// [`spec_fitness_score`].
pub fn calculate_fitness_score(
    metrics: &PerformanceMetrics,
    metric: &FitnessValue,
    direction: FitnessDirection,
) -> (r: i64)
    requires
        (metric matches FitnessValue::Composite { metrics: names } ==> names@.len()
            <= 1_000_000_000),
    ensures
        r == spec_fitness_score(*metrics, *metric, direction),
{
    let raw: i64 = match metric {
        FitnessValue::TotalReturn => metrics.total_return_cents,
        FitnessValue::TotalReturnPercent => metrics.total_return_pct_e9,
        FitnessValue::Apr => metrics.apr_e9,
        FitnessValue::MaxDD => metrics.max_drawdown_e9,
        FitnessValue::AprDDFactor => metrics.apr_to_drawdown_ratio_e9,
        FitnessValue::RecoveryFactor => metrics.recovery_factor_e9,
        FitnessValue::DealsCount => {
            if metrics.deals_count > i64::MAX as usize {
                i64::MAX
            } else {
                metrics.deals_count as i64
            }
        },
        FitnessValue::Composite { metrics: names } => {
            if names.len() == 0 {
                0
            } else {
                let n = names.len();
                let mut sum: i128 = 0;
                let mut i: usize = n;
                while i > 0
                    invariant
                        i <= n,
                        n == names@.len(),
                        n <= 1_000_000_000,
                        sum == composite_sum_from(*metrics, names@, i as int),
                    decreases i,
                {
                    proof {
                        lemma_composite_sum_bound(*metrics, names@, i as int);
                        lemma_composite_sum_bound(*metrics, names@, i - 1);
                    }
                    i = i - 1;
                    let v: i128 = match names[i] {
                        CompositeMetric::TotalReturn => metrics.total_return_cents as i128,
                        CompositeMetric::TotalReturnPercent => metrics.total_return_pct_e9 as i128,
                        CompositeMetric::Apr => metrics.apr_e9 as i128,
                        CompositeMetric::MaxDD => {
                            if metrics.max_drawdown_e9 == i64::MIN {
                                i64::MAX as i128
                            } else {
                                -(metrics.max_drawdown_e9 as i128)
                            }
                        },
                        CompositeMetric::AprDDFactor => metrics.apr_to_drawdown_ratio_e9 as i128,
                        CompositeMetric::RecoveryFactor => metrics.recovery_factor_e9 as i128,
                        CompositeMetric::DealsCount => {
                            if metrics.deals_count > i64::MAX as usize {
                                -(i64::MAX as i128)
                            } else {
                                -(metrics.deals_count as i128)
                            }
                        },
                    };
                    sum = sum + v;
                }
                proof {
                    lemma_composite_sum_bound(*metrics, names@, 0);
                    crate::fixed::lemma_round_div_machine_range(
                        composite_sum_from(*metrics, names@, 0),
                        n as int,
                    );
                    lemma_mul_band(n as int);
                }
                rdiv(sum, n as i128) as i64
            }
        },
    };
    match direction {
        FitnessDirection::Max => raw,
        FitnessDirection::Min => {
            if raw == i64::MIN {
                // The exact negation of the smallest value does not
                // exist; the drawdown family never reaches it, and a
                // clamped scalar keeps the ranking order.
                i64::MAX
            } else {
                -raw
            }
        },
    }
}

} // verus!
