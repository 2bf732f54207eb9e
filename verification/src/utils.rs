//! Helpers shared by sizing and optimization: quantity capping against
//! available cash, and the bridges between settings and the
//! optimization configuration.

use vstd::prelude::*;

use crate::fixed::{
    pow10, pow10_i64, lemma_mul_le, lemma_pow10_increases, lemma_pow10_18_value, MONEY_CENTS_MAX,
    QTY_E5_MAX, SCALE_E5,
};
use crate::instruments::InstrumentInfo;
use crate::optimization::{OptimizationConfig, ParameterSet, param_value_equiv};
use crate::params::{axes_equal, clone_axes, ParamValue};
use crate::settings::{settings_equiv, StrategySettings};

verus! {

/// The largest quantity the available cash can margin, floored to the
/// instrument's contract precision: `floor(cash/margin)` in ticks of
/// `10^-precision` contracts, never more than the requested quantity,
/// and lifted to one tick when it floors to nothing.
pub open spec fn spec_max_available_quantity(
    cash_cents: int,
    current_quantity_e5: int,
    margin_cents: int,
    precision: nat,
) -> int
    recommends
        margin_cents > 0,
        precision <= 5,
{
    let tick = pow10((5 - precision) as nat);
    let u = (cash_cents * SCALE_E5) / margin_cents;
    let maxq = (u / tick) * tick;
    let q = if current_quantity_e5 < maxq {
        current_quantity_e5
    } else {
        maxq
    };
    if q == 0 {
        tick
    } else {
        q
    }
}

/// Executable form of [`spec_max_available_quantity`].
pub fn calculate_max_available_quantity(
    cash_cents: i64,
    current_quantity_e5: i64,
    strategy_instruments_info: &InstrumentInfo,
) -> (r: i64)
    requires
        strategy_instruments_info.wf(),
        0 <= cash_cents <= 2 * MONEY_CENTS_MAX,
        0 <= current_quantity_e5 <= QTY_E5_MAX,
    ensures
        r == spec_max_available_quantity(
            cash_cents as int,
            current_quantity_e5 as int,
            strategy_instruments_info.margin_cents as int,
            strategy_instruments_info.contract_precision as nat,
        ),
        0 < r <= QTY_E5_MAX,
{
    let precision: u32 = strategy_instruments_info.contract_precision as u32;
    let tick: i64 = pow10_i64(5 - precision);
    proof {
        lemma_pow10_increases((5 - precision) as nat, 5);
        lemma_pow10_18_value();
    }
    let margin: u128 = strategy_instruments_info.margin_cents as u128;
    proof {
        lemma_mul_le(
            cash_cents as int,
            2 * MONEY_CENTS_MAX as int,
            SCALE_E5 as int,
            SCALE_E5 as int,
        );
    }
    let u: u128 = ((cash_cents as u128) * (SCALE_E5 as u128)) / margin;
    proof {
        assert((u as int / (tick as int)) * (tick as int) <= u as int && (u as int / (
        tick as int)) * (tick as int) >= 0) by (nonlinear_arith)
            requires
                u as int >= 0 && tick as int >= 1,
        ;
    }
    let maxq: u128 = (u / (tick as u128)) * (tick as u128);
    let q: u128 = if (current_quantity_e5 as u128) < maxq {
        current_quantity_e5 as u128
    } else {
        maxq
    };
    if q == 0 {
        tick
    } else {
        q as i64
    }
}


/// The first value recorded under `name`, scanning from `i`.
pub open spec fn param_for_from(
    params: Seq<(String, ParamValue)>,
    name: Seq<char>,
    i: int,
) -> Option<ParamValue>
    decreases params.len() - i,
{
    if i < 0 || i >= params.len() {
        None
    } else if params[i].0@ == name {
        Some(params[i].1)
    } else {
        param_for_from(params, name, i + 1)
    }
}

/// Reads the sweep ranges out of a strategy's settings.  A plain sizer
/// (named `1`) sweeps the single sizer value zero.
pub fn parse_optimization_config(strategy_settings: &StrategySettings) -> (r: OptimizationConfig)
    ensures
        axes_equal(r.strategy_params_ranges@, strategy_settings.strategy_params@),
        r.pos_sizer_name@ == strategy_settings.pos_sizer_params.pos_sizer_name@,
        axes_equal(
            r.pos_sizer_additional_params@,
            strategy_settings.pos_sizer_params.pos_sizer_params@,
        ),
        r.slippage_range@ == strategy_settings.slippage_e5@,
        strategy_settings.pos_sizer_params.pos_sizer_name@ == "1"@ ==> r.pos_sizer_value_range@
            =~= seq![0i64],
        strategy_settings.pos_sizer_params.pos_sizer_name@ != "1"@ ==> r.pos_sizer_value_range@
            == strategy_settings.pos_sizer_params.pos_sizer_value_e5@,
{
    let plain: String = "1".to_owned();
    let pos_sizer_value_range: Vec<i64> = if strategy_settings.pos_sizer_params.pos_sizer_name.eq(
        &plain,
    ) {
        let mut v: Vec<i64> = Vec::new();
        v.push(0);
        v
    } else {
        let v = strategy_settings.pos_sizer_params.pos_sizer_value_e5.clone();
        proof {
            assert(v@ =~= strategy_settings.pos_sizer_params.pos_sizer_value_e5@);
        }
        v
    };
    let slippage_range = strategy_settings.slippage_e5.clone();
    proof {
        assert(slippage_range@ =~= strategy_settings.slippage_e5@);
    }
    OptimizationConfig {
        strategy_params_ranges: clone_axes(&strategy_settings.strategy_params),
        pos_sizer_value_range,
        slippage_range,
        pos_sizer_name: strategy_settings.pos_sizer_params.pos_sizer_name.clone(),
        pos_sizer_additional_params: clone_axes(
            &strategy_settings.pos_sizer_params.pos_sizer_params,
        ),
    }
}

/// The settings of one candidate: the base settings with the sizer
/// value, the slippage, and the strategy parameter axes pinned to the
/// candidate's choices.  An axis named by the candidate keeps its place
/// and holds exactly the chosen value; a named value without an axis is
/// appended as a new single-valued axis.
pub fn create_stratagy_settings_from_params(
    strategy_settings: &StrategySettings,
    params: &ParameterSet,
) -> (r: StrategySettings)
    ensures
        r.threads == strategy_settings.threads,
        r.strategy_name == strategy_settings.strategy_name,
        r.strategy_path == strategy_settings.strategy_path,
        r.exit_results_path == strategy_settings.exit_results_path,
        r.strategy_weight_e5 == strategy_settings.strategy_weight_e5,
        r.data == strategy_settings.data,
        r.symbol_base_name == strategy_settings.symbol_base_name,
        r.symbols@ == strategy_settings.symbols@,
        r.margin_params == strategy_settings.margin_params,
        r.portfolio_settings_for_strategy == strategy_settings.portfolio_settings_for_strategy,
        crate::settings::optimizer_equiv(r.optimizer_type, strategy_settings.optimizer_type),
        match (r.commission_plans, strategy_settings.commission_plans) {
            (Some(cp), Some(cp0)) => crate::commission::plans_equiv(cp, cp0),
            (None, None) => true,
            _ => false,
        },
        axes_equal(
            r.pos_sizer_params.pos_sizer_params@,
            strategy_settings.pos_sizer_params.pos_sizer_params@,
        ),
        r.pos_sizer_params.pos_sizer_name == strategy_settings.pos_sizer_params.pos_sizer_name,
        r.pos_sizer_params.pos_sizer_value_e5@ =~= seq![params.pos_sizer_value_e5],
        r.slippage_e5@ =~= seq![params.slippage_e5],
        r.strategy_params@.len() >= strategy_settings.strategy_params@.len(),
        forall|k: int|
            0 <= k < strategy_settings.strategy_params@.len()
                ==> (#[trigger] r.strategy_params@[k]).0@
                    == strategy_settings.strategy_params@[k].0@ && (match param_for_from(
                params.strategy_params@,
                strategy_settings.strategy_params@[k].0@,
                0,
            ) {
                Some(v) => r.strategy_params@[k].1@.len() == 1 && param_value_equiv(
                    r.strategy_params@[k].1@[0],
                    v,
                ),
                None => r.strategy_params@[k].1@ == strategy_settings.strategy_params@[k].1@,
            }),
        forall|k: int|
            strategy_settings.strategy_params@.len() <= k < r.strategy_params@.len()
                ==> (#[trigger] r.strategy_params@[k]).1@.len() == 1,
{
    let mut new_settings = strategy_settings.clone();
    let mut psv: Vec<i64> = Vec::new();
    psv.push(params.pos_sizer_value_e5);
    new_settings.pos_sizer_params.pos_sizer_value_e5 = psv;
    let mut slip: Vec<i64> = Vec::new();
    slip.push(params.slippage_e5);
    new_settings.slippage_e5 = slip;
    let mut axes = clone_axes(&strategy_settings.strategy_params);
    proof {
        assert forall|k: int| 0 <= k < axes@.len() implies (#[trigger] axes@[k]).0@
            == strategy_settings.strategy_params@[k].0@ && axes@[k].1@
            == strategy_settings.strategy_params@[k].1@ by {
            assert(axes@[k].0 == strategy_settings.strategy_params@[k].0);
        }
    }
    let mut i: usize = 0;
    while i < axes.len()
        invariant
            i <= axes@.len(),
            axes@.len() == strategy_settings.strategy_params@.len(),
            forall|k: int|
                0 <= k < axes@.len() ==> (#[trigger] axes@[k]).0@
                    == strategy_settings.strategy_params@[k].0@,
            forall|k: int|
                0 <= k < i ==> (match param_for_from(
                    params.strategy_params@,
                    strategy_settings.strategy_params@[k].0@,
                    0,
                ) {
                    Some(v) => (#[trigger] axes@[k]).1@.len() == 1 && param_value_equiv(
                        axes@[k].1@[0],
                        v,
                    ),
                    None => axes@[k].1@ == strategy_settings.strategy_params@[k].1@,
                }),
            forall|k: int|
                i <= k < axes@.len() ==> (#[trigger] axes@[k]).1@
                    == strategy_settings.strategy_params@[k].1@,
        decreases axes@.len() - i,
    {
        match find_param(&params.strategy_params, &axes[i].0) {
            Some(v) => {
                let mut single: Vec<ParamValue> = Vec::new();
                single.push(v);
                let name = axes[i].0.clone();
                axes.set(i, (name, single));
            },
            None => {},
        }
        i = i + 1;
    }
    // Values named by the candidate but not present as axes are added.
    let mut j: usize = 0;
    while j < params.strategy_params.len()
        invariant
            j <= params.strategy_params@.len(),
            axes@.len() >= strategy_settings.strategy_params@.len(),
            forall|k: int|
                0 <= k < strategy_settings.strategy_params@.len() ==> (#[trigger] axes@[k]).0@
                    == strategy_settings.strategy_params@[k].0@ && (match param_for_from(
                    params.strategy_params@,
                    strategy_settings.strategy_params@[k].0@,
                    0,
                ) {
                    Some(v) => axes@[k].1@.len() == 1 && param_value_equiv(axes@[k].1@[0], v),
                    None => axes@[k].1@ == strategy_settings.strategy_params@[k].1@,
                }),
            forall|k: int|
                strategy_settings.strategy_params@.len() <= k < axes@.len()
                    ==> (#[trigger] axes@[k]).1@.len() == 1,
        decreases params.strategy_params@.len() - j,
    {
        if !has_axis(&axes, &params.strategy_params[j].0) {
            let mut single: Vec<ParamValue> = Vec::new();
            single.push(params.strategy_params[j].1.clone());
            axes.push((params.strategy_params[j].0.clone(), single));
        }
        j = j + 1;
    }
    new_settings.strategy_params = axes;
    new_settings
}

/// The first value the candidate records under `name`.
fn find_param(params: &Vec<(String, ParamValue)>, name: &String) -> (r: Option<ParamValue>)
    ensures
        r == param_for_from(params@, name@, 0),
{
    let mut i: usize = 0;
    while i < params.len()
        invariant
            i <= params@.len(),
            param_for_from(params@, name@, 0) == param_for_from(params@, name@, i as int),
        decreases params@.len() - i,
    {
        if params[i].0.eq(name) {
            return Some(params[i].1.clone());
        }
        i = i + 1;
    }
    None
}

/// Whether an axis with this name exists.
fn has_axis(axes: &Vec<(String, Vec<ParamValue>)>, name: &String) -> (r: bool)
{
    let mut i: usize = 0;
    while i < axes.len()
        decreases axes@.len() - i,
    {
        if axes[i].0.eq(name) {
            return true;
        }
        i = i + 1;
    }
    false
}

} // verus!
