//! Position sizing: the plain one-contract sizer and the maximum
//! percent risk sizer, which caps the loss of one round trip (including
//! both commissions) at a configured share of capital.

use vstd::prelude::*;

use crate::commission::{calculate_forts_comission, spec_commission, CommissionPlans};
use crate::fixed::{
    round_div, rdiv, lemma_mul_abs_le, lemma_round_div_abs_le, pow10, pow10_i64,
    lemma_pow10_increases, lemma_pow10_18_value, MONEY_CENTS_MAX, PRICE_E5_MAX, PV_E5_MAX,
    QTY_E5_MAX, SCALE_E5,
};
use crate::instruments::InstrumentInfo;
use crate::settings::StrategySettings;

verus! {

/// Largest admissible maximum-percent-risk value: `1e4` percent,
/// scaled by `1e5`.
pub const MPR_E5_MAX: i64 = 1_000_000_000;

/// The maximum-percent-risk quantity: the capital share the
/// configuration risks, divided by the gross loss of one round trip at
/// the given entry and exit, floored to the contract precision;
/// nothing when the gross risk is not positive or the result leaves
/// the quantity range.
pub open spec fn spec_mpr_quantity(
    capital_cents: int,
    entry_price_e5: int,
    exit_price_e5: int,
    mpr_e5: int,
    full_commission_cents: int,
    pv_e5: int,
    precision: nat,
) -> Option<i64> {
    let diff = if exit_price_e5 >= entry_price_e5 {
        exit_price_e5 - entry_price_e5
    } else {
        entry_price_e5 - exit_price_e5
    };
    let risk_net = round_div(diff * pv_e5, 100_000_000);
    let risk_gross = risk_net + full_commission_cents;
    let max_risk = round_div(capital_cents * mpr_e5, 10_000_000);
    if risk_gross <= 0 || max_risk < 0 {
        None
    } else {
        let tick = pow10((5 - precision) as nat);
        let u = (max_risk * SCALE_E5) / risk_gross;
        let q = (u / tick) * tick;
        if q > QTY_E5_MAX {
            None
        } else {
            Some(q as i64)
        }
    }
}

/// The gross commission of a round trip on this instrument, where the
/// exchange prices one: entry plus exit commission; zero where no rate
/// is recorded; nothing away from the one priced exchange.
pub open spec fn spec_round_trip_commission(
    ins: InstrumentInfo,
    settings: StrategySettings,
    entry_price_e5: int,
    exit_price_e5: int,
) -> Option<int> {
    if ins.exchange@ == "FORTS"@ {
        let plans = settings.commission_plans;
        match plans {
            Some(p) => {
                let entry = match spec_commission(ins, p, entry_price_e5) {
                    Some(c) => c as int,
                    None => 0,
                };
                let exit = match spec_commission(ins, p, exit_price_e5) {
                    Some(c) => c as int,
                    None => 0,
                };
                Some(entry + exit)
            },
            None => Some(0),
        }
    } else {
        None
    }
}

/// Sizes by maximum percent risk; see [`spec_mpr_quantity`].
pub fn mpr(
    capital_cents: i64,
    entry_price_e5: i64,
    exit_price_e5: i64,
    strategy_settings: &StrategySettings,
    strategy_instruments_info_for_symbol: &InstrumentInfo,
) -> (r: Option<i64>)
    requires
        strategy_instruments_info_for_symbol.wf(),
        0 <= capital_cents <= 2 * MONEY_CENTS_MAX,
        -PRICE_E5_MAX <= entry_price_e5 <= PRICE_E5_MAX,
        -PRICE_E5_MAX <= exit_price_e5 <= PRICE_E5_MAX,
        strategy_settings.pos_sizer_params.pos_sizer_value_e5@.len() >= 1,
        0 <= strategy_settings.pos_sizer_params.pos_sizer_value_e5@[0] <= MPR_E5_MAX,
    ensures
        r == match spec_round_trip_commission(
            *strategy_instruments_info_for_symbol,
            *strategy_settings,
            entry_price_e5 as int,
            exit_price_e5 as int,
        ) {
            Some(comm) => spec_mpr_quantity(
                capital_cents as int,
                entry_price_e5 as int,
                exit_price_e5 as int,
                strategy_settings.pos_sizer_params.pos_sizer_value_e5@[0] as int,
                comm,
                strategy_instruments_info_for_symbol.spec_point_value_e5(),
                strategy_instruments_info_for_symbol.contract_precision as nat,
            ),
            None => None::<i64>,
        },
{
    let ins = strategy_instruments_info_for_symbol;
    let forts: String = "FORTS".to_owned();
    if !ins.exchange.eq(&forts) {
        return None;
    }
    let full_commission: i64 = match &strategy_settings.commission_plans {
        Some(plans) => {
            let entry = match calculate_forts_comission(entry_price_e5, ins, plans) {
                Some(c) => c,
                None => 0,
            };
            let exit = match calculate_forts_comission(exit_price_e5, ins, plans) {
                Some(c) => c,
                None => 0,
            };
            entry + exit
        },
        None => 0,
    };
    let mpr_e5 = strategy_settings.pos_sizer_params.pos_sizer_value_e5[0];
    let diff: i64 = if exit_price_e5 >= entry_price_e5 {
        exit_price_e5 - entry_price_e5
    } else {
        entry_price_e5 - exit_price_e5
    };
    let pv = ins.point_value_e5();
    proof {
        lemma_mul_abs_le(diff as int, 2 * PRICE_E5_MAX as int, pv as int, PV_E5_MAX as int);
        lemma_round_div_abs_le(diff as int * pv as int, 100_000_000);
        lemma_mul_abs_le(
            capital_cents as int,
            2 * MONEY_CENTS_MAX as int,
            mpr_e5 as int,
            MPR_E5_MAX as int,
        );
        lemma_round_div_abs_le(capital_cents as int * mpr_e5 as int, 10_000_000);
    }
    let risk_net: i128 = rdiv((diff as i128) * (pv as i128), 100_000_000);
    let risk_gross: i128 = risk_net + (full_commission as i128);
    let max_risk: i128 = rdiv((capital_cents as i128) * (mpr_e5 as i128), 10_000_000);
    if risk_gross <= 0 || max_risk < 0 {
        return None;
    }
    let precision: u32 = ins.contract_precision as u32;
    let tick: i64 = pow10_i64(5 - precision);
    proof {
        lemma_pow10_increases((5 - precision) as nat, 5);
        lemma_pow10_18_value();
        lemma_mul_abs_le(
            max_risk as int,
            2 * MONEY_CENTS_MAX as int * MPR_E5_MAX as int,
            SCALE_E5 as int,
            SCALE_E5 as int,
        );
    }
    let u: u128 = ((max_risk as u128) * (SCALE_E5 as u128)) / (risk_gross as u128);
    proof {
        assert((u as int / (tick as int)) * (tick as int) <= u as int && (u as int / (
        tick as int)) * (tick as int) >= 0) by (nonlinear_arith)
            requires
                u as int >= 0 && tick as int >= 1,
        ;
    }
    let q: u128 = (u / (tick as u128)) * (tick as u128);
    if q > QTY_E5_MAX as u128 {
        return None;
    }
    Some(q as i64)
}

/// The plain sizer: always one contract.
pub fn plain_pos_sizer(
    entry_price_e5: i64,
    strategy_settings: &StrategySettings,
    strategy_instruments_info_for_symbol: &InstrumentInfo,
) -> (r: Option<i64>)
    ensures
        r == Some(SCALE_E5),
{
    let _unused = (entry_price_e5, strategy_settings, strategy_instruments_info_for_symbol);
    Some(SCALE_E5)
}

/// What the configured sizer yields for these inputs.
pub open spec fn spec_pos_sizer(
    capital_cents: Option<i64>,
    entry_price_e5: Option<i64>,
    exit_price_e5: Option<i64>,
    settings: StrategySettings,
    ins: InstrumentInfo,
) -> Option<i64> {
    if settings.pos_sizer_params.pos_sizer_value_e5@.len() != 1 {
        None
    } else if settings.pos_sizer_params.pos_sizer_name@ == "1"@ {
        if entry_price_e5 is Some {
            Some(SCALE_E5)
        } else {
            None
        }
    } else if settings.pos_sizer_params.pos_sizer_name@ == "mpr"@ {
        match (capital_cents, entry_price_e5, exit_price_e5) {
            (Some(capital), Some(entry), Some(exit)) => match spec_round_trip_commission(
                ins,
                settings,
                entry as int,
                exit as int,
            ) {
                Some(comm) => spec_mpr_quantity(
                    capital as int,
                    entry as int,
                    exit as int,
                    settings.pos_sizer_params.pos_sizer_value_e5@[0] as int,
                    comm,
                    ins.spec_point_value_e5(),
                    ins.contract_precision as nat,
                ),
                None => None::<i64>,
            },
            _ => None,
        }
    } else {
        None
    }
}

/// Dispatches to the sizer the settings name; see [`spec_pos_sizer`].
pub fn get_pos_sizer_from_settings(
    capital_cents: Option<i64>,
    entry_price_e5: Option<i64>,
    exit_price_e5: Option<i64>,
    strategy_settings: &StrategySettings,
    strategy_instruments_info_for_symbol: &InstrumentInfo,
) -> (r: Option<i64>)
    requires
        strategy_instruments_info_for_symbol.wf(),
        capital_cents matches Some(c) ==> 0 <= c <= 2 * MONEY_CENTS_MAX,
        entry_price_e5 matches Some(p) ==> -PRICE_E5_MAX <= p <= PRICE_E5_MAX,
        exit_price_e5 matches Some(p) ==> -PRICE_E5_MAX <= p <= PRICE_E5_MAX,
        strategy_settings.pos_sizer_params.pos_sizer_value_e5@.len() == 1
            ==> 0 <= strategy_settings.pos_sizer_params.pos_sizer_value_e5@[0] <= MPR_E5_MAX,
    ensures
        r == spec_pos_sizer(
            capital_cents,
            entry_price_e5,
            exit_price_e5,
            *strategy_settings,
            *strategy_instruments_info_for_symbol,
        ),
{
    if strategy_settings.pos_sizer_params.pos_sizer_value_e5.len() != 1 {
        return None;
    }
    let plain: String = "1".to_owned();
    let mpr_name: String = "mpr".to_owned();
    if strategy_settings.pos_sizer_params.pos_sizer_name.eq(&plain) {
        match entry_price_e5 {
            Some(entry) => plain_pos_sizer(
                entry,
                strategy_settings,
                strategy_instruments_info_for_symbol,
            ),
            None => None,
        }
    } else if strategy_settings.pos_sizer_params.pos_sizer_name.eq(&mpr_name) {
        match (capital_cents, entry_price_e5, exit_price_e5) {
            (Some(capital), Some(entry), Some(exit)) => mpr(
                capital,
                entry,
                exit,
                strategy_settings,
                strategy_instruments_info_for_symbol,
            ),
            _ => None,
        }
    } else {
        None
    }
}

} // verus!
