//! Margin risk controls: the entry check applied when a signal is sized
//! into an order, and the maintenance check applied once per bar.

use vstd::prelude::*;

use crate::events::{SignalEvent, SignalName};
use crate::fixed::{
    round_div, rdiv, lemma_round_div_abs_le, lemma_mul_le, lemma_mul_abs_le, MONEY_CENTS_MAX,
    QTY_E5_MAX, SCALE_E5,
};
use crate::instruments::{InstrumentInfo, InstrumentType};
use crate::portfolio::{
    spec_margin_block, sum_entry_capital_from, lemma_sum_entry_capital_bound, HoldingSnapshot,
    PositionState, MIN_MARGIN_E5_MAX, SYMBOLS_MAX,
};

verus! {

/// Whether a signal may be sized into an order: a futures entry needs
/// the portfolio's capital strictly above the initial margin of the
/// requested quantity; exits and non-futures pass unconditionally.
pub open spec fn spec_signal_margin_ok(
    quantity_e5: int,
    capital_cents: int,
    signal_name: SignalName,
    ins: InstrumentInfo,
) -> bool {
    if !(signal_name is Exit) && ins.instrument_type == InstrumentType::Futures {
        capital_cents > spec_margin_block(ins.margin_cents as int, quantity_e5)
    } else {
        true
    }
}

/// Entry margin check; see [`spec_signal_margin_ok`].
pub fn margin_call_control_for_signal(
    quantity_e5: i64,
    latest_holdings: &HoldingSnapshot,
    signal_event: &SignalEvent,
    instrument_info: &InstrumentInfo,
) -> (r: bool)
    requires
        instrument_info.wf(),
        0 <= quantity_e5 <= QTY_E5_MAX,
    ensures
        r == spec_signal_margin_ok(
            quantity_e5 as int,
            latest_holdings.capital_cents as int,
            signal_event.signal_name,
            *instrument_info,
        ),
{
    if !matches!(signal_event.signal_name, SignalName::Exit) && matches!(
        instrument_info.instrument_type,
        InstrumentType::Futures,
    ) {
        proof {
            lemma_mul_le(
                instrument_info.margin_cents as int,
                MONEY_CENTS_MAX as int,
                quantity_e5 as int,
                QTY_E5_MAX as int,
            );
            lemma_round_div_abs_le(
                instrument_info.margin_cents as int * quantity_e5 as int,
                SCALE_E5 as int,
            );
        }
        let initial_margin: i128 = rdiv(
            (instrument_info.margin_cents as i128) * (quantity_e5 as i128),
            SCALE_E5 as i128,
        );
        (latest_holdings.capital_cents as i128) > initial_margin
    } else {
        true
    }
}

/// Whether the portfolio may keep its open positions: with negative
/// cash, the capital must reach the maintenance fraction of the entry
/// capital locked in open futures positions.
pub open spec fn spec_market_margin_ok(
    capital_cents: int,
    cash_cents: int,
    positions: Seq<PositionState>,
    instruments: Seq<InstrumentInfo>,
    min_margin_e5: int,
) -> bool {
    if cash_cents >= 0 {
        true
    } else {
        capital_cents >= round_div(
            sum_entry_capital_from(positions, instruments, 0) * min_margin_e5,
            SCALE_E5 as int,
        )
    }
}

/// Maintenance margin check; see [`spec_market_margin_ok`].  Yields
/// `false` exactly when the portfolio must close all positions.
pub fn margin_call_control_for_market(
    latest_holdings: &HoldingSnapshot,
    current_positions: &Vec<PositionState>,
    instruments: &Vec<InstrumentInfo>,
    min_margin_e5: i64,
) -> (r: bool)
    requires
        current_positions@.len() == instruments@.len(),
        current_positions@.len() <= SYMBOLS_MAX,
        0 <= min_margin_e5 <= MIN_MARGIN_E5_MAX,
        forall|i: int|
            0 <= i < current_positions@.len() ==> (#[trigger] current_positions@[i]).bounded(),
    ensures
        r == spec_market_margin_ok(
            latest_holdings.capital_cents as int,
            latest_holdings.cash_cents as int,
            current_positions@,
            instruments@,
            min_margin_e5 as int,
        ),
{
    if latest_holdings.cash_cents >= 0 {
        return true;
    }
    let n = current_positions.len();
    let mut ec: i128 = 0;
    let mut i: usize = 0;
    while i < n
        invariant
            i <= n,
            n == current_positions@.len(),
            n == instruments@.len(),
            n <= SYMBOLS_MAX,
            forall|k: int|
                0 <= k < current_positions@.len() ==> (#[trigger] current_positions@[k]).bounded(),
            ec == sum_entry_capital_from(current_positions@, instruments@, 0)
                - sum_entry_capital_from(current_positions@, instruments@, i as int),
        decreases n - i,
    {
        proof {
            lemma_sum_entry_capital_bound(current_positions@, instruments@, 0);
            lemma_sum_entry_capital_bound(current_positions@, instruments@, i as int);
            lemma_sum_entry_capital_bound(current_positions@, instruments@, i + 1);
        }
        if matches!(instruments[i].instrument_type, InstrumentType::Futures)
            && current_positions[i].position_e5 != 0 {
            ec = ec + (current_positions[i].entry_capital_cents as i128);
        }
        i = i + 1;
    }
    proof {
        lemma_sum_entry_capital_bound(current_positions@, instruments@, 0);
        lemma_mul_abs_le(
            ec as int,
            SYMBOLS_MAX as int * (2 * MONEY_CENTS_MAX),
            min_margin_e5 as int,
            MIN_MARGIN_E5_MAX as int,
        );
        lemma_round_div_abs_le(ec as int * min_margin_e5 as int, SCALE_E5 as int);
    }
    let threshold: i128 = rdiv(ec * (min_margin_e5 as i128), SCALE_E5 as i128);
    (latest_holdings.capital_cents as i128) >= threshold
}

/// With a maintenance fraction of zero, the maintenance check never
/// fails while the capital is not negative.
pub proof fn lemma_zero_min_margin_never_calls(
    capital_cents: int,
    cash_cents: int,
    positions: Seq<PositionState>,
    instruments: Seq<InstrumentInfo>,
)
    requires
        capital_cents >= 0,
    ensures
        spec_market_margin_ok(capital_cents, cash_cents, positions, instruments, 0),
{
    let ec = sum_entry_capital_from(positions, instruments, 0);
    assert(ec * 0 == 0);
    lemma_round_div_abs_le(0, SCALE_E5 as int);
}

} // verus!
