//! Simulated order execution: turns an ORDER into at most one FILL
//! against the current bar, applying slippage and commission.
//!
//! Pricing: a market buy executes at `(1 + slippage) * high`, a market
//! sell at `(1 - slippage) * low`; a limit buy executes at the limit
//! while `low <= limit`, a limit sell while `high >= limit`; an
//! untouched limit produces no fill.

use vstd::prelude::*;

use crate::commission::{calculate_forts_comission, spec_commission, CommissionPlans};
use crate::data_handler::MarketBar;
use crate::events::{Direction, FillEvent, OrderEvent, OrderType};
use crate::fixed::{
    round_div, rdiv, lemma_round_div_abs_le, lemma_mul_abs_le, MONEY_CENTS_MAX, PRICE_E5_MAX,
    QTY_E5_MAX, SCALE_E5,
};
use crate::instruments::InstrumentInfo;

verus! {

/// Why an order could not be simulated; no fill is produced.
#[derive(Clone, Copy, Debug, PartialEq, Eq, Structural)]
pub enum ExecutionError {
    /// The configured slippage is not a single value.
    SlippageShape,
    /// The slippage magnitude reaches a full `1.0`.
    BadSlippage,
    /// The order quantity is not in `(0, QTY_E5_MAX]`.
    BadQuantity,
    /// A bar or execution price is outside the admissible band.
    BadPrice,
    /// The total commission left the monetary range.
    CommissionOverflow,
}

/// The execution price of an order against one bar, if it fills.
pub open spec fn spec_execution_price(order: OrderEvent, bar: MarketBar, slippage_e5: int) -> Option<
    int,
> {
    match order.order_type {
        OrderType::Market => match order.direction {
            Direction::Buy => Some(round_div(bar.high_e5 * (SCALE_E5 + slippage_e5), SCALE_E5 as int)),
            Direction::Sell => Some(round_div(bar.low_e5 * (SCALE_E5 - slippage_e5), SCALE_E5 as int)),
        },
        OrderType::Limit => {
            let limit = match order.limit_price_e5 {
                Some(l) => l as int,
                None => bar.close_e5 as int,
            };
            match order.direction {
                Direction::Buy => if bar.low_e5 <= limit {
                    Some(limit)
                } else {
                    None
                },
                Direction::Sell => if bar.high_e5 >= limit {
                    Some(limit)
                } else {
                    None
                },
            }
        },
    }
}

/// What simulating an order yields: a fill with its price and total
/// commission, no fill for an untouched limit, or a refusal.
pub open spec fn spec_execute_order(
    order: OrderEvent,
    ins: InstrumentInfo,
    slippage: Seq<i64>,
    plans: Option<CommissionPlans>,
    bar: MarketBar,
    ts: i64,
) -> Result<Option<FillEvent>, ExecutionError> {
    if slippage.len() != 1 {
        Err(ExecutionError::SlippageShape)
    } else if slippage[0] <= -SCALE_E5 || slippage[0] >= SCALE_E5 {
        Err(ExecutionError::BadSlippage)
    } else if order.quantity_e5 <= 0 || order.quantity_e5 > QTY_E5_MAX {
        Err(ExecutionError::BadQuantity)
    } else if bar.high_e5 < -PRICE_E5_MAX || bar.high_e5 > PRICE_E5_MAX || bar.low_e5
        < -PRICE_E5_MAX || bar.low_e5 > PRICE_E5_MAX || bar.close_e5 < -PRICE_E5_MAX
        || bar.close_e5 > PRICE_E5_MAX {
        Err(ExecutionError::BadPrice)
    } else {
        match spec_execution_price(order, bar, slippage[0] as int) {
            None => Ok(None),
            Some(price) => if price < -PRICE_E5_MAX || price > PRICE_E5_MAX {
                Err(ExecutionError::BadPrice)
            } else {
                let per_contract = match plans {
                    Some(p) => match spec_commission(ins, p, price) {
                        Some(c) => c as int,
                        None => 0,
                    },
                    None => 0,
                };
                let total = round_div(per_contract * order.quantity_e5, SCALE_E5 as int);
                if total > MONEY_CENTS_MAX {
                    Err(ExecutionError::CommissionOverflow)
                } else {
                    Ok(
                        Some(
                            FillEvent {
                                ts,
                                symbol: order.symbol,
                                exchange: ins.exchange,
                                quantity_e5: order.quantity_e5,
                                direction: order.direction,
                                execution_price_e5: price as i64,
                                commission_cents: total as i64,
                                signal_name: order.signal_name,
                            },
                        ),
                    )
                }
            },
        }
    }
}

/// The interface order execution is driven through; simulated here,
/// implementable against a live broker by users of the crate.
pub trait ExecutionHandler: Sized {
    /// Executes one order against the current bar.
    fn execute_order(
        &self,
        order: &OrderEvent,
        ins: &InstrumentInfo,
        slippage_e5: &Vec<i64>,
        commission_plans: Option<&CommissionPlans>,
        bar: &MarketBar,
        ts: i64,
    ) -> Result<Option<FillEvent>, ExecutionError>
        requires
            ins.wf(),
    ;
}

/// Simulates broker execution; carries no state of its own.
#[derive(Debug)]
pub struct SimulatedExecutionHandler {
}

impl ExecutionHandler for SimulatedExecutionHandler {
    fn execute_order(
        &self,
        order: &OrderEvent,
        ins: &InstrumentInfo,
        slippage_e5: &Vec<i64>,
        commission_plans: Option<&CommissionPlans>,
        bar: &MarketBar,
        ts: i64,
    ) -> Result<Option<FillEvent>, ExecutionError> {
        SimulatedExecutionHandler::execute_order(self, order, ins, slippage_e5, commission_plans, bar, ts)
    }
}

impl SimulatedExecutionHandler {
    pub fn new() -> (r: Self) {
        SimulatedExecutionHandler {  }
    }

    /// Simulates one order against one bar; see [`spec_execute_order`].
    pub fn execute_order(
        &self,
        order: &OrderEvent,
        ins: &InstrumentInfo,
        slippage_e5: &Vec<i64>,
        commission_plans: Option<&CommissionPlans>,
        bar: &MarketBar,
        ts: i64,
    ) -> (r: Result<Option<FillEvent>, ExecutionError>)
        requires
            ins.wf(),
        ensures
            r == spec_execute_order(
                *order,
                *ins,
                slippage_e5@,
                match commission_plans {
                    Some(p) => Some(*p),
                    None => None,
                },
                *bar,
                ts,
            ),
    {
        if slippage_e5.len() != 1 {
            return Err(ExecutionError::SlippageShape);
        }
        let slip = slippage_e5[0];
        if slip <= -SCALE_E5 || slip >= SCALE_E5 {
            return Err(ExecutionError::BadSlippage);
        }
        if order.quantity_e5 <= 0 || order.quantity_e5 > QTY_E5_MAX {
            return Err(ExecutionError::BadQuantity);
        }
        if bar.high_e5 < -PRICE_E5_MAX || bar.high_e5 > PRICE_E5_MAX || bar.low_e5 < -PRICE_E5_MAX
            || bar.low_e5 > PRICE_E5_MAX || bar.close_e5 < -PRICE_E5_MAX || bar.close_e5
            > PRICE_E5_MAX {
            return Err(ExecutionError::BadPrice);
        }
        let price_opt: Option<i128> = match order.order_type {
            OrderType::Market => {
                proof {
                    lemma_mul_abs_le(
                        bar.high_e5 as int,
                        PRICE_E5_MAX as int,
                        SCALE_E5 + slip as int,
                        2 * SCALE_E5 as int,
                    );
                    lemma_mul_abs_le(
                        bar.low_e5 as int,
                        PRICE_E5_MAX as int,
                        SCALE_E5 - slip as int,
                        2 * SCALE_E5 as int,
                    );
                }
                match order.direction {
                    Direction::Buy => Some(
                        rdiv(
                            (bar.high_e5 as i128) * ((SCALE_E5 as i128) + (slip as i128)),
                            SCALE_E5 as i128,
                        ),
                    ),
                    Direction::Sell => Some(
                        rdiv(
                            (bar.low_e5 as i128) * ((SCALE_E5 as i128) - (slip as i128)),
                            SCALE_E5 as i128,
                        ),
                    ),
                }
            },
            OrderType::Limit => {
                let limit: i64 = match order.limit_price_e5 {
                    Some(l) => l,
                    None => bar.close_e5,
                };
                match order.direction {
                    Direction::Buy => if bar.low_e5 <= limit {
                        Some(limit as i128)
                    } else {
                        None
                    },
                    Direction::Sell => if bar.high_e5 >= limit {
                        Some(limit as i128)
                    } else {
                        None
                    },
                }
            },
        };
        let price: i128 = match price_opt {
            Some(p) => p,
            None => {
                return Ok(None);
            },
        };
        if price < -(PRICE_E5_MAX as i128) || price > PRICE_E5_MAX as i128 {
            return Err(ExecutionError::BadPrice);
        }
        let per_contract: i64 = match commission_plans {
            Some(plans) => match calculate_forts_comission(price as i64, ins, plans) {
                Some(c) => c,
                None => 0,
            },
            None => 0,
        };
        proof {
            lemma_mul_abs_le(
                per_contract as int,
                MONEY_CENTS_MAX as int,
                order.quantity_e5 as int,
                QTY_E5_MAX as int,
            );
            lemma_round_div_abs_le(
                per_contract as int * order.quantity_e5 as int,
                SCALE_E5 as int,
            );
        }
        let total: i128 = rdiv(
            (per_contract as i128) * (order.quantity_e5 as i128),
            SCALE_E5 as i128,
        );
        if total > MONEY_CENTS_MAX as i128 {
            return Err(ExecutionError::CommissionOverflow);
        }
        Ok(
            Some(
                FillEvent {
                    ts,
                    symbol: order.symbol.clone(),
                    exchange: ins.exchange.clone(),
                    quantity_e5: order.quantity_e5,
                    direction: order.direction,
                    execution_price_e5: price as i64,
                    commission_cents: total as i64,
                    signal_name: order.signal_name,
                },
            ),
        )
    }
}

} // verus!
