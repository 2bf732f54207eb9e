//! The event-driven simulation kernel: advance the bar, drain the
//! queue, run the strategy, drain its signals, book the bar close, and
//! stop on exhausted data or negative capital.
//!
//! Events are consumed strictly first-in first-out.  A signal weighs
//! more than the order it can spawn, and an order more than its fill,
//! so the drain provably terminates.

use vstd::prelude::*;

use crate::commission::CommissionPlans;
use crate::data_handler::{spec_bar_field, BarField, DataHandler};
use crate::events::{Event, FillEvent, SignalEvent};
use crate::execution::{spec_execute_order, ExecutionError, SimulatedExecutionHandler};
use crate::performance::{
    dd_scan, spec_apr_ok, spec_days_between, spec_metrics, spec_pct_e9, PerformanceMetrics,
};
use crate::portfolio::{
    margin_exits_from, same_config, spec_fill_holding, spec_fill_position, sum_blocked_from,
    sum_deals_from, sum_pnl_from, HoldingSnapshot, Portfolio, PortfolioError,
};
use crate::risks::spec_market_margin_ok;
use crate::settings::StrategySettings;
use crate::strategy::{Strategy, StrategyError};

verus! {

/// Why a run stopped before its data ran out.
#[derive(Clone, Copy, Debug, PartialEq, Eq, Structural)]
pub enum BacktestError {
    /// The accounting engine refused an update.
    Portfolio(PortfolioError),
    /// The execution simulator refused an order.
    Execution(ExecutionError),
    /// The strategy failed for this candidate.
    Strategy(StrategyError),
    /// An order arrived for a symbol without a current bar.
    MissingBar,
    /// An event named a symbol the portfolio does not trade.
    UnknownSymbol,
}

/// Drain budget of one event: a signal can spawn an order, an order a
/// fill, a fill nothing.
pub open spec fn event_weight(e: Event) -> int {
    match e {
        Event::Market(_) => 1,
        Event::Fill(_) => 1,
        Event::Order(_) => 2,
        Event::Signal(_) => 3,
    }
}

/// Total drain budget of a queue.
pub open spec fn queue_weight(q: Seq<Event>) -> int
    decreases q.len(),
{
    if q.len() == 0 {
        0
    } else {
        event_weight(q[0]) + queue_weight(q.skip(1))
    }
}

/// The drain budget is never negative.
pub proof fn lemma_queue_weight_nonneg(q: Seq<Event>)
    ensures
        queue_weight(q) >= 0,
    decreases q.len(),
{
    if q.len() > 0 {
        lemma_queue_weight_nonneg(q.skip(1));
    }
}

/// Appending one event adds exactly its weight.
pub proof fn lemma_queue_weight_push(q: Seq<Event>, e: Event)
    ensures
        queue_weight(q.push(e)) == queue_weight(q) + event_weight(e),
    decreases q.len(),
{
    if q.len() == 0 {
        assert(q.push(e) =~= seq![e]);
        assert(q.push(e).skip(1) =~= Seq::<Event>::empty());
        assert(queue_weight(Seq::<Event>::empty()) == 0);
        assert(queue_weight(q.push(e)) == event_weight(q.push(e)[0]) + queue_weight(
            q.push(e).skip(1),
        ));
    } else {
        assert(q.push(e).skip(1) =~= q.skip(1).push(e));
        lemma_queue_weight_push(q.skip(1), e);
        assert(queue_weight(q.push(e)) == event_weight(q.push(e)[0]) + queue_weight(
            q.push(e).skip(1),
        ));
    }
}

/// The timestamp a signal is sized at: the symbol's latest bar, or the
/// signal's own stamp while no bar has been reached.
pub open spec fn spec_signal_ts<D: DataHandler>(data: D, sig: SignalEvent) -> i64 {
    match data.spec_latest_bar(sig.symbol@) {
        Some(b) => b.ts,
        None => sig.ts,
    }
}

/// The `(close, previous close)` a fill is booked against: the last two
/// closes of the symbol's trailing window, or zeros while none exists.
pub open spec fn spec_fill_closes<D: DataHandler>(data: D, symbol: Seq<char>) -> (i64, i64) {
    let w = data.spec_latest_bars(symbol, 2);
    if w.len() >= 1 {
        (spec_bar_field(w.last(), BarField::Close), spec_bar_field(w[0], BarField::Close))
    } else {
        (0i64, 0i64)
    }
}

/// The state change one booked fill leaves: the position and holding of
/// the fill's symbol stepped by the booking rules, everything else
/// untouched.
pub open spec fn fill_applied(
    p0: Portfolio,
    p1: Portfolio,
    fill: FillEvent,
    close_e5: i64,
    last_close_e5: i64,
) -> bool {
    &&& same_config(p1, p0)
    &&& p1.all_positions@ == p0.all_positions@
    &&& p1.all_holdings@ == p0.all_holdings@
    &&& p1.equity_series@ == p0.equity_series@
    &&& p1.performance_manager == p0.performance_manager
    &&& match p0.spec_sym_index(fill.symbol@) {
        Some(idx) => {
            &&& match spec_fill_position(
                p0.current_positions@[idx],
                fill,
                p0.spec_latest_cash(),
            ) {
                Ok(p2) => p1.current_positions@ == p0.current_positions@.update(idx, p2),
                Err(_) => false,
            }
            &&& match spec_fill_holding(
                p0.current_holdings@[idx],
                p0.instruments@[idx],
                fill,
                close_e5 as int,
                last_close_e5 as int,
            ) {
                Ok(h2) => p1.current_holdings@ == p0.current_holdings@.update(idx, h2),
                Err(_) => false,
            }
        },
        None => false,
    }
}

/// A successful drain of the queue: the portfolio stepped, first-in
/// first-out, by the dispatch of each event - a signal sized through
/// the order decision, an order simulated against the bar read, both
/// appending what they spawn, and a fill booked.  False wherever a step
/// would be refused.
pub open spec fn drain_ok<D: DataHandler>(
    p0: Portfolio,
    p1: Portfolio,
    data: D,
    slippage: Seq<i64>,
    plans: Option<CommissionPlans>,
    q: Seq<Event>,
) -> bool
    decreases queue_weight(q)
        via drain_ok_decreases::<D>
{
    if q.len() == 0 {
        p1 == p0
    } else {
        let rest = q.skip(1);
        match q[0] {
            Event::Market(_) => drain_ok(p0, p1, data, slippage, plans, rest),
            Event::Signal(sig) => match p0.spec_order_decision(sig, spec_signal_ts(data, sig)) {
                Ok(Some(order)) => drain_ok(
                    p0,
                    p1,
                    data,
                    slippage,
                    plans,
                    rest.push(Event::Order(order)),
                ),
                Ok(None) => drain_ok(p0, p1, data, slippage, plans, rest),
                Err(_) => false,
            },
            Event::Order(order) => match p0.spec_sym_index(order.symbol@) {
                Some(idx) => match data.spec_latest_bar(order.symbol@) {
                    Some(bar) => match spec_execute_order(
                        order,
                        p0.instruments@[idx],
                        slippage,
                        plans,
                        bar,
                        bar.ts,
                    ) {
                        Ok(Some(fill)) => drain_ok(
                            p0,
                            p1,
                            data,
                            slippage,
                            plans,
                            rest.push(Event::Fill(fill)),
                        ),
                        Ok(None) => drain_ok(p0, p1, data, slippage, plans, rest),
                        Err(_) => false,
                    },
                    None => false,
                },
                None => false,
            },
            Event::Fill(fill) => {
                let closes = spec_fill_closes(data, fill.symbol@);
                exists|pm: Portfolio|
                    #[trigger] fill_applied(p0, pm, fill, closes.0, closes.1) && drain_ok(
                        pm,
                        p1,
                        data,
                        slippage,
                        plans,
                        rest,
                    )
            },
        }
    }
}

/// A drain that runs into a refusal: some event, reached first-in
/// first-out, is refused by the sizing, the simulation or the booking
/// rules, names an unknown symbol, or is an order without a current
/// bar.
pub open spec fn drain_refused<D: DataHandler>(
    p0: Portfolio,
    data: D,
    slippage: Seq<i64>,
    plans: Option<CommissionPlans>,
    q: Seq<Event>,
) -> bool
    decreases queue_weight(q)
        via drain_refused_decreases::<D>
{
    if q.len() == 0 {
        false
    } else {
        let rest = q.skip(1);
        match q[0] {
            Event::Market(_) => drain_refused(p0, data, slippage, plans, rest),
            Event::Signal(sig) => match p0.spec_order_decision(sig, spec_signal_ts(data, sig)) {
                Ok(Some(order)) => drain_refused(
                    p0,
                    data,
                    slippage,
                    plans,
                    rest.push(Event::Order(order)),
                ),
                Ok(None) => drain_refused(p0, data, slippage, plans, rest),
                Err(_) => true,
            },
            Event::Order(order) => match p0.spec_sym_index(order.symbol@) {
                Some(idx) => match data.spec_latest_bar(order.symbol@) {
                    Some(bar) => match spec_execute_order(
                        order,
                        p0.instruments@[idx],
                        slippage,
                        plans,
                        bar,
                        bar.ts,
                    ) {
                        Ok(Some(fill)) => drain_refused(
                            p0,
                            data,
                            slippage,
                            plans,
                            rest.push(Event::Fill(fill)),
                        ),
                        Ok(None) => drain_refused(p0, data, slippage, plans, rest),
                        Err(_) => true,
                    },
                    None => true,
                },
                None => true,
            },
            Event::Fill(fill) => {
                let closes = spec_fill_closes(data, fill.symbol@);
                match p0.spec_sym_index(fill.symbol@) {
                    Some(idx) => match spec_fill_position(
                        p0.current_positions@[idx],
                        fill,
                        p0.spec_latest_cash(),
                    ) {
                        Ok(_) => match spec_fill_holding(
                            p0.current_holdings@[idx],
                            p0.instruments@[idx],
                            fill,
                            closes.0 as int,
                            closes.1 as int,
                        ) {
                            Ok(_) => exists|pm: Portfolio|
                                #[trigger] fill_applied(p0, pm, fill, closes.0, closes.1)
                                    && drain_refused(pm, data, slippage, plans, rest),
                            Err(_) => true,
                        },
                        Err(_) => true,
                    },
                    None => true,
                }
            },
        }
    }
}

/// Every recursive step of the refusal scan strictly shrinks its
/// budget.
#[via_fn]
proof fn drain_refused_decreases<D: DataHandler>(
    p0: Portfolio,
    data: D,
    slippage: Seq<i64>,
    plans: Option<CommissionPlans>,
    q: Seq<Event>,
)
{
    if q.len() > 0 {
        let rest = q.skip(1);
        lemma_queue_weight_nonneg(rest);
        match q[0] {
            Event::Market(_) => {},
            Event::Signal(sig) => {
                match p0.spec_order_decision(sig, spec_signal_ts(data, sig)) {
                    Ok(Some(order)) => {
                        lemma_queue_weight_push(rest, Event::Order(order));
                    },
                    _ => {},
                }
            },
            Event::Order(order) => {
                match p0.spec_sym_index(order.symbol@) {
                    Some(idx) => {
                        match data.spec_latest_bar(order.symbol@) {
                            Some(bar) => {
                                match spec_execute_order(
                                    order,
                                    p0.instruments@[idx],
                                    slippage,
                                    plans,
                                    bar,
                                    bar.ts,
                                ) {
                                    Ok(Some(fill)) => {
                                        lemma_queue_weight_push(rest, Event::Fill(fill));
                                    },
                                    _ => {},
                                }
                            },
                            None => {},
                        }
                    },
                    None => {},
                }
            },
            Event::Fill(_) => {},
        }
    }
}

/// Every recursive step of the drain strictly shrinks its budget.
#[via_fn]
proof fn drain_ok_decreases<D: DataHandler>(
    p0: Portfolio,
    p1: Portfolio,
    data: D,
    slippage: Seq<i64>,
    plans: Option<CommissionPlans>,
    q: Seq<Event>,
)
{
    if q.len() > 0 {
        let rest = q.skip(1);
        lemma_queue_weight_nonneg(rest);
        match q[0] {
            Event::Market(_) => {},
            Event::Signal(sig) => {
                match p0.spec_order_decision(sig, spec_signal_ts(data, sig)) {
                    Ok(Some(order)) => {
                        lemma_queue_weight_push(rest, Event::Order(order));
                    },
                    _ => {},
                }
            },
            Event::Order(order) => {
                match p0.spec_sym_index(order.symbol@) {
                    Some(idx) => {
                        match data.spec_latest_bar(order.symbol@) {
                            Some(bar) => {
                                match spec_execute_order(
                                    order,
                                    p0.instruments@[idx],
                                    slippage,
                                    plans,
                                    bar,
                                    bar.ts,
                                ) {
                                    Ok(Some(fill)) => {
                                        lemma_queue_weight_push(rest, Event::Fill(fill));
                                    },
                                    _ => {},
                                }
                            },
                            None => {},
                        }
                    },
                    None => {},
                }
            },
            Event::Fill(_) => {},
        }
    }
}

/// A drain only books fills: the snapshots, the equity series and the
/// metrics engine are untouched, and the configuration is preserved.
pub proof fn lemma_drain_frame<D: DataHandler>(
    p0: Portfolio,
    p1: Portfolio,
    data: D,
    slippage: Seq<i64>,
    plans: Option<CommissionPlans>,
    q: Seq<Event>,
)
    requires
        drain_ok(p0, p1, data, slippage, plans, q),
    ensures
        same_config(p1, p0),
        p1.all_positions@ == p0.all_positions@,
        p1.all_holdings@ == p0.all_holdings@,
        p1.equity_series@ == p0.equity_series@,
        p1.performance_manager == p0.performance_manager,
    decreases queue_weight(q),
{
    lemma_queue_weight_nonneg(q);
    if q.len() > 0 {
        let rest = q.skip(1);
        lemma_queue_weight_nonneg(rest);
        match q[0] {
            Event::Market(_) => {
                lemma_drain_frame(p0, p1, data, slippage, plans, rest);
            },
            Event::Signal(sig) => {
                match p0.spec_order_decision(sig, spec_signal_ts(data, sig)) {
                    Ok(Some(order)) => {
                        lemma_queue_weight_push(rest, Event::Order(order));
                        lemma_drain_frame(
                            p0,
                            p1,
                            data,
                            slippage,
                            plans,
                            rest.push(Event::Order(order)),
                        );
                    },
                    Ok(None) => {
                        lemma_drain_frame(p0, p1, data, slippage, plans, rest);
                    },
                    Err(_) => {},
                }
            },
            Event::Order(order) => {
                match p0.spec_sym_index(order.symbol@) {
                    Some(idx) => {
                        match data.spec_latest_bar(order.symbol@) {
                            Some(bar) => {
                                match spec_execute_order(
                                    order,
                                    p0.instruments@[idx],
                                    slippage,
                                    plans,
                                    bar,
                                    bar.ts,
                                ) {
                                    Ok(Some(fill)) => {
                                        lemma_queue_weight_push(rest, Event::Fill(fill));
                                        lemma_drain_frame(
                                            p0,
                                            p1,
                                            data,
                                            slippage,
                                            plans,
                                            rest.push(Event::Fill(fill)),
                                        );
                                    },
                                    Ok(None) => {
                                        lemma_drain_frame(p0, p1, data, slippage, plans, rest);
                                    },
                                    Err(_) => {},
                                }
                            },
                            None => {},
                        }
                    },
                    None => {},
                }
            },
            Event::Fill(fill) => {
                let closes = spec_fill_closes(data, fill.symbol@);
                let pm = choose|pm: Portfolio|
                    #[trigger] fill_applied(p0, pm, fill, closes.0, closes.1) && drain_ok(
                        pm,
                        p1,
                        data,
                        slippage,
                        plans,
                        rest,
                    );
                lemma_drain_frame(pm, p1, data, slippage, plans, rest);
            },
        }
    }
}

/// A list of signals wrapped as the events the queue carries.
pub open spec fn signals_as_events(sigs: Seq<SignalEvent>) -> Seq<Event> {
    Seq::new(sigs.len(), |i: int| Event::Signal(sigs[i]))
}

/// The `(close, previous close)` marks the bar close is booked
/// against, one per symbol in the configured order.
pub open spec fn spec_marks<D: DataHandler>(data: D, symbols: Seq<String>) -> Seq<(i64, i64)> {
    Seq::new(symbols.len(), |i: int| spec_fill_closes(data, symbols[i]@))
}

/// Timestamp a bar close is booked under: the lead symbol's latest
/// bar, or zero while none has been reached.
pub open spec fn spec_bar_ts<D: DataHandler>(data: D, symbols: Seq<String>) -> i64 {
    match data.spec_latest_bar(symbols[0]@) {
        Some(b) => b.ts,
        None => 0,
    }
}

/// The state change the bar-close booking leaves: the accounting step
/// of [`Portfolio::update_timeindex`] on marks it accepts - holdings
/// remarked, the bar's profit folded into capital, exactly one equity
/// entry appended, the snapshots extended under their two-entry cap,
/// and the margin check's synthetic exits.
pub open spec fn timeindex_applied(
    p0: Portfolio,
    p1: Portfolio,
    ts: i64,
    marks: Seq<(i64, i64)>,
    exits: Seq<SignalEvent>,
) -> bool {
    let newh = p0.spec_marked_holdings(marks);
    let pnlsum = sum_pnl_from(newh, 0);
    let blockedsum = sum_blocked_from(newh, 0);
    let capital = p0.spec_latest_capital() + pnlsum;
    let cash = capital - blockedsum;
    &&& p0.spec_timeindex_ok(marks)
    &&& same_config(p1, p0)
    &&& p1.current_positions@ == p0.current_positions@
    &&& p1.current_holdings@ == newh
    &&& p1.all_positions@.len() == if p0.all_positions@.len() < 2 {
        p0.all_positions@.len() as int + 1
    } else {
        p0.all_positions@.len() as int
    }
    &&& p1.all_positions@.last().ts == ts
    &&& p1.all_positions@.last().positions@ == p0.current_positions@
    &&& p1.all_holdings@.len() == if p0.all_holdings@.len() < 2 {
        p0.all_holdings@.len() as int + 1
    } else {
        p0.all_holdings@.len() as int
    }
    &&& p1.all_holdings@.last().ts == ts
    &&& p1.all_holdings@.last().capital_cents == capital
    &&& p1.all_holdings@.last().cash_cents == cash
    &&& p1.all_holdings@.last().blocked_cents == blockedsum
    &&& p1.equity_series@ == p0.equity_series@.push((ts, capital as i64))
    &&& if spec_market_margin_ok(
        capital,
        cash,
        p0.current_positions@,
        p0.instruments@,
        p0.min_margin_e5 as int,
    ) {
        exits == Seq::<SignalEvent>::empty()
    } else {
        exits == margin_exits_from(p0.symbols@, p0.current_positions@, ts, 0)
    }
}

/// One complete bar of the simulation, from the state `(p0, q0)` the
/// bar starts in to the state `(p1, q1)` it leaves, with `d` the data
/// as read on that bar: the pending queue drained, the strategy's
/// signals (uncontracted here) drained in turn, and the bar close
/// booked, the margin exits forming the next bar's queue.  A strategy
/// refusal ends the bar after the first drain with nothing queued.
pub open spec fn bar_step<D: DataHandler>(
    p0: Portfolio,
    q0: Seq<Event>,
    d: D,
    p1: Portfolio,
    q1: Seq<Event>,
    slippage: Seq<i64>,
    plans: Option<CommissionPlans>,
) -> bool {
    ||| exists|p_mid: Portfolio|
        #[trigger] drain_ok(p0, p_mid, d, slippage, plans, q0) && (exists|
            p_mid2: Portfolio,
            sigs: Seq<SignalEvent>,
        |
            #[trigger] drain_ok(p_mid, p_mid2, d, slippage, plans, signals_as_events(sigs)) && (
            exists|exits: Seq<SignalEvent>|
                #[trigger] timeindex_applied(
                    p_mid2,
                    p1,
                    spec_bar_ts(d, p0.symbols@),
                    spec_marks(d, p0.symbols@),
                    exits,
                ) && q1 == signals_as_events(exits)))
    ||| exists|p_mid: Portfolio|
        #[trigger] drain_ok(p0, p_mid, d, slippage, plans, q0) && p1 == p_mid && q1
            == Seq::<Event>::empty()
}

/// A bar on which the run is refused: the pending drain, the drain of
/// the strategy's signals, or the bar-close booking refuses, each
/// reached through the successful steps before it.
pub open spec fn bar_refused<D: DataHandler>(
    p0: Portfolio,
    q0: Seq<Event>,
    d: D,
    p1: Portfolio,
    slippage: Seq<i64>,
    plans: Option<CommissionPlans>,
) -> bool {
    ||| drain_refused(p0, d, slippage, plans, q0)
    ||| exists|p_mid: Portfolio, sigs: Seq<SignalEvent>|
        drain_ok(p0, p_mid, d, slippage, plans, q0) && #[trigger] drain_refused(
            p_mid,
            d,
            slippage,
            plans,
            signals_as_events(sigs),
        )
    ||| exists|p_mid: Portfolio|
        #[trigger] drain_ok(p0, p_mid, d, slippage, plans, q0) && (exists|
            p_mid2: Portfolio,
            sigs: Seq<SignalEvent>,
        |
            #[trigger] drain_ok(p_mid, p_mid2, d, slippage, plans, signals_as_events(sigs)) && p1
                == p_mid2 && !p_mid2.spec_timeindex_ok(spec_marks(d, p0.symbols@)))
}

/// A per-bar trace of the simulation: entry `i` holds the portfolio,
/// the data as read, and the queue left for the next bar, and each
/// entry follows from the one before it by [`bar_step`].  Each full
/// bar books exactly one equity entry, so a trace ties the bars
/// advanced to the equity entries booked.
#[verifier::opaque]
pub open spec fn run_trace<D: DataHandler>(
    p_init: Portfolio,
    q_init: Seq<Event>,
    steps: Seq<(Portfolio, D, Seq<Event>)>,
    slippage: Seq<i64>,
    plans: Option<CommissionPlans>,
) -> bool {
    forall|i: int|
        0 <= i < steps.len() ==> bar_step(
            if i == 0 {
                p_init
            } else {
                steps[i - 1].0
            },
            if i == 0 {
                q_init
            } else {
                steps[i - 1].2
            },
            (#[trigger] steps[i]).1,
            steps[i].0,
            steps[i].2,
            slippage,
            plans,
        )
}

/// A completed run: a per-bar trace from the initial state whose last
/// entry is the final state (the initial state itself for a run with
/// no bars).
pub open spec fn run_complete<D: DataHandler>(
    p_init: Portfolio,
    q_init: Seq<Event>,
    steps: Seq<(Portfolio, D, Seq<Event>)>,
    p_fin: Portfolio,
    q_fin: Seq<Event>,
    slippage: Seq<i64>,
    plans: Option<CommissionPlans>,
) -> bool {
    &&& run_trace(p_init, q_init, steps, slippage, plans)
    &&& if steps.len() == 0 {
        p_fin == p_init && q_fin == q_init
    } else {
        p_fin == steps.last().0 && q_fin == steps.last().2
    }
}

/// A refused run: a per-bar trace of the complete bars, then one bar
/// refused from the state the trace left.
pub open spec fn run_refused<D: DataHandler>(
    p_init: Portfolio,
    q_init: Seq<Event>,
    steps: Seq<(Portfolio, D, Seq<Event>)>,
    d: D,
    p_fin: Portfolio,
    slippage: Seq<i64>,
    plans: Option<CommissionPlans>,
) -> bool {
    &&& run_trace(p_init, q_init, steps, slippage, plans)
    &&& bar_refused(
        if steps.len() == 0 {
            p_init
        } else {
            steps.last().0
        },
        if steps.len() == 0 {
            q_init
        } else {
            steps.last().2
        },
        d,
        p_fin,
        slippage,
        plans,
    )
}

/// One full simulation of one parameter set.
#[derive(Debug)]
pub struct Backtest<D: DataHandler, S: Strategy<D>> {
    /// The candidate's settings: slippage and commission plans in
    /// particular.
    pub settings: StrategySettings,
    /// The bar cursor.
    pub data_handler: D,
    /// The trading logic.
    pub strategy: S,
    /// The accounting engine.
    pub portfolio: Portfolio,
    /// The broker simulator.
    pub execution_handler: SimulatedExecutionHandler,
    /// Pending events, consumed first-in first-out.
    pub queue: Vec<Event>,
}

impl<D: DataHandler, S: Strategy<D>> Backtest<D, S> {
    /// Wires the components of one run together with an empty queue.
    pub fn new(
        settings: StrategySettings,
        data_handler: D,
        strategy: S,
        portfolio: Portfolio,
        execution_handler: SimulatedExecutionHandler,
    ) -> (r: Self)
        ensures
            r.settings == settings,
            r.data_handler == data_handler,
            r.strategy == strategy,
            r.portfolio == portfolio,
            r.execution_handler == execution_handler,
            r.queue@.len() == 0,
    {
        Backtest { settings, data_handler, strategy, portfolio, execution_handler, queue: Vec::new() }
    }

    /// Consumes the queue in order: a signal is sized into an order, an
    /// order simulated into a fill, a fill booked.  Stops at the first
    /// refusal.
    /// Consumes the queue in order: a signal is sized into an order, an
    /// order simulated into a fill, a fill booked, each spawned event
    /// appended.  On success the final portfolio is exactly the fold of
    /// that dispatch over the drained events ([`drain_ok`]); the drain
    /// stops at the first refusal of the sizing, simulation or booking
    /// rules, or at an order whose symbol has no current bar.
    fn process_pending_events(&mut self) -> (r: Result<(), BacktestError>)
        requires
            old(self).portfolio.wf(),
        ensures
            final(self).portfolio.wf(),
            same_config(final(self).portfolio, old(self).portfolio),
            r is Ok ==> final(self).queue@.len() == 0,
            final(self).data_handler == old(self).data_handler,
            final(self).settings == old(self).settings,
            final(self).strategy == old(self).strategy,
            r is Ok ==> drain_ok(
                old(self).portfolio,
                final(self).portfolio,
                old(self).data_handler,
                old(self).settings.slippage_e5@,
                old(self).settings.commission_plans,
                old(self).queue@,
            ),
            r is Err ==> drain_refused(
                old(self).portfolio,
                old(self).data_handler,
                old(self).settings.slippage_e5@,
                old(self).settings.commission_plans,
                old(self).queue@,
            ),
    {
        while self.queue.len() > 0
            invariant
                self.portfolio.wf(),
                same_config(self.portfolio, old(self).portfolio),
                self.data_handler == old(self).data_handler,
                self.settings == old(self).settings,
                self.strategy == old(self).strategy,
                drain_refused(
                    self.portfolio,
                    old(self).data_handler,
                    old(self).settings.slippage_e5@,
                    old(self).settings.commission_plans,
                    self.queue@,
                ) ==> drain_refused(
                    old(self).portfolio,
                    old(self).data_handler,
                    old(self).settings.slippage_e5@,
                    old(self).settings.commission_plans,
                    old(self).queue@,
                ),
                forall|pf: Portfolio|
                    #[trigger] drain_ok(
                        self.portfolio,
                        pf,
                        old(self).data_handler,
                        old(self).settings.slippage_e5@,
                        old(self).settings.commission_plans,
                        self.queue@,
                    ) ==> drain_ok(
                        old(self).portfolio,
                        pf,
                        old(self).data_handler,
                        old(self).settings.slippage_e5@,
                        old(self).settings.commission_plans,
                        old(self).queue@,
                    ),
            decreases queue_weight(self.queue@),
        {
            let ghost q0 = self.queue@;
            let ghost p_before = self.portfolio;
            proof {
                lemma_queue_weight_nonneg(q0.skip(1));
            }
            let ev = self.queue.remove(0);
            proof {
                assert(self.queue@ =~= q0.skip(1));
            }
            match ev {
                Event::Market(_) => {
                    proof {
                        assert(drain_refused(
                            self.portfolio,
                            old(self).data_handler,
                            old(self).settings.slippage_e5@,
                            old(self).settings.commission_plans,
                            self.queue@,
                        ) ==> drain_refused(
                            p_before,
                            old(self).data_handler,
                            old(self).settings.slippage_e5@,
                            old(self).settings.commission_plans,
                            q0,
                        ));
                        assert forall|pf: Portfolio|
                            #[trigger] drain_ok(
                                self.portfolio,
                                pf,
                                old(self).data_handler,
                                old(self).settings.slippage_e5@,
                                old(self).settings.commission_plans,
                                self.queue@,
                            ) implies drain_ok(
                            p_before,
                            pf,
                            old(self).data_handler,
                            old(self).settings.slippage_e5@,
                            old(self).settings.commission_plans,
                            q0,
                        ) by {}
                    }
                },
                Event::Signal(sig) => {
                    let ts: i64 = match self.data_handler.get_latest_bar_datetime(
                        sig.symbol.as_str(),
                    ) {
                        Some(t) => t,
                        None => sig.ts,
                    };
                    proof {
                        assert(ts == spec_signal_ts(old(self).data_handler, sig));
                    }
                    match self.portfolio.update_signal(&sig, ts) {
                        Ok(Some(order)) => {
                            proof {
                                lemma_queue_weight_push(self.queue@, Event::Order(order));
                            }
                            self.queue.push(Event::Order(order));
                            proof {
                                assert(self.queue@ =~= q0.skip(1).push(Event::Order(order)));
                                assert(drain_refused(
                                    self.portfolio,
                                    old(self).data_handler,
                                    old(self).settings.slippage_e5@,
                                    old(self).settings.commission_plans,
                                    self.queue@,
                                ) ==> drain_refused(
                                    p_before,
                                    old(self).data_handler,
                                    old(self).settings.slippage_e5@,
                                    old(self).settings.commission_plans,
                                    q0,
                                ));
                                assert forall|pf: Portfolio|
                                    #[trigger] drain_ok(
                                        self.portfolio,
                                        pf,
                                        old(self).data_handler,
                                        old(self).settings.slippage_e5@,
                                        old(self).settings.commission_plans,
                                        self.queue@,
                                    ) implies drain_ok(
                                    p_before,
                                    pf,
                                    old(self).data_handler,
                                    old(self).settings.slippage_e5@,
                                    old(self).settings.commission_plans,
                                    q0,
                                ) by {}
                            }
                        },
                        Ok(None) => {
                            proof {
                                assert(drain_refused(
                                    self.portfolio,
                                    old(self).data_handler,
                                    old(self).settings.slippage_e5@,
                                    old(self).settings.commission_plans,
                                    self.queue@,
                                ) ==> drain_refused(
                                    p_before,
                                    old(self).data_handler,
                                    old(self).settings.slippage_e5@,
                                    old(self).settings.commission_plans,
                                    q0,
                                ));
                                assert forall|pf: Portfolio|
                                    #[trigger] drain_ok(
                                        self.portfolio,
                                        pf,
                                        old(self).data_handler,
                                        old(self).settings.slippage_e5@,
                                        old(self).settings.commission_plans,
                                        self.queue@,
                                    ) implies drain_ok(
                                    p_before,
                                    pf,
                                    old(self).data_handler,
                                    old(self).settings.slippage_e5@,
                                    old(self).settings.commission_plans,
                                    q0,
                                ) by {}
                            }
                        },
                        Err(e) => {
                            proof {
                                assert(drain_refused(
                                    p_before,
                                    old(self).data_handler,
                                    old(self).settings.slippage_e5@,
                                    old(self).settings.commission_plans,
                                    q0,
                                ));
                            }
                            return Err(BacktestError::Portfolio(e));
                        },
                    }
                },
                Event::Order(order) => {
                    let idx = match self.portfolio.find_symbol(order.symbol.as_str()) {
                        Some(i) => i,
                        None => {
                            proof {
                                assert(drain_refused(
                                    p_before,
                                    old(self).data_handler,
                                    old(self).settings.slippage_e5@,
                                    old(self).settings.commission_plans,
                                    q0,
                                ));
                            }
                            return Err(BacktestError::UnknownSymbol);
                        },
                    };
                    let bar = match self.data_handler.get_latest_bar(order.symbol.as_str()) {
                        Some(b) => b,
                        None => {
                            proof {
                                assert(drain_refused(
                                    p_before,
                                    old(self).data_handler,
                                    old(self).settings.slippage_e5@,
                                    old(self).settings.commission_plans,
                                    q0,
                                ));
                            }
                            return Err(BacktestError::MissingBar);
                        },
                    };
                    let plans = match &self.settings.commission_plans {
                        Some(p) => Some(p),
                        None => None,
                    };
                    match self.execution_handler.execute_order(
                        &order,
                        &self.portfolio.instruments[idx],
                        &self.settings.slippage_e5,
                        plans,
                        &bar,
                        bar.ts,
                    ) {
                        Ok(Some(fill)) => {
                            proof {
                                lemma_queue_weight_push(self.queue@, Event::Fill(fill));
                            }
                            self.queue.push(Event::Fill(fill));
                            proof {
                                assert(self.queue@ =~= q0.skip(1).push(Event::Fill(fill)));
                                assert(drain_refused(
                                    self.portfolio,
                                    old(self).data_handler,
                                    old(self).settings.slippage_e5@,
                                    old(self).settings.commission_plans,
                                    self.queue@,
                                ) ==> drain_refused(
                                    p_before,
                                    old(self).data_handler,
                                    old(self).settings.slippage_e5@,
                                    old(self).settings.commission_plans,
                                    q0,
                                ));
                                assert forall|pf: Portfolio|
                                    #[trigger] drain_ok(
                                        self.portfolio,
                                        pf,
                                        old(self).data_handler,
                                        old(self).settings.slippage_e5@,
                                        old(self).settings.commission_plans,
                                        self.queue@,
                                    ) implies drain_ok(
                                    p_before,
                                    pf,
                                    old(self).data_handler,
                                    old(self).settings.slippage_e5@,
                                    old(self).settings.commission_plans,
                                    q0,
                                ) by {}
                            }
                        },
                        Ok(None) => {
                            proof {
                                assert(drain_refused(
                                    self.portfolio,
                                    old(self).data_handler,
                                    old(self).settings.slippage_e5@,
                                    old(self).settings.commission_plans,
                                    self.queue@,
                                ) ==> drain_refused(
                                    p_before,
                                    old(self).data_handler,
                                    old(self).settings.slippage_e5@,
                                    old(self).settings.commission_plans,
                                    q0,
                                ));
                                assert forall|pf: Portfolio|
                                    #[trigger] drain_ok(
                                        self.portfolio,
                                        pf,
                                        old(self).data_handler,
                                        old(self).settings.slippage_e5@,
                                        old(self).settings.commission_plans,
                                        self.queue@,
                                    ) implies drain_ok(
                                    p_before,
                                    pf,
                                    old(self).data_handler,
                                    old(self).settings.slippage_e5@,
                                    old(self).settings.commission_plans,
                                    q0,
                                ) by {}
                            }
                        },
                        Err(e) => {
                            proof {
                                assert(drain_refused(
                                    p_before,
                                    old(self).data_handler,
                                    old(self).settings.slippage_e5@,
                                    old(self).settings.commission_plans,
                                    q0,
                                ));
                            }
                            return Err(BacktestError::Execution(e));
                        },
                    }
                },
                Event::Fill(fill) => {
                    let closes = self.data_handler.get_latest_bars_values(
                        fill.symbol.as_str(),
                        BarField::Close,
                        2,
                    );
                    let last_close: i64 = if closes.len() >= 1 {
                        closes[0]
                    } else {
                        0
                    };
                    let close: i64 = if closes.len() >= 1 {
                        closes[closes.len() - 1]
                    } else {
                        0
                    };
                    proof {
                        assert((close, last_close) == spec_fill_closes(
                            old(self).data_handler,
                            fill.symbol@,
                        ));
                    }
                    match self.portfolio.update_fill(&fill, close, last_close) {
                        Ok(()) => {
                            proof {
                                assert(fill_applied(
                                    p_before,
                                    self.portfolio,
                                    fill,
                                    close,
                                    last_close,
                                ));
                                assert(drain_refused(
                                    self.portfolio,
                                    old(self).data_handler,
                                    old(self).settings.slippage_e5@,
                                    old(self).settings.commission_plans,
                                    self.queue@,
                                ) ==> drain_refused(
                                    p_before,
                                    old(self).data_handler,
                                    old(self).settings.slippage_e5@,
                                    old(self).settings.commission_plans,
                                    q0,
                                )) by {
                                    if drain_refused(
                                        self.portfolio,
                                        old(self).data_handler,
                                        old(self).settings.slippage_e5@,
                                        old(self).settings.commission_plans,
                                        self.queue@,
                                    ) {
                                        let f0 = q0[0]->Fill_0;
                                        let cl = spec_fill_closes(
                                            old(self).data_handler,
                                            f0.symbol@,
                                        );
                                        assert(f0 == fill);
                                        assert(fill_applied(
                                            p_before,
                                            self.portfolio,
                                            f0,
                                            cl.0,
                                            cl.1,
                                        ));
                                        assert(drain_refused(
                                            self.portfolio,
                                            old(self).data_handler,
                                            old(self).settings.slippage_e5@,
                                            old(self).settings.commission_plans,
                                            q0.skip(1),
                                        ));
                                    }
                                }
                                assert forall|pf: Portfolio|
                                    #[trigger] drain_ok(
                                        self.portfolio,
                                        pf,
                                        old(self).data_handler,
                                        old(self).settings.slippage_e5@,
                                        old(self).settings.commission_plans,
                                        self.queue@,
                                    ) implies drain_ok(
                                    p_before,
                                    pf,
                                    old(self).data_handler,
                                    old(self).settings.slippage_e5@,
                                    old(self).settings.commission_plans,
                                    q0,
                                ) by {
                                    let f0 = q0[0]->Fill_0;
                                    let cl = spec_fill_closes(old(self).data_handler, f0.symbol@);
                                    assert(f0 == fill);
                                    assert(fill_applied(p_before, self.portfolio, f0, cl.0, cl.1));
                                    assert(drain_ok(
                                        self.portfolio,
                                        pf,
                                        old(self).data_handler,
                                        old(self).settings.slippage_e5@,
                                        old(self).settings.commission_plans,
                                        q0.skip(1),
                                    ));
                                }
                            }
                        },
                        Err(e) => {
                            proof {
                                assert(drain_refused(
                                    p_before,
                                    old(self).data_handler,
                                    old(self).settings.slippage_e5@,
                                    old(self).settings.commission_plans,
                                    q0,
                                ));
                            }
                            return Err(BacktestError::Portfolio(e));
                        },
                    }
                },
            }
        }
        proof {
            assert(drain_ok(
                self.portfolio,
                self.portfolio,
                old(self).data_handler,
                old(self).settings.slippage_e5@,
                old(self).settings.commission_plans,
                self.queue@,
            ));
        }
        Ok(())
    }

    /// The outer loop: per bar, advance, drain leftovers, run the
    /// strategy, drain its signals, book the close, and stop on
    /// negative capital or exhausted data.
    #[verifier::rlimit(100)]
    fn run_backtest(&mut self) -> (r: Result<(), BacktestError>)
        requires
            old(self).portfolio.wf(),
        ensures
            final(self).portfolio.wf(),
            same_config(final(self).portfolio, old(self).portfolio),
            final(self).settings == old(self).settings,
            r is Ok ==> final(self).data_handler.remaining() == 0,
            r is Ok ==> final(self).portfolio.equity_series@.len() >= old(
                self,
            ).portfolio.equity_series@.len(),
            r is Ok ==> exists|steps: Seq<(Portfolio, D, Seq<Event>)>|
                #[trigger] run_complete(
                    old(self).portfolio,
                    old(self).queue@,
                    steps,
                    final(self).portfolio,
                    final(self).queue@,
                    old(self).settings.slippage_e5@,
                    old(self).settings.commission_plans,
                ) && steps.len() <= old(self).data_handler.remaining(),
            r is Err ==> exists|steps: Seq<(Portfolio, D, Seq<Event>)>, d: D|
                #[trigger] run_refused(
                    old(self).portfolio,
                    old(self).queue@,
                    steps,
                    d,
                    final(self).portfolio,
                    old(self).settings.slippage_e5@,
                    old(self).settings.commission_plans,
                ),
    {
        let ghost p_init = self.portfolio;
        let ghost q_init = self.queue@;
        let ghost sl = self.settings.slippage_e5@;
        let ghost plans = self.settings.commission_plans;
        let ghost r_init = self.data_handler.remaining();
        let ghost mut steps: Seq<(Portfolio, D, Seq<Event>)> = Seq::empty();
        proof {
            reveal(run_trace);
            assert(run_trace(p_init, q_init, steps, sl, plans));
        }
        let mut go = self.data_handler.get_continue_backtest();
        while go
            invariant
                self.portfolio.wf(),
                same_config(self.portfolio, old(self).portfolio),
                go == (self.data_handler.remaining() > 0),
                self.portfolio.equity_series@.len() >= old(self).portfolio.equity_series@.len(),
                self.settings == old(self).settings,
                p_init == old(self).portfolio,
                q_init == old(self).queue@,
                sl == old(self).settings.slippage_e5@,
                plans == old(self).settings.commission_plans,
                r_init == old(self).data_handler.remaining(),
                run_trace(p_init, q_init, steps, sl, plans),
                if steps.len() == 0 {
                    self.portfolio == p_init && self.queue@ == q_init
                } else {
                    self.portfolio == steps.last().0 && self.queue@ == steps.last().2
                },
                steps.len() + self.data_handler.remaining() <= r_init,
            decreases self.data_handler.remaining(),
        {
            let ghost p_bar0 = self.portfolio;
            let ghost q_bar0 = self.queue@;
            let ghost r0 = self.data_handler.remaining();
            self.data_handler.update_bars();
            let ghost d_bar = self.data_handler;
            let ghost p_drain1 = self.portfolio;
            let ghost q_drain1 = self.queue@;
            let ghost d_drain1 = self.data_handler;
            match self.process_pending_events() {
                Ok(()) => {
                    proof {
                        lemma_drain_frame(
                            p_drain1,
                            self.portfolio,
                            d_drain1,
                            self.settings.slippage_e5@,
                            self.settings.commission_plans,
                            q_drain1,
                        );
                    }
                },
                Err(e) => {
                    proof {
                        assert(drain_refused(p_bar0, d_bar, sl, plans, q_bar0));
                        assert(bar_refused(p_bar0, q_bar0, d_bar, self.portfolio, sl, plans));
                        assert(run_refused(
                            old(self).portfolio,
                            old(self).queue@,
                            steps,
                            d_bar,
                            self.portfolio,
                            old(self).settings.slippage_e5@,
                            old(self).settings.commission_plans,
                        ));
                    }
                    return Err(e);
                },
            }
            let ghost p_mid = self.portfolio;
            let ghost mut sigs_v: Seq<SignalEvent> = Seq::empty();
            let ghost mut exs_v: Seq<SignalEvent> = Seq::empty();
            let ghost mut p_mid2 = self.portfolio;
            // The strategy sees the latest snapshot, or the pristine
            // state before the first bar closes.
            let initial = self.portfolio.initial_capital_cents;
            let default_snap = HoldingSnapshot {
                ts: 0,
                capital_cents: initial,
                cash_cents: initial,
                blocked_cents: 0,
                holdings: Vec::new(),
            };
            let nh = self.portfolio.all_holdings.len();
            let latest: &HoldingSnapshot = if nh > 0 {
                &self.portfolio.all_holdings[nh - 1]
            } else {
                &default_snap
            };
            let mut stopped = false;
            match self.strategy.calculate_signals(
                &self.data_handler,
                &self.portfolio.current_positions,
                latest,
                &self.portfolio.symbols,
            ) {
                Ok(signals) => {
                    let mut i: usize = 0;
                    let nsig = signals.len();
                    let sigs = signals;
                    proof {
                        sigs_v = sigs@;
                    }
                    while i < nsig
                        invariant
                            i <= nsig,
                            nsig == sigs@.len(),
                            self.portfolio.wf(),
                            same_config(self.portfolio, old(self).portfolio),
                            self.data_handler.remaining() < r0,
                            self.portfolio.equity_series@.len() >= old(
                                self,
                            ).portfolio.equity_series@.len(),
                            self.portfolio == p_mid,
                            self.data_handler == d_bar,
                            self.settings == old(self).settings,
                            self.queue@.len() == i,
                            forall|k: int|
                                0 <= k < i ==> #[trigger] self.queue@[k] == Event::Signal(
                                    sigs@[k],
                                ),
                        decreases nsig - i,
                    {
                        self.queue.push(Event::Signal(sigs[i].clone()));
                        i = i + 1;
                    }
                    proof {
                        assert(self.queue@ =~= signals_as_events(sigs_v));
                    }
                },
                Err(_) => {
                    self.data_handler.set_continue_backtest(false);
                    stopped = true;
                },
            }
            if !stopped {
                // Same-bar execution: the strategy's signals are sized,
                // simulated and booked against the bar they were made on.
                let ghost p_drain2 = self.portfolio;
                let ghost q_drain2 = self.queue@;
                let ghost d_drain2 = self.data_handler;
                match self.process_pending_events() {
                    Ok(()) => {
                        proof {
                            lemma_drain_frame(
                                p_drain2,
                                self.portfolio,
                                d_drain2,
                                self.settings.slippage_e5@,
                                self.settings.commission_plans,
                                q_drain2,
                            );
                            p_mid2 = self.portfolio;
                            assert(drain_ok(
                                p_mid,
                                p_mid2,
                                d_bar,
                                sl,
                                plans,
                                signals_as_events(sigs_v),
                            ));
                        }
                    },
                    Err(e) => {
                        proof {
                            assert(drain_refused(
                                p_mid,
                                d_bar,
                                sl,
                                plans,
                                signals_as_events(sigs_v),
                            ));
                            assert(drain_ok(p_bar0, p_mid, d_bar, sl, plans, q_bar0));
                            assert(bar_refused(p_bar0, q_bar0, d_bar, self.portfolio, sl, plans));
                            assert(run_refused(
                                old(self).portfolio,
                                old(self).queue@,
                                steps,
                                d_bar,
                                self.portfolio,
                                old(self).settings.slippage_e5@,
                                old(self).settings.commission_plans,
                            ));
                        }
                        return Err(e);
                    },
                }
                // Close marks for every symbol, in the configured order.
                let n = self.portfolio.symbols.len();
                let mut marks: Vec<(i64, i64)> = Vec::new();
                let mut m: usize = 0;
                while m < n
                    invariant
                        m <= n,
                        n == self.portfolio.symbols@.len(),
                        marks@.len() == m,
                        forall|k: int|
                            0 <= k < m ==> #[trigger] marks@[k] == spec_fill_closes(
                                self.data_handler,
                                self.portfolio.symbols@[k]@,
                            ),
                    decreases n - m,
                {
                    let closes = self.data_handler.get_latest_bars_values(
                        self.portfolio.symbols[m].as_str(),
                        BarField::Close,
                        2,
                    );
                    let last_close: i64 = if closes.len() >= 1 {
                        closes[0]
                    } else {
                        0
                    };
                    let close: i64 = if closes.len() >= 1 {
                        closes[closes.len() - 1]
                    } else {
                        0
                    };
                    marks.push((close, last_close));
                    m = m + 1;
                }
                let ts: i64 = match self.data_handler.get_latest_bar_datetime(
                    self.portfolio.symbols[0].as_str(),
                ) {
                    Some(t) => t,
                    None => 0,
                };
                proof {
                    assert(marks@ =~= spec_marks(d_bar, p_bar0.symbols@));
                    assert(ts == spec_bar_ts(d_bar, p_bar0.symbols@));
                }
                match self.portfolio.update_timeindex(ts, &marks) {
                    Ok(exits) => {
                        proof {
                            exs_v = exits@;
                            assert(timeindex_applied(
                                p_mid2,
                                self.portfolio,
                                spec_bar_ts(d_bar, p_bar0.symbols@),
                                spec_marks(d_bar, p_bar0.symbols@),
                                exs_v,
                            ));
                        }
                        let ghost p_bar1 = self.portfolio;
                        let mut e: usize = 0;
                        let nex = exits.len();
                        let exs = exits;
                        while e < nex
                            invariant
                                e <= nex,
                                nex == exs@.len(),
                                self.portfolio.wf(),
                                same_config(self.portfolio, old(self).portfolio),
                                self.data_handler.remaining() < r0,
                                self.portfolio.equity_series@.len() >= old(
                                    self,
                                ).portfolio.equity_series@.len(),
                                self.portfolio == p_bar1,
                                self.data_handler == d_bar,
                                self.settings == old(self).settings,
                                exs@ == exs_v,
                                self.queue@.len() == e,
                                forall|k: int|
                                    0 <= k < e ==> #[trigger] self.queue@[k] == Event::Signal(
                                        exs@[k],
                                    ),
                            decreases nex - e,
                        {
                            self.queue.push(Event::Signal(exs[e].clone()));
                            e = e + 1;
                        }
                        proof {
                            assert(self.queue@ =~= signals_as_events(exs_v));
                        }
                    },
                    Err(err) => {
                        proof {
                            assert(self.portfolio == p_mid2);
                            assert(!p_mid2.spec_timeindex_ok(spec_marks(d_bar, p_bar0.symbols@)));
                            assert(drain_ok(p_bar0, p_mid, d_bar, sl, plans, q_bar0));
                            assert(drain_ok(
                                p_mid,
                                p_mid2,
                                d_bar,
                                sl,
                                plans,
                                signals_as_events(sigs_v),
                            ));
                            assert(bar_refused(p_bar0, q_bar0, d_bar, self.portfolio, sl, plans));
                            assert(run_refused(
                                old(self).portfolio,
                                old(self).queue@,
                                steps,
                                d_bar,
                                self.portfolio,
                                old(self).settings.slippage_e5@,
                                old(self).settings.commission_plans,
                            ));
                        }
                        return Err(BacktestError::Portfolio(err));
                    },
                }
                if self.portfolio.latest_capital_cents() < 0 {
                    self.data_handler.set_continue_backtest(false);
                }
            }
            proof {
                reveal(run_trace);
                if stopped {
                    assert(self.queue@ =~= Seq::<Event>::empty());
                    assert(drain_ok(p_bar0, self.portfolio, d_bar, sl, plans, q_bar0));
                } else {
                    assert(drain_ok(p_bar0, p_mid, d_bar, sl, plans, q_bar0));
                    assert(drain_ok(p_mid, p_mid2, d_bar, sl, plans, signals_as_events(sigs_v)));
                    assert(timeindex_applied(
                        p_mid2,
                        self.portfolio,
                        spec_bar_ts(d_bar, p_bar0.symbols@),
                        spec_marks(d_bar, p_bar0.symbols@),
                        exs_v,
                    ));
                    assert(self.queue@ == signals_as_events(exs_v));
                }
                assert(bar_step(p_bar0, q_bar0, d_bar, self.portfolio, self.queue@, sl, plans));
                let entry = (self.portfolio, d_bar, self.queue@);
                let steps2 = steps.push(entry);
                assert forall|i: int|
                    0 <= i < steps2.len() implies bar_step(
                    if i == 0 {
                        p_init
                    } else {
                        steps2[i - 1].0
                    },
                    if i == 0 {
                        q_init
                    } else {
                        steps2[i - 1].2
                    },
                    (#[trigger] steps2[i]).1,
                    steps2[i].0,
                    steps2[i].2,
                    sl,
                    plans,
                ) by {
                    if i < steps.len() {
                        assert(steps2[i] == steps[i]);
                        if i > 0 {
                            assert(steps2[i - 1] == steps[i - 1]);
                        }
                        assert(bar_step(
                            if i == 0 {
                                p_init
                            } else {
                                steps[i - 1].0
                            },
                            if i == 0 {
                                q_init
                            } else {
                                steps[i - 1].2
                            },
                            steps[i].1,
                            steps[i].0,
                            steps[i].2,
                            sl,
                            plans,
                        ));
                    } else {
                        assert(steps2[i] == entry);
                        if i > 0 {
                            assert(steps2[i - 1] == steps[i - 1]);
                            assert(steps[i - 1] == steps.last());
                        }
                    }
                }
                steps = steps2;
            }
            go = self.data_handler.get_continue_backtest();
        }
        proof {
            assert(run_complete(
                old(self).portfolio,
                old(self).queue@,
                steps,
                self.portfolio,
                self.queue@,
                old(self).settings.slippage_e5@,
                old(self).settings.commission_plans,
            ));
        }
        Ok(())
    }

    /// Runs the whole simulation and reports the final metrics: the
    /// loop above, then the offline metrics pass.  A successful run
    /// consumes all the data, and in offline mode the returned metrics
    /// are the scalar recipe over the final equity series: the drawdown
    /// fold from the series' first element, and the annualized rate
    /// pinned by its compounding characterization.
    #[verifier::rlimit(100)]
    pub fn simulate_trading(&mut self) -> (r: Result<PerformanceMetrics, BacktestError>)
        requires
            old(self).portfolio.wf(),
        ensures
            final(self).portfolio.wf(),
            same_config(final(self).portfolio, old(self).portfolio),
            r matches Ok(m) ==> m == final(self).portfolio.performance_manager.metrics,
            r is Ok ==> final(self).data_handler.remaining() == 0,
            r is Ok ==> exists|steps: Seq<(Portfolio, D, Seq<Event>)>, p_run: Portfolio|
                #[trigger] run_complete(
                    old(self).portfolio,
                    old(self).queue@,
                    steps,
                    p_run,
                    final(self).queue@,
                    old(self).settings.slippage_e5@,
                    old(self).settings.commission_plans,
                ) && steps.len() <= old(self).data_handler.remaining() && same_config(
                    final(self).portfolio,
                    p_run,
                ) && final(self).portfolio.current_positions@ == p_run.current_positions@
                    && final(self).portfolio.current_holdings@ == p_run.current_holdings@
                    && final(self).portfolio.all_positions@ == p_run.all_positions@
                    && final(self).portfolio.all_holdings@ == p_run.all_holdings@
                    && final(self).portfolio.equity_series@ == p_run.equity_series@,
            r is Err ==> exists|steps: Seq<(Portfolio, D, Seq<Event>)>, d: D|
                #[trigger] run_refused(
                    old(self).portfolio,
                    old(self).queue@,
                    steps,
                    d,
                    final(self).portfolio,
                    old(self).settings.slippage_e5@,
                    old(self).settings.commission_plans,
                ),
            (r is Ok && final(self).portfolio.metrics_mode is Offline && final(self).portfolio.all_holdings@.len() > 0 && final(self).portfolio.spec_equity_capitals().len() >= 2) ==> {
                let p = final(self).portfolio;
                let series = p.spec_equity_capitals();
                let pm = p.performance_manager;
                let deals = sum_deals_from(p.current_positions@, 0);
                let deals_clamped = if deals > usize::MAX {
                    usize::MAX as int
                } else {
                    deals
                };
                let days = spec_days_between(
                    p.all_holdings@[0].ts as int,
                    p.all_holdings@.last().ts as int,
                );
                &&& (pm.peak_cents as int, pm.max_drawdown_e9 as int) == dd_scan(
                    series,
                    0,
                    series[0] as int,
                    0,
                )
                &&& spec_apr_ok(
                    spec_pct_e9(p.initial_capital_cents as int, series.last() as int),
                    days,
                    pm.metrics.apr_e9 as int,
                )
                &&& pm.metrics == spec_metrics(
                    p.initial_capital_cents as int,
                    series.last() as int,
                    pm.max_drawdown_e9 as int,
                    days,
                    deals_clamped as usize,
                    pm.metrics.apr_e9 as int,
                )
            },
    {
        match self.run_backtest() {
            Ok(()) => {},
            Err(e) => {
                return Err(e);
            },
        }
        let ghost p_run = self.portfolio;
        let ghost q_run = self.queue@;
        let ghost tr = choose|steps: Seq<(Portfolio, D, Seq<Event>)>|
            #[trigger] run_complete(
                old(self).portfolio,
                old(self).queue@,
                steps,
                p_run,
                q_run,
                old(self).settings.slippage_e5@,
                old(self).settings.commission_plans,
            ) && steps.len() <= old(self).data_handler.remaining();
        self.portfolio.calculate_final_performance();
        proof {
            assert(self.queue@ == q_run);
            assert(run_complete(
                old(self).portfolio,
                old(self).queue@,
                tr,
                p_run,
                self.queue@,
                old(self).settings.slippage_e5@,
                old(self).settings.commission_plans,
            ) && tr.len() <= old(self).data_handler.remaining() && same_config(
                self.portfolio,
                p_run,
            ) && self.portfolio.current_positions@ == p_run.current_positions@
                && self.portfolio.current_holdings@ == p_run.current_holdings@
                && self.portfolio.all_positions@ == p_run.all_positions@
                && self.portfolio.all_holdings@ == p_run.all_holdings@
                && self.portfolio.equity_series@ == p_run.equity_series@);
        }
        Ok(*self.portfolio.output_summary_stats())
    }
}

} // verus!
