//! Portfolio accounting: per-symbol positions and holdings, the
//! aggregated per-bar snapshot, the equity series and the metrics hook.
//!
//! Per-symbol state is held in vectors aligned with the configured
//! symbol list, so every traversal follows that order and the
//! simulation stays deterministic.

use vstd::prelude::*;

use crate::events::{Direction, FillEvent, OrderEvent, SignalEvent, SignalName};
use crate::fixed::{
    round_div, rdiv, lemma_round_div_abs_le, lemma_mul_abs_le, lemma_mul_le, MONEY_CENTS_MAX,
    PRICE_E5_MAX, PV_E5_MAX, QTY_E5_MAX, SCALE_E5,
};
use crate::instruments::{InstrumentInfo, InstrumentType};
use crate::performance::{
    dd_scan, dd_step, spec_apr_ok, spec_days_between, spec_metrics, spec_pct_e9, spec_return_e9,
    PerformanceManager, PerformanceMetrics,
};
use crate::risks::{margin_call_control_for_market, spec_market_margin_ok, spec_signal_margin_ok};
use crate::settings::MetricsMode;
use crate::utils::{calculate_max_available_quantity, spec_max_available_quantity};

verus! {

/// Most symbols one portfolio may hold; keeps every aggregate within
/// machine range.
pub const SYMBOLS_MAX: usize = 1_000_000;

/// Largest admissible maintenance-margin fraction, scaled by `1e5`.
pub const MIN_MARGIN_E5_MAX: i64 = 10_000_000;

/// Why a portfolio update was refused; the state is left unchanged.
#[derive(Clone, Copy, Debug, PartialEq, Eq, Structural)]
pub enum PortfolioError {
    /// The event names a symbol the portfolio does not trade.
    UnknownSymbol,
    /// A signal arrived without a quantity.
    MissingQuantity,
    /// A quantity is not in `(0, QTY_E5_MAX]`.
    BadQuantity,
    /// A price is outside the admissible band.
    BadPrice,
    /// A commission is negative or beyond the monetary range.
    BadCommission,
    /// Unblocking margin would drive a symbol's blocked amount negative.
    NegativeBlocked,
    /// A monetary amount left the representable range.
    Overflow,
}

/// Position of one symbol.
#[derive(Clone, Copy, Debug, PartialEq, Eq, Structural)]
pub struct PositionState {
    /// Completed entries so far; increments on every non-exit fill.
    pub deal_number: usize,
    /// Signed position size, scaled by `1e5`.
    pub position_e5: i64,
    /// Cash at the moment the position was entered, in cents.
    pub entry_capital_cents: i64,
    /// Entry price, scaled by `1e5`; present exactly while in a position.
    pub entry_price_e5: Option<i64>,
}

impl PositionState {
    /// A flat position with no history.
    pub fn new() -> (r: Self)
        ensures
            r == (PositionState {
                deal_number: 0usize,
                position_e5: 0i64,
                entry_capital_cents: 0i64,
                entry_price_e5: None::<i64>,
            }),
    {
        PositionState { deal_number: 0, position_e5: 0, entry_capital_cents: 0, entry_price_e5: None }
    }

    /// A flat position carries no entry price and no entry capital, and
    /// an open one carries both.
    pub open spec fn flat_iff_no_entry(self) -> bool {
        (self.position_e5 == 0) <==> (self.entry_price_e5 is None && self.entry_capital_cents == 0)
    }

    /// Numeric bounds every update preserves.
    pub open spec fn bounded(self) -> bool {
        &&& -QTY_E5_MAX <= self.position_e5 <= QTY_E5_MAX
        &&& -2 * MONEY_CENTS_MAX <= self.entry_capital_cents <= 2 * MONEY_CENTS_MAX
    }
}

/// Profit-and-loss leg of one symbol.
#[derive(Clone, Copy, Debug, PartialEq, Eq, Structural)]
pub struct HoldingsState {
    /// This bar's profit or loss of the symbol, in cents.
    pub pnl_cents: i64,
    /// Margin blocked by the symbol's open position, in cents.
    pub blocked_cents: i64,
    /// Set by a fill, cleared by the next bar close: the symbol's
    /// unrealized leg must not be remarked this bar.
    pub signal_name: Option<SignalName>,
}

impl HoldingsState {
    /// A holding with nothing booked.
    pub fn new() -> (r: Self)
        ensures
            r == (HoldingsState {
                pnl_cents: 0i64,
                blocked_cents: 0i64,
                signal_name: None::<SignalName>,
            }),
    {
        HoldingsState { pnl_cents: 0, blocked_cents: 0, signal_name: None }
    }

    /// Numeric bounds every update preserves.
    pub open spec fn bounded(self) -> bool {
        &&& -MONEY_CENTS_MAX <= self.pnl_cents <= MONEY_CENTS_MAX
        &&& 0 <= self.blocked_cents <= MONEY_CENTS_MAX
    }
}

/// Positions of every symbol at one bar.
#[derive(Debug)]
pub struct PositionSnapshot {
    pub ts: i64,
    /// One entry per symbol, in the configured order.
    pub positions: Vec<PositionState>,
}

impl PositionSnapshot {
    pub fn new(ts: i64, positions: Vec<PositionState>) -> (r: Self)
        ensures
            r.ts == ts,
            r.positions@ == positions@,
    {
        PositionSnapshot { ts, positions }
    }
}

/// Portfolio-wide accounting state at one bar.
#[derive(Debug)]
pub struct HoldingSnapshot {
    pub ts: i64,
    /// Total capital, in cents.
    pub capital_cents: i64,
    /// Capital not blocked as margin, in cents.
    pub cash_cents: i64,
    /// Total blocked margin, in cents.
    pub blocked_cents: i64,
    /// One entry per symbol, in the configured order.
    pub holdings: Vec<HoldingsState>,
}

impl HoldingSnapshot {
    pub fn new(
        ts: i64,
        capital_cents: i64,
        cash_cents: i64,
        blocked_cents: i64,
        holdings: Vec<HoldingsState>,
    ) -> (r: Self)
        ensures
            r.ts == ts,
            r.capital_cents == capital_cents,
            r.cash_cents == cash_cents,
            r.blocked_cents == blocked_cents,
            r.holdings@ == holdings@,
    {
        HoldingSnapshot { ts, capital_cents, cash_cents, blocked_cents, holdings }
    }
}

/// Sum of per-symbol profit and loss from index `i` on.
pub open spec fn sum_pnl_from(h: Seq<HoldingsState>, i: int) -> int
    decreases h.len() - i,
{
    if i < 0 || i >= h.len() {
        0
    } else {
        h[i].pnl_cents + sum_pnl_from(h, i + 1)
    }
}

/// Sum of per-symbol blocked margin from index `i` on.
pub open spec fn sum_blocked_from(h: Seq<HoldingsState>, i: int) -> int
    decreases h.len() - i,
{
    if i < 0 || i >= h.len() {
        0
    } else {
        h[i].blocked_cents + sum_blocked_from(h, i + 1)
    }
}

/// Sum of per-symbol deal counters from index `i` on.
pub open spec fn sum_deals_from(p: Seq<PositionState>, i: int) -> int
    decreases p.len() - i,
{
    if i < 0 || i >= p.len() {
        0
    } else {
        p[i].deal_number + sum_deals_from(p, i + 1)
    }
}

/// Sum of the entry capital of open futures positions from index `i` on.
pub open spec fn sum_entry_capital_from(
    p: Seq<PositionState>,
    ins: Seq<InstrumentInfo>,
    i: int,
) -> int
    decreases p.len() - i,
{
    if i < 0 || i >= p.len() || i >= ins.len() {
        0
    } else {
        (if ins[i].instrument_type == InstrumentType::Futures && p[i].position_e5 != 0 {
            p[i].entry_capital_cents as int
        } else {
            0
        }) + sum_entry_capital_from(p, ins, i + 1)
    }
}

/// Tail sums of bounded per-element values stay within the element
/// bound times the number of elements left.
pub proof fn lemma_sum_pnl_bound(h: Seq<HoldingsState>, i: int)
    requires
        0 <= i <= h.len(),
        forall|k: int| 0 <= k < h.len() ==> (#[trigger] h[k]).bounded(),
    ensures
        -(h.len() - i) * MONEY_CENTS_MAX <= sum_pnl_from(h, i) <= (h.len() - i) * MONEY_CENTS_MAX,
    decreases h.len() - i,
{
    if i < h.len() {
        lemma_sum_pnl_bound(h, i + 1);
    }
}

/// See [`lemma_sum_pnl_bound`].
pub proof fn lemma_sum_blocked_bound(h: Seq<HoldingsState>, i: int)
    requires
        0 <= i <= h.len(),
        forall|k: int| 0 <= k < h.len() ==> (#[trigger] h[k]).bounded(),
    ensures
        0 <= sum_blocked_from(h, i) <= (h.len() - i) * MONEY_CENTS_MAX,
    decreases h.len() - i,
{
    if i < h.len() {
        lemma_sum_blocked_bound(h, i + 1);
    }
}

/// See [`lemma_sum_pnl_bound`].
pub proof fn lemma_sum_entry_capital_bound(p: Seq<PositionState>, ins: Seq<InstrumentInfo>, i: int)
    requires
        0 <= i <= p.len(),
        forall|k: int| 0 <= k < p.len() ==> (#[trigger] p[k]).bounded(),
    ensures
        -(p.len() - i) * (2 * MONEY_CENTS_MAX) <= sum_entry_capital_from(p, ins, i) <= (p.len()
            - i) * (2 * MONEY_CENTS_MAX),
    decreases p.len() - i,
{
    if i < p.len() {
        lemma_sum_entry_capital_bound(p, ins, i + 1);
    }
}

/// Changing one element of the holdings changes the profit-and-loss sum
/// by exactly the element's change, and likewise for blocked margin.
pub proof fn lemma_sum_pnl_update(h1: Seq<HoldingsState>, h2: Seq<HoldingsState>, j: int, i: int)
    requires
        h1.len() == h2.len(),
        0 <= j < h1.len(),
        0 <= i <= h1.len(),
        forall|k: int| 0 <= k < h1.len() && k != j ==> h1[k] == h2[k],
    ensures
        sum_pnl_from(h2, i) - sum_pnl_from(h1, i) == if i <= j {
            h2[j].pnl_cents - h1[j].pnl_cents
        } else {
            0
        },
        sum_blocked_from(h2, i) - sum_blocked_from(h1, i) == if i <= j {
            h2[j].blocked_cents - h1[j].blocked_cents
        } else {
            0
        },
    decreases h1.len() - i,
{
    if i < h1.len() {
        lemma_sum_pnl_update(h1, h2, j, i + 1);
    }
}

/// First index at which `sym` occurs in `syms`, scanning from `i`.
pub open spec fn sym_index_from(syms: Seq<String>, sym: Seq<char>, i: int) -> Option<int>
    decreases syms.len() - i,
{
    if i < 0 || i >= syms.len() {
        None
    } else if syms[i]@ == sym {
        Some(i)
    } else {
        sym_index_from(syms, sym, i + 1)
    }
}

/// The run-constant configuration of two portfolio states agrees.
pub open spec fn same_config(a: Portfolio, b: Portfolio) -> bool {
    &&& a.initial_capital_cents == b.initial_capital_cents
    &&& a.symbols@ == b.symbols@
    &&& a.instruments@ == b.instruments@
    &&& a.min_margin_e5 == b.min_margin_e5
    &&& a.metrics_mode == b.metrics_mode
}

/// The accounting engine of one backtest.
#[derive(Debug)]
pub struct Portfolio {
    /// Starting capital of this strategy, in cents; positive.
    pub initial_capital_cents: i64,
    /// Traded symbols; every per-symbol vector follows this order.
    pub symbols: Vec<String>,
    /// Metadata of each symbol, aligned with `symbols`.
    pub instruments: Vec<InstrumentInfo>,
    /// Maintenance-margin fraction, scaled by `1e5`.
    pub min_margin_e5: i64,
    /// When metrics are recomputed.
    pub metrics_mode: MetricsMode,
    /// Position of each symbol, aligned with `symbols`.
    pub current_positions: Vec<PositionState>,
    /// Holding of each symbol, aligned with `symbols`.
    pub current_holdings: Vec<HoldingsState>,
    /// At most the first and the latest position snapshot.
    pub all_positions: Vec<PositionSnapshot>,
    /// At most the first and the latest holding snapshot.
    pub all_holdings: Vec<HoldingSnapshot>,
    /// One `(timestamp, capital)` pair per bar.
    pub equity_series: Vec<(i64, i64)>,
    /// The metrics engine fed by this portfolio.
    pub performance_manager: PerformanceManager,
}

impl Portfolio {
    /// Everything the accounting steps rely on.
    pub open spec fn wf(self) -> bool {
        &&& 1 <= self.symbols@.len() <= SYMBOLS_MAX
        &&& self.instruments@.len() == self.symbols@.len()
        &&& self.current_positions@.len() == self.symbols@.len()
        &&& self.current_holdings@.len() == self.symbols@.len()
        &&& 0 < self.initial_capital_cents <= MONEY_CENTS_MAX
        &&& 0 <= self.min_margin_e5 <= MIN_MARGIN_E5_MAX
        &&& forall|i: int|
            0 <= i < self.instruments@.len() ==> (#[trigger] self.instruments@[i]).wf()
        &&& forall|i: int|
            0 <= i < self.current_positions@.len() ==> (
            #[trigger] self.current_positions@[i]).bounded()
        &&& forall|i: int|
            0 <= i < self.current_holdings@.len() ==> (
            #[trigger] self.current_holdings@[i]).bounded()
        &&& self.all_positions@.len() <= 2
        &&& self.all_holdings@.len() <= 2
        &&& forall|i: int|
            0 <= i < self.all_holdings@.len() ==> -MONEY_CENTS_MAX <= (
            #[trigger] self.all_holdings@[i]).capital_cents <= MONEY_CENTS_MAX
                && -2 * MONEY_CENTS_MAX <= self.all_holdings@[i].cash_cents <= 2 * MONEY_CENTS_MAX
                && 0 <= self.all_holdings@[i].blocked_cents <= MONEY_CENTS_MAX
        &&& forall|i: int|
            0 <= i < self.equity_series@.len() ==> -MONEY_CENTS_MAX <= (
            #[trigger] self.equity_series@[i]).1 <= MONEY_CENTS_MAX
        &&& self.performance_manager.wf()
        &&& self.performance_manager.initial_capital_cents == self.initial_capital_cents
    }

    /// First index at which a symbol occurs, scanning from `i`.
    pub open spec fn spec_sym_index(self, sym: Seq<char>) -> Option<int> {
        sym_index_from(self.symbols@, sym, 0)
    }

    /// Capital as of the latest snapshot, or the starting capital while
    /// none exists.
    pub open spec fn spec_latest_capital(self) -> int {
        if self.all_holdings@.len() == 0 {
            self.initial_capital_cents as int
        } else {
            self.all_holdings@.last().capital_cents as int
        }
    }

    /// Cash as of the latest snapshot, or the starting capital while
    /// none exists.
    pub open spec fn spec_latest_cash(self) -> int {
        if self.all_holdings@.len() == 0 {
            self.initial_capital_cents as int
        } else {
            self.all_holdings@.last().cash_cents as int
        }
    }

    /// A portfolio before the first bar: flat positions, empty holdings,
    /// no snapshots, and a fresh metrics engine.
    pub fn new(
        initial_capital_cents: i64,
        symbols: Vec<String>,
        instruments: Vec<InstrumentInfo>,
        min_margin_e5: i64,
        metrics_mode: MetricsMode,
    ) -> (r: Portfolio)
        requires
            0 < initial_capital_cents <= MONEY_CENTS_MAX,
            1 <= symbols@.len() <= SYMBOLS_MAX,
            instruments@.len() == symbols@.len(),
            0 <= min_margin_e5 <= MIN_MARGIN_E5_MAX,
            forall|i: int| 0 <= i < instruments@.len() ==> (#[trigger] instruments@[i]).wf(),
        ensures
            r.wf(),
            r.initial_capital_cents == initial_capital_cents,
            r.symbols@ == symbols@,
            r.instruments@ == instruments@,
            r.min_margin_e5 == min_margin_e5,
            r.metrics_mode == metrics_mode,
            r.current_positions@.len() == symbols@.len(),
            forall|i: int|
                0 <= i < symbols@.len() ==> #[trigger] r.current_positions@[i] == (PositionState {
                    deal_number: 0usize,
                    position_e5: 0i64,
                    entry_capital_cents: 0i64,
                    entry_price_e5: None::<i64>,
                }),
            forall|i: int|
                0 <= i < symbols@.len() ==> #[trigger] r.current_holdings@[i] == (HoldingsState {
                    pnl_cents: 0i64,
                    blocked_cents: 0i64,
                    signal_name: None::<SignalName>,
                }),
            r.all_positions@.len() == 0,
            r.all_holdings@.len() == 0,
            r.equity_series@.len() == 0,
    {
        let n = symbols.len();
        let mut positions: Vec<PositionState> = Vec::new();
        let mut holdings: Vec<HoldingsState> = Vec::new();
        let mut i: usize = 0;
        while i < n
            invariant
                i <= n,
                positions@.len() == i,
                holdings@.len() == i,
                forall|k: int|
                    0 <= k < i ==> #[trigger] positions@[k] == (PositionState {
                        deal_number: 0usize,
                        position_e5: 0i64,
                        entry_capital_cents: 0i64,
                        entry_price_e5: None::<i64>,
                    }),
                forall|k: int|
                    0 <= k < i ==> #[trigger] holdings@[k] == (HoldingsState {
                        pnl_cents: 0i64,
                        blocked_cents: 0i64,
                        signal_name: None::<SignalName>,
                    }),
            decreases n - i,
        {
            positions.push(PositionState::new());
            holdings.push(HoldingsState::new());
            i = i + 1;
        }
        Portfolio {
            initial_capital_cents,
            symbols,
            instruments,
            min_margin_e5,
            metrics_mode,
            current_positions: positions,
            current_holdings: holdings,
            all_positions: Vec::new(),
            all_holdings: Vec::new(),
            equity_series: Vec::new(),
            performance_manager: PerformanceManager::new(initial_capital_cents, metrics_mode),
        }
    }

    /// Index of a symbol in the configured order, if it is traded.
    pub fn find_symbol(&self, symbol: &str) -> (r: Option<usize>)
        ensures
            match r {
                Some(i) => Some(i as int) == self.spec_sym_index(symbol@) && i
                    < self.symbols@.len() && self.symbols@[i as int]@ == symbol@,
                None => self.spec_sym_index(symbol@) is None,
            },
    {
        let sym: String = symbol.to_owned();
        let mut i: usize = 0;
        while i < self.symbols.len()
            invariant
                i <= self.symbols@.len(),
                sym@ == symbol@,
                sym_index_from(self.symbols@, symbol@, 0) == sym_index_from(
                    self.symbols@,
                    symbol@,
                    i as int,
                ),
            decreases self.symbols@.len() - i,
        {
            if self.symbols[i].eq(&sym) {
                return Some(i);
            }
            i = i + 1;
        }
        None
    }

    /// Executable form of [`Self::spec_latest_capital`].
    pub fn latest_capital_cents(&self) -> (r: i64)
        requires
            self.wf(),
        ensures
            r == self.spec_latest_capital(),
            -MONEY_CENTS_MAX <= r <= MONEY_CENTS_MAX,
    {
        if self.all_holdings.len() == 0 {
            self.initial_capital_cents
        } else {
            self.all_holdings[self.all_holdings.len() - 1].capital_cents
        }
    }

    /// Executable form of [`Self::spec_latest_cash`].
    pub fn latest_cash_cents(&self) -> (r: i64)
        requires
            self.wf(),
        ensures
            r == self.spec_latest_cash(),
            -2 * MONEY_CENTS_MAX <= r <= 2 * MONEY_CENTS_MAX,
    {
        if self.all_holdings.len() == 0 {
            self.initial_capital_cents
        } else {
            self.all_holdings[self.all_holdings.len() - 1].cash_cents
        }
    }

    /// Position of each symbol, in the configured order.
    pub fn get_current_positions(&self) -> (r: &Vec<PositionState>)
        ensures
            r == self.current_positions,
    {
        &self.current_positions
    }

    /// The recorded position snapshots.
    pub fn get_all_positions(&self) -> (r: &Vec<PositionSnapshot>)
        ensures
            r == self.all_positions,
    {
        &self.all_positions
    }

    /// Holding of each symbol, in the configured order.
    pub fn get_current_holdings(&self) -> (r: &Vec<HoldingsState>)
        ensures
            r == self.current_holdings,
    {
        &self.current_holdings
    }

    /// The recorded holding snapshots.
    pub fn get_all_holdings(&self) -> (r: &Vec<HoldingSnapshot>)
        ensures
            r == self.all_holdings,
    {
        &self.all_holdings
    }

    /// The latest holding snapshot, if a bar has closed.
    pub fn get_latest_holdings(&self) -> (r: Option<&HoldingSnapshot>)
        ensures
            match r {
                Some(h) => self.all_holdings@.len() > 0 && *h == self.all_holdings@.last(),
                None => self.all_holdings@.len() == 0,
            },
    {
        if self.all_holdings.len() == 0 {
            None
        } else {
            Some(&self.all_holdings[self.all_holdings.len() - 1])
        }
    }

    /// Per-symbol position bookkeeping for one fill: position size,
    /// deal counter and entry marks; see [`spec_fill_position`].
    pub fn update_positions_from_fill(&mut self, fill: &FillEvent) -> (r: Result<
        (),
        PortfolioError,
    >)
        requires
            old(self).wf(),
        ensures
            final(self).wf(),
            same_config(*final(self), *old(self)),
            final(self).current_holdings@ == old(self).current_holdings@,
            final(self).all_positions@ == old(self).all_positions@,
            final(self).all_holdings@ == old(self).all_holdings@,
            final(self).equity_series@ == old(self).equity_series@,
            final(self).performance_manager == old(self).performance_manager,
            match old(self).spec_sym_index(fill.symbol@) {
                None => r == Err::<(), PortfolioError>(PortfolioError::UnknownSymbol) && final(self).current_positions@ == old(self).current_positions@,
                Some(idx) => match spec_fill_position(
                    old(self).current_positions@[idx],
                    *fill,
                    old(self).spec_latest_cash(),
                ) {
                    Err(e) => r == Err::<(), PortfolioError>(e) && final(self).current_positions@
                        == old(self).current_positions@,
                    Ok(p2) => r == Ok::<(), PortfolioError>(()) && final(self).current_positions@
                        == old(self).current_positions@.update(idx, p2),
                },
            },
    {
        let idx = match self.find_symbol(fill.symbol.as_str()) {
            Some(i) => i,
            None => {
                return Err(PortfolioError::UnknownSymbol);
            },
        };
        let cash = self.latest_cash_cents();
        if fill.quantity_e5 <= 0 || fill.quantity_e5 > QTY_E5_MAX {
            return Err(PortfolioError::BadQuantity);
        }
        let p = self.current_positions[idx];
        let delta: i64 = match fill.direction {
            Direction::Buy => fill.quantity_e5,
            Direction::Sell => -fill.quantity_e5,
        };
        proof {
            assert(delta == fill.direction.spec_sign() * fill.quantity_e5);
        }
        let newpos_wide: i128 = (p.position_e5 as i128) + (delta as i128);
        if newpos_wide < -(QTY_E5_MAX as i128) || newpos_wide > QTY_E5_MAX as i128 {
            return Err(PortfolioError::Overflow);
        }
        let newpos: i64 = newpos_wide as i64;
        let p2: PositionState = if matches!(fill.signal_name, SignalName::Exit) {
            PositionState {
                deal_number: p.deal_number,
                position_e5: newpos,
                entry_capital_cents: 0,
                entry_price_e5: None,
            }
        } else {
            if p.deal_number == usize::MAX {
                return Err(PortfolioError::Overflow);
            }
            PositionState {
                deal_number: p.deal_number + 1,
                position_e5: newpos,
                entry_capital_cents: cash,
                entry_price_e5: Some(fill.execution_price_e5),
            }
        };
        self.current_positions.set(idx, p2);
        Ok(())
    }

    /// Per-symbol profit and margin bookkeeping for one fill; see
    /// [`spec_fill_holding`].  `close_e5` and `last_close_e5` are the
    /// symbol's current and previous bar closes.
    pub fn update_holdings_from_fill(
        &mut self,
        fill: &FillEvent,
        close_e5: i64,
        last_close_e5: i64,
    ) -> (r: Result<(), PortfolioError>)
        requires
            old(self).wf(),
        ensures
            final(self).wf(),
            same_config(*final(self), *old(self)),
            final(self).current_positions@ == old(self).current_positions@,
            final(self).all_positions@ == old(self).all_positions@,
            final(self).all_holdings@ == old(self).all_holdings@,
            final(self).equity_series@ == old(self).equity_series@,
            final(self).performance_manager == old(self).performance_manager,
            match old(self).spec_sym_index(fill.symbol@) {
                None => r == Err::<(), PortfolioError>(PortfolioError::UnknownSymbol) && final(self).current_holdings@ == old(self).current_holdings@,
                Some(idx) => match spec_fill_holding(
                    old(self).current_holdings@[idx],
                    old(self).instruments@[idx],
                    *fill,
                    close_e5 as int,
                    last_close_e5 as int,
                ) {
                    Err(e) => r == Err::<(), PortfolioError>(e) && final(self).current_holdings@
                        == old(self).current_holdings@,
                    Ok(h2) => r == Ok::<(), PortfolioError>(()) && final(self).current_holdings@
                        == old(self).current_holdings@.update(idx, h2),
                },
            },
    {
        let idx = match self.find_symbol(fill.symbol.as_str()) {
            Some(i) => i,
            None => {
                return Err(PortfolioError::UnknownSymbol);
            },
        };
        if close_e5 < -PRICE_E5_MAX || close_e5 > PRICE_E5_MAX || last_close_e5 < -PRICE_E5_MAX
            || last_close_e5 > PRICE_E5_MAX || fill.execution_price_e5 < -PRICE_E5_MAX
            || fill.execution_price_e5 > PRICE_E5_MAX {
            return Err(PortfolioError::BadPrice);
        }
        if fill.quantity_e5 <= 0 || fill.quantity_e5 > QTY_E5_MAX {
            return Err(PortfolioError::BadQuantity);
        }
        if fill.commission_cents < 0 || fill.commission_cents > MONEY_CENTS_MAX {
            return Err(PortfolioError::BadCommission);
        }
        let ins = &self.instruments[idx];
        let pv: i64 = ins.point_value_e5();
        let reference: i64 = if matches!(fill.signal_name, SignalName::Exit) {
            last_close_e5
        } else {
            close_e5
        };
        let diff: i64 = match fill.direction {
            Direction::Buy => reference - fill.execution_price_e5,
            Direction::Sell => fill.execution_price_e5 - reference,
        };
        proof {
            lemma_mul_abs_le(diff as int, 2 * PRICE_E5_MAX as int, pv as int, PV_E5_MAX as int);
            lemma_mul_abs_le(
                diff as int * pv as int,
                2 * PRICE_E5_MAX as int * PV_E5_MAX as int,
                fill.quantity_e5 as int,
                QTY_E5_MAX as int,
            );
        }
        let prod: i128 = (diff as i128) * (pv as i128) * (fill.quantity_e5 as i128);
        let pnl_wide: i128 = rdiv(prod, 10_000_000_000_000) - (fill.commission_cents as i128);
        proof {
            lemma_round_div_abs_le(prod as int, 10_000_000_000_000);
        }
        if pnl_wide < -(MONEY_CENTS_MAX as i128) || pnl_wide > MONEY_CENTS_MAX as i128 {
            return Err(PortfolioError::Overflow);
        }
        let h = self.current_holdings[idx];
        proof {
            lemma_mul_le(
                ins.margin_cents as int,
                MONEY_CENTS_MAX as int,
                fill.quantity_e5 as int,
                QTY_E5_MAX as int,
            );
            lemma_round_div_abs_le(
                ins.margin_cents as int * fill.quantity_e5 as int,
                SCALE_E5 as int,
            );
        }
        let mb: i128 = rdiv(
            (ins.margin_cents as i128) * (fill.quantity_e5 as i128),
            SCALE_E5 as i128,
        );
        let nb_wide: i128 = if matches!(ins.instrument_type, InstrumentType::Futures) {
            if matches!(fill.signal_name, SignalName::Exit) {
                (h.blocked_cents as i128) - mb
            } else {
                (h.blocked_cents as i128) + mb
            }
        } else {
            h.blocked_cents as i128
        };
        if nb_wide < 0 {
            return Err(PortfolioError::NegativeBlocked);
        }
        if nb_wide > MONEY_CENTS_MAX as i128 {
            return Err(PortfolioError::Overflow);
        }
        let h2 = HoldingsState {
            pnl_cents: pnl_wide as i64,
            blocked_cents: nb_wide as i64,
            signal_name: Some(fill.signal_name),
        };
        self.current_holdings.set(idx, h2);
        Ok(())
    }

    /// Books one fill: the position leg first, then the holding leg.
    pub fn update_fill(&mut self, fill: &FillEvent, close_e5: i64, last_close_e5: i64) -> (r:
        Result<(), PortfolioError>)
        requires
            old(self).wf(),
        ensures
            final(self).wf(),
            same_config(*final(self), *old(self)),
            final(self).all_positions@ == old(self).all_positions@,
            final(self).all_holdings@ == old(self).all_holdings@,
            final(self).equity_series@ == old(self).equity_series@,
            final(self).performance_manager == old(self).performance_manager,
            match old(self).spec_sym_index(fill.symbol@) {
                None => r == Err::<(), PortfolioError>(PortfolioError::UnknownSymbol) && final(self).current_positions@ == old(self).current_positions@ && final(self).current_holdings@ == old(self).current_holdings@,
                Some(idx) => match spec_fill_position(
                    old(self).current_positions@[idx],
                    *fill,
                    old(self).spec_latest_cash(),
                ) {
                    Err(e) => r == Err::<(), PortfolioError>(e) && final(self).current_positions@
                        == old(self).current_positions@ && final(self).current_holdings@ == old(self).current_holdings@,
                    Ok(p2) => final(self).current_positions@ == old(self).current_positions@.update(idx, p2) && match spec_fill_holding(
                        old(self).current_holdings@[idx],
                        old(self).instruments@[idx],
                        *fill,
                        close_e5 as int,
                        last_close_e5 as int,
                    ) {
                        Err(e) => r == Err::<(), PortfolioError>(e) && final(self).current_holdings@ == old(self).current_holdings@,
                        Ok(h2) => r == Ok::<(), PortfolioError>(()) && final(self).current_holdings@ == old(self).current_holdings@.update(idx, h2),
                    },
                },
            },
    {
        match self.update_positions_from_fill(fill) {
            Ok(()) => {},
            Err(e) => {
                return Err(e);
            },
        }
        self.update_holdings_from_fill(fill, close_e5, last_close_e5)
    }

    /// The order a signal turns into, if any: a fresh entry is sized
    /// against available cash, an exit or flip takes the signal's own
    /// quantity, and the entry margin check may drop the order.  An
    /// exit on a flat position, or one with a zero quantity, yields no
    /// order - a deliberate guard: filling such an order would
    /// manufacture a position out of an EXIT and break the rule that a
    /// flat position carries no entry marks.
    pub open spec fn spec_order_decision(self, sig: SignalEvent, ts: i64) -> Result<
        Option<OrderEvent>,
        PortfolioError,
    > {
        match self.spec_sym_index(sig.symbol@) {
            None => Err(PortfolioError::UnknownSymbol),
            Some(idx) => match sig.quantity_e5 {
                None => Err(PortfolioError::MissingQuantity),
                Some(q_raw) => if q_raw == i64::MIN || (if q_raw >= 0 {
                    q_raw as int
                } else {
                    -(q_raw as int)
                }) > QTY_E5_MAX {
                    Err(PortfolioError::BadQuantity)
                } else {
                    let q0 = if q_raw >= 0 {
                        q_raw as int
                    } else {
                        -(q_raw as int)
                    };
                    let ins = self.instruments@[idx];
                    let cur = self.current_positions@[idx].position_e5;
                    let cash = self.spec_latest_cash();
                    let capital = self.spec_latest_capital();
                    if !(sig.signal_name is Exit) && cur == 0 && cash > 0 {
                        let q = spec_max_available_quantity(
                            cash,
                            q0,
                            ins.margin_cents as int,
                            ins.contract_precision as nat,
                        );
                        let dir = if sig.signal_name is Long {
                            Direction::Buy
                        } else {
                            Direction::Sell
                        };
                        if spec_signal_margin_ok(q, capital, sig.signal_name, ins) {
                            Ok(Some(spec_build_order(ts, sig, q as i64, dir)))
                        } else {
                            Ok(None)
                        }
                    } else {
                        if cur == 0 || q0 == 0 {
                            Ok(None)
                        } else {
                            let dir = if cur > 0 {
                                Direction::Sell
                            } else {
                                Direction::Buy
                            };
                            if spec_signal_margin_ok(q0, capital, sig.signal_name, ins) {
                                Ok(Some(spec_build_order(ts, sig, q0 as i64, dir)))
                            } else {
                                Ok(None)
                            }
                        }
                    }
                },
            },
        }
    }

    /// Sizes and risk-checks one signal; see [`Self::spec_order_decision`].
    pub fn generate_order(&self, signal_event: &SignalEvent, ts: i64) -> (r: Result<
        Option<OrderEvent>,
        PortfolioError,
    >)
        requires
            self.wf(),
        ensures
            r == self.spec_order_decision(*signal_event, ts),
    {
        let idx = match self.find_symbol(signal_event.symbol.as_str()) {
            Some(i) => i,
            None => {
                return Err(PortfolioError::UnknownSymbol);
            },
        };
        let q_raw: i64 = match signal_event.quantity_e5 {
            Some(q) => q,
            None => {
                return Err(PortfolioError::MissingQuantity);
            },
        };
        if q_raw == i64::MIN {
            return Err(PortfolioError::BadQuantity);
        }
        let q0: i64 = if q_raw >= 0 {
            q_raw
        } else {
            -q_raw
        };
        if q0 > QTY_E5_MAX {
            return Err(PortfolioError::BadQuantity);
        }
        let ins = &self.instruments[idx];
        let cur = self.current_positions[idx].position_e5;
        let cash = self.latest_cash_cents();
        let capital = self.latest_capital_cents();
        let latest = HoldingSnapshot {
            ts: 0,
            capital_cents: capital,
            cash_cents: cash,
            blocked_cents: 0,
            holdings: Vec::new(),
        };
        if !matches!(signal_event.signal_name, SignalName::Exit) && cur == 0 && cash > 0 {
            let q = calculate_max_available_quantity(cash, q0, ins);
            let dir = if matches!(signal_event.signal_name, SignalName::Long) {
                Direction::Buy
            } else {
                Direction::Sell
            };
            if crate::risks::margin_call_control_for_signal(q, &latest, signal_event, ins) {
                Ok(
                    Some(
                        OrderEvent {
                            ts,
                            symbol: signal_event.symbol.clone(),
                            signal_name: signal_event.signal_name,
                            order_type: signal_event.order_type,
                            quantity_e5: q,
                            direction: dir,
                            limit_price_e5: signal_event.limit_price_e5,
                        },
                    ),
                )
            } else {
                Ok(None)
            }
        } else {
            if cur == 0 || q0 == 0 {
                return Ok(None);
            }
            let dir = if cur > 0 {
                Direction::Sell
            } else {
                Direction::Buy
            };
            if crate::risks::margin_call_control_for_signal(q0, &latest, signal_event, ins) {
                Ok(
                    Some(
                        OrderEvent {
                            ts,
                            symbol: signal_event.symbol.clone(),
                            signal_name: signal_event.signal_name,
                            order_type: signal_event.order_type,
                            quantity_e5: q0,
                            direction: dir,
                            limit_price_e5: signal_event.limit_price_e5,
                        },
                    ),
                )
            } else {
                Ok(None)
            }
        }
    }

    /// Handles one strategy signal; the order to enqueue, if any.
    pub fn update_signal(&self, signal_event: &SignalEvent, ts: i64) -> (r: Result<
        Option<OrderEvent>,
        PortfolioError,
    >)
        requires
            self.wf(),
        ensures
            r == self.spec_order_decision(*signal_event, ts),
    {
        self.generate_order(signal_event, ts)
    }

    /// Every symbol's holding after this bar's close marks.
    pub open spec fn spec_marked_holdings(self, marks: Seq<(i64, i64)>) -> Seq<HoldingsState> {
        Seq::new(
            self.current_holdings@.len(),
            |i: int|
                spec_marked_one(
                    self.current_holdings@[i],
                    marks[i].0 as int,
                    marks[i].1 as int,
                    self.instruments@[i].spec_point_value_e5(),
                    self.current_positions@[i].position_e5 as int,
                ),
        )
    }

    /// When the bar close can be booked: every mark within the price
    /// band, every fresh mark within the monetary band, and the new
    /// totals representable.
    pub open spec fn spec_timeindex_ok(self, marks: Seq<(i64, i64)>) -> bool {
        let newh = self.spec_marked_holdings(marks);
        &&& forall|i: int|
            0 <= i < marks.len() ==> -PRICE_E5_MAX <= (#[trigger] marks[i]).0 <= PRICE_E5_MAX
                && -PRICE_E5_MAX <= marks[i].1 <= PRICE_E5_MAX
        &&& forall|i: int|
            0 <= i < newh.len() && self.current_holdings@[i].signal_name is None
                ==> -MONEY_CENTS_MAX <= spec_mark_pnl(
                (#[trigger] marks[i]).0 as int,
                marks[i].1 as int,
                self.instruments@[i].spec_point_value_e5(),
                self.current_positions@[i].position_e5 as int,
            ) <= MONEY_CENTS_MAX
        &&& -MONEY_CENTS_MAX <= self.spec_latest_capital() + sum_pnl_from(newh, 0)
            <= MONEY_CENTS_MAX
        &&& sum_blocked_from(newh, 0) <= MONEY_CENTS_MAX
    }

    /// Books the close of one bar: snapshots the positions, remarks the
    /// holdings, folds the profit into capital, extends the equity
    /// series, feeds the metrics engine in real-time mode, and runs the
    /// maintenance margin check, whose breach yields the synthetic EXIT
    /// signals.
    ///
    /// `marks[i]` is symbol `i`'s `(close, previous close)`, both scaled
    /// by `1e5`.  Capital obeys mass conservation: the new capital is
    /// the previous one plus the per-symbol profit of this bar (each
    /// already net of its commission), and cash stays `capital` less
    /// blocked margin.  The synthetic EXIT signals are sized to the
    /// whole open position; the kernel drains them on the next bar, so
    /// that every position is flat one bar after a breach - a
    /// consequence of this contract and the drain's, exercised by the
    /// margin-call scenario rather than stated as one clause.
    pub fn update_timeindex(&mut self, ts: i64, marks: &Vec<(i64, i64)>) -> (r: Result<
        Vec<SignalEvent>,
        PortfolioError,
    >)
        requires
            old(self).wf(),
            marks@.len() == old(self).symbols@.len(),
        ensures
            final(self).wf(),
            same_config(*final(self), *old(self)),
            final(self).current_positions@ == old(self).current_positions@,
            r is Err ==> *final(self) == *old(self),
            r is Err <==> !old(self).spec_timeindex_ok(marks@),
            old(self).spec_timeindex_ok(marks@) ==> {
                let newh = old(self).spec_marked_holdings(marks@);
                let pnlsum = sum_pnl_from(newh, 0);
                let blockedsum = sum_blocked_from(newh, 0);
                let capital = old(self).spec_latest_capital() + pnlsum;
                let cash = capital - blockedsum;
                let blocked = blockedsum;
                &&& r is Ok
                &&& final(self).current_holdings@ == newh
                &&& final(self).all_positions@.len() == if old(self).all_positions@.len() < 2 {
                    old(self).all_positions@.len() as int + 1
                } else {
                    old(self).all_positions@.len() as int
                }
                &&& forall|i: int|
                    0 <= i < final(self).all_positions@.len() - 1 && i < old(
                        self,
                    ).all_positions@.len() - 1 ==> #[trigger] final(self).all_positions@[i] == old(
                        self,
                    ).all_positions@[i]
                &&& final(self).all_positions@.last().ts == ts
                &&& final(self).all_positions@.last().positions@ == old(self).current_positions@
                &&& final(self).all_holdings@.len() == if old(self).all_holdings@.len() < 2 {
                    old(self).all_holdings@.len() as int + 1
                } else {
                    old(self).all_holdings@.len() as int
                }
                &&& forall|i: int|
                    0 <= i < final(self).all_holdings@.len() - 1 && i < old(
                        self,
                    ).all_holdings@.len() - 1 ==> #[trigger] final(self).all_holdings@[i] == old(
                        self,
                    ).all_holdings@[i]
                &&& final(self).all_holdings@.last().ts == ts
                &&& final(self).all_holdings@.last().capital_cents == capital
                &&& final(self).all_holdings@.last().cash_cents == cash
                &&& final(self).all_holdings@.last().blocked_cents == blocked
                &&& final(self).all_holdings@.last().holdings@ == newh
                &&& final(self).equity_series@ == old(self).equity_series@.push(
                    (ts, capital as i64),
                )
                &&& (old(self).metrics_mode is Offline ==> final(self).performance_manager == old(
                    self,
                ).performance_manager)
                &&& (old(self).metrics_mode is RealTime ==> {
                    let pm0 = old(self).performance_manager;
                    let pm = final(self).performance_manager;
                    let deals = sum_deals_from(old(self).current_positions@, 0);
                    let deals_clamped = if deals > usize::MAX {
                        usize::MAX as int
                    } else {
                        deals
                    };
                    &&& pm.equity_curve@ == pm0.equity_curve@.push(capital as i64)
                    &&& (pm.peak_cents as int, pm.max_drawdown_e9 as int) == dd_step(
                        pm0.peak_cents as int,
                        pm0.max_drawdown_e9 as int,
                        capital,
                    )
                    &&& pm.max_drawdown_e9 <= pm0.max_drawdown_e9
                    &&& spec_apr_ok(
                        spec_pct_e9(old(self).initial_capital_cents as int, capital),
                        spec_days_between(
                            final(self).all_holdings@[0].ts as int,
                            ts as int,
                        ),
                        pm.metrics.apr_e9 as int,
                    )
                    &&& pm.metrics == spec_metrics(
                        old(self).initial_capital_cents as int,
                        capital,
                        pm.max_drawdown_e9 as int,
                        spec_days_between(
                            final(self).all_holdings@[0].ts as int,
                            ts as int,
                        ),
                        deals_clamped as usize,
                        pm.metrics.apr_e9 as int,
                    )
                })
                &&& (r matches Ok(v) ==> if spec_market_margin_ok(
                    capital,
                    cash,
                    old(self).current_positions@,
                    old(self).instruments@,
                    old(self).min_margin_e5 as int,
                ) {
                    v@ == Seq::<SignalEvent>::empty()
                } else {
                    v@ == margin_exits_from(
                        old(self).symbols@,
                        old(self).current_positions@,
                        ts,
                        0,
                    )
                })
            },
    {
        let n = self.symbols.len();
        let ghost newh_spec = old(self).spec_marked_holdings(marks@);
        // First pass: validate the marks and build the remarked holdings
        // without touching the state.
        let mut newh: Vec<HoldingsState> = Vec::new();
        let mut i: usize = 0;
        while i < n
            invariant
                i <= n,
                *self == *old(self),
                self.wf(),
                n == self.symbols@.len(),
                marks@.len() == n,
                newh_spec == old(self).spec_marked_holdings(marks@),
                newh@.len() == i,
                forall|k: int| 0 <= k < i ==> #[trigger] newh@[k] == newh_spec[k],
                forall|k: int| 0 <= k < i ==> (#[trigger] newh@[k]).bounded(),
                forall|k: int|
                    0 <= k < i ==> -PRICE_E5_MAX <= (#[trigger] marks@[k]).0 <= PRICE_E5_MAX
                        && -PRICE_E5_MAX <= marks@[k].1 <= PRICE_E5_MAX,
                forall|k: int|
                    0 <= k < i && self.current_holdings@[k].signal_name is None
                        ==> -MONEY_CENTS_MAX <= spec_mark_pnl(
                        (#[trigger] marks@[k]).0 as int,
                        marks@[k].1 as int,
                        self.instruments@[k].spec_point_value_e5(),
                        self.current_positions@[k].position_e5 as int,
                    ) <= MONEY_CENTS_MAX,
            decreases n - i,
        {
            let (c, lc) = marks[i];
            if c < -PRICE_E5_MAX || c > PRICE_E5_MAX || lc < -PRICE_E5_MAX || lc > PRICE_E5_MAX {
                return Err(PortfolioError::BadPrice);
            }
            let h = self.current_holdings[i];
            if h.signal_name.is_some() {
                newh.push(
                    HoldingsState {
                        pnl_cents: h.pnl_cents,
                        blocked_cents: h.blocked_cents,
                        signal_name: None,
                    },
                );
            } else {
                let pv = self.instruments[i].point_value_e5();
                let pos = self.current_positions[i].position_e5;
                proof {
                    lemma_mul_abs_le(
                        c as int - lc as int,
                        2 * PRICE_E5_MAX as int,
                        pv as int,
                        PV_E5_MAX as int,
                    );
                    lemma_mul_abs_le(
                        (c as int - lc as int) * pv as int,
                        2 * PRICE_E5_MAX as int * PV_E5_MAX as int,
                        pos as int,
                        QTY_E5_MAX as int,
                    );
                }
                let prod: i128 = ((c as i128) - (lc as i128)) * (pv as i128) * (pos as i128);
                let pnl: i128 = rdiv(prod, 10_000_000_000_000);
                if pnl < -(MONEY_CENTS_MAX as i128) || pnl > MONEY_CENTS_MAX as i128 {
                    return Err(PortfolioError::Overflow);
                }
                newh.push(
                    HoldingsState {
                        pnl_cents: pnl as i64,
                        blocked_cents: h.blocked_cents,
                        signal_name: None,
                    },
                );
            }
            i = i + 1;
        }
        proof {
            assert(newh@ =~= newh_spec);
        }
        // Totals of the remarked holdings.
        let mut pnlsum: i128 = 0;
        let mut blockedsum: i128 = 0;
        let mut j: usize = 0;
        while j < n
            invariant
                j <= n,
                newh@.len() == n,
                forall|k: int| 0 <= k < n ==> (#[trigger] newh@[k]).bounded(),
                n <= SYMBOLS_MAX,
                pnlsum == sum_pnl_from(newh@, 0) - sum_pnl_from(newh@, j as int),
                blockedsum == sum_blocked_from(newh@, 0) - sum_blocked_from(newh@, j as int),
            decreases n - j,
        {
            proof {
                lemma_sum_pnl_bound(newh@, 0);
                lemma_sum_pnl_bound(newh@, j as int);
                lemma_sum_pnl_bound(newh@, j + 1);
                lemma_sum_blocked_bound(newh@, 0);
                lemma_sum_blocked_bound(newh@, j as int);
                lemma_sum_blocked_bound(newh@, j + 1);
            }
            pnlsum = pnlsum + (newh[j].pnl_cents as i128);
            blockedsum = blockedsum + (newh[j].blocked_cents as i128);
            j = j + 1;
        }
        proof {
            lemma_sum_pnl_bound(newh@, 0);
            lemma_sum_blocked_bound(newh@, 0);
        }
        let prev = self.latest_capital_cents();
        let cap_wide: i128 = (prev as i128) + pnlsum;
        if cap_wide < -(MONEY_CENTS_MAX as i128) || cap_wide > MONEY_CENTS_MAX as i128 {
            return Err(PortfolioError::Overflow);
        }
        if blockedsum > MONEY_CENTS_MAX as i128 {
            return Err(PortfolioError::Overflow);
        }
        let capital: i64 = cap_wide as i64;
        let blocked: i64 = blockedsum as i64;
        let cash: i64 = capital - blocked;
        // Commit: position snapshot.
        let mut possnap: Vec<PositionState> = Vec::new();
        let mut k: usize = 0;
        while k < n
            invariant
                k <= n,
                n == self.current_positions@.len(),
                possnap@ == self.current_positions@.take(k as int),
            decreases n - k,
        {
            possnap.push(self.current_positions[k]);
            proof {
                assert(possnap@ =~= self.current_positions@.take(k + 1));
            }
            k = k + 1;
        }
        proof {
            assert(self.current_positions@.take(n as int) =~= self.current_positions@);
        }
        if self.all_positions.len() < 2 {
            self.all_positions.push(PositionSnapshot { ts, positions: possnap });
        } else {
            let lastp = self.all_positions.len() - 1;
            self.all_positions.set(lastp, PositionSnapshot { ts, positions: possnap });
        }
        // Commit: holdings and their snapshot.
        let mut holdsnap: Vec<HoldingsState> = Vec::new();
        let mut m: usize = 0;
        while m < n
            invariant
                m <= n,
                newh@.len() == n,
                holdsnap@ == newh@.take(m as int),
            decreases n - m,
        {
            holdsnap.push(newh[m]);
            proof {
                assert(holdsnap@ =~= newh@.take(m + 1));
            }
            m = m + 1;
        }
        proof {
            assert(newh@.take(n as int) =~= newh@);
        }
        self.current_holdings = newh;
        let snap = HoldingSnapshot {
            ts,
            capital_cents: capital,
            cash_cents: cash,
            blocked_cents: blocked,
            holdings: holdsnap,
        };
        if self.all_holdings.len() < 2 {
            self.all_holdings.push(snap);
        } else {
            let lasth = self.all_holdings.len() - 1;
            self.all_holdings.set(lasth, snap);
        }
        // Equity series.
        self.equity_series.push((ts, capital));
        // Metrics.
        if matches!(self.metrics_mode, MetricsMode::RealTime { .. }) {
            let mut dsum: u128 = 0;
            let mut d: usize = 0;
            while d < n
                invariant
                    d <= n,
                    n == self.current_positions@.len(),
                    n <= SYMBOLS_MAX,
                    dsum == sum_deals_from(self.current_positions@, 0) - sum_deals_from(
                        self.current_positions@,
                        d as int,
                    ),
                decreases n - d,
            {
                proof {
                    lemma_sum_deals_bound(self.current_positions@, 0);
                    lemma_sum_deals_bound(self.current_positions@, d as int);
                    lemma_sum_deals_bound(self.current_positions@, d + 1);
                }
                dsum = dsum + (self.current_positions[d].deal_number as u128);
                d = d + 1;
            }
            let deals: usize = if dsum > usize::MAX as u128 {
                usize::MAX
            } else {
                dsum as usize
            };
            let start_ts = self.all_holdings[0].ts;
            self.performance_manager.update_incremental(capital, start_ts, ts, deals);
        }
        // Maintenance margin check.
        let lastidx = self.all_holdings.len() - 1;
        let ok = margin_call_control_for_market(
            &self.all_holdings[lastidx],
            &self.current_positions,
            &self.instruments,
            self.min_margin_e5,
        );
        let mut exits: Vec<SignalEvent> = Vec::new();
        if !ok {
            let mut e: usize = 0;
            while e < n
                invariant
                    e <= n,
                    n == self.symbols@.len(),
                    n == self.current_positions@.len(),
                    margin_exits_from(self.symbols@, self.current_positions@, ts, 0) == exits@
                        + margin_exits_from(
                        self.symbols@,
                        self.current_positions@,
                        ts,
                        e as int,
                    ),
                decreases n - e,
            {
                if self.current_positions[e].position_e5 != 0 {
                    let sig = SignalEvent {
                        ts,
                        symbol: self.symbols[e].clone(),
                        signal_name: SignalName::Exit,
                        order_type: crate::events::OrderType::Market,
                        quantity_e5: Some(self.current_positions[e].position_e5),
                        limit_price_e5: None,
                    };
                    proof {
                        let full = margin_exits_from(
                            self.symbols@,
                            self.current_positions@,
                            ts,
                            0,
                        );
                        let rest = margin_exits_from(
                            self.symbols@,
                            self.current_positions@,
                            ts,
                            e + 1,
                        );
                        assert(exits@ + (seq![
                            SignalEvent {
                                ts,
                                symbol: self.symbols@[e as int],
                                signal_name: SignalName::Exit,
                                order_type: crate::events::OrderType::Market,
                                quantity_e5: Some(self.current_positions@[e as int].position_e5),
                                limit_price_e5: None,
                            },
                        ] + rest) =~= exits@.push(
                            SignalEvent {
                                ts,
                                symbol: self.symbols@[e as int],
                                signal_name: SignalName::Exit,
                                order_type: crate::events::OrderType::Market,
                                quantity_e5: Some(self.current_positions@[e as int].position_e5),
                                limit_price_e5: None,
                            },
                        ) + rest);
                    }
                    exits.push(sig);
                }
                e = e + 1;
            }
        }
        Ok(exits)
    }

    /// The capital column of the equity series, as a spec value.
    pub open spec fn spec_equity_capitals(self) -> Seq<i64> {
        Seq::new(self.equity_series@.len(), |i: int| self.equity_series@[i].1)
    }

    /// In offline mode, recomputes the metrics from the full equity
    /// series; see the metrics engine's offline pass.  Outside offline
    /// mode, or before any bar has closed, nothing changes.
    pub fn calculate_final_performance(&mut self)
        requires
            old(self).wf(),
        ensures
            final(self).wf(),
            same_config(*final(self), *old(self)),
            final(self).current_positions@ == old(self).current_positions@,
            final(self).current_holdings@ == old(self).current_holdings@,
            final(self).all_positions@ == old(self).all_positions@,
            final(self).all_holdings@ == old(self).all_holdings@,
            final(self).equity_series@ == old(self).equity_series@,
            !(old(self).metrics_mode is Offline) || old(self).all_holdings@.len() == 0 ==> final(
                self).performance_manager == old(self).performance_manager,
            (old(self).metrics_mode is Offline && old(self).all_holdings@.len() > 0) ==> {
                let series = old(self).spec_equity_capitals();
                let pm0 = old(self).performance_manager;
                let pm = final(self).performance_manager;
                let deals = sum_deals_from(old(self).current_positions@, 0);
                let deals_clamped = if deals > usize::MAX {
                    usize::MAX as int
                } else {
                    deals
                };
                let days = spec_days_between(
                    old(self).all_holdings@[0].ts as int,
                    old(self).all_holdings@.last().ts as int,
                );
                &&& series.len() < 2 ==> pm == pm0
                &&& series.len() >= 2 ==> {
                    &&& pm.equity_curve@ == series
                    &&& (pm.peak_cents as int, pm.max_drawdown_e9 as int) == dd_scan(
                        series,
                        0,
                        series[0] as int,
                        0,
                    )
                    &&& pm.returns_e9@.len() == series.len()
                    &&& forall|i: int|
                        1 <= i < series.len() ==> #[trigger] pm.returns_e9@[i] as int
                            == spec_return_e9(series[i - 1] as int, series[i] as int)
                    &&& spec_apr_ok(
                        spec_pct_e9(old(self).initial_capital_cents as int, series.last() as int),
                        days,
                        pm.metrics.apr_e9 as int,
                    )
                    &&& pm.metrics == spec_metrics(
                        old(self).initial_capital_cents as int,
                        series.last() as int,
                        pm.max_drawdown_e9 as int,
                        days,
                        deals_clamped as usize,
                        pm.metrics.apr_e9 as int,
                    )
                }
            },
    {
        if !matches!(self.metrics_mode, MetricsMode::Offline) {
            return ;
        }
        if self.all_holdings.len() == 0 {
            return ;
        }
        let series = self.get_equity_capital_values();
        proof {
            assert(series@ =~= self.spec_equity_capitals());
        }
        let start_ts = self.all_holdings[0].ts;
        let end_ts = self.all_holdings[self.all_holdings.len() - 1].ts;
        let n = self.current_positions.len();
        let mut dsum: u128 = 0;
        let mut d: usize = 0;
        while d < n
            invariant
                d <= n,
                n == self.current_positions@.len(),
                n <= SYMBOLS_MAX,
                dsum == sum_deals_from(self.current_positions@, 0) - sum_deals_from(
                    self.current_positions@,
                    d as int,
                ),
            decreases n - d,
        {
            proof {
                lemma_sum_deals_bound(self.current_positions@, 0);
                lemma_sum_deals_bound(self.current_positions@, d as int);
                lemma_sum_deals_bound(self.current_positions@, d + 1);
            }
            dsum = dsum + (self.current_positions[d].deal_number as u128);
            d = d + 1;
        }
        let deals: usize = if dsum > usize::MAX as u128 {
            usize::MAX
        } else {
            dsum as usize
        };
        self.performance_manager.calculate_final(&series, start_ts, end_ts, deals);
    }

    /// The metrics as of the last update.
    pub fn output_summary_stats(&self) -> (r: &PerformanceMetrics)
        ensures
            r == self.performance_manager.metrics,
    {
        self.performance_manager.get_current_performance_metrics()
    }

    /// The capital column of the equity series.
    pub fn get_equity_capital_values(&self) -> (r: Vec<i64>)
        ensures
            r@.len() == self.equity_series@.len(),
            forall|i: int|
                0 <= i < r@.len() ==> #[trigger] r@[i] == self.equity_series@[i].1,
    {
        let mut out: Vec<i64> = Vec::new();
        let mut i: usize = 0;
        while i < self.equity_series.len()
            invariant
                i <= self.equity_series@.len(),
                out@.len() == i,
                forall|k: int| 0 <= k < i ==> #[trigger] out@[k] == self.equity_series@[k].1,
            decreases self.equity_series@.len() - i,
        {
            out.push(self.equity_series[i].1);
            i = i + 1;
        }
        out
    }
}


/// Realized or booked profit of one fill leg: the price difference
/// through the point value and the quantity, rounded to cents, minus the
/// commission.
pub open spec fn spec_fill_pnl_cents(diff_e5: int, pv_e5: int, qty_e5: int, commission: int) -> int {
    round_div(diff_e5 * pv_e5 * qty_e5, 10_000_000_000_000) - commission
}

/// Margin blocked or released by a fill: margin per contract times the
/// quantity, rounded to cents.
pub open spec fn spec_margin_block(margin_cents: int, qty_e5: int) -> int {
    round_div(margin_cents * qty_e5, SCALE_E5 as int)
}

/// Price difference a fill books: against the previous close on an
/// exit, against the current close on an entry, signed by direction.
pub open spec fn spec_fill_diff(fill: FillEvent, close_e5: int, last_close_e5: int) -> int {
    let reference = if fill.signal_name is Exit {
        last_close_e5
    } else {
        close_e5
    };
    match fill.direction {
        Direction::Buy => reference - fill.execution_price_e5,
        Direction::Sell => fill.execution_price_e5 - reference,
    }
}

/// What a fill does to one symbol's holding, or why it is refused.
pub open spec fn spec_fill_holding(
    h: HoldingsState,
    ins: InstrumentInfo,
    fill: FillEvent,
    close_e5: int,
    last_close_e5: int,
) -> Result<HoldingsState, PortfolioError> {
    if close_e5 < -PRICE_E5_MAX || close_e5 > PRICE_E5_MAX || last_close_e5 < -PRICE_E5_MAX
        || last_close_e5 > PRICE_E5_MAX || fill.execution_price_e5 < -PRICE_E5_MAX
        || fill.execution_price_e5 > PRICE_E5_MAX {
        Err(PortfolioError::BadPrice)
    } else if fill.quantity_e5 <= 0 || fill.quantity_e5 > QTY_E5_MAX {
        Err(PortfolioError::BadQuantity)
    } else if fill.commission_cents < 0 || fill.commission_cents > MONEY_CENTS_MAX {
        Err(PortfolioError::BadCommission)
    } else {
        let diff = spec_fill_diff(fill, close_e5, last_close_e5);
        let pnl = spec_fill_pnl_cents(
            diff,
            ins.spec_point_value_e5(),
            fill.quantity_e5 as int,
            fill.commission_cents as int,
        );
        let mb = spec_margin_block(ins.margin_cents as int, fill.quantity_e5 as int);
        let nb = if ins.instrument_type == InstrumentType::Futures {
            if fill.signal_name is Exit {
                h.blocked_cents - mb
            } else {
                h.blocked_cents + mb
            }
        } else {
            h.blocked_cents as int
        };
        if pnl < -MONEY_CENTS_MAX || pnl > MONEY_CENTS_MAX {
            Err(PortfolioError::Overflow)
        } else if nb < 0 {
            Err(PortfolioError::NegativeBlocked)
        } else if nb > MONEY_CENTS_MAX {
            Err(PortfolioError::Overflow)
        } else {
            Ok(
                HoldingsState {
                    pnl_cents: pnl as i64,
                    blocked_cents: nb as i64,
                    signal_name: Some(fill.signal_name),
                },
            )
        }
    }
}

/// What a fill does to one symbol's position, or why it is refused.
/// `cash_cents` is the portfolio's cash before the fill.
pub open spec fn spec_fill_position(
    p: PositionState,
    fill: FillEvent,
    cash_cents: int,
) -> Result<PositionState, PortfolioError> {
    if fill.quantity_e5 <= 0 || fill.quantity_e5 > QTY_E5_MAX {
        Err(PortfolioError::BadQuantity)
    } else {
        let newpos = p.position_e5 + fill.direction.spec_sign() * fill.quantity_e5;
        if newpos < -QTY_E5_MAX || newpos > QTY_E5_MAX {
            Err(PortfolioError::Overflow)
        } else if fill.signal_name is Exit {
            Ok(
                PositionState {
                    deal_number: p.deal_number,
                    position_e5: newpos as i64,
                    entry_capital_cents: 0,
                    entry_price_e5: None,
                },
            )
        } else if p.deal_number == usize::MAX {
            Err(PortfolioError::Overflow)
        } else {
            Ok(
                PositionState {
                    deal_number: (p.deal_number + 1) as usize,
                    position_e5: newpos as i64,
                    entry_capital_cents: cash_cents as i64,
                    entry_price_e5: Some(fill.execution_price_e5),
                },
            )
        }
    }
}

/// A flat position stays in step with its entry marks across any fill
/// whose quantity is coherent: an exit that closes the whole position,
/// or an entry that leaves a position open.
pub proof fn lemma_position_flat_iff_no_entry(
    p: PositionState,
    fill: FillEvent,
    cash_cents: int,
    p2: PositionState,
)
    requires
        p.flat_iff_no_entry(),
        spec_fill_position(p, fill, cash_cents) == Result::<PositionState, PortfolioError>::Ok(p2),
        fill.signal_name is Exit ==> p2.position_e5 == 0,
        !(fill.signal_name is Exit) ==> p2.position_e5 != 0,
    ensures
        p2.flat_iff_no_entry(),
{
}

/// Margin lock symmetry: a complete round trip, an entry followed by an
/// exit of the same quantity on the same futures instrument, leaves the
/// blocked margin exactly where it started.
pub proof fn lemma_margin_lock_symmetry(
    h0: HoldingsState,
    h1: HoldingsState,
    h2: HoldingsState,
    ins: InstrumentInfo,
    entry: FillEvent,
    exit: FillEvent,
    close1_e5: int,
    last_close1_e5: int,
    close2_e5: int,
    last_close2_e5: int,
)
    requires
        !(entry.signal_name is Exit),
        exit.signal_name is Exit,
        entry.quantity_e5 == exit.quantity_e5,
        spec_fill_holding(h0, ins, entry, close1_e5, last_close1_e5) == Result::<
            HoldingsState,
            PortfolioError,
        >::Ok(h1),
        spec_fill_holding(h1, ins, exit, close2_e5, last_close2_e5) == Result::<
            HoldingsState,
            PortfolioError,
        >::Ok(h2),
    ensures
        h2.blocked_cents == h0.blocked_cents,
{
}


/// The order built from a sized and directed signal.
pub open spec fn spec_build_order(ts: i64, sig: SignalEvent, quantity_e5: i64, dir: Direction) -> OrderEvent {
    OrderEvent {
        ts,
        symbol: sig.symbol,
        signal_name: sig.signal_name,
        order_type: sig.order_type,
        quantity_e5,
        direction: dir,
        limit_price_e5: sig.limit_price_e5,
    }
}

/// Unrealized mark of one bar: the close-to-close move through the
/// point value and the signed position, rounded to cents.
pub open spec fn spec_mark_pnl(close_e5: int, last_close_e5: int, pv_e5: int, position_e5: int) -> int {
    round_div((close_e5 - last_close_e5) * pv_e5 * position_e5, 10_000_000_000_000)
}

/// One symbol's holding after the bar close: a symbol that just filled
/// keeps its booked profit and only sheds the fresh-fill marker; any
/// other symbol is remarked close-to-close.
pub open spec fn spec_marked_one(
    h: HoldingsState,
    close_e5: int,
    last_close_e5: int,
    pv_e5: int,
    position_e5: int,
) -> HoldingsState {
    if h.signal_name is Some {
        HoldingsState { pnl_cents: h.pnl_cents, blocked_cents: h.blocked_cents, signal_name: None }
    } else {
        HoldingsState {
            pnl_cents: spec_mark_pnl(close_e5, last_close_e5, pv_e5, position_e5) as i64,
            blocked_cents: h.blocked_cents,
            signal_name: None,
        }
    }
}

/// The synthetic close-all signals a margin call emits: one market EXIT
/// per open position, in the configured symbol order, each carrying the
/// symbol's signed position as its quantity.
pub open spec fn margin_exits_from(
    syms: Seq<String>,
    pos: Seq<PositionState>,
    ts: i64,
    i: int,
) -> Seq<SignalEvent>
    decreases syms.len() - i,
{
    if i < 0 || i >= syms.len() || i >= pos.len() {
        Seq::empty()
    } else {
        let rest = margin_exits_from(syms, pos, ts, i + 1);
        if pos[i].position_e5 != 0 {
            seq![
                SignalEvent {
                    ts,
                    symbol: syms[i],
                    signal_name: SignalName::Exit,
                    order_type: crate::events::OrderType::Market,
                    quantity_e5: Some(pos[i].position_e5),
                    limit_price_e5: None,
                },
            ] + rest
        } else {
            rest
        }
    }
}

/// Lower and upper bounds of a tail sum of deal counters.
pub proof fn lemma_sum_deals_bound(p: Seq<PositionState>, i: int)
    requires
        0 <= i <= p.len(),
    ensures
        0 <= sum_deals_from(p, i) <= (p.len() - i) * (usize::MAX as int),
    decreases p.len() - i,
{
    if i < p.len() {
        lemma_sum_deals_bound(p, i + 1);
    }
}

} // verus!
