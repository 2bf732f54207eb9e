//! Unit checks of the components: instrument validation, commission
//! arithmetic, sizing, execution pricing, fill accounting and its
//! refusals, and the risk controls.

use farukon::commission::{calculate_forts_comission, CommissionPlans};
use farukon::data_handler::{BarField, DataHandler, InMemoryDataHandler, MarketBar};
use farukon::events::{Direction, FillEvent, OrderEvent, OrderType, SignalEvent, SignalName};
use farukon::execution::{ExecutionError, SimulatedExecutionHandler};
use farukon::instruments::{
    CommissionType, InstrumentInfo, InstrumentType, InstrumentsInfoRegistry, ValidationError,
};
use farukon::portfolio::{HoldingSnapshot, Portfolio, PortfolioError};
use farukon::risks::{margin_call_control_for_market, margin_call_control_for_signal};
use farukon::settings::MetricsMode;
use farukon::utils::calculate_max_available_quantity;

fn instrument() -> InstrumentInfo {
    InstrumentInfo {
        exchange: String::from("FORTS"),
        instrument_type: InstrumentType::Futures,
        contract_precision: 0,
        margin_cents: 100_000,
        commission_type: CommissionType::Currency,
        trade_from_ts: 0,
        expiration_ts: 10_000_000,
        marginal_costs_cents: 0,
        step_e5: 100_000,
        step_price_e5: 100_000,
    }
}

#[test]
fn instrument_validation_accepts_and_refuses() {
    assert!(instrument().validate().is_ok());
    let mut bad = instrument();
    bad.margin_cents = 0;
    assert_eq!(bad.validate(), Err(ValidationError::NonPositiveMargin));
    let mut bad = instrument();
    bad.step_e5 = -1;
    assert_eq!(bad.validate(), Err(ValidationError::NonPositiveStep));
    let mut bad = instrument();
    bad.step_price_e5 = 0;
    assert_eq!(bad.validate(), Err(ValidationError::NonPositiveStepPrice));
    let mut bad = instrument();
    bad.marginal_costs_cents = -5;
    assert_eq!(bad.validate(), Err(ValidationError::NegativeMarginalCosts));
    let mut bad = instrument();
    bad.contract_precision = 6;
    assert_eq!(bad.validate(), Err(ValidationError::PrecisionTooLarge));
    let mut bad = instrument();
    bad.step_e5 = 10_000_000_000_000;
    bad.step_price_e5 = 1;
    assert_eq!(bad.validate(), Err(ValidationError::ZeroPointValue));
}

#[test]
fn point_value_is_rounded_to_five_decimals() {
    // A contract whose step of 10 is worth 14.73394 in currency.
    let mut ins = instrument();
    ins.step_e5 = 10 * 100_000;
    ins.step_price_e5 = 1_473_394;
    assert_eq!(ins.point_value_e5(), 147_339);
}

#[test]
fn registry_resolves_contracts() {
    let registry = InstrumentsInfoRegistry {
        groups: vec![(
            String::from("SYM"),
            vec![(String::from("SYM-1"), instrument())],
        )],
    };
    assert!(registry.get_instrument_info("SYM-1").is_some());
    assert!(registry.get_instrument_info("OTHER").is_none());
    let resolved = registry
        .get_instrument_info_for_strategy(&vec![String::from("SYM-1")])
        .expect("resolves");
    assert_eq!(resolved.len(), 1);
    assert_eq!(resolved[0].0, "SYM-1");
    let missing = registry.get_instrument_info_for_strategy(&vec![String::from("NOPE")]);
    assert_eq!(missing.unwrap_err(), "NOPE");
}

#[test]
fn commission_per_contract() {
    // A half-percent rate on a 100.00 price with a unit point value:
    // base 100.00, commission 0.50.
    let plans = CommissionPlans {
        exchanges: vec![(
            String::from("FORTS"),
            vec![(String::from("default"), vec![(CommissionType::Currency, 50_000)])],
        )],
    };
    let c = calculate_forts_comission(100 * 100_000, &instrument(), &plans);
    assert_eq!(c, Some(50));
    assert_eq!(
        plans.get_commission("FORTS", CommissionType::Currency, "default"),
        Some(50_000)
    );
    assert_eq!(plans.get_commission("FORTS", CommissionType::Percent, "default"), None);
    // No positive rate means no commission.
    let empty = CommissionPlans { exchanges: Vec::new() };
    assert_eq!(calculate_forts_comission(100 * 100_000, &instrument(), &empty), None);
}

#[test]
fn quantity_capped_by_cash() {
    // 2500.00 of cash against a 1000.00 margin buys at most two whole
    // contracts.
    let q = calculate_max_available_quantity(250_000, 10 * 100_000, &instrument());
    assert_eq!(q, 2 * 100_000);
    // A request below the cap passes unchanged.
    let q = calculate_max_available_quantity(250_000, 100_000, &instrument());
    assert_eq!(q, 100_000);
    // Nothing affordable floors to zero and lifts to one tick.
    let q = calculate_max_available_quantity(50_000, 100_000, &instrument());
    assert_eq!(q, 100_000);
}

fn order(order_type: OrderType, direction: Direction, limit: Option<i64>) -> OrderEvent {
    OrderEvent {
        ts: 0,
        symbol: String::from("SYM"),
        signal_name: SignalName::Long,
        order_type,
        quantity_e5: 100_000,
        direction,
        limit_price_e5: limit,
    }
}

fn a_bar() -> MarketBar {
    MarketBar {
        ts: 86_400,
        open_e5: 100 * 100_000,
        high_e5: 101 * 100_000,
        low_e5: 99 * 100_000,
        close_e5: 100 * 100_000,
        volume: 10,
    }
}

#[test]
fn execution_pricing_rules() {
    let exec = SimulatedExecutionHandler::new();
    let ins = instrument();
    let slippage = vec![1_000i64];  // one percent
    // Market buy: (1 + s) * high = 1.01 * 101 = 102.01.
    let fill = exec
        .execute_order(&order(OrderType::Market, Direction::Buy, None), &ins, &slippage, None, &a_bar(), 1)
        .unwrap()
        .unwrap();
    assert_eq!(fill.execution_price_e5, 10_201_000);
    assert_eq!(fill.commission_cents, 0);
    // Market sell: (1 - s) * low = 0.99 * 99 = 98.01.
    let fill = exec
        .execute_order(&order(OrderType::Market, Direction::Sell, None), &ins, &slippage, None, &a_bar(), 1)
        .unwrap()
        .unwrap();
    assert_eq!(fill.execution_price_e5, 9_801_000);
    // Touched limit buy fills at the limit.
    let fill = exec
        .execute_order(
            &order(OrderType::Limit, Direction::Buy, Some(99 * 100_000)),
            &ins,
            &slippage,
            None,
            &a_bar(),
            1,
        )
        .unwrap()
        .unwrap();
    assert_eq!(fill.execution_price_e5, 99 * 100_000);
    // Untouched limit buy produces no fill.
    let nothing = exec
        .execute_order(
            &order(OrderType::Limit, Direction::Buy, Some(98 * 100_000)),
            &ins,
            &slippage,
            None,
            &a_bar(),
            1,
        )
        .unwrap();
    assert!(nothing.is_none());
    // A slippage list that is not a single value is refused.
    let r = exec.execute_order(
        &order(OrderType::Market, Direction::Buy, None),
        &ins,
        &vec![0, 0],
        None,
        &a_bar(),
        1,
    );
    assert_eq!(r.unwrap_err(), ExecutionError::SlippageShape);
    // A whole unit of slippage is refused.
    let r = exec.execute_order(
        &order(OrderType::Market, Direction::Buy, None),
        &ins,
        &vec![100_000],
        None,
        &a_bar(),
        1,
    );
    assert_eq!(r.unwrap_err(), ExecutionError::BadSlippage);
    // A zero quantity is refused.
    let mut zero_q = order(OrderType::Market, Direction::Buy, None);
    zero_q.quantity_e5 = 0;
    let r = exec.execute_order(&zero_q, &ins, &vec![0], None, &a_bar(), 1);
    assert_eq!(r.unwrap_err(), ExecutionError::BadQuantity);
}

fn fill(signal_name: SignalName, direction: Direction, qty_e5: i64, exec_e5: i64, comm: i64) -> FillEvent {
    FillEvent {
        ts: 86_400,
        symbol: String::from("SYM"),
        exchange: String::from("FORTS"),
        quantity_e5: qty_e5,
        direction,
        execution_price_e5: exec_e5,
        commission_cents: comm,
        signal_name,
    }
}

fn fresh_portfolio() -> Portfolio {
    Portfolio::new(
        1_000_000,
        vec![String::from("SYM")],
        vec![instrument()],
        0,
        MetricsMode::Offline,
    )
}

#[test]
fn fill_accounting_and_refusals() {
    let mut p = fresh_portfolio();
    // A buy entry: position, deal counter, entry marks, blocked margin
    // and realized leg against the close.
    let entry = fill(SignalName::Long, Direction::Buy, 100_000, 101 * 100_000, 25);
    p.update_fill(&entry, 100 * 100_000, 100 * 100_000).expect("entry books");
    assert_eq!(p.current_positions[0].position_e5, 100_000);
    assert_eq!(p.current_positions[0].deal_number, 1);
    assert_eq!(p.current_positions[0].entry_price_e5, Some(101 * 100_000));
    // (100 - 101) * 1.0 * 1 = -1.00, minus 0.25 commission.
    assert_eq!(p.current_holdings[0].pnl_cents, -125);
    assert_eq!(p.current_holdings[0].blocked_cents, 100_000);
    // Unknown symbols are refused.
    let mut stranger = entry.clone();
    stranger.symbol = String::from("OTHER");
    assert_eq!(
        p.update_fill(&stranger, 0, 0),
        Err(PortfolioError::UnknownSymbol)
    );
    // Out-of-band prices are refused.
    let r = p.update_holdings_from_fill(&entry, i64::MAX, 0);
    assert_eq!(r, Err(PortfolioError::BadPrice));
    // Negative commissions are refused.
    let bad_comm = fill(SignalName::Long, Direction::Buy, 100_000, 101 * 100_000, -1);
    assert_eq!(
        p.update_holdings_from_fill(&bad_comm, 100 * 100_000, 100 * 100_000),
        Err(PortfolioError::BadCommission)
    );
    // A zero quantity is refused.
    let zero = fill(SignalName::Long, Direction::Buy, 0, 101 * 100_000, 0);
    assert_eq!(
        p.update_fill(&zero, 100 * 100_000, 100 * 100_000),
        Err(PortfolioError::BadQuantity)
    );
}

#[test]
fn margin_lock_symmetry_over_round_trip() {
    let mut p = fresh_portfolio();
    let before = p.current_holdings[0].blocked_cents;
    let entry = fill(SignalName::Long, Direction::Buy, 100_000, 101 * 100_000, 0);
    p.update_fill(&entry, 100 * 100_000, 100 * 100_000).expect("entry");
    assert_eq!(p.current_holdings[0].blocked_cents, before + 100_000);
    let exit = fill(SignalName::Exit, Direction::Sell, 100_000, 103 * 100_000, 0);
    p.update_fill(&exit, 105 * 100_000, 104 * 100_000).expect("exit");
    // The round trip leaves blocked margin exactly where it started.
    assert_eq!(p.current_holdings[0].blocked_cents, before);
    // And the flat position carries no entry marks.
    assert_eq!(p.current_positions[0].position_e5, 0);
    assert!(p.current_positions[0].entry_price_e5.is_none());
    assert_eq!(p.current_positions[0].entry_capital_cents, 0);
}

#[test]
fn unblocking_below_zero_is_refused() {
    let mut p = fresh_portfolio();
    let exit = fill(SignalName::Exit, Direction::Sell, 100_000, 103 * 100_000, 0);
    // Nothing was blocked, so releasing margin must be refused.
    let r = p.update_holdings_from_fill(&exit, 105 * 100_000, 104 * 100_000);
    assert_eq!(r, Err(PortfolioError::NegativeBlocked));
}

fn snapshot(capital: i64, cash: i64) -> HoldingSnapshot {
    HoldingSnapshot { ts: 0, capital_cents: capital, cash_cents: cash, blocked_cents: 0, holdings: Vec::new() }
}

#[test]
fn risk_checks() {
    let sig = SignalEvent {
        ts: 0,
        symbol: String::from("SYM"),
        signal_name: SignalName::Long,
        order_type: OrderType::Market,
        quantity_e5: Some(100_000),
        limit_price_e5: None,
    };
    // Entry needs capital strictly above the initial margin.
    assert!(margin_call_control_for_signal(100_000, &snapshot(100_001, 0), &sig, &instrument()));
    assert!(!margin_call_control_for_signal(100_000, &snapshot(100_000, 0), &sig, &instrument()));
    // Exits always pass.
    let mut exit_sig = sig;
    exit_sig.signal_name = SignalName::Exit;
    assert!(margin_call_control_for_signal(100_000, &snapshot(0, 0), &exit_sig, &instrument()));
    // Maintenance passes on non-negative cash and trips below the
    // fraction of locked entry capital.
    let mut positions = Vec::new();
    positions.push(farukon::portfolio::PositionState {
        deal_number: 1,
        position_e5: 100_000,
        entry_capital_cents: 500_000,
        entry_price_e5: Some(100 * 100_000),
    });
    let instruments = vec![instrument()];
    assert!(margin_call_control_for_market(&snapshot(190_000, 10), &positions, &instruments, 100_000));
    assert!(!margin_call_control_for_market(&snapshot(190_000, -10), &positions, &instruments, 100_000));
    assert!(margin_call_control_for_market(&snapshot(500_000, -10), &positions, &instruments, 100_000));
    // A zero fraction never trips while capital is non-negative.
    assert!(margin_call_control_for_market(&snapshot(0, -10), &positions, &instruments, 0));
}

#[test]
fn in_memory_handler_windows() {
    let bars = vec![vec![a_bar(), MarketBar { ts: 172_800, ..a_bar() }]];
    let mut h = InMemoryDataHandler::new(vec![String::from("SYM")], bars, 2);
    assert!(h.get_latest_bar("SYM").is_none());
    assert!(h.get_continue_backtest());
    h.update_bars();
    assert_eq!(h.get_latest_bar("SYM").unwrap().ts, 86_400);
    assert_eq!(h.get_latest_bars_values("SYM", BarField::Close, 2), vec![100 * 100_000]);
    h.update_bars();
    assert_eq!(h.get_latest_bar_datetime("SYM"), Some(172_800));
    assert_eq!(
        h.get_latest_bars_values("SYM", BarField::Close, 2),
        vec![100 * 100_000, 100 * 100_000]
    );
    assert!(!h.get_continue_backtest());
    assert!(h.get_latest_bar("OTHER").is_none());
}

#[test]
fn event_accessors_expose_only_their_kind() {
    let sig = SignalEvent {
        ts: 5,
        symbol: String::from("SYM"),
        signal_name: SignalName::Short,
        order_type: OrderType::Market,
        quantity_e5: None,
        limit_price_e5: None,
    };
    let ev = farukon::events::Event::Signal(sig);
    assert_eq!(ev.event_type(), "SIGNAL");
    assert!(ev.get_signal_event_params().is_some());
    assert!(ev.get_order_event_params().is_none());
    assert!(ev.get_fill_event_params().is_none());
    let ev = farukon::events::Event::Market(farukon::events::MarketEvent::new());
    assert_eq!(ev.event_type(), "MARKET");
    assert!(ev.get_signal_event_params().is_none());
}
