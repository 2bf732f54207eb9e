//! End-to-end simulations: a profitable round trip, an untouched limit
//! order, a maintenance margin call, and the zero-fraction margin rule.

use farukon::backtest::Backtest;
use farukon::data_handler::{InMemoryDataHandler, MarketBar};
use farukon::events::{OrderType, SignalEvent, SignalName};
use farukon::execution::SimulatedExecutionHandler;
use farukon::instruments::{CommissionType, InstrumentInfo, InstrumentType};
use farukon::portfolio::Portfolio;
use farukon::settings::{
    DataSettings, MarginParams, MetricsMode, OptimizerType, PortfolioSettingsForStrategy,
    PosSizer, StrategySettings,
};
use farukon::params::ParamValue;
use farukon::strategy::{ChannelBreakoutStrategy, ScriptedStrategy};

fn test_instrument(margin_cents: i64) -> InstrumentInfo {
    InstrumentInfo {
        exchange: String::from("FORTS"),
        instrument_type: InstrumentType::Futures,
        contract_precision: 0,
        margin_cents,
        commission_type: CommissionType::Currency,
        trade_from_ts: 0,
        expiration_ts: 10_000_000,
        marginal_costs_cents: 0,
        step_e5: 100_000,
        step_price_e5: 100_000,
    }
}

fn test_settings(symbols: Vec<String>) -> StrategySettings {
    StrategySettings {
        threads: Some(1),
        strategy_name: String::from("scripted"),
        strategy_path: String::new(),
        exit_results_path: String::from("results"),
        strategy_weight_e5: 100_000,
        slippage_e5: vec![0],
        data: DataSettings { data_path: String::new(), timeframe: String::from("1d") },
        symbol_base_name: String::from("SYM"),
        symbols,
        strategy_params: Vec::new(),
        pos_sizer_params: PosSizer {
            pos_sizer_name: String::from("1"),
            pos_sizer_params: Vec::new(),
            pos_sizer_value_e5: Vec::new(),
        },
        margin_params: MarginParams { min_margin_e5: 0, margin_call_type: String::from("close_all") },
        portfolio_settings_for_strategy: PortfolioSettingsForStrategy {
            metrics_calculation_mode: MetricsMode::Offline,
        },
        optimizer_type: OptimizerType::GridSearch,
        commission_plans: None,
    }
}

fn bar(ts: i64, o: i64, h: i64, l: i64, c: i64) -> MarketBar {
    MarketBar { ts, open_e5: o, high_e5: h, low_e5: l, close_e5: c, volume: 0 }
}

fn market_signal(symbol: &str, name: SignalName, qty_e5: i64) -> SignalEvent {
    SignalEvent {
        ts: 0,
        symbol: String::from(symbol),
        signal_name: name,
        order_type: OrderType::Market,
        quantity_e5: Some(qty_e5),
        limit_price_e5: None,
    }
}

#[test]
fn single_long_profitable_exit() {
    // Three daily bars; a market entry on the first day fills at its
    // high, the exit on the third day at its low.
    let symbols = vec![String::from("SYM")];
    let bars = vec![vec![
        bar(86_400, 100 * 100_000, 101 * 100_000, 99 * 100_000, 100 * 100_000),
        bar(172_800, 100 * 100_000, 105 * 100_000, 100 * 100_000, 104 * 100_000),
        bar(259_200, 104 * 100_000, 106 * 100_000, 103 * 100_000, 105 * 100_000),
    ]];
    let handler = InMemoryDataHandler::new(symbols.clone(), bars, 3);
    let script = vec![
        vec![market_signal("SYM", SignalName::Long, 100_000)],
        vec![],
        vec![market_signal("SYM", SignalName::Exit, 100_000)],
    ];
    let strategy = ScriptedStrategy::new(script);
    let portfolio = Portfolio::new(
        1_000_000,
        symbols.clone(),
        vec![test_instrument(100_000)],
        0,
        MetricsMode::Offline,
    );
    let mut backtest = Backtest::new(
        test_settings(symbols),
        handler,
        strategy,
        portfolio,
        SimulatedExecutionHandler::new(),
    );
    let metrics = backtest.simulate_trading().expect("run");
    // Exec-to-exec profit: bought at 101, sold at 103, one contract.
    assert_eq!(metrics.total_return_cents, 200);
    assert_eq!(metrics.deals_count, 1);
    // Round trip leaves the position flat with no entry marks (the
    // flat-iff-no-entry invariant) and no blocked margin.
    let p = &backtest.portfolio.current_positions[0];
    assert_eq!(p.position_e5, 0);
    assert!(p.entry_price_e5.is_none());
    assert_eq!(p.entry_capital_cents, 0);
    assert_eq!(backtest.portfolio.current_holdings[0].blocked_cents, 0);
    // Cash identity on the last snapshot.
    let snap = backtest.portfolio.get_latest_holdings().expect("snapshot");
    assert_eq!(snap.cash_cents, snap.capital_cents - snap.blocked_cents);
    assert_eq!(snap.capital_cents, 1_000_200);
    // Per-bar equity decomposition.
    let capitals: Vec<i64> = backtest.portfolio.equity_series.iter().map(|p| p.1).collect();
    assert_eq!(capitals, vec![999_900, 1_000_300, 1_000_200]);
}

#[test]
fn limit_not_hit_produces_no_fill() {
    let symbols = vec![String::from("SYM")];
    let bars = vec![vec![
        bar(86_400, 100 * 100_000, 101 * 100_000, 99 * 100_000, 100 * 100_000),
        bar(172_800, 100 * 100_000, 105 * 100_000, 100 * 100_000, 104 * 100_000),
    ]];
    let handler = InMemoryDataHandler::new(symbols.clone(), bars, 2);
    let limit_signal = SignalEvent {
        ts: 0,
        symbol: String::from("SYM"),
        signal_name: SignalName::Long,
        order_type: OrderType::Limit,
        quantity_e5: Some(100_000),
        limit_price_e5: Some(98 * 100_000),
    };
    let strategy = ScriptedStrategy::new(vec![vec![limit_signal], vec![]]);
    let portfolio = Portfolio::new(
        1_000_000,
        symbols.clone(),
        vec![test_instrument(100_000)],
        0,
        MetricsMode::Offline,
    );
    let mut backtest = Backtest::new(
        test_settings(symbols),
        handler,
        strategy,
        portfolio,
        SimulatedExecutionHandler::new(),
    );
    let metrics = backtest.simulate_trading().expect("run");
    assert_eq!(metrics.total_return_cents, 0);
    assert_eq!(metrics.deals_count, 0);
    let p = &backtest.portfolio.current_positions[0];
    assert_eq!(p.position_e5, 0);
    assert!(p.entry_price_e5.is_none());
    assert_eq!(backtest.portfolio.current_holdings[0].blocked_cents, 0);
}

fn two_symbol_margin_run(min_margin_e5: i64) -> Backtest<InMemoryDataHandler, ScriptedStrategy> {
    let symbols = vec![String::from("AAA"), String::from("BBB")];
    let mk_bars = || {
        vec![
            bar(86_400, 1000 * 100_000, 1000 * 100_000, 1000 * 100_000, 1000 * 100_000),
            bar(172_800, 700 * 100_000, 700 * 100_000, 700 * 100_000, 700 * 100_000),
            bar(259_200, 700 * 100_000, 700 * 100_000, 700 * 100_000, 700 * 100_000),
        ]
    };
    let handler = InMemoryDataHandler::new(symbols.clone(), vec![mk_bars(), mk_bars()], 3);
    let script = vec![
        vec![
            market_signal("AAA", SignalName::Long, 100_000),
            market_signal("BBB", SignalName::Long, 100_000),
        ],
        vec![],
        vec![],
    ];
    let strategy = ScriptedStrategy::new(script);
    let portfolio = Portfolio::new(
        250_000,
        symbols.clone(),
        vec![test_instrument(100_000), test_instrument(100_000)],
        min_margin_e5,
        MetricsMode::Offline,
    );
    Backtest::new(
        test_settings(symbols),
        handler,
        strategy,
        portfolio,
        SimulatedExecutionHandler::new(),
    )
}

#[test]
fn maintenance_margin_call_closes_all() {
    // Both futures are entered on the first bar; the second bar's drop
    // drives cash negative and capital below the maintenance fraction
    // of the locked entry capital, so both positions are closed on the
    // third bar.
    let mut backtest = two_symbol_margin_run(100_000);
    backtest.simulate_trading().expect("run");
    for p in backtest.portfolio.current_positions.iter() {
        assert_eq!(p.position_e5, 0);
        assert!(p.entry_price_e5.is_none());
    }
    for h in backtest.portfolio.current_holdings.iter() {
        assert_eq!(h.blocked_cents, 0);
    }
}

#[test]
fn zero_maintenance_fraction_never_calls() {
    // With a maintenance fraction of zero and non-negative capital the
    // maintenance check never fires, so the positions stay open through
    // the same drop.
    let mut backtest = two_symbol_margin_run(0);
    backtest.simulate_trading().expect("run");
    for p in backtest.portfolio.current_positions.iter() {
        assert_eq!(p.position_e5, 100_000);
        assert!(p.entry_price_e5.is_some());
    }
    for h in backtest.portfolio.current_holdings.iter() {
        assert_eq!(h.blocked_cents, 100_000);
    }
}

#[test]
fn identical_inputs_give_identical_metrics() {
    // Two runs over the same inputs are bit-identical: the kernel holds
    // no clock and walks symbols in their configured order.
    let run = || {
        let symbols = vec![String::from("SYM")];
        let bars = vec![vec![
            bar(86_400, 100 * 100_000, 101 * 100_000, 99 * 100_000, 100 * 100_000),
            bar(172_800, 100 * 100_000, 105 * 100_000, 100 * 100_000, 104 * 100_000),
            bar(259_200, 104 * 100_000, 106 * 100_000, 103 * 100_000, 105 * 100_000),
        ]];
        let handler = InMemoryDataHandler::new(symbols.clone(), bars, 3);
        let script = vec![
            vec![market_signal("SYM", SignalName::Long, 100_000)],
            vec![],
            vec![market_signal("SYM", SignalName::Exit, 100_000)],
        ];
        let strategy = ScriptedStrategy::new(script);
        let portfolio = Portfolio::new(
            1_000_000,
            symbols.clone(),
            vec![test_instrument(100_000)],
            0,
            MetricsMode::Offline,
        );
        let mut backtest = Backtest::new(
            test_settings(symbols),
            handler,
            strategy,
            portfolio,
            SimulatedExecutionHandler::new(),
        );
        backtest.simulate_trading().expect("run")
    };
    let first = run();
    let second = run();
    assert_eq!(first, second);
}

#[test]
fn channel_breakout_trades_a_breakout() {
    let symbols = vec![String::from("SYM")];
    let flat = |d: i64| bar(d * 86_400, 100 * 100_000, 100 * 100_000, 100 * 100_000, 100 * 100_000);
    let bars = vec![vec![
        flat(1),
        flat(2),
        flat(3),
        flat(4),
        bar(5 * 86_400, 100 * 100_000, 110 * 100_000, 100 * 100_000, 110 * 100_000),
        bar(6 * 86_400, 80 * 100_000, 80 * 100_000, 80 * 100_000, 80 * 100_000),
    ]];
    let handler = InMemoryDataHandler::new(symbols.clone(), bars, 6);
    let mut settings = test_settings(symbols.clone());
    settings.strategy_params = vec![
        (String::from("channel_period"), vec![ParamValue::Int(3)]),
        (String::from("sma_period"), vec![ParamValue::Int(2)]),
        (String::from("shift"), vec![ParamValue::Int(1)]),
    ];
    let strategy = ChannelBreakoutStrategy::from_settings(&settings);
    assert_eq!(strategy.channel_period, 3);
    assert_eq!(strategy.sma_period, 2);
    assert_eq!(strategy.shift, 1);
    let portfolio = Portfolio::new(
        10_000_000,
        symbols,
        vec![test_instrument(100_000)],
        0,
        MetricsMode::Offline,
    );
    let mut backtest = Backtest::new(
        settings,
        handler,
        strategy,
        portfolio,
        SimulatedExecutionHandler::new(),
    );
    let metrics = backtest.simulate_trading().expect("run");
    // One round trip: bought the breakout at 110, closed at 80.
    assert_eq!(metrics.deals_count, 1);
    assert_eq!(metrics.total_return_cents, -3_000);
    assert_eq!(backtest.portfolio.current_positions[0].position_e5, 0);
}
