//! Configuration validation, position sizing, indicators, the fitness
//! statistics, and the decimal text helpers.

use farukon::commission::CommissionPlans;
use farukon::indicators::{highest, lowest, sma};
use farukon::instruments::{CommissionType, InstrumentInfo, InstrumentType};
use farukon::optimization::{calculate_fitness_score, GAConfig, GeneticAlgorythm, ParameterSet};
use farukon::performance::PerformanceMetrics;
use farukon::params::ParamValue;
use farukon::pos_sizers::{get_pos_sizer_from_settings, plain_pos_sizer};
use farukon::settings::{
    CommonSettings, DataSettings, FitnessDirection, FitnessParams, FitnessValue, GAParams,
    MarginParams, MetricsMode, Mode, OptimizerType, PortfolioSettingsForStrategy, PosSizer,
    Settings, SettingsError, StrategySettings,
};
use farukon::text::{format_cents, format_ratio_e9, parse_scaled_e5};

fn instrument() -> InstrumentInfo {
    InstrumentInfo {
        exchange: String::from("FORTS"),
        instrument_type: InstrumentType::Futures,
        contract_precision: 0,
        margin_cents: 100_000,
        commission_type: CommissionType::Currency,
        trade_from_ts: 0,
        expiration_ts: 10_000_000,
        marginal_costs_cents: 0,
        step_e5: 100_000,
        step_price_e5: 100_000,
    }
}

fn valid_settings() -> StrategySettings {
    StrategySettings {
        threads: Some(2),
        strategy_name: String::from("channel"),
        strategy_path: String::new(),
        exit_results_path: String::from("results"),
        strategy_weight_e5: 100_000,
        slippage_e5: vec![100],
        data: DataSettings { data_path: String::new(), timeframe: String::from("1d") },
        symbol_base_name: String::from("SYM"),
        symbols: vec![String::from("SYM")],
        strategy_params: vec![(String::from("a"), vec![ParamValue::Int(3)])],
        pos_sizer_params: PosSizer {
            pos_sizer_name: String::from("mpr"),
            pos_sizer_params: Vec::new(),
            pos_sizer_value_e5: vec![200_000],
        },
        margin_params: MarginParams { min_margin_e5: 50_000, margin_call_type: String::from("close_all") },
        portfolio_settings_for_strategy: PortfolioSettingsForStrategy {
            metrics_calculation_mode: MetricsMode::Offline,
        },
        optimizer_type: OptimizerType::GridSearch,
        commission_plans: None,
    }
}

#[test]
fn settings_validation_accepts_and_refuses() {
    assert!(valid_settings().validate().is_ok());
    let mut bad = valid_settings();
    bad.threads = Some(0);
    assert_eq!(bad.validate(), Err(SettingsError::ZeroThreads));
    let mut bad = valid_settings();
    bad.data.timeframe = String::from("6min");
    assert_eq!(bad.validate(), Err(SettingsError::BadTimeframe));
    let mut bad = valid_settings();
    bad.symbols = Vec::new();
    assert_eq!(bad.validate(), Err(SettingsError::EmptySymbols));
    let mut bad = valid_settings();
    bad.pos_sizer_params.pos_sizer_name = String::from("martingale");
    assert_eq!(bad.validate(), Err(SettingsError::BadPosSizerName));
    let mut bad = valid_settings();
    bad.pos_sizer_params.pos_sizer_name = String::from("1");
    assert_eq!(bad.validate(), Err(SettingsError::PlainSizerWithValues));
    let mut bad = valid_settings();
    bad.pos_sizer_params.pos_sizer_value_e5 = Vec::new();
    assert_eq!(bad.validate(), Err(SettingsError::EmptySizerValues));
    let mut bad = valid_settings();
    bad.pos_sizer_params.pos_sizer_value_e5 = vec![0];
    assert_eq!(bad.validate(), Err(SettingsError::NonPositiveSizerValue));
    let mut bad = valid_settings();
    bad.slippage_e5 = Vec::new();
    assert_eq!(bad.validate(), Err(SettingsError::EmptySlippage));
    let mut bad = valid_settings();
    bad.strategy_params = vec![(String::from("a"), Vec::new())];
    assert_eq!(bad.validate(), Err(SettingsError::EmptyParamRange));
    let mut bad = valid_settings();
    bad.strategy_params = vec![(String::from("a"), vec![ParamValue::Int(0)])];
    assert_eq!(bad.validate(), Err(SettingsError::NonPositiveParamValue));
    let mut bad = valid_settings();
    bad.exit_results_path = String::new();
    assert_eq!(bad.validate(), Err(SettingsError::EmptyExitPath));
    let mut bad = valid_settings();
    bad.optimizer_type = OptimizerType::Genetic {
        ga_params: GAParams {
            population_size: 0,
            p_crossover_e5: 0,
            p_mutation_e5: 0,
            max_generations: 1,
            fitness_params: FitnessParams {
                fitness_direction: FitnessDirection::Max,
                fitness_value: FitnessValue::TotalReturn,
            },
        },
    };
    assert_eq!(bad.validate(), Err(SettingsError::ZeroPopulation));
}

#[test]
fn whole_configuration_check() {
    let settings = Settings {
        common: CommonSettings { mode: Mode::Optimize, initial_capital_cents: 1_000_000 },
        portfolio: vec![(String::from("s1"), valid_settings())],
    };
    assert!(settings.check_args().is_ok());
    let bad = Settings {
        common: CommonSettings { mode: Mode::Optimize, initial_capital_cents: 0 },
        portfolio: Vec::new(),
    };
    assert_eq!(bad.check_args(), Err(SettingsError::BadInitialCapital));
}

#[test]
fn plain_sizer_is_one_contract() {
    let settings = valid_settings();
    assert_eq!(plain_pos_sizer(100, &settings, &instrument()), Some(100_000));
}

#[test]
fn mpr_sizes_by_gross_risk() {
    // Risking 2% of 10000.00 is 200.00; a 10-point stop on a unit point
    // value risks 10.00 per contract with a 0.50 commission each way:
    // 200 / 11 floors to 18 whole contracts.
    let mut settings = valid_settings();
    settings.commission_plans = Some(CommissionPlans {
        exchanges: vec![(
            String::from("FORTS"),
            vec![(String::from("default"), vec![(CommissionType::Currency, 50_000)])],
        )],
    });
    let q = get_pos_sizer_from_settings(
        Some(1_000_000),
        Some(100 * 100_000),
        Some(90 * 100_000),
        &settings,
        &instrument(),
    );
    assert_eq!(q, Some(18 * 100_000));
    // The plain sizer ignores the prices entirely.
    let mut plain = valid_settings();
    plain.pos_sizer_params.pos_sizer_name = String::from("1");
    plain.pos_sizer_params.pos_sizer_value_e5 = vec![1];
    let q = get_pos_sizer_from_settings(None, Some(100), None, &plain, &instrument());
    assert_eq!(q, Some(100_000));
    // An unpriced exchange yields no size.
    let mut foreign = settings;
    foreign.pos_sizer_params.pos_sizer_name = String::from("mpr");
    let mut other = instrument();
    other.exchange = String::from("ELSEWHERE");
    let q = get_pos_sizer_from_settings(
        Some(1_000_000),
        Some(100 * 100_000),
        Some(90 * 100_000),
        &foreign,
        &other,
    );
    assert_eq!(q, None);
}

#[test]
fn indicator_windows() {
    let closes: Vec<i64> = vec![100, 200, 300, 400];
    assert_eq!(sma(&closes, 2), Some(350));
    assert_eq!(sma(&closes, 4), Some(250));
    assert_eq!(sma(&closes, 5), None);
    assert_eq!(sma(&closes, 0), None);
    let highs: Vec<Option<i64>> = vec![Some(5), None, Some(9), Some(7), Some(6)];
    assert_eq!(highest(&highs, 3, 0), Some(9));
    // A gap anywhere in the channel window invalidates the reading.
    assert_eq!(highest(&highs, 3, 2), None);
    assert_eq!(highest(&highs, 2, 3), None);
    assert_eq!(highest(&highs, 5, 1), None);
    // The lowest merely skips gaps.
    assert_eq!(lowest(&highs, 3, 0), Some(6));
    assert_eq!(lowest(&highs, 2, 3), Some(5));
    let empty_window: Vec<Option<i64>> = vec![None, None];
    assert_eq!(highest(&empty_window, 2, 0), None);
    assert_eq!(lowest(&empty_window, 2, 0), None);
}

#[test]
fn generation_statistics() {
    let ga = GeneticAlgorythm::new().with_ga_config(GAConfig::new());
    let (mean, best, worst) = ga.calculate_stats(&vec![10, -4, 6]);
    assert_eq!(best, 10);
    assert_eq!(worst, -4);
    assert_eq!(mean, 4);
    let (mean, best, worst) = ga.calculate_stats(&Vec::new());
    assert_eq!((mean, best, worst), (0, 0, 0));
    let id = ga.create_chromosome_id_for_display(
        &ParameterSet::new()
            .with_strategy_params(vec![(String::from("a"), ParamValue::Int(4))])
            .with_pos_sizer_value(50_000)
            .with_slippage(100),
    );
    assert_eq!(id.len(), 3);
    assert_eq!(id[0], "a:i4");
}

#[test]
fn scaled_text_round_trips_and_refusals() {
    for v in [0i64, 1, -1, 100, -250_000, 123_456_789, i64::MAX, i64::MIN + 1] {
        let shown = farukon::text::format_scaled_e5(v);
        assert_eq!(parse_scaled_e5(&shown), Some(v));
    }
    assert_eq!(parse_scaled_e5(""), None);
    assert_eq!(parse_scaled_e5("1.0"), None);
    assert_eq!(parse_scaled_e5("abc.00000"), None);
    assert_eq!(parse_scaled_e5("1.00a00"), None);
    assert_eq!(parse_scaled_e5("92233720368547.75808"), None);
    assert_eq!(parse_scaled_e5("-92233720368547.75808"), Some(i64::MIN));
    assert_eq!(format_cents(-12_345), "-123.45");
    assert_eq!(format_cents(7), "0.07");
    assert_eq!(format_ratio_e9(1_200_000_000), "1.200000000");
}

#[test]
fn fitness_scoring() {
    let metrics = PerformanceMetrics {
        total_return_cents: 3_000,
        total_return_pct_e9: 300_000_000,
        apr_e9: 300_000_000,
        max_drawdown_e9: -250_000_000,
        apr_to_drawdown_ratio_e9: 1_200_000_000,
        recovery_factor_e9: 1_200_000_000,
        deals_count: 7,
    };
    assert_eq!(
        calculate_fitness_score(&metrics, &FitnessValue::TotalReturn, FitnessDirection::Max),
        3_000
    );
    assert_eq!(
        calculate_fitness_score(&metrics, &FitnessValue::TotalReturn, FitnessDirection::Min),
        -3_000
    );
    assert_eq!(
        calculate_fitness_score(&metrics, &FitnessValue::MaxDD, FitnessDirection::Max),
        -250_000_000
    );
    // Composite of APR and the negated drawdown: (0.3 + 0.25) / 2.
    let composite = FitnessValue::Composite {
        metrics: vec![
            farukon::settings::CompositeMetric::Apr,
            farukon::settings::CompositeMetric::MaxDD,
        ],
    };
    assert_eq!(
        calculate_fitness_score(&metrics, &composite, FitnessDirection::Max),
        275_000_000
    );
    let empty = FitnessValue::Composite { metrics: Vec::new() };
    assert_eq!(calculate_fitness_score(&metrics, &empty, FitnessDirection::Max), 0);
}
