//! Combination generation, grid search exhaustiveness, the genetic
//! run's fitness cache, and the canonical parameter display.

use std::cell::Cell;

use farukon::optimization::{
    GAConfig, GeneticAlgorythm, GridSearchOptimizer, OptimizationConfig, OptimizationResult,
    ParameterSet,
};
use farukon::params::ParamValue;
use farukon::performance::PerformanceMetrics;
use farukon::settings::{
    DataSettings, FitnessDirection, FitnessParams, FitnessValue, GAParams, MarginParams,
    MetricsMode, OptimizerType, PortfolioSettingsForStrategy, PosSizer, StrategySettings,
};
use farukon::text::{format_scaled_e5, format_u64, parse_u64};
use farukon::utils::parse_optimization_config;

fn sweep_config() -> OptimizationConfig {
    OptimizationConfig {
        strategy_params_ranges: vec![
            (String::from("a"), vec![ParamValue::Int(1), ParamValue::Int(2)]),
            (
                String::from("b"),
                vec![ParamValue::Int(10), ParamValue::Int(20), ParamValue::Int(30)],
            ),
        ],
        pos_sizer_value_range: vec![50_000, 100_000],
        slippage_range: vec![100],
        pos_sizer_name: String::from("mpr"),
        pos_sizer_additional_params: Vec::new(),
    }
}

#[test]
fn combination_count_is_the_axis_product() {
    let config = sweep_config();
    let combos = config.generate_all_combinations_vec();
    assert_eq!(combos.len(), 12);
    let optimizer = GridSearchOptimizer::new().with_optimization_config(sweep_config());
    assert_eq!(optimizer.calculate_total_combinations(), 12);
    // Every tuple of the Cartesian product appears exactly once.
    for a in [1i64, 2] {
        for b in [10i64, 20, 30] {
            for psv in [50_000i64, 100_000] {
                let hits = combos
                    .iter()
                    .filter(|c| {
                        matches!(c.strategy_params[0].1, ParamValue::Int(x) if x == a)
                            && matches!(c.strategy_params[1].1, ParamValue::Int(y) if y == b)
                            && c.pos_sizer_value_e5 == psv
                            && c.slippage_e5 == 100
                    })
                    .count();
                assert_eq!(hits, 1);
            }
        }
    }
}

#[test]
fn combinations_come_in_generation_order() {
    // Slippage-major, then the sizer value, then the axes with the
    // last axis varying fastest.
    let mut config = sweep_config();
    config.slippage_range = vec![100, 200];
    let combos = config.generate_all_combinations_vec();
    assert_eq!(combos.len(), 24);
    let a_vals = [1i64, 2];
    let b_vals = [10i64, 20, 30];
    let psv_vals = [50_000i64, 100_000];
    let sl_vals = [100i64, 200];
    for (j, combo) in combos.iter().enumerate() {
        let ai = j % 6;
        let pi = (j / 6) % 2;
        let si = j / 12;
        assert_eq!(combo.slippage_e5, sl_vals[si]);
        assert_eq!(combo.pos_sizer_value_e5, psv_vals[pi]);
        assert!(matches!(combo.strategy_params[0].1, ParamValue::Int(x) if x == a_vals[ai / 3]));
        assert!(matches!(combo.strategy_params[1].1, ParamValue::Int(y) if y == b_vals[ai % 3]));
    }
}

#[test]
fn empty_sizer_range_counts_once() {
    let mut config = sweep_config();
    config.pos_sizer_value_range = Vec::new();
    let combos = config.generate_all_combinations_vec();
    assert_eq!(combos.len(), 6);
    assert!(combos.iter().all(|c| c.pos_sizer_value_e5 == 0));
}

#[test]
fn grid_search_evaluates_each_combination() {
    let config = sweep_config();
    let combos = config.generate_all_combinations_vec();
    let optimizer = GridSearchOptimizer::new().with_optimization_config(config);
    let calls = Cell::new(0usize);
    let results = optimizer.run_optimization(
        |ps: &ParameterSet| {
            calls.set(calls.get() + 1);
            OptimizationResult::new()
                .with_parameters(ps.clone())
                .with_results(PerformanceMetrics::default())
        },
        1,
        combos,
    );
    assert_eq!(results.len(), 12);
    assert_eq!(calls.get(), 12);
}

fn ga_settings() -> StrategySettings {
    StrategySettings {
        threads: Some(1),
        strategy_name: String::from("scripted"),
        strategy_path: String::new(),
        exit_results_path: String::from("results"),
        strategy_weight_e5: 100_000,
        slippage_e5: vec![100, 200],
        data: DataSettings { data_path: String::new(), timeframe: String::from("1d") },
        symbol_base_name: String::from("SYM"),
        symbols: vec![String::from("SYM")],
        strategy_params: vec![(String::from("a"), vec![ParamValue::Int(1), ParamValue::Int(2)])],
        pos_sizer_params: PosSizer {
            pos_sizer_name: String::from("mpr"),
            pos_sizer_params: Vec::new(),
            pos_sizer_value_e5: vec![50_000, 100_000],
        },
        margin_params: MarginParams { min_margin_e5: 0, margin_call_type: String::from("close_all") },
        portfolio_settings_for_strategy: PortfolioSettingsForStrategy {
            metrics_calculation_mode: MetricsMode::Offline,
        },
        optimizer_type: OptimizerType::GridSearch,
        commission_plans: None,
    }
}

#[test]
fn genetic_run_caches_every_distinct_chromosome() {
    // Population 8 over a pool of 8 combinations, three generations:
    // the number of real fitness evaluations equals the number of
    // distinct chromosomes seen, strictly less than the 24 slots.
    let settings = ga_settings();
    let opt_config = parse_optimization_config(&settings);
    let ga_params = GAParams {
        population_size: 8,
        p_crossover_e5: 50_000,
        p_mutation_e5: 0,
        max_generations: 3,
        fitness_params: FitnessParams {
            fitness_direction: FitnessDirection::Max,
            fitness_value: FitnessValue::TotalReturn,
        },
    };
    let mut ga = GeneticAlgorythm::new()
        .with_ga_config(GAConfig::from_settings(&ga_params))
        .with_optimization_config(opt_config);
    let evaluations = Cell::new(0usize);
    let stats = ga.run(&settings, |ps: &ParameterSet| {
        evaluations.set(evaluations.get() + 1);
        ps.pos_sizer_value_e5 + ps.slippage_e5
    });
    assert_eq!(stats.len(), 3);
    // One real evaluation per distinct chromosome, all cached.
    assert_eq!(evaluations.get(), ga.chromosome_bank.len());
    assert!(evaluations.get() <= 8);
    assert!(evaluations.get() < 24);
}

#[test]
fn equivalent_chromosomes_share_one_evaluation() {
    let mut ga = GeneticAlgorythm::new();
    let chrom = ParameterSet::new()
        .with_pos_sizer_name(String::from("mpr"))
        .with_pos_sizer_value(50_000)
        .with_slippage(100);
    let population = vec![chrom.clone(), chrom.clone(), chrom];
    let evaluations = Cell::new(0usize);
    let results = ga.evaluate_population(&population, |_ps: &ParameterSet| {
        evaluations.set(evaluations.get() + 1);
        42
    });
    assert_eq!(results.len(), 3);
    assert_eq!(evaluations.get(), 1);
    assert_eq!(ga.chromosome_bank.len(), 1);
    assert!(results.iter().all(|r| r.1 == 42));
}

#[test]
fn canonical_display_of_a_parameter_set() {
    let ps = ParameterSet::new()
        .with_strategy_params(vec![(String::from("a"), ParamValue::Int(5))])
        .with_pos_sizer_name(String::from("mpr"))
        .with_pos_sizer_value(150_000)
        .with_slippage(100);
    let shown = ps.format_for_display();
    assert_eq!(shown, "a=i5;|mpr|1.50000||0.00100");
}

#[test]
fn number_rendering_round_trips() {
    assert_eq!(format_u64(0), "0");
    assert_eq!(format_u64(9_041), "9041");
    assert_eq!(parse_u64("9041"), Some(9_041));
    assert_eq!(parse_u64(&format_u64(u64::MAX)), Some(u64::MAX));
    assert_eq!(parse_u64(""), None);
    assert_eq!(parse_u64("12a"), None);
    assert_eq!(parse_u64("99999999999999999999999"), None);
    assert_eq!(format_scaled_e5(100), "0.00100");
    assert_eq!(format_scaled_e5(-250_000), "-2.50000");
    assert_eq!(format_scaled_e5(0), "0.00000");
}

#[test]
fn patched_settings_pin_the_candidate() {
    let settings = ga_settings();
    let candidate = ParameterSet::new()
        .with_strategy_params(vec![(String::from("a"), ParamValue::Int(2))])
        .with_pos_sizer_name(String::from("mpr"))
        .with_pos_sizer_value(100_000)
        .with_slippage(200);
    let patched = farukon::utils::create_stratagy_settings_from_params(&settings, &candidate);
    assert_eq!(patched.slippage_e5, vec![200]);
    assert_eq!(patched.pos_sizer_params.pos_sizer_value_e5, vec![100_000]);
    assert_eq!(patched.strategy_params.len(), 1);
    assert_eq!(patched.strategy_params[0].0, "a");
    assert_eq!(patched.strategy_params[0].1.len(), 1);
    assert!(matches!(patched.strategy_params[0].1[0], ParamValue::Int(2)));
}
