//! Configuration of a run: common options and per-strategy settings.
//!
//! Fractions (weights, slippage, probabilities, margin fractions) are
//! scaled by `1e5`; monetary amounts are cents.

use vstd::prelude::*;

use crate::commission::{clone_commission_plans, CommissionPlans};
use crate::fixed::MONEY_CENTS_MAX;
use crate::params::{axes_equal, clone_axes, ParamValue};

verus! {

/// Operational mode of a run.
#[derive(Clone, Copy, Debug, PartialEq, Eq, Structural)]
pub enum Mode {
    Debug,
    Optimize,
    Visual,
}

/// Which scalar a fitness score is taken from.
#[derive(Debug)]
pub enum FitnessValue {
    TotalReturn,
    TotalReturnPercent,
    Apr,
    MaxDD,
    AprDDFactor,
    RecoveryFactor,
    DealsCount,
    /// Equal-weighted average of the named metrics.
    Composite { metrics: Vec<CompositeMetric> },
}

/// Agreement of two fitness-value choices, up to views.
pub open spec fn fitness_value_equiv(a: FitnessValue, b: FitnessValue) -> bool {
    match (a, b) {
        (
            FitnessValue::Composite { metrics: ma },
            FitnessValue::Composite { metrics: mb },
        ) => ma@ == mb@,
        _ => a == b,
    }
}

impl Clone for FitnessValue {
    fn clone(&self) -> (r: Self)
        ensures
            fitness_value_equiv(r, *self),
    {
        match self {
            FitnessValue::TotalReturn => FitnessValue::TotalReturn,
            FitnessValue::TotalReturnPercent => FitnessValue::TotalReturnPercent,
            FitnessValue::Apr => FitnessValue::Apr,
            FitnessValue::MaxDD => FitnessValue::MaxDD,
            FitnessValue::AprDDFactor => FitnessValue::AprDDFactor,
            FitnessValue::RecoveryFactor => FitnessValue::RecoveryFactor,
            FitnessValue::DealsCount => FitnessValue::DealsCount,
            FitnessValue::Composite { metrics } => {
                let mut m: Vec<CompositeMetric> = Vec::new();
                let mut i: usize = 0;
                while i < metrics.len()
                    invariant
                        i <= metrics@.len(),
                        m@ == metrics@.take(i as int),
                    decreases metrics@.len() - i,
                {
                    m.push(metrics[i]);
                    proof {
                        assert(m@ =~= metrics@.take(i + 1));
                    }
                    i = i + 1;
                }
                proof {
                    assert(m@ =~= metrics@);
                }
                FitnessValue::Composite { metrics: m }
            },
        }
    }
}

impl FitnessValue {
    /// The default fitness scalar.
    pub fn default() -> (r: Self)
        ensures
            r is AprDDFactor,
    {
        FitnessValue::AprDDFactor
    }
}

/// One metric of a composite fitness.
#[derive(Clone, Copy, Debug, PartialEq, Eq, Structural)]
pub enum CompositeMetric {
    TotalReturn,
    TotalReturnPercent,
    Apr,
    MaxDD,
    AprDDFactor,
    RecoveryFactor,
    DealsCount,
}

/// Whether fitness is maximized or minimized.
#[derive(Clone, Copy, Debug, PartialEq, Eq, Structural)]
pub enum FitnessDirection {
    Max,
    Min,
}

/// Fitness configuration of the genetic optimizer.
#[derive(Debug)]
pub struct FitnessParams {
    pub fitness_direction: FitnessDirection,
    pub fitness_value: FitnessValue,
}

impl Clone for FitnessParams {
    fn clone(&self) -> (r: Self)
        ensures
            r.fitness_direction == self.fitness_direction,
            fitness_value_equiv(r.fitness_value, self.fitness_value),
    {
        FitnessParams {
            fitness_direction: self.fitness_direction,
            fitness_value: self.fitness_value.clone(),
        }
    }
}

/// Parameters of the genetic optimizer.
#[derive(Debug)]
pub struct GAParams {
    pub population_size: usize,
    /// Crossover probability, scaled by `1e5`.
    pub p_crossover_e5: i64,
    /// Mutation probability, scaled by `1e5`.
    pub p_mutation_e5: i64,
    pub max_generations: usize,
    pub fitness_params: FitnessParams,
}

/// Agreement of two GA parameter sets, up to views.
pub open spec fn ga_params_equiv(a: GAParams, b: GAParams) -> bool {
    &&& a.population_size == b.population_size
    &&& a.p_crossover_e5 == b.p_crossover_e5
    &&& a.p_mutation_e5 == b.p_mutation_e5
    &&& a.max_generations == b.max_generations
    &&& a.fitness_params.fitness_direction == b.fitness_params.fitness_direction
    &&& fitness_value_equiv(a.fitness_params.fitness_value, b.fitness_params.fitness_value)
}

impl Clone for GAParams {
    fn clone(&self) -> (r: Self)
        ensures
            ga_params_equiv(r, *self),
    {
        GAParams {
            population_size: self.population_size,
            p_crossover_e5: self.p_crossover_e5,
            p_mutation_e5: self.p_mutation_e5,
            max_generations: self.max_generations,
            fitness_params: self.fitness_params.clone(),
        }
    }
}

/// Which optimizer a strategy runs under.
#[derive(Debug)]
pub enum OptimizerType {
    GridSearch,
    Genetic { ga_params: GAParams },
}

/// Agreement of two optimizer choices, up to views.
pub open spec fn optimizer_equiv(a: OptimizerType, b: OptimizerType) -> bool {
    match (a, b) {
        (OptimizerType::GridSearch, OptimizerType::GridSearch) => true,
        (
            OptimizerType::Genetic { ga_params: ga },
            OptimizerType::Genetic { ga_params: gb },
        ) => ga_params_equiv(ga, gb),
        _ => false,
    }
}

impl Clone for OptimizerType {
    fn clone(&self) -> (r: Self)
        ensures
            optimizer_equiv(r, *self),
    {
        match self {
            OptimizerType::GridSearch => OptimizerType::GridSearch,
            OptimizerType::Genetic { ga_params } => OptimizerType::Genetic {
                ga_params: ga_params.clone(),
            },
        }
    }
}

/// Margin risk-control parameters.
#[derive(Debug)]
pub struct MarginParams {
    /// Maintenance margin fraction, scaled by `1e5`.
    pub min_margin_e5: i64,
    pub margin_call_type: String,
}

impl Clone for MarginParams {
    fn clone(&self) -> (r: Self)
        ensures
            r == *self,
    {
        MarginParams {
            min_margin_e5: self.min_margin_e5,
            margin_call_type: self.margin_call_type.clone(),
        }
    }
}

/// Position-sizer configuration.
#[derive(Debug)]
pub struct PosSizer {
    pub pos_sizer_name: String,
    /// Additional named parameter axes of the sizer.
    pub pos_sizer_params: Vec<(String, Vec<ParamValue>)>,
    /// Candidate sizer values, scaled by `1e5`.
    pub pos_sizer_value_e5: Vec<i64>,
}

impl Clone for PosSizer {
    fn clone(&self) -> (r: Self)
        ensures
            r.pos_sizer_name == self.pos_sizer_name,
            axes_equal(r.pos_sizer_params@, self.pos_sizer_params@),
            r.pos_sizer_value_e5@ == self.pos_sizer_value_e5@,
    {
        let vals = self.pos_sizer_value_e5.clone();
        proof {
            assert(vals@ =~= self.pos_sizer_value_e5@);
        }
        PosSizer {
            pos_sizer_name: self.pos_sizer_name.clone(),
            pos_sizer_params: clone_axes(&self.pos_sizer_params),
            pos_sizer_value_e5: vals,
        }
    }
}

/// Where a strategy's bar data comes from.
#[derive(Debug)]
pub struct DataSettings {
    pub data_path: String,
    pub timeframe: String,
}

impl Clone for DataSettings {
    fn clone(&self) -> (r: Self)
        ensures
            r == *self,
    {
        DataSettings { data_path: self.data_path.clone(), timeframe: self.timeframe.clone() }
    }
}

/// Whether the modified Kelly criterion is applied in real-time metrics.
#[derive(Clone, Copy, Debug, PartialEq, Eq, Structural)]
pub enum KellyMode {
    On,
    Off,
}

/// When performance metrics are computed.
#[derive(Clone, Copy, Debug, PartialEq, Eq, Structural)]
pub enum MetricsMode {
    /// Once, after the run, from the full equity series.
    Offline,
    /// Incrementally, on every bar.
    RealTime { modified_kelly_creterion: KellyMode },
}

/// Portfolio-level options of one strategy.
#[derive(Clone, Copy, Debug, PartialEq, Eq, Structural)]
pub struct PortfolioSettingsForStrategy {
    pub metrics_calculation_mode: MetricsMode,
}

/// Full configuration of one strategy.
#[derive(Debug)]
pub struct StrategySettings {
    pub threads: Option<usize>,
    pub strategy_name: String,
    pub strategy_path: String,
    pub exit_results_path: String,
    /// Fraction of the common initial capital, scaled by `1e5`.
    pub strategy_weight_e5: i64,
    /// Candidate slippage fractions, scaled by `1e5`.
    pub slippage_e5: Vec<i64>,
    pub data: DataSettings,
    pub symbol_base_name: String,
    pub symbols: Vec<String>,
    /// Strategy parameter axes: name against candidate values.
    pub strategy_params: Vec<(String, Vec<ParamValue>)>,
    pub pos_sizer_params: PosSizer,
    pub margin_params: MarginParams,
    pub portfolio_settings_for_strategy: PortfolioSettingsForStrategy,
    pub optimizer_type: OptimizerType,
    pub commission_plans: Option<CommissionPlans>,
}

/// Field-wise agreement of two strategy settings, up to views.
pub open spec fn settings_equiv(a: StrategySettings, b: StrategySettings) -> bool {
    &&& a.threads == b.threads
    &&& a.strategy_name == b.strategy_name
    &&& a.strategy_path == b.strategy_path
    &&& a.exit_results_path == b.exit_results_path
    &&& a.strategy_weight_e5 == b.strategy_weight_e5
    &&& a.slippage_e5@ == b.slippage_e5@
    &&& a.data == b.data
    &&& a.symbol_base_name == b.symbol_base_name
    &&& a.symbols@ == b.symbols@
    &&& axes_equal(a.strategy_params@, b.strategy_params@)
    &&& a.pos_sizer_params.pos_sizer_name == b.pos_sizer_params.pos_sizer_name
    &&& axes_equal(a.pos_sizer_params.pos_sizer_params@, b.pos_sizer_params.pos_sizer_params@)
    &&& a.pos_sizer_params.pos_sizer_value_e5@ == b.pos_sizer_params.pos_sizer_value_e5@
    &&& a.margin_params == b.margin_params
    &&& a.portfolio_settings_for_strategy == b.portfolio_settings_for_strategy
}

impl Clone for StrategySettings {
    fn clone(&self) -> (r: Self)
        ensures
            settings_equiv(r, *self),
            optimizer_equiv(r.optimizer_type, self.optimizer_type),
            match (r.commission_plans, self.commission_plans) {
                (Some(cp), Some(cp0)) => crate::commission::plans_equiv(cp, cp0),
                (None, None) => true,
                _ => false,
            },
    {
        let slippage = self.slippage_e5.clone();
        let symbols = self.symbols.clone();
        proof {
            assert(slippage@ =~= self.slippage_e5@);
            assert(symbols@ =~= self.symbols@);
        }
        StrategySettings {
            threads: self.threads,
            strategy_name: self.strategy_name.clone(),
            strategy_path: self.strategy_path.clone(),
            exit_results_path: self.exit_results_path.clone(),
            strategy_weight_e5: self.strategy_weight_e5,
            slippage_e5: slippage,
            data: self.data.clone(),
            symbol_base_name: self.symbol_base_name.clone(),
            symbols,
            strategy_params: clone_axes(&self.strategy_params),
            pos_sizer_params: self.pos_sizer_params.clone(),
            margin_params: self.margin_params.clone(),
            portfolio_settings_for_strategy: self.portfolio_settings_for_strategy,
            optimizer_type: self.optimizer_type.clone(),
            commission_plans: match &self.commission_plans {
                Some(cp) => Some(clone_commission_plans(cp)),
                None => None,
            },
        }
    }
}

/// Options common to the whole run.
#[derive(Debug)]
pub struct CommonSettings {
    pub mode: Mode,
    /// Starting capital of the whole portfolio, in cents.
    pub initial_capital_cents: i64,
}

impl Clone for CommonSettings {
    fn clone(&self) -> (r: Self)
        ensures
            r == *self,
    {
        CommonSettings { mode: self.mode, initial_capital_cents: self.initial_capital_cents }
    }
}

/// Top-level configuration: common options plus one entry per strategy.
#[derive(Debug)]
pub struct Settings {
    pub common: CommonSettings,
    pub portfolio: Vec<(String, StrategySettings)>,
}


/// Why a configuration was refused.
#[derive(Clone, Copy, Debug, PartialEq, Eq, Structural)]
pub enum SettingsError {
    /// A thread count of zero is configured.
    ZeroThreads,
    /// The common initial capital is not positive or not representable.
    BadInitialCapital,
    /// A strategy's weight is not in `(0, 1]`.
    BadStrategyWeight,
    /// A genetic population of zero is configured.
    ZeroPopulation,
    /// A crossover probability outside `[0, 1]`.
    BadCrossoverProbability,
    /// A mutation probability outside `[0, 1]`.
    BadMutationProbability,
    /// Zero genetic generations are configured.
    ZeroGenerations,
    /// A composite fitness without metrics.
    EmptyCompositeMetrics,
    /// A timeframe the data layer does not offer.
    BadTimeframe,
    /// An empty symbol list.
    EmptySymbols,
    /// A position-sizer name the engine does not know.
    BadPosSizerName,
    /// The plain sizer must carry no value list.
    PlainSizerWithValues,
    /// A configurable sizer must carry values.
    EmptySizerValues,
    /// A sizer value that is not positive.
    NonPositiveSizerValue,
    /// An empty slippage list.
    EmptySlippage,
    /// A strategy parameter axis without values.
    EmptyParamRange,
    /// A numeric strategy parameter that is not positive.
    NonPositiveParamValue,
    /// An empty results path.
    EmptyExitPath,
    /// A maintenance margin fraction outside its band.
    BadMinMargin,
}

/// Whether a timeframe name is one the data layer offers.
pub open spec fn spec_valid_timeframe(tf: Seq<char>) -> bool {
    tf == "1min"@ || tf == "2min"@ || tf == "3min"@ || tf == "4min"@ || tf == "5min"@ || tf
        == "1d"@
}

/// Whether a position-sizer name is one the engine knows.
pub open spec fn spec_valid_pos_sizer(name: Seq<char>) -> bool {
    name == "mpr"@ || name == "poe"@ || name == "fixed_ratio"@ || name == "1"@
}

/// The first strategy-parameter axis check that fails, scanning from
/// `i`: an axis must hold values, and numeric values must be positive.
pub open spec fn spec_params_error_from(
    axes: Seq<(String, Vec<ParamValue>)>,
    i: int,
) -> Option<SettingsError>
    decreases axes.len() - i,
{
    if i < 0 || i >= axes.len() {
        None
    } else if axes[i].1@.len() == 0 {
        Some(SettingsError::EmptyParamRange)
    } else if !(forall|j: int|
        0 <= j < axes[i].1@.len() ==> match #[trigger] axes[i].1@[j] {
            ParamValue::Int(v) => v > 0,
            ParamValue::Fixed(v) => v > 0,
            ParamValue::Text(_) => true,
            ParamValue::Flag(_) => true,
        }) {
        Some(SettingsError::NonPositiveParamValue)
    } else {
        spec_params_error_from(axes, i + 1)
    }
}

/// The first check one strategy's settings fail, if any.
pub open spec fn spec_strategy_settings_error(s: StrategySettings) -> Option<SettingsError> {
    if s.threads == Some(0usize) {
        Some(SettingsError::ZeroThreads)
    } else if !(0 < s.strategy_weight_e5 <= 100_000) {
        Some(SettingsError::BadStrategyWeight)
    } else if (match s.optimizer_type {
        OptimizerType::Genetic { ga_params } => ga_params.population_size == 0,
        OptimizerType::GridSearch => false,
    }) {
        Some(SettingsError::ZeroPopulation)
    } else if (match s.optimizer_type {
        OptimizerType::Genetic { ga_params } => !(0 <= ga_params.p_crossover_e5 <= 100_000),
        OptimizerType::GridSearch => false,
    }) {
        Some(SettingsError::BadCrossoverProbability)
    } else if (match s.optimizer_type {
        OptimizerType::Genetic { ga_params } => !(0 <= ga_params.p_mutation_e5 <= 100_000),
        OptimizerType::GridSearch => false,
    }) {
        Some(SettingsError::BadMutationProbability)
    } else if (match s.optimizer_type {
        OptimizerType::Genetic { ga_params } => ga_params.max_generations == 0,
        OptimizerType::GridSearch => false,
    }) {
        Some(SettingsError::ZeroGenerations)
    } else if (match s.optimizer_type {
        OptimizerType::Genetic { ga_params } => match ga_params.fitness_params.fitness_value {
            FitnessValue::Composite { metrics } => metrics@.len() == 0,
            _ => false,
        },
        OptimizerType::GridSearch => false,
    }) {
        Some(SettingsError::EmptyCompositeMetrics)
    } else if !spec_valid_timeframe(s.data.timeframe@) {
        Some(SettingsError::BadTimeframe)
    } else if s.symbols@.len() == 0 {
        Some(SettingsError::EmptySymbols)
    } else if !spec_valid_pos_sizer(s.pos_sizer_params.pos_sizer_name@) {
        Some(SettingsError::BadPosSizerName)
    } else if s.pos_sizer_params.pos_sizer_name@ == "1"@
        && s.pos_sizer_params.pos_sizer_value_e5@.len() != 0 {
        Some(SettingsError::PlainSizerWithValues)
    } else if s.pos_sizer_params.pos_sizer_name@ != "1"@
        && s.pos_sizer_params.pos_sizer_value_e5@.len() == 0 {
        Some(SettingsError::EmptySizerValues)
    } else if !(forall|j: int|
        0 <= j < s.pos_sizer_params.pos_sizer_value_e5@.len()
            ==> #[trigger] s.pos_sizer_params.pos_sizer_value_e5@[j] > 0) {
        Some(SettingsError::NonPositiveSizerValue)
    } else if s.slippage_e5@.len() == 0 {
        Some(SettingsError::EmptySlippage)
    } else if spec_params_error_from(s.strategy_params@, 0) is Some {
        spec_params_error_from(s.strategy_params@, 0)
    } else if s.exit_results_path@.len() == 0 {
        Some(SettingsError::EmptyExitPath)
    } else if !(0 <= s.margin_params.min_margin_e5 <= 10_000_000) {
        Some(SettingsError::BadMinMargin)
    } else {
        None
    }
}

impl StrategySettings {
    /// Checks one strategy's configuration; `Ok` exactly when no check
    /// fails.
    #[verifier::loop_isolation(false)]
    pub fn validate(&self) -> (r: Result<(), SettingsError>)
        ensures
            r is Ok <==> spec_strategy_settings_error(*self) is None,
            r matches Err(e) ==> Some(e) == spec_strategy_settings_error(*self),
    {
        proof {
            reveal_strlit("1min");
            reveal_strlit("2min");
            reveal_strlit("3min");
            reveal_strlit("4min");
            reveal_strlit("5min");
            reveal_strlit("1d");
            reveal_strlit("mpr");
            reveal_strlit("poe");
            reveal_strlit("fixed_ratio");
            reveal_strlit("1");
        }
        if matches!(self.threads, Some(0)) {
            return Err(SettingsError::ZeroThreads);
        }
        if !(0 < self.strategy_weight_e5 && self.strategy_weight_e5 <= 100_000) {
            return Err(SettingsError::BadStrategyWeight);
        }
        match &self.optimizer_type {
            OptimizerType::Genetic { ga_params } => {
                if ga_params.population_size == 0 {
                    return Err(SettingsError::ZeroPopulation);
                }
                if !(0 <= ga_params.p_crossover_e5 && ga_params.p_crossover_e5 <= 100_000) {
                    return Err(SettingsError::BadCrossoverProbability);
                }
                if !(0 <= ga_params.p_mutation_e5 && ga_params.p_mutation_e5 <= 100_000) {
                    return Err(SettingsError::BadMutationProbability);
                }
                if ga_params.max_generations == 0 {
                    return Err(SettingsError::ZeroGenerations);
                }
                match &ga_params.fitness_params.fitness_value {
                    FitnessValue::Composite { metrics } => {
                        if metrics.len() == 0 {
                            return Err(SettingsError::EmptyCompositeMetrics);
                        }
                    },
                    _ => {},
                }
            },
            OptimizerType::GridSearch => {},
        }
        if !is_valid_timeframe(&self.data.timeframe) {
            return Err(SettingsError::BadTimeframe);
        }
        if self.symbols.len() == 0 {
            return Err(SettingsError::EmptySymbols);
        }
        let plain: String = "1".to_owned();
        if !is_valid_pos_sizer(&self.pos_sizer_params.pos_sizer_name) {
            return Err(SettingsError::BadPosSizerName);
        }
        if self.pos_sizer_params.pos_sizer_name.eq(&plain) {
            if self.pos_sizer_params.pos_sizer_value_e5.len() != 0 {
                return Err(SettingsError::PlainSizerWithValues);
            }
        } else {
            if self.pos_sizer_params.pos_sizer_value_e5.len() == 0 {
                return Err(SettingsError::EmptySizerValues);
            }
        }
        let mut v: usize = 0;
        while v < self.pos_sizer_params.pos_sizer_value_e5.len()
            invariant
                v <= self.pos_sizer_params.pos_sizer_value_e5@.len(),
                forall|j: int|
                    0 <= j < v ==> #[trigger] self.pos_sizer_params.pos_sizer_value_e5@[j] > 0,
            decreases self.pos_sizer_params.pos_sizer_value_e5@.len() - v,
        {
            if self.pos_sizer_params.pos_sizer_value_e5[v] <= 0 {
                return Err(SettingsError::NonPositiveSizerValue);
            }
            v = v + 1;
        }
        if self.slippage_e5.len() == 0 {
            return Err(SettingsError::EmptySlippage);
        }
        let mut a: usize = 0;
        while a < self.strategy_params.len()
            invariant
                a <= self.strategy_params@.len(),
                spec_params_error_from(self.strategy_params@, 0) == spec_params_error_from(
                    self.strategy_params@,
                    a as int,
                ),
            decreases self.strategy_params@.len() - a,
        {
            let axis = &self.strategy_params[a];
            if axis.1.len() == 0 {
                return Err(SettingsError::EmptyParamRange);
            }
            let mut j: usize = 0;
            while j < axis.1.len()
                invariant
                    a < self.strategy_params@.len(),
                    axis == &self.strategy_params@[a as int],
                    axis.1@.len() >= 1,
                    j <= axis.1@.len(),
                    spec_params_error_from(self.strategy_params@, 0) == spec_params_error_from(
                        self.strategy_params@,
                        a as int,
                    ),
                    forall|k: int|
                        0 <= k < j ==> match #[trigger] axis.1@[k] {
                            ParamValue::Int(x) => x > 0,
                            ParamValue::Fixed(x) => x > 0,
                            ParamValue::Text(_) => true,
                            ParamValue::Flag(_) => true,
                        },
                decreases axis.1@.len() - j,
            {
                let ok = match &axis.1[j] {
                    ParamValue::Int(x) => *x > 0,
                    ParamValue::Fixed(x) => *x > 0,
                    ParamValue::Text(_) => true,
                    ParamValue::Flag(_) => true,
                };
                if !ok {
                    return Err(SettingsError::NonPositiveParamValue);
                }
                j = j + 1;
            }
            a = a + 1;
        }
        if self.exit_results_path.unicode_len() == 0 {
            return Err(SettingsError::EmptyExitPath);
        }
        if !(0 <= self.margin_params.min_margin_e5 && self.margin_params.min_margin_e5
            <= 10_000_000) {
            return Err(SettingsError::BadMinMargin);
        }
        Ok(())
    }
}

/// Executable form of [`spec_valid_timeframe`].
pub fn is_valid_timeframe(tf: &String) -> (r: bool)
    ensures
        r == spec_valid_timeframe(tf@),
{
    let m1: String = "1min".to_owned();
    let m2: String = "2min".to_owned();
    let m3: String = "3min".to_owned();
    let m4: String = "4min".to_owned();
    let m5: String = "5min".to_owned();
    let d1: String = "1d".to_owned();
    tf.eq(&m1) || tf.eq(&m2) || tf.eq(&m3) || tf.eq(&m4) || tf.eq(&m5) || tf.eq(&d1)
}

/// Executable form of [`spec_valid_pos_sizer`].
pub fn is_valid_pos_sizer(name: &String) -> (r: bool)
    ensures
        r == spec_valid_pos_sizer(name@),
{
    let s1: String = "mpr".to_owned();
    let s2: String = "poe".to_owned();
    let s3: String = "fixed_ratio".to_owned();
    let s4: String = "1".to_owned();
    name.eq(&s1) || name.eq(&s2) || name.eq(&s3) || name.eq(&s4)
}

/// The first strategy that fails validation, scanning from `i`.
pub open spec fn first_settings_error_from(
    portfolio: Seq<(String, StrategySettings)>,
    i: int,
) -> Option<SettingsError>
    decreases portfolio.len() - i,
{
    if i < 0 || i >= portfolio.len() {
        None
    } else {
        match spec_strategy_settings_error(portfolio[i].1) {
            Some(e) => Some(e),
            None => first_settings_error_from(portfolio, i + 1),
        }
    }
}

impl Settings {
    /// Checks the whole configuration: a positive representable common
    /// capital, then every strategy in order.
    pub fn check_args(&self) -> (r: Result<(), SettingsError>)
        ensures
            r is Ok <==> (0 < self.common.initial_capital_cents <= MONEY_CENTS_MAX
                && first_settings_error_from(self.portfolio@, 0) is None),
    {
        if !(0 < self.common.initial_capital_cents && self.common.initial_capital_cents
            <= MONEY_CENTS_MAX) {
            return Err(SettingsError::BadInitialCapital);
        }
        let mut i: usize = 0;
        while i < self.portfolio.len()
            invariant
                i <= self.portfolio@.len(),
                first_settings_error_from(self.portfolio@, 0) == first_settings_error_from(
                    self.portfolio@,
                    i as int,
                ),
            decreases self.portfolio@.len() - i,
        {
            match self.portfolio[i].1.validate() {
                Ok(()) => {},
                Err(e) => {
                    return Err(e);
                },
            }
            i = i + 1;
        }
        Ok(())
    }
}

} // verus!
