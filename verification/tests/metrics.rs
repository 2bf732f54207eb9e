//! The performance engine: offline and incremental agreement, drawdown
//! monotonicity, and the exact scalar recipe on a known series.

use farukon::performance::{days_between, PerformanceManager};
use farukon::settings::MetricsMode;

const YEAR: i64 = 365 * 86_400;

#[test]
fn offline_and_incremental_agree_exactly() {
    // The documented series, in cents, spanning exactly one year.
    let series: Vec<i64> = vec![10_000, 11_000, 10_500, 12_000, 9_000, 13_000];
    let mut incremental = PerformanceManager::new(10_000, MetricsMode::RealTime {
        modified_kelly_creterion: farukon::settings::KellyMode::Off,
    });
    for v in series.iter().skip(1) {
        incremental.update_incremental(*v, 0, YEAR, 7);
    }
    let mut offline = PerformanceManager::new(10_000, MetricsMode::Offline);
    offline.calculate_final(&series, 0, YEAR, 7);
    let a = incremental.get_current_performance_metrics();
    let b = offline.get_current_performance_metrics();
    assert_eq!(a, b);
}

#[test]
fn scalar_recipe_exact_values() {
    let series: Vec<i64> = vec![10_000, 11_000, 10_500, 12_000, 9_000, 13_000];
    let mut pm = PerformanceManager::new(10_000, MetricsMode::Offline);
    pm.calculate_final(&series, 0, YEAR, 7);
    let m = pm.get_current_performance_metrics();
    assert_eq!(m.total_return_cents, 3_000);
    // 13000/10000 - 1 = 0.3, scaled by 1e9.
    assert_eq!(m.total_return_pct_e9, 300_000_000);
    // Over exactly one year the annualized rate is the total return.
    assert_eq!(m.apr_e9, 300_000_000);
    // Largest drawdown: 9000 against the 12000 peak.
    assert_eq!(m.max_drawdown_e9, -250_000_000);
    // |apr| / |max_dd| = 0.3 / 0.25 = 1.2.
    assert_eq!(m.apr_to_drawdown_ratio_e9, 1_200_000_000);
    assert_eq!(m.recovery_factor_e9, 1_200_000_000);
    assert_eq!(m.deals_count, 7);
}

#[test]
fn drawdown_never_increases_incrementally() {
    let series: Vec<i64> = vec![11_000, 10_500, 12_000, 9_000, 13_000, 8_000, 14_000];
    let mut pm = PerformanceManager::new(10_000, MetricsMode::Offline);
    let mut last_dd = 0i64;
    for (i, v) in series.iter().enumerate() {
        pm.update_incremental(*v, 0, (i as i64 + 1) * 86_400, 0);
        let dd = pm.get_current_performance_metrics().max_drawdown_e9;
        assert!(dd <= last_dd);
        assert!(dd <= 0);
        last_dd = dd;
    }
}

#[test]
fn short_series_changes_nothing_offline() {
    let mut pm = PerformanceManager::new(10_000, MetricsMode::Offline);
    pm.calculate_final(&vec![10_000], 0, YEAR, 3);
    let m = pm.get_current_performance_metrics();
    assert_eq!(m.total_return_cents, 0);
    assert_eq!(m.deals_count, 0);
}

#[test]
fn day_counting() {
    assert_eq!(days_between(0, YEAR), 365);
    assert_eq!(days_between(0, 86_399), 0);
    assert_eq!(days_between(86_400, 0), 0);
    assert_eq!(days_between(0, 2 * 86_400 + 5), 2);
}

#[test]
fn negative_window_returns_total_as_rate() {
    let mut pm = PerformanceManager::new(10_000, MetricsMode::Offline);
    pm.update_incremental(12_000, 1_000, 1_000, 1);
    let m = pm.get_current_performance_metrics();
    // Under a day of history, the annualized rate is the relative
    // return itself.
    assert_eq!(m.apr_e9, m.total_return_pct_e9);
    assert_eq!(m.total_return_pct_e9, 200_000_000);
}
