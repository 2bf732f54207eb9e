//! Index structures for fast navigation over stored bar data.

use vstd::prelude::*;

verus! {

/// One bar's place in a stored series.
#[derive(Clone, Copy, Debug, PartialEq, Eq, Structural)]
pub struct TimeIndexEntry {
    /// Bar timestamp, seconds since the epoch.
    pub timestamp: u64,
    /// Index of the bar in the stored list.
    pub index: u64,
}

/// The bar range of one calendar day.
#[derive(Debug)]
pub struct DailyIndexEntry {
    /// The day, rendered as its date.
    pub date: String,
    pub start_index: u64,
    pub end_index: u64,
}

/// Full index of one stored series: every bar's timestamp, per-day
/// ranges, and resampled timestamps per timeframe name.
#[derive(Debug)]
pub struct FullIndex {
    pub time_index: Vec<TimeIndexEntry>,
    pub daily_index: Vec<DailyIndexEntry>,
    pub timeframe_index: Vec<(String, Vec<u64>)>,
}

} // verus!
