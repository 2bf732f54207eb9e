//! Market data access: the bar type, the data-handler interface the
//! kernel drives, and an in-memory handler over preloaded series.
//!
//! The interface carries spec views of the cursor - the latest bar and
//! the trailing window of each symbol - and every getter is pinned to
//! them, so the kernel's contracts can speak about the prices it read.

use vstd::prelude::*;

use crate::portfolio::sym_index_from;

verus! {

/// One OHLCV bar.  Prices are scaled by `1e5`.
#[derive(Clone, Copy, Debug, PartialEq, Eq, Structural)]
pub struct MarketBar {
    /// Bar timestamp, seconds since the epoch.
    pub ts: i64,
    pub open_e5: i64,
    pub high_e5: i64,
    pub low_e5: i64,
    pub close_e5: i64,
    pub volume: u64,
}

/// A bar field a strategy may project out.
#[derive(Clone, Copy, Debug, PartialEq, Eq, Structural)]
pub enum BarField {
    Open,
    High,
    Low,
    Close,
    Volume,
}

/// One field of a bar; the volume saturates at the signed range.
pub open spec fn spec_bar_field(b: MarketBar, field: BarField) -> i64 {
    match field {
        BarField::Open => b.open_e5,
        BarField::High => b.high_e5,
        BarField::Low => b.low_e5,
        BarField::Close => b.close_e5,
        BarField::Volume => if b.volume > i64::MAX as u64 {
            i64::MAX
        } else {
            b.volume as i64
        },
    }
}

impl MarketBar {
    /// Executable form of [`spec_bar_field`].
    pub fn value(&self, field: BarField) -> (r: i64)
        ensures
            r == spec_bar_field(*self, field),
    {
        match field {
            BarField::Open => self.open_e5,
            BarField::High => self.high_e5,
            BarField::Low => self.low_e5,
            BarField::Close => self.close_e5,
            BarField::Volume => {
                if self.volume > i64::MAX as u64 {
                    i64::MAX
                } else {
                    self.volume as i64
                }
            },
        }
    }
}

/// Cursor over per-symbol bar series.  Implementations expose a
/// progress measure so the simulation loop provably ends, and spec
/// views of the latest bar and the trailing window of each symbol,
/// which every getter returns exactly.
pub trait DataHandler: Sized {
    /// How many advances are left before the data is exhausted or the
    /// run is stopped.
    spec fn remaining(&self) -> nat;

    /// The latest bar of a symbol, if one has been reached.
    spec fn spec_latest_bar(&self, symbol: Seq<char>) -> Option<MarketBar>;

    /// The last up-to-`n` bars of a symbol, oldest first.
    spec fn spec_latest_bars(&self, symbol: Seq<char>, n: int) -> Seq<MarketBar>;

    /// The latest bar of a symbol, if one has been reached.
    fn get_latest_bar(&self, symbol: &str) -> (r: Option<MarketBar>)
        ensures
            r == self.spec_latest_bar(symbol@),
    ;

    /// The last up-to-`n` bars of a symbol, oldest first; the newest
    /// entry, where one exists, is the latest bar.
    fn get_latest_bars(&self, symbol: &str, n: usize) -> (r: Vec<MarketBar>)
        ensures
            r@ == self.spec_latest_bars(symbol@, n as int),
            r@.len() <= n,
            r@.len() > 0 ==> self.spec_latest_bar(symbol@) == Some(r@.last()),
    ;

    /// Timestamp of the latest bar of a symbol.
    fn get_latest_bar_datetime(&self, symbol: &str) -> (r: Option<i64>)
        ensures
            r == match self.spec_latest_bar(symbol@) {
                Some(b) => Some(b.ts),
                None => None::<i64>,
            },
    ;

    /// One field of the latest bar of a symbol.
    fn get_latest_bar_value(&self, symbol: &str, field: BarField) -> (r: Option<i64>)
        ensures
            r == match self.spec_latest_bar(symbol@) {
                Some(b) => Some(spec_bar_field(b, field)),
                None => None::<i64>,
            },
    ;

    /// One field of the last up-to-`n` bars of a symbol, oldest first.
    fn get_latest_bars_values(&self, symbol: &str, field: BarField, n: usize) -> (r: Vec<i64>)
        ensures
            r@.len() == self.spec_latest_bars(symbol@, n as int).len(),
            forall|i: int|
                0 <= i < r@.len() ==> #[trigger] r@[i] == spec_bar_field(
                    self.spec_latest_bars(symbol@, n as int)[i],
                    field,
                ),
    ;

    /// Moves the cursor forward by one bar on every symbol.
    fn update_bars(&mut self)
        requires
            old(self).remaining() > 0,
        ensures
            final(self).remaining() == old(self).remaining() - 1,
    ;

    /// Whether the run goes on: exactly while progress remains.
    fn get_continue_backtest(&self) -> (r: bool)
        ensures
            r == (self.remaining() > 0),
    ;

    /// Cooperative stop: clearing the flag halts the run.
    fn set_continue_backtest(&mut self, value: bool)
        ensures
            final(self).remaining() <= old(self).remaining(),
            !value ==> final(self).remaining() == 0,
    ;
}

/// Bars held in memory, one aligned series per symbol, advanced in
/// lock-step.
#[derive(Debug)]
pub struct InMemoryDataHandler {
    /// Symbols, aligned with `series`.
    pub symbols: Vec<String>,
    /// One bar series per symbol; all of the same length.
    pub series: Vec<Vec<MarketBar>>,
    /// Bars of every series, shared length.
    pub bars_len: usize,
    /// Number of bars already delivered.
    pub cursor: usize,
    /// Cooperative continue flag.
    pub continue_flag: bool,
}

impl InMemoryDataHandler {
    /// Everything the handler's methods rely on.
    pub open spec fn wf(self) -> bool {
        &&& self.series@.len() == self.symbols@.len()
        &&& forall|i: int|
            0 <= i < self.series@.len() ==> (#[trigger] self.series@[i])@.len() == self.bars_len
        &&& self.cursor <= self.bars_len
    }

    /// A handler at the start of its data.
    pub fn new(symbols: Vec<String>, series: Vec<Vec<MarketBar>>, bars_len: usize) -> (r: Self)
        requires
            series@.len() == symbols@.len(),
            forall|i: int| 0 <= i < series@.len() ==> (#[trigger] series@[i])@.len() == bars_len,
        ensures
            r.wf(),
            r.symbols@ == symbols@,
            r.series@ == series@,
            r.bars_len == bars_len,
            r.cursor == 0,
            r.continue_flag,
            r.remaining() == bars_len,
    {
        InMemoryDataHandler { symbols, series, bars_len, cursor: 0, continue_flag: true }
    }

    /// First index of a symbol, if it is known.
    fn index_of(&self, symbol: &str) -> (r: Option<usize>)
        ensures
            match r {
                Some(i) => Some(i as int) == sym_index_from(self.symbols@, symbol@, 0),
                None => sym_index_from(self.symbols@, symbol@, 0) is None,
            },
    {
        let sym: String = symbol.to_owned();
        let mut i: usize = 0;
        while i < self.symbols.len()
            invariant
                i <= self.symbols@.len(),
                sym@ == symbol@,
                sym_index_from(self.symbols@, symbol@, 0) == sym_index_from(
                    self.symbols@,
                    symbol@,
                    i as int,
                ),
            decreases self.symbols@.len() - i,
        {
            if self.symbols[i].eq(&sym) {
                return Some(i);
            }
            i = i + 1;
        }
        None
    }
}

impl DataHandler for InMemoryDataHandler {
    open spec fn remaining(&self) -> nat {
        if self.continue_flag && self.cursor < self.bars_len {
            (self.bars_len - self.cursor) as nat
        } else {
            0
        }
    }

    open spec fn spec_latest_bar(&self, symbol: Seq<char>) -> Option<MarketBar> {
        match sym_index_from(self.symbols@, symbol, 0) {
            Some(i) => if i < self.series@.len() && 1 <= self.cursor <= self.series@[i]@.len() {
                Some(self.series@[i]@[self.cursor - 1])
            } else {
                None
            },
            None => None,
        }
    }

    open spec fn spec_latest_bars(&self, symbol: Seq<char>, n: int) -> Seq<MarketBar> {
        match sym_index_from(self.symbols@, symbol, 0) {
            Some(i) => if i < self.series@.len() && self.cursor <= self.series@[i]@.len() {
                let upto = self.cursor as int;
                let start = if upto > n {
                    upto - n
                } else {
                    0
                };
                self.series@[i]@.subrange(start, upto)
            } else {
                Seq::empty()
            },
            None => Seq::empty(),
        }
    }

    fn get_latest_bar(&self, symbol: &str) -> (r: Option<MarketBar>) {
        let i = match self.index_of(symbol) {
            Some(i) => i,
            None => {
                return None;
            },
        };
        if self.cursor == 0 || i >= self.series.len() {
            return None;
        }
        let bars = &self.series[i];
        if self.cursor > bars.len() {
            return None;
        }
        Some(bars[self.cursor - 1])
    }

    fn get_latest_bars(&self, symbol: &str, n: usize) -> (r: Vec<MarketBar>) {
        let mut out: Vec<MarketBar> = Vec::new();
        let i = match self.index_of(symbol) {
            Some(i) => i,
            None => {
                return out;
            },
        };
        if i >= self.series.len() {
            return out;
        }
        let bars = &self.series[i];
        if self.cursor > bars.len() {
            return out;
        }
        let upto = self.cursor;
        let start = if upto > n {
            upto - n
        } else {
            0
        };
        let mut k = start;
        while k < upto
            invariant
                start <= k <= upto,
                upto <= bars@.len(),
                out@ == bars@.subrange(start as int, k as int),
            decreases upto - k,
        {
            out.push(bars[k]);
            proof {
                assert(out@ =~= bars@.subrange(start as int, k + 1));
            }
            k = k + 1;
        }
        out
    }

    fn get_latest_bar_datetime(&self, symbol: &str) -> (r: Option<i64>) {
        match self.get_latest_bar(symbol) {
            Some(bar) => Some(bar.ts),
            None => None,
        }
    }

    fn get_latest_bar_value(&self, symbol: &str, field: BarField) -> (r: Option<i64>) {
        match self.get_latest_bar(symbol) {
            Some(bar) => Some(bar.value(field)),
            None => None,
        }
    }

    fn get_latest_bars_values(&self, symbol: &str, field: BarField, n: usize) -> (r: Vec<i64>) {
        let bars = self.get_latest_bars(symbol, n);
        let mut out: Vec<i64> = Vec::new();
        let mut k: usize = 0;
        while k < bars.len()
            invariant
                k <= bars@.len(),
                bars@ == self.spec_latest_bars(symbol@, n as int),
                out@.len() == k,
                forall|i: int|
                    0 <= i < k ==> #[trigger] out@[i] == spec_bar_field(bars@[i], field),
            decreases bars@.len() - k,
        {
            out.push(bars[k].value(field));
            k = k + 1;
        }
        out
    }

    fn update_bars(&mut self) {
        if self.cursor < self.bars_len {
            self.cursor = self.cursor + 1;
        }
    }

    fn get_continue_backtest(&self) -> (r: bool) {
        self.continue_flag && self.cursor < self.bars_len
    }

    fn set_continue_backtest(&mut self, value: bool) {
        if !value {
            self.continue_flag = false;
        }
    }
}

} // verus!
