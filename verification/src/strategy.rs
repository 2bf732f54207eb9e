//! The strategy interface: a read-only view of data and portfolio
//! state, answered with signals, plus helpers that shape the common
//! open and close intents.  A scripted strategy replays a fixed signal
//! plan, bar by bar.

use vstd::prelude::*;

use crate::data_handler::{BarField, DataHandler};
use crate::events::{OrderType, SignalEvent, SignalName};
use crate::fixed::PRICE_E5_MAX;
use crate::indicators::{highest, lowest, sma};
use crate::params::ParamValue;
use crate::portfolio::{HoldingSnapshot, PositionState};
use crate::settings::StrategySettings;

verus! {

/// A strategy failed for this candidate; the run stops.
#[derive(Clone, Copy, Debug, PartialEq, Eq, Structural)]
pub enum StrategyError {
    Failed,
}

/// A pluggable trading strategy over a data handler.
pub trait Strategy<D: DataHandler>: Sized {
    /// Reads the market and the portfolio and answers with this bar's
    /// signals, in the order they should be handled.
    fn calculate_signals(
        &mut self,
        data_handler: &D,
        current_positions: &Vec<PositionState>,
        latest_holdings: &HoldingSnapshot,
        symbol_list: &Vec<String>,
    ) -> Result<Vec<SignalEvent>, StrategyError>;

    /// An open intent priced by limit.
    fn open_by_limit(
        &self,
        current_bar_ts: i64,
        symbol: &String,
        signal_name: SignalName,
        quantity_e5: Option<i64>,
        limit_price_e5: Option<i64>,
    ) -> (r: SignalEvent)
        ensures
            r == (SignalEvent {
                ts: current_bar_ts,
                symbol: *symbol,
                signal_name,
                order_type: OrderType::Limit,
                quantity_e5,
                limit_price_e5,
            }),
    {
        SignalEvent {
            ts: current_bar_ts,
            symbol: symbol.clone(),
            signal_name,
            order_type: OrderType::Limit,
            quantity_e5,
            limit_price_e5,
        }
    }

    /// A close intent priced by limit.
    fn close_by_limit(
        &self,
        current_bar_ts: i64,
        symbol: &String,
        signal_name: SignalName,
        quantity_e5: Option<i64>,
        limit_price_e5: Option<i64>,
    ) -> (r: SignalEvent)
        ensures
            r == (SignalEvent {
                ts: current_bar_ts,
                symbol: *symbol,
                signal_name,
                order_type: OrderType::Limit,
                quantity_e5,
                limit_price_e5,
            }),
    {
        SignalEvent {
            ts: current_bar_ts,
            symbol: symbol.clone(),
            signal_name,
            order_type: OrderType::Limit,
            quantity_e5,
            limit_price_e5,
        }
    }

    /// An open intent priced at market.
    fn open_by_market(
        &self,
        current_bar_ts: i64,
        symbol: &String,
        signal_name: SignalName,
        quantity_e5: Option<i64>,
    ) -> (r: SignalEvent)
        ensures
            r == (SignalEvent {
                ts: current_bar_ts,
                symbol: *symbol,
                signal_name,
                order_type: OrderType::Market,
                quantity_e5,
                limit_price_e5: None::<i64>,
            }),
    {
        SignalEvent {
            ts: current_bar_ts,
            symbol: symbol.clone(),
            signal_name,
            order_type: OrderType::Market,
            quantity_e5,
            limit_price_e5: None,
        }
    }

    /// A close intent priced at market.
    fn close_by_market(
        &self,
        current_bar_ts: i64,
        symbol: &String,
        signal_name: SignalName,
        quantity_e5: Option<i64>,
    ) -> (r: SignalEvent)
        ensures
            r == (SignalEvent {
                ts: current_bar_ts,
                symbol: *symbol,
                signal_name,
                order_type: OrderType::Market,
                quantity_e5,
                limit_price_e5: None::<i64>,
            }),
    {
        SignalEvent {
            ts: current_bar_ts,
            symbol: symbol.clone(),
            signal_name,
            order_type: OrderType::Market,
            quantity_e5,
            limit_price_e5: None,
        }
    }
}

/// A strategy that replays a fixed plan: one batch of signals per bar,
/// in order.
#[derive(Debug)]
pub struct ScriptedStrategy {
    /// Signals to emit at each bar, oldest bar first.
    pub script: Vec<Vec<SignalEvent>>,
    /// Bars already served.
    pub bar_index: usize,
}

impl ScriptedStrategy {
    /// A strategy that will replay `script`.
    pub fn new(script: Vec<Vec<SignalEvent>>) -> (r: Self)
        ensures
            r.script@ == script@,
            r.bar_index == 0,
    {
        ScriptedStrategy { script, bar_index: 0 }
    }
}

impl<D: DataHandler> Strategy<D> for ScriptedStrategy {
    fn calculate_signals(
        &mut self,
        data_handler: &D,
        current_positions: &Vec<PositionState>,
        latest_holdings: &HoldingSnapshot,
        symbol_list: &Vec<String>,
    ) -> Result<Vec<SignalEvent>, StrategyError> {
        let out: Vec<SignalEvent> = if self.bar_index < self.script.len() {
            let batch = &self.script[self.bar_index];
            let mut v: Vec<SignalEvent> = Vec::new();
            let mut i: usize = 0;
            while i < batch.len()
                invariant
                    i <= batch@.len(),
                decreases batch@.len() - i,
            {
                v.push(batch[i].clone());
                i = i + 1;
            }
            v
        } else {
            Vec::new()
        };
        if self.bar_index < usize::MAX {
            self.bar_index = self.bar_index + 1;
        }
        Ok(out)
    }
}


/// A channel-breakout strategy: open long when the close clears both
/// the shifted channel high and the moving average, close when the
/// close falls through the channel low.
#[derive(Clone, Copy, Debug)]
pub struct ChannelBreakoutStrategy {
    /// Bars of the breakout channel.
    pub channel_period: usize,
    /// Bars of the trend filter average.
    pub sma_period: usize,
    /// Bars the channel is shifted back.
    pub shift: usize,
}

impl ChannelBreakoutStrategy {
    /// Reads the strategy's three periods out of the settings, each
    /// from the first value of its axis; absent axes keep the default.
    pub fn from_settings(settings: &StrategySettings) -> (r: Self)
        ensures
            r.channel_period >= 1,
            r.sma_period >= 1,
    {
        let mut channel_period: usize = 20;
        let mut sma_period: usize = 10;
        let mut shift: usize = 1;
        let channel_name: String = "channel_period".to_owned();
        let sma_name: String = "sma_period".to_owned();
        let shift_name: String = "shift".to_owned();
        let mut i: usize = 0;
        while i < settings.strategy_params.len()
            invariant
                channel_period >= 1,
                sma_period >= 1,
            decreases settings.strategy_params@.len() - i,
        {
            let axis = &settings.strategy_params[i];
            let value: Option<usize> = match axis.1.len() {
                0 => None,
                _ => match &axis.1[0] {
                    ParamValue::Int(v) => if *v > 0 && (*v as u128) <= usize::MAX as u128 {
                        Some(*v as usize)
                    } else {
                        None
                    },
                    ParamValue::Fixed(v) => {
                        let whole = *v / 100_000;
                        if whole > 0 && (whole as u128) <= usize::MAX as u128 {
                            Some(whole as usize)
                        } else {
                            None
                        }
                    },
                    _ => None,
                },
            };
            match value {
                Some(v) => {
                    if axis.0.eq(&channel_name) {
                        channel_period = if v >= 1 {
                            v
                        } else {
                            1
                        };
                    } else if axis.0.eq(&sma_name) {
                        sma_period = if v >= 1 {
                            v
                        } else {
                            1
                        };
                    } else if axis.0.eq(&shift_name) {
                        shift = v;
                    }
                },
                None => {},
            }
            i = i + 1;
        }
        ChannelBreakoutStrategy { channel_period, sma_period, shift }
    }
}

/// Wraps each value of a window as present.
fn to_present(values: Vec<i64>) -> (r: Vec<Option<i64>>)
    ensures
        r@.len() == values@.len(),
{
    let mut out: Vec<Option<i64>> = Vec::new();
    let mut i: usize = 0;
    while i < values.len()
        invariant
            i <= values@.len(),
            out@.len() == i,
        decreases values@.len() - i,
    {
        out.push(Some(values[i]));
        i = i + 1;
    }
    out
}

/// Whether every value lies within the admissible price band.
fn all_in_price_band(values: &Vec<i64>) -> (r: bool)
    ensures
        r == forall|k: int|
            0 <= k < values@.len() ==> -PRICE_E5_MAX <= #[trigger] values@[k] <= PRICE_E5_MAX,
{
    let mut i: usize = 0;
    while i < values.len()
        invariant
            i <= values@.len(),
            forall|k: int| 0 <= k < i ==> -PRICE_E5_MAX <= #[trigger] values@[k] <= PRICE_E5_MAX,
        decreases values@.len() - i,
    {
        if values[i] < -PRICE_E5_MAX || values[i] > PRICE_E5_MAX {
            return false;
        }
        i = i + 1;
    }
    true
}

impl<D: DataHandler> Strategy<D> for ChannelBreakoutStrategy {
    fn calculate_signals(
        &mut self,
        data_handler: &D,
        current_positions: &Vec<PositionState>,
        latest_holdings: &HoldingSnapshot,
        symbol_list: &Vec<String>,
    ) -> Result<Vec<SignalEvent>, StrategyError> {
        let _capital = latest_holdings.capital_cents;
        let mut signals: Vec<SignalEvent> = Vec::new();
        let mut i: usize = 0;
        while i < symbol_list.len()
            decreases symbol_list@.len() - i,
        {
            let symbol = &symbol_list[i];
            let ts = match data_handler.get_latest_bar_datetime(symbol.as_str()) {
                Some(t) => t,
                None => {
                    i = i + 1;
                    continue ;
                },
            };
            if self.sma_period >= usize::MAX || self.channel_period > usize::MAX - self.shift {
                i = i + 1;
                continue ;
            }
            let closes = data_handler.get_latest_bars_values(
                symbol.as_str(),
                BarField::Close,
                self.sma_period,
            );
            if !all_in_price_band(&closes) {
                i = i + 1;
                continue ;
            }
            let highs = to_present(
                data_handler.get_latest_bars_values(
                    symbol.as_str(),
                    BarField::High,
                    self.channel_period + self.shift,
                ),
            );
            let lows = to_present(
                data_handler.get_latest_bars_values(
                    symbol.as_str(),
                    BarField::Low,
                    self.channel_period + self.shift,
                ),
            );
            let channel_high = match highest(&highs, self.channel_period, self.shift) {
                Some(h) => h,
                None => {
                    i = i + 1;
                    continue ;
                },
            };
            let channel_low = match lowest(&lows, self.channel_period, self.shift) {
                Some(l) => l,
                None => {
                    i = i + 1;
                    continue ;
                },
            };
            let sma_now = match sma(&closes, self.sma_period) {
                Some(v) => v,
                None => {
                    i = i + 1;
                    continue ;
                },
            };
            let close = match data_handler.get_latest_bar_value(symbol.as_str(), BarField::Close) {
                Some(c) => c,
                None => {
                    i = i + 1;
                    continue ;
                },
            };
            let position: i64 = if i < current_positions.len() {
                current_positions[i].position_e5
            } else {
                0
            };
            if position == 0 && close > channel_high && close > sma_now {
                let sig = <Self as Strategy<D>>::open_by_market(
                    self,
                    ts,
                    symbol,
                    SignalName::Long,
                    Some(100_000),
                );
                signals.push(sig);
            } else if position > 0 && close < channel_low {
                let sig = <Self as Strategy<D>>::close_by_market(
                    self,
                    ts,
                    symbol,
                    SignalName::Exit,
                    Some(position),
                );
                signals.push(sig);
            }
            i = i + 1;
        }
        Ok(signals)
    }
}

} // verus!
