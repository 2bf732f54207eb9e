//! Event types flowing through the simulation queue.
//!
//! Four kinds of event exist: MARKET (a bar advanced), SIGNAL (strategy
//! intent), ORDER (sized and risk-checked request) and FILL (confirmation
//! of execution).  The kernel consumes them strictly first-in first-out.

use vstd::prelude::*;

verus! {

/// Intent carried by a signal: open long, open short, or close.
#[derive(Clone, Copy, Debug, PartialEq, Eq, Structural)]
pub enum SignalName {
    Long,
    Short,
    Exit,
}

/// How an order is to be priced.
#[derive(Clone, Copy, Debug, PartialEq, Eq, Structural)]
pub enum OrderType {
    Market,
    Limit,
}

/// Side of an order or fill.
#[derive(Clone, Copy, Debug, PartialEq, Eq, Structural)]
pub enum Direction {
    Buy,
    Sell,
}

impl Direction {
    /// Position delta sign: `+1` for a buy, `-1` for a sell.
    pub open spec fn spec_sign(self) -> int {
        match self {
            Direction::Buy => 1,
            Direction::Sell => -1,
        }
    }

    /// Executable form of [`Self::spec_sign`].
    pub fn sign(&self) -> (s: i64)
        ensures
            s == self.spec_sign(),
    {
        match self {
            Direction::Buy => 1,
            Direction::Sell => -1,
        }
    }
}

/// A bar advance; carries no payload.
#[derive(Clone, Copy, Debug)]
pub struct MarketEvent;

impl MarketEvent {
    pub fn new() -> Self {
        MarketEvent
    }
}

/// Strategy intent for one symbol at one bar.
#[derive(Debug)]
pub struct SignalEvent {
    /// Bar timestamp, seconds since the epoch.
    pub ts: i64,
    pub symbol: String,
    pub signal_name: SignalName,
    pub order_type: OrderType,
    /// Requested quantity, scaled by `1e5`; absent lets the sizer decide.
    pub quantity_e5: Option<i64>,
    /// Limit price, scaled by `1e5`; only meaningful for limit orders.
    pub limit_price_e5: Option<i64>,
}

impl Clone for SignalEvent {
    fn clone(&self) -> (r: Self)
        ensures
            r == *self,
    {
        SignalEvent {
            ts: self.ts,
            symbol: self.symbol.clone(),
            signal_name: self.signal_name,
            order_type: self.order_type,
            quantity_e5: self.quantity_e5,
            limit_price_e5: self.limit_price_e5,
        }
    }
}

impl SignalEvent {
    pub fn new(
        ts: i64,
        symbol: String,
        signal_name: SignalName,
        order_type: OrderType,
        quantity_e5: Option<i64>,
        limit_price_e5: Option<i64>,
    ) -> (r: SignalEvent)
        ensures
            r == (SignalEvent {
                ts,
                symbol,
                signal_name,
                order_type,
                quantity_e5,
                limit_price_e5,
            }),
    {
        SignalEvent { ts, symbol, signal_name, order_type, quantity_e5, limit_price_e5 }
    }
}

/// Sized, directed request for execution.
#[derive(Debug)]
pub struct OrderEvent {
    /// Bar timestamp, seconds since the epoch.
    pub ts: i64,
    pub symbol: String,
    pub signal_name: SignalName,
    pub order_type: OrderType,
    /// Always positive; scaled by `1e5`.
    pub quantity_e5: i64,
    pub direction: Direction,
    /// Limit price, scaled by `1e5`; only meaningful for limit orders.
    pub limit_price_e5: Option<i64>,
}

impl Clone for OrderEvent {
    fn clone(&self) -> (r: Self)
        ensures
            r == *self,
    {
        OrderEvent {
            ts: self.ts,
            symbol: self.symbol.clone(),
            signal_name: self.signal_name,
            order_type: self.order_type,
            quantity_e5: self.quantity_e5,
            direction: self.direction,
            limit_price_e5: self.limit_price_e5,
        }
    }
}

impl OrderEvent {
    pub fn new(
        ts: i64,
        symbol: String,
        order_type: OrderType,
        quantity_e5: i64,
        direction: Direction,
        signal_name: SignalName,
        limit_price_e5: Option<i64>,
    ) -> (r: OrderEvent)
        ensures
            r == (OrderEvent {
                ts,
                symbol,
                signal_name,
                order_type,
                quantity_e5,
                direction,
                limit_price_e5,
            }),
    {
        OrderEvent { ts, symbol, signal_name, order_type, quantity_e5, direction, limit_price_e5 }
    }
}

/// Confirmation that an order executed, with price and commission.
#[derive(Debug)]
pub struct FillEvent {
    /// Bar timestamp, seconds since the epoch.
    pub ts: i64,
    pub symbol: String,
    pub exchange: String,
    /// Always positive; scaled by `1e5`.
    pub quantity_e5: i64,
    pub direction: Direction,
    /// Execution price, scaled by `1e5`.
    pub execution_price_e5: i64,
    /// Total commission billed for this fill, in cents.
    pub commission_cents: i64,
    pub signal_name: SignalName,
}

impl Clone for FillEvent {
    fn clone(&self) -> (r: Self)
        ensures
            r == *self,
    {
        FillEvent {
            ts: self.ts,
            symbol: self.symbol.clone(),
            exchange: self.exchange.clone(),
            quantity_e5: self.quantity_e5,
            direction: self.direction,
            execution_price_e5: self.execution_price_e5,
            commission_cents: self.commission_cents,
            signal_name: self.signal_name,
        }
    }
}

impl FillEvent {
    pub fn new(
        ts: i64,
        symbol: String,
        exchange: String,
        quantity_e5: i64,
        direction: Direction,
        execution_price_e5: i64,
        commission_cents: i64,
        signal_name: SignalName,
    ) -> (r: FillEvent)
        ensures
            r == (FillEvent {
                ts,
                symbol,
                exchange,
                quantity_e5,
                direction,
                execution_price_e5,
                commission_cents,
                signal_name,
            }),
    {
        FillEvent {
            ts,
            symbol,
            exchange,
            quantity_e5,
            direction,
            execution_price_e5,
            commission_cents,
            signal_name,
        }
    }
}

/// One entry of the simulation queue.
#[derive(Debug)]
pub enum Event {
    Market(MarketEvent),
    Signal(SignalEvent),
    Order(OrderEvent),
    Fill(FillEvent),
}

impl Clone for Event {
    fn clone(&self) -> (r: Self)
        ensures
            r == *self,
    {
        match self {
            Event::Market(m) => Event::Market(*m),
            Event::Signal(s) => Event::Signal(s.clone()),
            Event::Order(o) => Event::Order(o.clone()),
            Event::Fill(f) => Event::Fill(f.clone()),
        }
    }
}

impl Event {
    /// Tag of the event kind, as the queue log prints it.
    pub fn event_type(&self) -> (r: &'static str)
        ensures
            self is Market ==> r@ == "MARKET"@,
            self is Signal ==> r@ == "SIGNAL"@,
            self is Order ==> r@ == "ORDER"@,
            self is Fill ==> r@ == "FILL"@,
    {
        match self {
            Event::Market(_) => "MARKET",
            Event::Signal(_) => "SIGNAL",
            Event::Order(_) => "ORDER",
            Event::Fill(_) => "FILL",
        }
    }

    /// The signal payload, for a SIGNAL event and nothing otherwise.
    pub fn get_signal_event_params(&self) -> (r: Option<&SignalEvent>)
        ensures
            match r {
                Some(s) => self is Signal && *s == self->Signal_0,
                None => !(self is Signal),
            },
    {
        match self {
            Event::Signal(s) => Some(s),
            _ => None,
        }
    }

    /// The order payload, for an ORDER event and nothing otherwise.
    pub fn get_order_event_params(&self) -> (r: Option<&OrderEvent>)
        ensures
            match r {
                Some(o) => self is Order && *o == self->Order_0,
                None => !(self is Order),
            },
    {
        match self {
            Event::Order(o) => Some(o),
            _ => None,
        }
    }

    /// The fill payload, for a FILL event and nothing otherwise.
    pub fn get_fill_event_params(&self) -> (r: Option<&FillEvent>)
        ensures
            match r {
                Some(f) => self is Fill && *f == self->Fill_0,
                None => !(self is Fill),
            },
    {
        match self {
            Event::Fill(f) => Some(f),
            _ => None,
        }
    }
}

} // verus!
