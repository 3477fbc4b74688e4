//! Trade intents and the messages that carry them.

use crate::decimal::{Decimal, DecimalView};
use crate::id::Uuid;
use vstd::prelude::*;

verus! {

/// How an order is priced.
#[derive(Clone, Copy, Debug, PartialEq, Eq)]
pub enum OrderType {
    Market,
    Limit { limit_price: Decimal },
    Stop { stop_price: Decimal },
    StopLimit { stop_price: Decimal, limit_price: Decimal },
}

/// Mathematical content of an [`OrderType`].
pub enum OrderTypeView {
    Market,
    Limit { limit_price: DecimalView },
    Stop { stop_price: DecimalView },
    StopLimit { stop_price: DecimalView, limit_price: DecimalView },
}

impl View for OrderType {
    type V = OrderTypeView;

    open spec fn view(&self) -> OrderTypeView {
        match *self {
            OrderType::Market => OrderTypeView::Market,
            OrderType::Limit { limit_price } => OrderTypeView::Limit { limit_price: limit_price@ },
            OrderType::Stop { stop_price } => OrderTypeView::Stop { stop_price: stop_price@ },
            OrderType::StopLimit { stop_price, limit_price } => OrderTypeView::StopLimit {
                stop_price: stop_price@,
                limit_price: limit_price@,
            },
        }
    }
}

/// How long an order stays active.
#[derive(Clone, Copy, Debug, PartialEq, Eq, Structural)]
pub enum TimeInForce {
    GoodTilCanceled,
    Day,
    ImmediateOrCancel,
    FillOrKill,
    Open,
    Close,
}

/// A wish to trade, independent of any brokerage. The sign of `qty` is the
/// side, buy when positive and sell when negative; its magnitude is the number
/// of shares. `id` doubles as the idempotency key of the order.
#[derive(Debug, PartialEq, Eq)]
pub struct TradeIntent {
    pub id: Uuid,
    pub ticker: String,
    pub qty: i64,
    pub order_type: OrderType,
    pub time_in_force: TimeInForce,
}

/// Mathematical content of a [`TradeIntent`].
pub struct TradeIntentView {
    pub id: Uuid,
    pub ticker: Seq<char>,
    pub qty: int,
    pub order_type: OrderTypeView,
    pub time_in_force: TimeInForce,
}

impl View for TradeIntent {
    type V = TradeIntentView;

    open spec fn view(&self) -> TradeIntentView {
        TradeIntentView {
            id: self.id,
            ticker: self.ticker@,
            qty: self.qty as int,
            order_type: self.order_type@,
            time_in_force: self.time_in_force,
        }
    }
}

impl Clone for TradeIntent {
    fn clone(&self) -> (r: TradeIntent)
        ensures
            r@ == self@,
    {
        TradeIntent {
            id: self.id,
            ticker: self.ticker.clone(),
            qty: self.qty,
            order_type: self.order_type,
            time_in_force: self.time_in_force,
        }
    }
}

impl TradeIntent {
    /// An intent to trade `qty` shares of `ticker` at the market, good until
    /// cancelled. A positive `qty` buys, a negative one sells.
    pub fn new(id: Uuid, ticker: &str, qty: i64) -> (intent: TradeIntent)
        requires
            qty != 0,
        ensures
            intent@ == (TradeIntentView {
                id,
                ticker: ticker@,
                qty: qty as int,
                order_type: OrderTypeView::Market,
                time_in_force: TimeInForce::GoodTilCanceled,
            }),
            intent@.wf(),
    {
        TradeIntent {
            id,
            ticker: ticker.to_owned(),
            qty,
            order_type: OrderType::Market,
            time_in_force: TimeInForce::GoodTilCanceled,
        }
    }

    /// The same intent with another pricing.
    pub fn order_type(self, order_type: OrderType) -> (intent: TradeIntent)
        ensures
            intent@ == (TradeIntentView { order_type: order_type@, ..self@ }),
    {
        TradeIntent { order_type, ..self }
    }

    /// The same intent with another lifetime.
    pub fn time_in_force(self, time_in_force: TimeInForce) -> (intent: TradeIntent)
        ensures
            intent@ == (TradeIntentView { time_in_force, ..self@ }),
    {
        TradeIntent { time_in_force, ..self }
    }
}

impl TradeIntentView {
    /// An intent trades at least one share.
    pub open spec fn wf(self) -> bool {
        self.qty != 0
    }
}

/// What arrives on the bus: a new intent, or the cancellation of an earlier one.
#[derive(Debug, PartialEq, Eq)]
pub enum TradeMessage {
    New { intent: TradeIntent },
    Cancel { id: Uuid },
}

/// Mathematical content of a [`TradeMessage`].
pub enum TradeMessageView {
    New { intent: TradeIntentView },
    Cancel { id: Uuid },
}

impl View for TradeMessage {
    type V = TradeMessageView;

    open spec fn view(&self) -> TradeMessageView {
        match *self {
            TradeMessage::New { intent } => TradeMessageView::New { intent: intent@ },
            TradeMessage::Cancel { id } => TradeMessageView::Cancel { id },
        }
    }
}

impl Clone for TradeMessage {
    fn clone(&self) -> (r: TradeMessage)
        ensures
            r@ == self@,
    {
        match self {
            TradeMessage::New { intent } => TradeMessage::New { intent: intent.clone() },
            TradeMessage::Cancel { id } => TradeMessage::Cancel { id: *id },
        }
    }
}

impl TradeMessageView {
    /// The intent of a new-order message is well formed.
    pub open spec fn wf(self) -> bool {
        self matches TradeMessageView::New { intent } ==> intent.wf()
    }
}

} // verus!
