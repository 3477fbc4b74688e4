//! Order requests in the shape the brokerage accepts.

use crate::decimal::{Decimal, DecimalView};
use vstd::prelude::*;

verus! {

/// Which way an order trades.
#[derive(Clone, Copy, Debug, PartialEq, Eq, Structural)]
pub enum Side {
    Buy,
    Sell,
}

/// The brokerage's pricing kinds.
#[derive(Clone, Copy, Debug, PartialEq, Eq)]
pub enum OrderType {
    Market,
    Limit { limit_price: Decimal },
    Stop { stop_price: Decimal },
    StopLimit { stop_price: Decimal, limit_price: Decimal },
}

/// Mathematical content of an [`OrderType`].
pub enum OrderTypeView {
    Market,
    Limit { limit_price: DecimalView },
    Stop { stop_price: DecimalView },
    StopLimit { stop_price: DecimalView, limit_price: DecimalView },
}

impl View for OrderType {
    type V = OrderTypeView;

    open spec fn view(&self) -> OrderTypeView {
        match *self {
            OrderType::Market => OrderTypeView::Market,
            OrderType::Limit { limit_price } => OrderTypeView::Limit { limit_price: limit_price@ },
            OrderType::Stop { stop_price } => OrderTypeView::Stop { stop_price: stop_price@ },
            OrderType::StopLimit { stop_price, limit_price } => OrderTypeView::StopLimit {
                stop_price: stop_price@,
                limit_price: limit_price@,
            },
        }
    }
}

/// The brokerage's lifetimes of an order.
#[derive(Clone, Copy, Debug, PartialEq, Eq, Structural)]
pub enum TimeInForce {
    GoodTilCancelled,
    Day,
    ImmediateOrCancel,
    FillOrKill,
    Open,
    Close,
}

/// An order as it is submitted. `client_order_id` is the only thing by which
/// the brokerage can tell a repeated submission from a new order.
#[derive(Debug, PartialEq, Eq)]
pub struct OrderRequest {
    pub symbol: String,
    pub qty: u64,
    pub side: Side,
    pub order_type: OrderType,
    pub time_in_force: TimeInForce,
    pub client_order_id: String,
}

/// Mathematical content of an [`OrderRequest`].
pub struct OrderRequestView {
    pub symbol: Seq<char>,
    pub qty: nat,
    pub side: Side,
    pub order_type: OrderTypeView,
    pub time_in_force: TimeInForce,
    pub client_order_id: Seq<char>,
}

impl View for OrderRequest {
    type V = OrderRequestView;

    open spec fn view(&self) -> OrderRequestView {
        OrderRequestView {
            symbol: self.symbol@,
            qty: self.qty as nat,
            side: self.side,
            order_type: self.order_type@,
            time_in_force: self.time_in_force,
            client_order_id: self.client_order_id@,
        }
    }
}

impl Clone for OrderRequest {
    fn clone(&self) -> (r: OrderRequest)
        ensures
            r@ == self@,
    {
        OrderRequest {
            symbol: self.symbol.clone(),
            qty: self.qty,
            side: self.side,
            order_type: self.order_type,
            time_in_force: self.time_in_force,
            client_order_id: self.client_order_id.clone(),
        }
    }
}

impl OrderRequestView {
    /// Shares bought, as a positive number, or sold, as a negative one.
    pub open spec fn signed_qty(self) -> int {
        match self.side {
            Side::Buy => self.qty as int,
            Side::Sell => -(self.qty as int),
        }
    }
}

} // verus!
