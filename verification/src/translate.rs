//! From a trade intent to the brokerage's order request.

use crate::id::{hyphenated, uuid_from};
use crate::intent::{OrderType, OrderTypeView, TimeInForce, TradeIntent, TradeIntentView};
use crate::order;
use crate::order::{OrderRequest, OrderRequestView, Side};
use vstd::prelude::*;

verus! {

/// The side that the sign of `qty` stands for.
pub open spec fn side_of(qty: int) -> Side {
    if qty > 0 {
        Side::Buy
    } else {
        Side::Sell
    }
}

/// The brokerage's name for each lifetime of an order.
pub open spec fn broker_time_in_force(time_in_force: TimeInForce) -> order::TimeInForce {
    match time_in_force {
        TimeInForce::GoodTilCanceled => order::TimeInForce::GoodTilCancelled,
        TimeInForce::Day => order::TimeInForce::Day,
        TimeInForce::ImmediateOrCancel => order::TimeInForce::ImmediateOrCancel,
        TimeInForce::FillOrKill => order::TimeInForce::FillOrKill,
        TimeInForce::Open => order::TimeInForce::Open,
        TimeInForce::Close => order::TimeInForce::Close,
    }
}

/// The brokerage's pricing kind with the same prices.
pub open spec fn broker_order_type(order_type: OrderTypeView) -> order::OrderTypeView {
    match order_type {
        OrderTypeView::Market => order::OrderTypeView::Market,
        OrderTypeView::Limit { limit_price } => order::OrderTypeView::Limit { limit_price },
        OrderTypeView::Stop { stop_price } => order::OrderTypeView::Stop { stop_price },
        OrderTypeView::StopLimit { stop_price, limit_price } => order::OrderTypeView::StopLimit {
            stop_price,
            limit_price,
        },
    }
}

/// The order request that stands for `intent`.
pub open spec fn translated(intent: TradeIntentView) -> OrderRequestView {
    OrderRequestView {
        symbol: intent.ticker,
        qty: vstd::math::abs(intent.qty) as nat,
        side: side_of(intent.qty),
        order_type: broker_order_type(intent.order_type),
        time_in_force: broker_time_in_force(intent.time_in_force),
        client_order_id: hyphenated(intent.id.0),
    }
}

/// The number of shares that `qty` stands for, whatever its sign.
pub fn share_count(qty: i64) -> (n: u64)
    ensures
        n == vstd::math::abs(qty as int),
{
    if qty >= 0 {
        qty as u64
    } else {
        let above: i64 = qty + 1;
        let below: i64 = -above;
        below as u64 + 1
    }
}

/// The brokerage's name for `time_in_force`.
pub fn translate_time_in_force(time_in_force: TimeInForce) -> (r: order::TimeInForce)
    ensures
        r == broker_time_in_force(time_in_force),
{
    match time_in_force {
        TimeInForce::GoodTilCanceled => order::TimeInForce::GoodTilCancelled,
        TimeInForce::Day => order::TimeInForce::Day,
        TimeInForce::ImmediateOrCancel => order::TimeInForce::ImmediateOrCancel,
        TimeInForce::FillOrKill => order::TimeInForce::FillOrKill,
        TimeInForce::Open => order::TimeInForce::Open,
        TimeInForce::Close => order::TimeInForce::Close,
    }
}

/// The brokerage's pricing kind for `order_type`, prices copied as they are.
pub fn translate_order_type(order_type: OrderType) -> (r: order::OrderType)
    ensures
        r@ == broker_order_type(order_type@),
{
    match order_type {
        OrderType::Market => order::OrderType::Market,
        OrderType::Limit { limit_price } => order::OrderType::Limit { limit_price },
        OrderType::Stop { stop_price } => order::OrderType::Stop { stop_price },
        OrderType::StopLimit { stop_price, limit_price } => order::OrderType::StopLimit {
            stop_price,
            limit_price,
        },
    }
}

/// Builds the order request for `ti`: the magnitude of the quantity with the
/// side that its sign stands for, the same prices and lifetime under the
/// brokerage's names, and the intent's identifier, in canonical text, as the
/// client order id. The client order id names the intent: the identifier can
/// be read back from it.
pub fn translate_intent(ti: TradeIntent) -> (r: OrderRequest)
    ensures
        r@ == translated(ti@),
        uuid_from(r@.client_order_id) == Some(ti.id),
{
    let side = if ti.qty > 0 {
        Side::Buy
    } else {
        Side::Sell
    };
    OrderRequest {
        symbol: ti.ticker,
        qty: share_count(ti.qty),
        side,
        order_type: translate_order_type(ti.order_type),
        time_in_force: translate_time_in_force(ti.time_in_force),
        client_order_id: ti.id.to_string(),
    }
}

/// The sign of the quantity can be read back from the request: bought shares
/// count as positive, sold shares as negative.
pub proof fn lemma_translated_keeps_quantity(intent: TradeIntentView)
    ensures
        translated(intent).signed_qty() == intent.qty,
        translated(intent).side == Side::Buy <==> intent.qty > 0,
        intent.wf() ==> translated(intent).qty > 0,
{
}

/// No two lifetimes share a name at the brokerage.
pub proof fn lemma_time_in_force_is_one_to_one(a: TimeInForce, b: TimeInForce)
    ensures
        broker_time_in_force(a) == broker_time_in_force(b) <==> a == b,
{
}

/// Every lifetime that the brokerage knows is the name of one of ours.
pub proof fn lemma_time_in_force_is_onto(b: order::TimeInForce)
    ensures
        exists|a: TimeInForce| broker_time_in_force(a) == b,
{
    match b {
        order::TimeInForce::GoodTilCancelled => {
            assert(broker_time_in_force(TimeInForce::GoodTilCanceled) == b);
        },
        order::TimeInForce::Day => {
            assert(broker_time_in_force(TimeInForce::Day) == b);
        },
        order::TimeInForce::ImmediateOrCancel => {
            assert(broker_time_in_force(TimeInForce::ImmediateOrCancel) == b);
        },
        order::TimeInForce::FillOrKill => {
            assert(broker_time_in_force(TimeInForce::FillOrKill) == b);
        },
        order::TimeInForce::Open => {
            assert(broker_time_in_force(TimeInForce::Open) == b);
        },
        order::TimeInForce::Close => {
            assert(broker_time_in_force(TimeInForce::Close) == b);
        },
    }
}

/// The pricing kind and its prices can be read back from the request.
pub proof fn lemma_order_type_is_one_to_one(a: OrderTypeView, b: OrderTypeView)
    ensures
        broker_order_type(a) == broker_order_type(b) <==> a == b,
{
}

} // verus!
