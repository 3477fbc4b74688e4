//! Side-aware rounding of an intent's prices to whole cents.
//!
//! A buyer's limit is rounded toward zero and a seller's away from it, so that
//! the order never trades at a worse price than intended. Stop prices go the
//! other way, so that a stop never triggers before the intended price.

use crate::decimal::{
    dropped_digits, lemma_rounded_direction, lemma_rounded_idempotent, pow10, rounded, DecimalView,
    Rounding,
};
use crate::intent::{OrderType, OrderTypeView, TradeIntent, TradeIntentView};
use vstd::prelude::*;

verus! {

/// Fractional digits that a normalized price keeps.
pub const PRICE_DIGITS: u32 = 2;

/// Direction in which the limit price of an order for `qty` shares is rounded.
pub open spec fn limit_rounding(qty: int) -> Rounding {
    if qty > 0 {
        Rounding::TowardZero
    } else {
        Rounding::AwayFromZero
    }
}

/// Direction in which the stop price of an order for `qty` shares is rounded.
pub open spec fn stop_rounding(qty: int) -> Rounding {
    if qty > 0 {
        Rounding::AwayFromZero
    } else {
        Rounding::TowardZero
    }
}

/// The limit price `price` of an order for `qty` shares, in whole cents.
pub open spec fn normalized_limit(price: DecimalView, qty: int) -> DecimalView {
    rounded(price, PRICE_DIGITS as nat, limit_rounding(qty))
}

/// The stop price `price` of an order for `qty` shares, in whole cents.
pub open spec fn normalized_stop(price: DecimalView, qty: int) -> DecimalView {
    rounded(price, PRICE_DIGITS as nat, stop_rounding(qty))
}

/// `order_type` with each price it carries brought to whole cents.
pub open spec fn normalized_order_type(order_type: OrderTypeView, qty: int) -> OrderTypeView {
    match order_type {
        OrderTypeView::Market => OrderTypeView::Market,
        OrderTypeView::Limit { limit_price } => OrderTypeView::Limit {
            limit_price: normalized_limit(limit_price, qty),
        },
        OrderTypeView::Stop { stop_price } => OrderTypeView::Stop {
            stop_price: normalized_stop(stop_price, qty),
        },
        OrderTypeView::StopLimit { stop_price, limit_price } => OrderTypeView::StopLimit {
            stop_price: normalized_stop(stop_price, qty),
            limit_price: normalized_limit(limit_price, qty),
        },
    }
}

/// `intent` with its prices normalized and everything else as it was.
pub open spec fn normalized(intent: TradeIntentView) -> TradeIntentView {
    TradeIntentView { order_type: normalized_order_type(intent.order_type, intent.qty), ..intent }
}

/// Whether every price of `order_type` has at most `digits` fractional digits.
pub open spec fn prices_within(order_type: OrderTypeView, digits: nat) -> bool {
    match order_type {
        OrderTypeView::Market => true,
        OrderTypeView::Limit { limit_price } => limit_price.scale <= digits,
        OrderTypeView::Stop { stop_price } => stop_price.scale <= digits,
        OrderTypeView::StopLimit { stop_price, limit_price } => stop_price.scale <= digits
            && limit_price.scale <= digits,
    }
}

/// Rounds the prices of `ti` to whole cents, each in the direction that is
/// safe for the side of the order.
pub fn normalize_intent(ti: &mut TradeIntent)
    ensures
        final(ti)@ == normalized(old(ti)@),
        prices_within(final(ti)@.order_type, PRICE_DIGITS as nat),
{
    let (limit_mode, stop_mode) = if ti.qty > 0 {
        (Rounding::TowardZero, Rounding::AwayFromZero)
    } else {
        (Rounding::AwayFromZero, Rounding::TowardZero)
    };
    let new_order_type = match ti.order_type {
        OrderType::Market => OrderType::Market,
        OrderType::Limit { limit_price } => OrderType::Limit {
            limit_price: limit_price.round_dp_with_strategy(PRICE_DIGITS, limit_mode),
        },
        OrderType::Stop { stop_price } => OrderType::Stop {
            stop_price: stop_price.round_dp_with_strategy(PRICE_DIGITS, stop_mode),
        },
        OrderType::StopLimit { stop_price, limit_price } => OrderType::StopLimit {
            stop_price: stop_price.round_dp_with_strategy(PRICE_DIGITS, stop_mode),
            limit_price: limit_price.round_dp_with_strategy(PRICE_DIGITS, limit_mode),
        },
    };
    ti.order_type = new_order_type;
}

/// After normalization no price has more than two fractional digits.
pub proof fn lemma_normalized_in_cents(intent: TradeIntentView)
    ensures
        prices_within(normalized(intent).order_type, PRICE_DIGITS as nat),
{
}

/// Normalization changes nothing but prices: the identifier, ticker, quantity,
/// time in force and the kind of order stay, and so does well-formedness.
pub proof fn lemma_normalized_keeps_the_rest(intent: TradeIntentView)
    ensures
        normalized(intent).id == intent.id,
        normalized(intent).ticker == intent.ticker,
        normalized(intent).qty == intent.qty,
        normalized(intent).time_in_force == intent.time_in_force,
        normalized(intent).order_type is Market <==> intent.order_type is Market,
        normalized(intent).order_type is Limit <==> intent.order_type is Limit,
        normalized(intent).order_type is Stop <==> intent.order_type is Stop,
        normalized(intent).order_type is StopLimit <==> intent.order_type is StopLimit,
        normalized(intent).wf() <==> intent.wf(),
        intent.order_type is Market ==> normalized(intent) == intent,
{
}

/// Normalizing twice is the same as normalizing once.
pub proof fn lemma_normalized_idempotent(intent: TradeIntentView)
    ensures
        normalized(normalized(intent)) == normalized(intent),
{
    let once = normalized(intent);
    match intent.order_type {
        OrderTypeView::Market => {},
        OrderTypeView::Limit { limit_price } => {
            lemma_rounded_idempotent(
                limit_price,
                PRICE_DIGITS as nat,
                limit_rounding(intent.qty),
                limit_rounding(intent.qty),
            );
        },
        OrderTypeView::Stop { stop_price } => {
            lemma_rounded_idempotent(
                stop_price,
                PRICE_DIGITS as nat,
                stop_rounding(intent.qty),
                stop_rounding(intent.qty),
            );
        },
        OrderTypeView::StopLimit { stop_price, limit_price } => {
            lemma_rounded_idempotent(
                limit_price,
                PRICE_DIGITS as nat,
                limit_rounding(intent.qty),
                limit_rounding(intent.qty),
            );
            lemma_rounded_idempotent(
                stop_price,
                PRICE_DIGITS as nat,
                stop_rounding(intent.qty),
                stop_rounding(intent.qty),
            );
        },
    }
}

/// A price that already is in whole cents is left exactly as it is, scale
/// included.
pub proof fn lemma_cents_are_kept(price: DecimalView, qty: int)
    requires
        price.scale <= PRICE_DIGITS,
    ensures
        normalized_limit(price, qty) == price,
        normalized_stop(price, qty) == price,
{
}

/// The rounding is conservative. For a price that is not negative: a buyer's
/// limit never rises and a buyer's stop never falls; a seller's limit never
/// falls and a seller's stop never rises; and each moves by less than one
/// cent. The prices are compared as numerators over the power of ten of the
/// price as it was given.
pub proof fn lemma_normalized_price_is_safe(price: DecimalView, qty: int)
    requires
        price.mantissa >= 0,
    ensures
        ({
            let limit = normalized_limit(price, qty).numerator_at(price.scale);
            let stop = normalized_stop(price, qty).numerator_at(price.scale);
            let cent = pow10(dropped_digits(price.scale, PRICE_DIGITS as nat));
            &&& qty > 0 ==> price.mantissa - cent < limit <= price.mantissa
            &&& qty > 0 ==> price.mantissa <= stop < price.mantissa + cent
            &&& qty <= 0 ==> price.mantissa <= limit < price.mantissa + cent
            &&& qty <= 0 ==> price.mantissa - cent < stop <= price.mantissa
        }),
{
    lemma_rounded_direction(price, PRICE_DIGITS as nat, Rounding::TowardZero);
    lemma_rounded_direction(price, PRICE_DIGITS as nat, Rounding::AwayFromZero);
}

} // verus!
