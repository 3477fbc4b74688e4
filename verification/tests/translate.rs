use trader::decimal::Decimal;
use trader::id::Uuid;
use trader::intent::{OrderType, TimeInForce, TradeIntent};
use trader::order;
use trader::order::{OrderRequest, Side};
use trader::translate::{
    share_count, translate_intent, translate_order_type, translate_time_in_force,
};

#[test]
fn the_sign_of_the_quantity_is_the_side() {
    let buy = translate_intent(TradeIntent::new(Uuid(1), "AAPL", 5));
    assert_eq!(buy.side, Side::Buy);
    assert_eq!(buy.qty, 5);
    let sell = translate_intent(TradeIntent::new(Uuid(1), "AAPL", -5));
    assert_eq!(sell.side, Side::Sell);
    assert_eq!(sell.qty, 5);
}

#[test]
fn share_count_is_the_magnitude() {
    assert_eq!(share_count(5), 5);
    assert_eq!(share_count(-5), 5);
    assert_eq!(share_count(0), 0);
    assert_eq!(share_count(i64::MAX), 9223372036854775807);
    assert_eq!(share_count(i64::MIN), 9223372036854775808);
    assert_eq!(share_count(i64::MIN + 1), 9223372036854775807);
}

#[test]
fn every_lifetime_has_its_own_name_at_the_brokerage() {
    let table = [
        (TimeInForce::GoodTilCanceled, order::TimeInForce::GoodTilCancelled),
        (TimeInForce::Day, order::TimeInForce::Day),
        (TimeInForce::ImmediateOrCancel, order::TimeInForce::ImmediateOrCancel),
        (TimeInForce::FillOrKill, order::TimeInForce::FillOrKill),
        (TimeInForce::Open, order::TimeInForce::Open),
        (TimeInForce::Close, order::TimeInForce::Close),
    ];
    for (ours, theirs) in table {
        assert_eq!(translate_time_in_force(ours), theirs);
        let order = translate_intent(TradeIntent::new(Uuid(1), "X", 1).time_in_force(ours));
        assert_eq!(order.time_in_force, theirs);
    }
    for (i, (_, a)) in table.iter().enumerate() {
        for (j, (_, b)) in table.iter().enumerate() {
            assert_eq!(a == b, i == j);
        }
    }
}

#[test]
fn order_types_keep_their_shape_and_prices() {
    assert_eq!(translate_order_type(OrderType::Market), order::OrderType::Market);
    let limit = translate_order_type(OrderType::Limit { limit_price: Decimal::new(12345, 3) });
    match limit {
        order::OrderType::Limit { limit_price } => {
            assert_eq!((limit_price.mantissa(), limit_price.scale()), (12345, 3));
        }
        other => panic!("Unexpected order type: {:?}", other),
    }
    let stop = translate_order_type(OrderType::Stop { stop_price: Decimal::new(-5, 1) });
    match stop {
        order::OrderType::Stop { stop_price } => {
            assert_eq!((stop_price.mantissa(), stop_price.scale()), (-5, 1));
        }
        other => panic!("Unexpected order type: {:?}", other),
    }
    let both = translate_order_type(OrderType::StopLimit {
        stop_price: Decimal::new(1, 0),
        limit_price: Decimal::new(2, 0),
    });
    match both {
        order::OrderType::StopLimit { stop_price, limit_price } => {
            assert_eq!((stop_price.mantissa(), stop_price.scale()), (1, 0));
            assert_eq!((limit_price.mantissa(), limit_price.scale()), (2, 0));
        }
        other => panic!("Unexpected order type: {:?}", other),
    }
}

#[test]
fn the_whole_request_is_built() {
    let id = Uuid::parse_str("904837e3-3b76-47ec-b432-046db621571b").unwrap();
    let intent = TradeIntent::new(id, "AAPL", -40)
        .order_type(OrderType::StopLimit {
            stop_price: Decimal::new(9950, 2),
            limit_price: Decimal::new(9900, 2),
        })
        .time_in_force(TimeInForce::ImmediateOrCancel);
    assert_eq!(
        translate_intent(intent),
        OrderRequest {
            symbol: "AAPL".to_string(),
            qty: 40,
            side: Side::Sell,
            order_type: order::OrderType::StopLimit {
                stop_price: Decimal::new(9950, 2),
                limit_price: Decimal::new(9900, 2),
            },
            time_in_force: order::TimeInForce::ImmediateOrCancel,
            client_order_id: "904837e3-3b76-47ec-b432-046db621571b".to_string(),
        }
    );
}

#[test]
fn the_client_order_id_is_the_canonical_text_of_the_identifier() {
    let order = translate_intent(TradeIntent::new(
        Uuid(0x0123456789ABCDEF_FEDCBA9876543210),
        "AAPL",
        1,
    ));
    assert_eq!(order.client_order_id, "01234567-89ab-cdef-fedc-ba9876543210");
    let order = translate_intent(TradeIntent::new(Uuid(0), "AAPL", 1));
    assert_eq!(order.client_order_id, "00000000-0000-0000-0000-000000000000");
}

#[test]
fn the_smallest_quantity_is_translated_without_overflow() {
    let order = translate_intent(TradeIntent::new(Uuid(3), "AAPL", i64::MIN));
    assert_eq!(order.side, Side::Sell);
    assert_eq!(order.qty, 1u64 << 63);
}
