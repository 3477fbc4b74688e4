use trader::decimal::Decimal;
use trader::id::Uuid;
use trader::intent::{OrderType, TimeInForce, TradeIntent};
use trader::normalize::normalize_intent;

fn intent(qty: i64, order_type: OrderType) -> TradeIntent {
    TradeIntent::new(Uuid(7), "AAPL", qty).order_type(order_type)
}

fn normalized(qty: i64, order_type: OrderType) -> OrderType {
    let mut ti = intent(qty, order_type);
    normalize_intent(&mut ti);
    ti.order_type
}

fn parts(order_type: OrderType) -> Vec<(i128, u32)> {
    match order_type {
        OrderType::Market => vec![],
        OrderType::Limit { limit_price } => vec![(limit_price.mantissa(), limit_price.scale())],
        OrderType::Stop { stop_price } => vec![(stop_price.mantissa(), stop_price.scale())],
        OrderType::StopLimit { stop_price, limit_price } => vec![
            (stop_price.mantissa(), stop_price.scale()),
            (limit_price.mantissa(), limit_price.scale()),
        ],
    }
}

#[test]
fn test_normalize_intent() {
    let mut ti = TradeIntent::new(Uuid(1), "AAPL", 100)
        .order_type(OrderType::Limit { limit_price: Decimal::new(7777, 3) });
    normalize_intent(&mut ti);
    assert_eq!(ti.order_type, OrderType::Limit { limit_price: Decimal::new(777, 2) });

    let mut ti = TradeIntent::new(Uuid(1), "AAPL", -100)
        .order_type(OrderType::Limit { limit_price: Decimal::new(7777, 3) });
    normalize_intent(&mut ti);
    assert_eq!(ti.order_type, OrderType::Limit { limit_price: Decimal::new(778, 2) });
}

#[test]
fn limit_and_stop_round_by_side() {
    let limit = OrderType::Limit { limit_price: Decimal::new(7777, 3) };
    let stop = OrderType::Stop { stop_price: Decimal::new(7771, 3) };
    assert_eq!(parts(normalized(1, limit)), vec![(777, 2)]);
    assert_eq!(parts(normalized(-1, limit)), vec![(778, 2)]);
    assert_eq!(parts(normalized(1, stop)), vec![(778, 2)]);
    assert_eq!(parts(normalized(-1, stop)), vec![(777, 2)]);
}

#[test]
fn stop_limit_rounds_each_price_by_its_own_rule() {
    let both = OrderType::StopLimit {
        stop_price: Decimal::new(7771, 3),
        limit_price: Decimal::new(7777, 3),
    };
    assert_eq!(parts(normalized(5, both)), vec![(778, 2), (777, 2)]);
    assert_eq!(parts(normalized(-5, both)), vec![(777, 2), (778, 2)]);
}

#[test]
fn market_orders_and_whole_cents_are_left_alone() {
    assert_eq!(normalized(3, OrderType::Market), OrderType::Market);
    assert_eq!(normalized(-3, OrderType::Market), OrderType::Market);
    let cents = OrderType::Limit { limit_price: Decimal::new(777, 2) };
    assert_eq!(parts(normalized(1, cents)), vec![(777, 2)]);
    assert_eq!(parts(normalized(-1, cents)), vec![(777, 2)]);
    let whole = OrderType::Stop { stop_price: Decimal::new(100, 0) };
    assert_eq!(parts(normalized(1, whole)), vec![(100, 0)]);
    assert_eq!(parts(normalized(-1, whole)), vec![(100, 0)]);
    let tenth = OrderType::Stop { stop_price: Decimal::new(15, 1) };
    assert_eq!(parts(normalized(1, tenth)), vec![(15, 1)]);
}

#[test]
fn exact_cents_with_more_digits_lose_only_zeros() {
    let price = OrderType::Limit { limit_price: Decimal::new(7770000, 6) };
    assert_eq!(parts(normalized(1, price)), vec![(777, 2)]);
    assert_eq!(parts(normalized(-1, price)), vec![(777, 2)]);
    let stop = OrderType::Stop { stop_price: Decimal::new(7770000, 6) };
    assert_eq!(parts(normalized(1, stop)), vec![(777, 2)]);
    assert_eq!(parts(normalized(-1, stop)), vec![(777, 2)]);
}

#[test]
fn the_smallest_excess_moves_a_price_away_from_zero() {
    let price = OrderType::Limit { limit_price: Decimal::new(1_000_000_000_001, 12) };
    assert_eq!(parts(normalized(1, price)), vec![(100, 2)]);
    assert_eq!(parts(normalized(-1, price)), vec![(101, 2)]);
    let almost = OrderType::Stop { stop_price: Decimal::new(9_999_999, 6) };
    assert_eq!(parts(normalized(1, almost)), vec![(1000, 2)]);
    assert_eq!(parts(normalized(-1, almost)), vec![(999, 2)]);
}

#[test]
fn negative_prices_round_by_magnitude() {
    let price = OrderType::Limit { limit_price: Decimal::new(-7777, 3) };
    assert_eq!(parts(normalized(1, price)), vec![(-777, 2)]);
    assert_eq!(parts(normalized(-1, price)), vec![(-778, 2)]);
    let tiny = OrderType::Limit { limit_price: Decimal::new(-1, 3) };
    assert_eq!(parts(normalized(1, tiny)), vec![(0, 2)]);
    assert_eq!(parts(normalized(-1, tiny)), vec![(-1, 2)]);
}

#[test]
fn zero_with_many_digits_becomes_zero_in_cents() {
    let zero = OrderType::Limit { limit_price: Decimal::new(0, 5) };
    assert_eq!(parts(normalized(1, zero)), vec![(0, 2)]);
    assert_eq!(parts(normalized(-1, zero)), vec![(0, 2)]);
}

#[test]
fn the_widest_numbers_are_rounded() {
    let max = Decimal::try_from_i128_with_scale(0xFFFF_FFFF_FFFF_FFFF_FFFF_FFFF, 28).unwrap();
    let price = OrderType::Limit { limit_price: max };
    assert_eq!(parts(normalized(1, price)), vec![(792, 2)]);
    assert_eq!(parts(normalized(-1, price)), vec![(793, 2)]);
    let min = Decimal::try_from_i128_with_scale(-0xFFFF_FFFF_FFFF_FFFF_FFFF_FFFF, 3).unwrap();
    let stop = OrderType::Stop { stop_price: min };
    assert_eq!(parts(normalized(-1, stop)), vec![(-7922816251426433759354395033, 2)]);
    assert_eq!(parts(normalized(1, stop)), vec![(-7922816251426433759354395034, 2)]);
}

#[test]
fn normalizing_twice_changes_nothing_more() {
    let cases = [
        OrderType::Limit { limit_price: Decimal::new(123456, 4) },
        OrderType::Stop { stop_price: Decimal::new(-98765, 3) },
        OrderType::StopLimit {
            stop_price: Decimal::new(5, 3),
            limit_price: Decimal::new(995, 3),
        },
        OrderType::Market,
    ];
    for case in cases {
        for qty in [4i64, -4] {
            let mut ti = intent(qty, case);
            normalize_intent(&mut ti);
            let once = parts(ti.order_type);
            normalize_intent(&mut ti);
            assert_eq!(parts(ti.order_type), once);
        }
    }
}

#[test]
fn only_prices_change() {
    let mut ti = TradeIntent::new(Uuid(99), "TSLA", -12)
        .order_type(OrderType::Limit { limit_price: Decimal::new(123456, 4) })
        .time_in_force(TimeInForce::FillOrKill);
    normalize_intent(&mut ti);
    assert_eq!(ti.id, Uuid(99));
    assert_eq!(ti.ticker, "TSLA");
    assert_eq!(ti.qty, -12);
    assert_eq!(ti.time_in_force, TimeInForce::FillOrKill);
    assert_eq!(parts(ti.order_type), vec![(1235, 2)]);
}
