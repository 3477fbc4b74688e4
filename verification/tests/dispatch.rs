use trader::decimal::Decimal;
use trader::decode::DecodeError;
use trader::dispatch::{replay, Action, Event, Handling, Inbound, Level, LogEntry};
use trader::id::Uuid;
use trader::order;
use trader::order::{OrderRequest, Side};
use trader::retry::{Backoff, RetryPolicy};

const ID: &str = "904837e3-3b76-47ec-b432-046db621571b";
const ID_BITS: u128 = 0x904837e3_3b76_47ec_b432_046db621571b;

fn message(text: &str) -> Inbound {
    Inbound::Message { payload: Some(text.as_bytes().to_vec()) }
}

fn new_order(limit_price: &str) -> Inbound {
    message(&format!(
        r#"{{"action":"new","intent":{{"ticker":"AAPL","qty":1,"order_type":"limit","limit_price":{},"time_in_force":"gtc","id":"{}"}}}}"#,
        limit_price, ID
    ))
}

fn cancel() -> Inbound {
    message(&format!(r#"{{"action":"cancel","id":"{}"}}"#, ID))
}

fn expected_order() -> OrderRequest {
    OrderRequest {
        symbol: "AAPL".to_string(),
        qty: 1,
        side: Side::Buy,
        order_type: order::OrderType::Limit { limit_price: Decimal::new(10000, 2) },
        time_in_force: order::TimeInForce::GoodTilCancelled,
        client_order_id: ID.to_string(),
    }
}

/// Runs one item to its end against a brokerage that answers as `replies`
/// says, and failure when the replies run out.
fn run(inbound: &Inbound, policy: &RetryPolicy, replies: &[bool]) -> Vec<Action> {
    let mut handling = Handling::begin(inbound);
    let mut actions = Vec::new();
    let mut answered = 0;
    loop {
        let action = handling.action();
        let event = match &action {
            Action::Submit(_) | Action::Cancel(_) => {
                let ok = replies.get(answered).copied().unwrap_or(false);
                answered += 1;
                Some(Event::Reply { ok })
            }
            Action::Sleep { .. } => Some(Event::Awake),
            Action::Log(_) => None,
        };
        actions.push(action);
        match event {
            Some(event) => handling = handling.advance(policy, event),
            None => return actions,
        }
    }
}

fn submissions(actions: &[Action]) -> usize {
    actions.iter().filter(|a| matches!(a, Action::Submit(_))).count()
}

fn cancellations(actions: &[Action]) -> usize {
    actions.iter().filter(|a| matches!(a, Action::Cancel(_))).count()
}

fn quick() -> RetryPolicy {
    RetryPolicy { max_attempts: 4, backoff: Backoff::Exponential, delay_ms: 10, max_delay_ms: 25 }
}

#[test]
fn generates_correct_trade() {
    let payload = r#"{"action":"new","intent":{"ticker":"AAPL","qty":1,"order_type":"limit","limit_price":100,"time_in_force":"gtc","id":"904837e3-3b76-47ec-b432-046db621571b"}}"#;
    let actions = run(&message(payload), &RetryPolicy::default(), &[true]);
    assert_eq!(
        actions,
        vec![Action::Submit(expected_order()), Action::Log(LogEntry::Submitted)]
    );
    match &actions[0] {
        Action::Submit(order) => {
            assert_eq!(order.symbol, "AAPL");
            assert_eq!(order.qty, 1);
            assert_eq!(order.side, Side::Buy);
            assert_eq!(order.time_in_force, order::TimeInForce::GoodTilCancelled);
            assert_eq!(order.client_order_id, "904837e3-3b76-47ec-b432-046db621571b");
            match order.order_type {
                order::OrderType::Limit { limit_price } => {
                    assert_eq!((limit_price.mantissa(), limit_price.scale()), (100, 0));
                }
                other => panic!("Unexpected variant: {:?}", other),
            }
        }
        other => panic!("Unexpected variant: {:?}", other),
    }
}

#[test]
fn handles_trainsient_errors() {
    let payload = r#"{"action":"new","intent":{"ticker":"AAPL","qty":1,"order_type":"limit","limit_price":"100","time_in_force":"gtc","id":"904837e3-3b76-47ec-b432-046db621571b"}}"#;
    let actions = run(&message(payload), &RetryPolicy::default(), &[false, true]);
    assert_eq!(
        actions,
        vec![
            Action::Submit(expected_order()),
            Action::Sleep { delay_ms: 1000 },
            Action::Submit(expected_order()),
            Action::Log(LogEntry::Submitted),
        ]
    );
}

#[test]
fn a_cancel_message_is_one_cancellation_and_no_submission() {
    for reply in [true, false] {
        let actions = run(&cancel(), &RetryPolicy::default(), &[reply, true, true]);
        assert_eq!(actions.len(), 2);
        assert_eq!(actions[0], Action::Cancel(Uuid(ID_BITS)));
        assert_eq!(cancellations(&actions), 1);
        assert_eq!(submissions(&actions), 0);
        let entry = if reply {
            LogEntry::Cancelled(Uuid(ID_BITS))
        } else {
            LogEntry::CancelFailed(Uuid(ID_BITS))
        };
        assert_eq!(actions[1], Action::Log(entry));
    }
    match &run(&cancel(), &quick(), &[true])[0] {
        Action::Cancel(id) => assert_eq!(id.to_string(), ID),
        other => panic!("Unexpected variant: {:?}", other),
    }
}

#[test]
fn a_submission_that_keeps_failing_is_given_up() {
    let actions = run(&new_order("\"7.777\""), &quick(), &[false; 10]);
    assert_eq!(submissions(&actions), 4);
    assert_eq!(cancellations(&actions), 0);
    let delays: Vec<u64> = actions
        .iter()
        .filter_map(|a| match a {
            Action::Sleep { delay_ms } => Some(*delay_ms),
            _ => None,
        })
        .collect();
    assert_eq!(delays, vec![10, 20, 25]);
    assert_eq!(actions.last(), Some(&Action::Log(LogEntry::SubmitFailed)));
    let first = &actions[0];
    for action in &actions {
        if matches!(action, Action::Submit(_)) {
            assert_eq!(action, first);
        }
    }
}

#[test]
fn success_on_the_nth_attempt_ends_the_handling() {
    for n in 1..=4usize {
        let mut replies = vec![false; n - 1];
        replies.push(true);
        let actions = run(&new_order("\"7.777\""), &quick(), &replies);
        assert_eq!(submissions(&actions), n);
        assert_eq!(actions.len(), 2 * n);
        assert_eq!(actions.last(), Some(&Action::Log(LogEntry::Submitted)));
    }
}

#[test]
fn the_order_is_normalized_before_it_is_translated() {
    let mut handling = Handling::begin(&new_order("7.777"));
    match handling.action() {
        Action::Submit(order) => match order.order_type {
            order::OrderType::Limit { limit_price } => {
                assert_eq!((limit_price.mantissa(), limit_price.scale()), (777, 2));
            }
            other => panic!("Unexpected variant: {:?}", other),
        },
        other => panic!("Unexpected variant: {:?}", other),
    }
    handling = handling.advance(&quick(), Event::Reply { ok: true });
    assert!(handling.is_done());
    let sell = message(&format!(
        r#"{{"action":"new","intent":{{"ticker":"AAPL","qty":-1,"order_type":"stop_limit","limit_price":7.777,"stop_price":"7.771","time_in_force":"day","id":"{}"}}}}"#,
        ID
    ));
    match Handling::begin(&sell).action() {
        Action::Submit(order) => {
            assert_eq!(order.side, Side::Sell);
            assert_eq!(
                order.order_type,
                order::OrderType::StopLimit {
                    stop_price: Decimal::new(777, 2),
                    limit_price: Decimal::new(778, 2),
                }
            );
        }
        other => panic!("Unexpected variant: {:?}", other),
    }
}

#[test]
fn what_fails_before_the_brokerage_is_only_logged() {
    let policy = quick();
    assert_eq!(
        run(&Inbound::TransportError, &policy, &[true]),
        vec![Action::Log(LogEntry::TransportError)]
    );
    assert_eq!(
        run(&Inbound::Message { payload: None }, &policy, &[true]),
        vec![Action::Log(LogEntry::Undecodable(DecodeError::Empty))]
    );
    assert_eq!(
        run(&Inbound::Message { payload: Some(vec![]) }, &policy, &[true]),
        vec![Action::Log(LogEntry::Undecodable(DecodeError::Empty))]
    );
    assert_eq!(
        run(&Inbound::Message { payload: Some(vec![0xff]) }, &policy, &[true]),
        vec![Action::Log(LogEntry::Undecodable(DecodeError::InvalidText))]
    );
    assert_eq!(
        run(&message("Blargh!"), &policy, &[true]),
        vec![Action::Log(LogEntry::Undecodable(DecodeError::SchemaMismatch))]
    );
}

#[test]
fn one_undecodable_message_among_many_is_the_only_one_dropped() {
    let good = [new_order("100"), cancel(), new_order("\"1.005\""), cancel()];
    for bad_at in 0..=good.len() {
        let mut batch: Vec<Inbound> = good.iter().map(|m| match m {
            Inbound::Message { payload } => Inbound::Message { payload: payload.clone() },
            Inbound::TransportError => Inbound::TransportError,
        }).collect();
        batch.insert(bad_at, message("Blargh!"));
        let mut reached = 0;
        let mut dropped = 0;
        for inbound in &batch {
            let actions = run(inbound, &quick(), &[true]);
            if submissions(&actions) + cancellations(&actions) > 0 {
                reached += 1;
            }
            if matches!(actions.last(), Some(Action::Log(LogEntry::Undecodable(_)))) {
                dropped += 1;
            }
        }
        assert_eq!(reached, batch.len() - 1);
        assert_eq!(dropped, 1);
    }
}

#[test]
fn an_event_that_answers_nothing_changes_nothing() {
    let policy = quick();
    let submitting = Handling::begin(&new_order("100"));
    let still = submitting.advance(&policy, Event::Awake);
    assert_eq!(still, Handling::begin(&new_order("100")));
    let waiting = still.advance(&policy, Event::Reply { ok: false });
    assert_eq!(waiting.action(), Action::Sleep { delay_ms: 10 });
    let still_waiting = waiting.advance(&policy, Event::Reply { ok: true });
    assert_eq!(still_waiting.action(), Action::Sleep { delay_ms: 10 });
    let cancelling = Handling::begin(&cancel()).advance(&policy, Event::Awake);
    assert_eq!(cancelling, Handling::Cancelling { id: Uuid(ID_BITS) });
    let done = cancelling.advance(&policy, Event::Reply { ok: true });
    assert!(done.is_done());
    let after = done.advance(&policy, Event::Reply { ok: false });
    assert_eq!(after, Handling::Done { entry: LogEntry::Cancelled(Uuid(ID_BITS)) });
    let after = after.advance(&policy, Event::Awake);
    assert_eq!(after, Handling::Done { entry: LogEntry::Cancelled(Uuid(ID_BITS)) });
}

#[test]
fn the_call_count_stops_at_the_top() {
    let order = expected_order();
    let waiting = Handling::Waiting { order: order.clone(), calls: u32::MAX, delay_ms: 1 };
    let next = waiting.advance(&quick(), Event::Awake);
    assert_eq!(next, Handling::Submitting { order: order.clone(), calls: u32::MAX });
    let waiting = Handling::Waiting { order: order.clone(), calls: 7, delay_ms: 1 };
    assert_eq!(
        waiting.advance(&quick(), Event::Awake),
        Handling::Submitting { order, calls: 8 }
    );
}

#[test]
fn good_news_is_information() {
    assert_eq!(LogEntry::Submitted.level(), Level::Info);
    assert_eq!(LogEntry::Cancelled(Uuid(1)).level(), Level::Info);
    assert_eq!(LogEntry::SubmitFailed.level(), Level::Warn);
    assert_eq!(LogEntry::CancelFailed(Uuid(1)).level(), Level::Warn);
    assert_eq!(LogEntry::TransportError.level(), Level::Warn);
    assert_eq!(LogEntry::Undecodable(DecodeError::Empty).level(), Level::Warn);
}

#[test]
fn a_replay_lists_what_a_caller_performs() {
    let items = [
        new_order("100"),
        new_order("\"7.777\""),
        cancel(),
        message("Blargh!"),
        Inbound::Message { payload: None },
        Inbound::TransportError,
    ];
    let scripts: [&[bool]; 6] =
        [&[], &[true], &[false], &[false, true], &[false, false, false, true], &[false; 9]];
    for item in &items {
        for script in scripts {
            for policy in [quick(), RetryPolicy::default()] {
                assert_eq!(replay(item, &policy, &script.to_vec()), run(item, &policy, script));
            }
        }
    }
    assert_eq!(
        replay(&cancel(), &quick(), &vec![true]),
        vec![Action::Cancel(Uuid(ID_BITS)), Action::Log(LogEntry::Cancelled(Uuid(ID_BITS)))]
    );
    assert_eq!(
        replay(&new_order("100"), &quick(), &vec![false, false, true]),
        vec![
            Action::Submit(expected_order()),
            Action::Sleep { delay_ms: 10 },
            Action::Submit(expected_order()),
            Action::Sleep { delay_ms: 20 },
            Action::Submit(expected_order()),
            Action::Log(LogEntry::Submitted),
        ]
    );
}
