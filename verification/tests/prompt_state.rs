use trade::api::{Cancel, Notification, Order, OrderAck, OrderExpired, OrderUpdate, Trade, TimeInForce};
use trade::order_book::{LimitUpdate, OrderBook};
use trade::prompt_state::{order_acknowledged, process_notif, Prompt, PullEvent};
use trade::Side;

fn order(id: &str, price: u64, size: u64) -> Order {
    Order {
        price,
        size,
        side: Side::Bid,
        time_in_force: TimeInForce::GoodTilCanceled,
        time_window: 5000,
        order_id: Some(id.to_owned()),
    }
}

fn update(id: &str, consumed: u64, remaining: u64) -> OrderUpdate {
    OrderUpdate {
        timestamp: 1,
        order_id: id.to_owned(),
        consumed_size: consumed,
        remaining_size: remaining,
        consumed_price: 100,
        commission: 0,
    }
}

#[test]
fn prompt_starts_empty() {
    let p = Prompt::new();
    assert_eq!(p.output(), "");
    assert!(p.order_ids().is_empty());
    assert_eq!(p.order_book().best_bid(), 0);
}

#[test]
fn prompt_tracks_an_order_until_canceled() {
    let mut p = Prompt::new();
    p.process_event(PullEvent::OrderAck(Ok(order("a", 100, 10))));
    assert_eq!(p.output(), "inserted order `a`");
    assert_eq!(p.order_ids(), vec!["a".to_owned()]);
    assert_eq!(p.order("a"), Some(&order("a", 100, 10)));

    p.process_event(PullEvent::CancelAck(Ok(Cancel { order_id: "a".to_owned(), time_window: 5000 })));
    assert_eq!(p.output(), "canceled order `a`");
    assert!(p.order_ids().is_empty());
    assert_eq!(p.order("a"), None);

    p.process_event(PullEvent::CancelAck(Ok(Cancel { order_id: "a".to_owned(), time_window: 5000 })));
    assert_eq!(p.output(), "received `CancelAck` for unknown order `a`");
}

#[test]
fn prompt_fills_an_order() {
    let mut p = Prompt::new();
    p.process_event(PullEvent::OrderAck(Ok(order("b", 100, 10))));
    p.process_event(PullEvent::OrderUpdate(update("b", 4, 6)));
    assert_eq!(p.output(), "filled order `b` with quantity 4");
    assert_eq!(p.order("b"), Some(&order("b", 100, 6)));

    p.process_event(PullEvent::OrderUpdate(update("b", 6, 0)));
    assert_eq!(p.output(), "filled order `b` with quantity 6");
    assert_eq!(p.order("b"), None);

    p.process_event(PullEvent::OrderUpdate(update("b", 1, 0)));
    assert_eq!(p.output(), "received `OrderUpdate` for unknown order `b`");
}

#[test]
fn prompt_expires_an_order() {
    let mut p = Prompt::new();
    p.process_event(PullEvent::OrderAck(Ok(order("c", 100, 10))));
    p.process_event(PullEvent::OrderAck(Ok(order("d", 101, 3))));
    let mut ids = p.order_ids();
    ids.sort();
    assert_eq!(ids, vec!["c".to_owned(), "d".to_owned()]);

    p.process_event(PullEvent::OrderExpired("c".to_owned()));
    assert_eq!(p.output(), "order `c` has expired");
    assert_eq!(p.order_ids(), vec!["d".to_owned()]);

    p.process_event(PullEvent::OrderExpired("c".to_owned()));
    assert_eq!(p.output(), "received `OrderExpired` for unknown order `c`");
}

#[test]
fn prompt_shows_errors_messages_and_book() {
    let mut p = Prompt::new();
    p.process_event(PullEvent::OrderAck(Err("order rejected".to_owned())));
    assert_eq!(p.output(), "order rejected");
    assert!(p.order_ids().is_empty());
    p.process_event(PullEvent::CancelAck(Err("unknown order".to_owned())));
    assert_eq!(p.output(), "unknown order");
    p.process_event(PullEvent::Message("stream connection was dropped".to_owned()));
    assert_eq!(p.output(), "stream connection was dropped");

    let mut book = OrderBook::new();
    book.update(LimitUpdate::new(95, 7, Side::Bid));
    p.process_event(PullEvent::OrderBook(book));
    assert_eq!(p.order_book().best_bid(), 95);
    assert_eq!(p.output(), "stream connection was dropped");
}

#[test]
fn prompt_ack_then_cancel_restores_orders() {
    let mut p = Prompt::new();
    p.process_event(PullEvent::OrderAck(Ok(order("x", 100, 1))));
    p.process_event(PullEvent::OrderAck(Ok(order("y", 100, 2))));
    p.process_event(PullEvent::CancelAck(Ok(Cancel { order_id: "y".to_owned(), time_window: 5000 })));
    assert_eq!(p.order_ids(), vec!["x".to_owned()]);
}

#[test]
fn acknowledged_order_gets_its_id() {
    let mut o = order("ignored", 100, 10);
    o.order_id = None;
    match order_acknowledged(o.clone(), Ok(OrderAck { timestamp: 3, order_id: "srv".to_owned() })) {
        PullEvent::OrderAck(Ok(acked)) => assert_eq!(acked, Order { order_id: Some("srv".to_owned()), ..o }),
        other => panic!("unexpected {:?}", other),
    }
    match order_acknowledged(o, Err("rejected".to_owned())) {
        PullEvent::OrderAck(Err(msg)) => assert_eq!(msg, "rejected"),
        other => panic!("unexpected {:?}", other),
    }
}

#[test]
fn notifications_keep_the_book() {
    let mut book = OrderBook::new();
    let e = process_notif(&mut book, Notification::LimitUpdates(vec![
        LimitUpdate::new(95, 7, Side::Bid),
        LimitUpdate::new(96, 3, Side::Bid),
        LimitUpdate::new(96, 0, Side::Bid),
        LimitUpdate::new(120, 1, Side::Ask),
    ]));
    assert_eq!(book.bid(), vec![(95, 7)]);
    assert_eq!(book.ask(), vec![(120, 1)]);
    match e {
        Some(PullEvent::OrderBook(b)) => assert_eq!(b, book),
        other => panic!("unexpected {:?}", other),
    }
    match process_notif(&mut book, Notification::OrderUpdate(update("b", 4, 6))) {
        Some(PullEvent::OrderUpdate(u)) => assert_eq!(u, update("b", 4, 6)),
        other => panic!("unexpected {:?}", other),
    }
    match process_notif(&mut book, Notification::OrderExpired(OrderExpired { timestamp: 9, order_id: "c".to_owned() })) {
        Some(PullEvent::OrderExpired(id)) => assert_eq!(id, "c"),
        other => panic!("unexpected {:?}", other),
    }
    let trade = Trade { timestamp: 1, price: 100, size: 2, maker_side: Side::Ask };
    assert!(process_notif(&mut book, Notification::Trade(trade)).is_none());
    assert_eq!(book.bid(), vec![(95, 7)]);
}
