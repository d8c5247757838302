use trade::api::hitbtc::wss::{
    convert_hit_btc_side, method_of, HandlerImpl, HitBtcLimitUpdate, HitBtcLimitUpdates, HitBtcMessage, HitBtcMethod,
    HitBtcReportParams, HitBtcTradeData, NotificationFlags, SubscriptionState,
};
use trade::api::hitbtc::wss::HitBtcRequest;
use trade::api::hitbtc::KeyPair;
use trade::api::wss::MessageError;
use trade::api::{Notification, OrderExpired, OrderReceived, OrderUpdate, SymbolInfo, Trade};
use trade::order_book::LimitUpdate;
use trade::tick::Tick;
use trade::Side;

fn symbol() -> SymbolInfo {
    SymbolInfo {
        name: "ETHBTC".to_owned(),
        price_tick: Tick::new(1_000_000),
        size_tick: Tick::new(1000),
        commission_tick: Tick::new(100_000_000),
    }
}

fn all() -> NotificationFlags {
    NotificationFlags { order_book: true, trades: true, orders: true }
}

fn level(price: &str, size: &str) -> HitBtcLimitUpdate {
    HitBtcLimitUpdate { price: price.to_owned(), size: size.to_owned() }
}

fn book(sequence: u64, bid: Vec<HitBtcLimitUpdate>, ask: Vec<HitBtcLimitUpdate>) -> HitBtcLimitUpdates {
    HitBtcLimitUpdates { ask, bid, sequence }
}

fn trade(price: &str, quantity: &str, side: &str, timestamp: &str) -> HitBtcTradeData {
    HitBtcTradeData {
        price: price.to_owned(),
        quantity: quantity.to_owned(),
        side: side.to_owned(),
        timestamp: timestamp.to_owned(),
    }
}

fn report(status: &str, trade_quantity: Option<&str>) -> HitBtcReportParams {
    HitBtcReportParams {
        client_order_id: "order".to_owned(),
        side: "sell".to_owned(),
        status: status.to_owned(),
        quantity: "2.5".to_owned(),
        price: "0.031".to_owned(),
        cum_quantity: "1".to_owned(),
        trade_quantity: trade_quantity.map(|q| q.to_owned()),
        trade_price: Some("0.03".to_owned()),
        updated_at: "2018-10-03T12:34:56.5Z".to_owned(),
    }
}

fn lu(price: u64, size: u64, side: Side) -> LimitUpdate {
    LimitUpdate::new(price, size, side)
}

fn parse(handler: &mut HandlerImpl, m: HitBtcMessage) -> (Vec<Notification>, Result<(), MessageError>) {
    assert!(handler.check_message(&m));
    handler.parse_message(m)
}

#[test]
fn methods() {
    assert_eq!(method_of("snapshotOrderbook"), HitBtcMethod::SnapshotOrderbook);
    assert_eq!(method_of("updateOrderbook"), HitBtcMethod::UpdateOrderbook);
    assert_eq!(method_of("snapshotTrades"), HitBtcMethod::SnapshotTrades);
    assert_eq!(method_of("updateTrades"), HitBtcMethod::UpdateTrades);
    assert_eq!(method_of("activeOrders"), HitBtcMethod::ActiveOrders);
    assert_eq!(method_of("report"), HitBtcMethod::Report);
    assert_eq!(method_of("ticker"), HitBtcMethod::Other);
}

#[test]
fn sides() {
    assert_eq!(convert_hit_btc_side("buy"), Ok(Side::Bid));
    assert_eq!(convert_hit_btc_side("sell"), Ok(Side::Ask));
    assert_eq!(convert_hit_btc_side("Buy"), Err(MessageError::WrongSide("Buy".to_owned())));
}

#[test]
fn no_subscription_is_confirmed_at_first() {
    assert_eq!(SubscriptionState::new(), SubscriptionState { order_book: false, trades: false, report: false });
}

#[test]
fn order_book_messages_send_bids_then_asks() {
    let mut handler = HandlerImpl::new(symbol(), all());
    let m = HitBtcMessage::SnapshotOrderbook(book(8, vec![level("0.031", "1.5")], vec![level("0.032", "2"), level("0.033", "0")]));
    let (sent, r) = parse(&mut handler, m);
    assert_eq!(r, Ok(()));
    assert_eq!(
        sent,
        vec![Notification::LimitUpdates(vec![
            lu(31000, 1500, Side::Bid),
            lu(32000, 2000, Side::Ask),
            lu(33000, 0, Side::Ask),
        ])]
    );
    let (sent, r) = parse(&mut handler, HitBtcMessage::UpdateOrderbook(book(9, vec![], vec![])));
    assert_eq!((sent, r), (vec![], Ok(())));
}

#[test]
fn order_book_messages_must_follow_each_other() {
    let mut handler = HandlerImpl::new(symbol(), all());
    parse(&mut handler, HitBtcMessage::SnapshotOrderbook(book(8, vec![], vec![])));
    assert!(!handler.check_message(&HitBtcMessage::UpdateOrderbook(book(10, vec![], vec![]))));
    assert!(handler.check_message(&HitBtcMessage::UpdateOrderbook(book(9, vec![], vec![]))));
}

#[test]
fn unwanted_notifications_are_not_sent() {
    let flags = NotificationFlags { order_book: false, trades: false, orders: false };
    let mut handler = HandlerImpl::new(symbol(), flags);
    let (sent, r) = parse(&mut handler, HitBtcMessage::SnapshotOrderbook(book(8, vec![level("0.031", "1")], vec![])));
    assert_eq!((sent, r), (vec![], Ok(())));
    // Out of sequence, but not asked for.
    assert!(handler.check_message(&HitBtcMessage::UpdateOrderbook(book(100, vec![], vec![]))));
    let (sent, r) = parse(&mut handler, HitBtcMessage::UpdateTrades(vec![trade("0.031", "1", "buy", "2018-10-03T12:34:56.0Z")]));
    assert_eq!((sent, r), (vec![], Ok(())));
    let (sent, r) = parse(&mut handler, HitBtcMessage::Report(report("new", None)));
    assert_eq!((sent, r), (vec![], Ok(())));
}

#[test]
fn trades_are_sent_one_by_one() {
    let mut handler = HandlerImpl::new(symbol(), all());
    let trades = vec![
        trade("0.031", "1", "buy", "2018-10-03T12:34:56.0Z"),
        trade("0.032", "0.5", "sell", "2018-10-03T12:34:57.0Z"),
    ];
    let (sent, r) = parse(&mut handler, HitBtcMessage::UpdateTrades(trades));
    assert_eq!(r, Ok(()));
    assert_eq!(
        sent,
        vec![
            Notification::Trade(Trade { timestamp: 1538570096000, price: 31000, size: 1000, maker_side: Side::Bid }),
            Notification::Trade(Trade { timestamp: 1538570097000, price: 32000, size: 500, maker_side: Side::Ask }),
        ]
    );
}

#[test]
fn a_bad_trade_stops_the_sending() {
    let mut handler = HandlerImpl::new(symbol(), all());
    let trades = vec![
        trade("0.031", "1", "buy", "2018-10-03T12:34:56.0Z"),
        trade("0.032", "0.5", "hold", "2018-10-03T12:34:57.0Z"),
        trade("0.033", "0.5", "buy", "2018-10-03T12:34:58.0Z"),
    ];
    let (sent, r) = parse(&mut handler, HitBtcMessage::UpdateTrades(trades));
    assert_eq!(sent, vec![Notification::Trade(Trade { timestamp: 1538570096000, price: 31000, size: 1000, maker_side: Side::Bid })]);
    assert_eq!(r, Err(MessageError::WrongSide("hold".to_owned())));

    let (sent, r) = parse(&mut handler, HitBtcMessage::UpdateTrades(vec![trade("0.031", "1", "buy", "yesterday")]));
    assert_eq!((sent, r), (vec![], Err(MessageError::Timestamp("yesterday".to_owned()))));
}

#[test]
fn reports() {
    let mut handler = HandlerImpl::new(symbol(), all());
    let ts = 1538570096000;
    assert_eq!(
        parse(&mut handler, HitBtcMessage::Report(report("new", None))),
        (
            vec![Notification::OrderReceived(OrderReceived {
                timestamp: ts,
                order_id: "order".to_owned(),
                price: 31000,
                size: 2500,
                side: Side::Ask,
            })],
            Ok(())
        )
    );
    let update = Notification::OrderUpdate(OrderUpdate {
        timestamp: ts,
        order_id: "order".to_owned(),
        consumed_size: 500,
        remaining_size: 1500,
        consumed_price: 30000,
        commission: 0,
    });
    assert_eq!(parse(&mut handler, HitBtcMessage::Report(report("partiallyFilled", Some("0.5")))), (vec![update.clone()], Ok(())));
    assert_eq!(parse(&mut handler, HitBtcMessage::Report(report("filled", Some("0.5")))), (vec![update], Ok(())));
    for status in ["canceled", "expired", "suspended"] {
        assert_eq!(
            parse(&mut handler, HitBtcMessage::Report(report(status, None))),
            (vec![Notification::OrderExpired(OrderExpired { timestamp: ts, order_id: "order".to_owned() })], Ok(()))
        );
    }
    assert_eq!(parse(&mut handler, HitBtcMessage::Report(report("rejected", None))), (vec![], Ok(())));
    assert_eq!(
        parse(&mut handler, HitBtcMessage::Report(report("filled", None))),
        (vec![], Err(MessageError::MissingTradeQuantity))
    );
    let no_price = HitBtcReportParams { trade_price: None, ..report("filled", Some("0.5")) };
    assert_eq!(parse(&mut handler, HitBtcMessage::Report(no_price)), (vec![], Err(MessageError::MissingTradePrice)));
}

#[test]
fn subscriptions_are_confirmed() {
    let mut handler = HandlerImpl::new(symbol(), all());
    parse(&mut handler, HitBtcMessage::SnapshotTrades);
    parse(&mut handler, HitBtcMessage::ActiveOrders);
    let (sent, r) = parse(&mut handler, HitBtcMessage::Other);
    assert_eq!((sent, r), (vec![], Ok(())));
}

#[test]
fn requests_when_the_stream_opens() {
    let handler = HandlerImpl::new(symbol(), all());
    assert_eq!(
        handler.on_open(None),
        vec![HitBtcRequest::SubscribeOrderbook("ETHBTC".to_owned()), HitBtcRequest::SubscribeTrades("ETHBTC".to_owned())]
    );
    let keys = KeyPair::new("public".to_owned(), "secret".to_owned());
    assert_eq!(
        handler.on_open(Some(&keys)),
        vec![
            HitBtcRequest::SubscribeOrderbook("ETHBTC".to_owned()),
            HitBtcRequest::SubscribeTrades("ETHBTC".to_owned()),
            HitBtcRequest::Login("public".to_owned(), "secret".to_owned()),
            HitBtcRequest::SubscribeReports,
        ]
    );
}
