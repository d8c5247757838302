use trade::api::gdax::wss::{
    event_type_of, GdaxBookSnapshot, GdaxChange, GdaxDone, GdaxError, GdaxEvent, GdaxEventType, GdaxMatch,
    GdaxReceived, GdaxSubscription, GdaxChannel, GdaxAuth, HandlerImpl, SubscriptionState,
};
use trade::api::gdax::KeyPair;
use trade::api::wss::{MessageError, UntickedLimit};
use trade::api::{Notification, OrderExpired, OrderReceived, OrderUpdate, SymbolInfo, Trade};
use trade::order_book::LimitUpdate;
use trade::tick::Tick;
use trade::Side;

const TIME: &str = "2018-10-03T12:34:56.123456789Z";
const TS: u64 = 1538570096123;

fn symbol() -> SymbolInfo {
    SymbolInfo {
        name: "BTC-USD".to_owned(),
        price_tick: Tick::new(100),
        size_tick: Tick::new(1000),
        commission_tick: Tick::new(100_000_000),
    }
}

fn level(price: &str, size: &str) -> UntickedLimit {
    UntickedLimit { price: price.to_owned(), size: size.to_owned() }
}

fn change(side: &str, price: &str, size: &str) -> GdaxChange {
    GdaxChange { side: side.to_owned(), price: price.to_owned(), size: size.to_owned() }
}

fn trade(size: &str, price: &str, side: &str, maker: &str, taker: &str, ours: bool) -> GdaxEvent {
    GdaxEvent::Match(GdaxMatch {
        time: TIME.to_owned(),
        size: size.to_owned(),
        price: price.to_owned(),
        side: side.to_owned(),
        maker_order_id: maker.to_owned(),
        taker_order_id: taker.to_owned(),
        profile_id: if ours { Some("profile".to_owned()) } else { None },
    })
}

fn received(client_oid: Option<&str>, order_id: &str, size: &str, price: &str, side: &str) -> GdaxEvent {
    GdaxEvent::Received(GdaxReceived {
        time: TIME.to_owned(),
        client_oid: client_oid.map(|s| s.to_owned()),
        order_id: order_id.to_owned(),
        size: size.to_owned(),
        price: price.to_owned(),
        side: side.to_owned(),
    })
}

fn done(reason: &str, order_id: &str) -> GdaxEvent {
    GdaxEvent::Done(GdaxDone { reason: reason.to_owned(), order_id: order_id.to_owned(), time: TIME.to_owned() })
}

fn parse(handler: &mut HandlerImpl, e: GdaxEvent) -> Result<Vec<Notification>, MessageError> {
    assert!(handler.check_message(&e));
    handler.parse_message(e)
}

#[test]
fn gdax_event_types() {
    assert_eq!(event_type_of("subscribe"), GdaxEventType::Subscribe);
    assert_eq!(event_type_of("snapshot"), GdaxEventType::Snapshot);
    assert_eq!(event_type_of("l2update"), GdaxEventType::L2Update);
    assert_eq!(event_type_of("match"), GdaxEventType::Match);
    assert_eq!(event_type_of("received"), GdaxEventType::Received);
    assert_eq!(event_type_of("done"), GdaxEventType::Done);
    assert_eq!(event_type_of("error"), GdaxEventType::Error);
    assert_eq!(event_type_of("heartbeat"), GdaxEventType::Other);
}

#[test]
fn gdax_subscription() {
    let mut h = HandlerImpl::new(symbol());
    assert_eq!(h.subscription(), SubscriptionState::NotSubscribed);
    assert_eq!(parse(&mut h, GdaxEvent::Subscribe), Ok(vec![]));
    assert_eq!(h.subscription(), SubscriptionState::Subscribed);
    assert_eq!(parse(&mut h, GdaxEvent::Other), Ok(vec![]));
}

#[test]
fn gdax_snapshot_bids_then_asks() {
    let mut h = HandlerImpl::new(symbol());
    let snapshot = GdaxEvent::Snapshot(GdaxBookSnapshot {
        bids: vec![level("6500.10", "0.5"), level("6500.00", "1.25")],
        asks: vec![level("6501.00", "0.001")],
    });
    assert_eq!(
        parse(&mut h, snapshot),
        Ok(vec![Notification::LimitUpdates(vec![
            LimitUpdate::new(650010, 500, Side::Bid),
            LimitUpdate::new(650000, 1250, Side::Bid),
            LimitUpdate::new(650100, 1, Side::Ask),
        ])])
    );
}

#[test]
fn gdax_snapshot_with_bad_price() {
    let mut h = HandlerImpl::new(symbol());
    let snapshot = GdaxEvent::Snapshot(GdaxBookSnapshot {
        bids: vec![level("6500.10", "0.5")],
        asks: vec![level("6501.005", "0.001")],
    });
    assert!(matches!(parse(&mut h, snapshot), Err(MessageError::Conversion(_))));
}

#[test]
fn gdax_l2update() {
    let mut h = HandlerImpl::new(symbol());
    let update = GdaxEvent::L2Update(vec![change("buy", "6500.10", "0"), change("sell", "6502.00", "2")]);
    assert_eq!(
        parse(&mut h, update),
        Ok(vec![Notification::LimitUpdates(vec![
            LimitUpdate::new(650010, 0, Side::Bid),
            LimitUpdate::new(650200, 2000, Side::Ask),
        ])])
    );
    assert_eq!(parse(&mut h, GdaxEvent::L2Update(vec![])), Ok(vec![Notification::LimitUpdates(vec![])]));
}

#[test]
fn gdax_l2update_wrong_side() {
    let mut h = HandlerImpl::new(symbol());
    let update = GdaxEvent::L2Update(vec![change("buy", "6500.10", "0"), change("bid", "6502.00", "2")]);
    assert_eq!(parse(&mut h, update), Err(MessageError::WrongSide("bid".to_owned())));
}

#[test]
fn gdax_public_trade() {
    let mut h = HandlerImpl::new(symbol());
    assert_eq!(
        parse(&mut h, trade("0.25", "6500.01", "sell", "m", "t", false)),
        Ok(vec![Notification::Trade(Trade { timestamp: TS, price: 650001, size: 250, maker_side: Side::Ask })])
    );
}

#[test]
fn gdax_trade_with_bad_time() {
    let mut h = HandlerImpl::new(symbol());
    let e = GdaxEvent::Match(GdaxMatch {
        time: "2018-10-03 12:34:56".to_owned(),
        size: "0.25".to_owned(),
        price: "6500.01".to_owned(),
        side: "sell".to_owned(),
        maker_order_id: "m".to_owned(),
        taker_order_id: "t".to_owned(),
        profile_id: None,
    });
    assert_eq!(parse(&mut h, e), Err(MessageError::Timestamp("2018-10-03 12:34:56".to_owned())));
}

#[test]
fn gdax_received_then_filled_then_canceled() {
    let mut h = HandlerImpl::new(symbol());
    assert_eq!(h.server_order_id("mine"), None);
    assert_eq!(
        parse(&mut h, received(Some("mine"), "srv-1", "1.5", "6400.00", "buy")),
        Ok(vec![Notification::OrderReceived(OrderReceived {
            timestamp: TS,
            order_id: "mine".to_owned(),
            price: 640000,
            size: 1500,
            side: Side::Bid,
        })])
    );
    assert_eq!(h.server_order_id("mine"), Some("srv-1".to_owned()));

    // Our order is the maker of a trade.
    assert_eq!(
        parse(&mut h, trade("0.5", "6400.00", "buy", "srv-1", "other", true)),
        Ok(vec![
            Notification::OrderUpdate(OrderUpdate {
                timestamp: TS,
                order_id: "mine".to_owned(),
                consumed_size: 500,
                remaining_size: 1000,
                consumed_price: 640000,
                commission: 0,
            }),
            Notification::Trade(Trade { timestamp: TS, price: 640000, size: 500, maker_side: Side::Bid }),
        ])
    );

    // A second fill starts from what is left.
    assert_eq!(
        parse(&mut h, trade("0.25", "6400.00", "buy", "srv-1", "other", true)),
        Ok(vec![
            Notification::OrderUpdate(OrderUpdate {
                timestamp: TS,
                order_id: "mine".to_owned(),
                consumed_size: 250,
                remaining_size: 750,
                consumed_price: 640000,
                commission: 0,
            }),
            Notification::Trade(Trade { timestamp: TS, price: 640000, size: 250, maker_side: Side::Bid }),
        ])
    );

    // More than what is left is refused.
    let too_much = trade("1", "6400.00", "buy", "srv-1", "other", true);
    assert!(!h.check_message(&too_much));

    assert_eq!(parse(&mut h, done("filled", "srv-1")), Ok(vec![]));
    assert_eq!(
        parse(&mut h, done("canceled", "srv-1")),
        Ok(vec![Notification::OrderExpired(OrderExpired { timestamp: TS, order_id: "mine".to_owned() })])
    );
    assert_eq!(parse(&mut h, done("canceled", "unknown")), Ok(vec![]));
}

#[test]
fn gdax_received_without_client_id() {
    let mut h = HandlerImpl::new(symbol());
    assert_eq!(
        parse(&mut h, received(None, "srv-2", "2", "6600.50", "sell")),
        Ok(vec![Notification::OrderReceived(OrderReceived {
            timestamp: TS,
            order_id: "srv-2".to_owned(),
            price: 660050,
            size: 2000,
            side: Side::Ask,
        })])
    );
    assert_eq!(h.server_order_id("srv-2"), Some("srv-2".to_owned()));
    // The taker side of a trade of ours.
    assert_eq!(
        parse(&mut h, trade("2", "6600.50", "buy", "other", "srv-2", true)),
        Ok(vec![
            Notification::OrderUpdate(OrderUpdate {
                timestamp: TS,
                order_id: "srv-2".to_owned(),
                consumed_size: 2000,
                remaining_size: 0,
                consumed_price: 660050,
                commission: 0,
            }),
            Notification::Trade(Trade { timestamp: TS, price: 660050, size: 2000, maker_side: Side::Bid }),
        ])
    );
}

#[test]
fn gdax_trade_of_ours_with_wrong_side_keeps_fills() {
    let mut h = HandlerImpl::new(symbol());
    parse(&mut h, received(Some("mine"), "srv-1", "1", "6400.00", "buy")).unwrap();
    assert_eq!(
        parse(&mut h, trade("0.5", "6400.00", "up", "srv-1", "other", true)),
        Err(MessageError::WrongSide("up".to_owned()))
    );
    // The fill was made before the side was read.
    assert_eq!(
        parse(&mut h, trade("0.5", "6400.00", "buy", "srv-1", "other", true)),
        Ok(vec![
            Notification::OrderUpdate(OrderUpdate {
                timestamp: TS,
                order_id: "mine".to_owned(),
                consumed_size: 500,
                remaining_size: 0,
                consumed_price: 640000,
                commission: 0,
            }),
            Notification::Trade(Trade { timestamp: TS, price: 640000, size: 500, maker_side: Side::Bid }),
        ])
    );
}

#[test]
fn gdax_recorded_order_id() {
    let mut h = HandlerImpl::new(symbol());
    h.record_order_id("client".to_owned(), "server".to_owned());
    assert_eq!(h.server_order_id("client"), Some("server".to_owned()));
    assert_eq!(h.server_order_id("server"), None);
}

#[test]
fn gdax_error_event() {
    let mut h = HandlerImpl::new(symbol());
    let e = GdaxEvent::Error(GdaxError { message: "Failed to subscribe".to_owned(), reason: Some("bad product".to_owned()) });
    assert_eq!(
        parse(&mut h, e),
        Err(MessageError::Server("Failed to subscribe".to_owned(), Some("bad product".to_owned())))
    );
}

fn public_channels() -> Vec<GdaxChannel> {
    vec![
        GdaxChannel::Channel("level2".to_owned()),
        GdaxChannel::Channel("matches".to_owned()),
        GdaxChannel::WithProducts { name: "heartbeat".to_owned(), product_ids: vec!["BTC-USD".to_owned()] },
    ]
}

#[test]
fn gdax_public_subscription() {
    let h = HandlerImpl::new(symbol());
    assert_eq!(
        h.subscription_request(None, 1538570096),
        Some(GdaxSubscription {
            type_: "subscribe".to_owned(),
            product_ids: vec!["BTC-USD".to_owned()],
            channels: public_channels(),
            auth: None,
        })
    );
    assert_eq!(h.on_open(None), h.subscription_request(None, 0));
}

#[test]
fn gdax_authenticated_subscription() {
    let h = HandlerImpl::new(symbol());
    // The secret key `secret`, in base64.
    let keys = KeyPair::new("api".to_owned(), "c2VjcmV0".to_owned(), "phrase".to_owned());
    let mut channels = public_channels();
    channels.push(GdaxChannel::Channel("user".to_owned()));
    assert_eq!(
        h.subscription_request(Some(&keys), 1538570096),
        Some(GdaxSubscription {
            type_: "subscribe".to_owned(),
            product_ids: vec!["BTC-USD".to_owned()],
            channels,
            auth: Some(GdaxAuth {
                key: "api".to_owned(),
                signature: "ucnzRuXAZeGDUWqluO+7m6/GNGB/Xcxp2d8ggH7X3tY=".to_owned(),
                timestamp: 1538570096,
                passphrase: "phrase".to_owned(),
            }),
        })
    );
    let now = h.on_open(Some(&keys)).unwrap();
    assert!(now.auth.unwrap().timestamp > 1538570096);
}

#[test]
fn gdax_subscription_with_bad_secret() {
    let h = HandlerImpl::new(symbol());
    let keys = KeyPair::new("api".to_owned(), "not base64!".to_owned(), "phrase".to_owned());
    assert_eq!(h.subscription_request(Some(&keys), 1538570096), None);
}
