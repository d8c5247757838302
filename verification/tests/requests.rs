use trade::api::binance::errors::{BinanceRestError, RestErrorKind};
use trade::api::binance::rest::{request_parts, response_error, BinanceRequest};
use trade::api::binance::wss::book_snapshot_address;
use trade::api::binance::KeyPair;
use trade::api::query_string::QueryString;
use trade::api::timestamp::timestamp_of_utc;
use trade::api::hitbtc::rest::{cancel_path, order_ack, order_query};
use trade::api::{Order, OrderAck, OrderType, SymbolInfo, TimeInForce};
use trade::order_book::LimitUpdate;
use trade::Side;
use trade::order_book::OrderBook;
use trade::prompt::{time_in_force_of, InputError};
use trade::tick::Tick;

fn query() -> QueryString {
    let mut q = QueryString::new();
    q.push_str("symbol", "BTCUSDT");
    q.push("timestamp", 1);
    q
}

#[test]
fn unsigned_request_parts() {
    assert_eq!(
        request_parts("https://api.binance.com", "api/v3/order", query(), None),
        Some(BinanceRequest {
            address: "https://api.binance.com/api/v3/order".to_owned(),
            api_key: None,
            body: "symbol=BTCUSDT&timestamp=1".to_owned(),
        })
    );
}

#[test]
fn signed_request_parts() {
    let keys = KeyPair::new("key".to_owned(), "secret".to_owned());
    assert_eq!(
        request_parts("https://api.binance.com", "api/v3/order", query(), Some(&keys)),
        Some(BinanceRequest {
            address: "https://api.binance.com/api/v3/order".to_owned(),
            api_key: Some("key".to_owned()),
            body: "symbol=BTCUSDT&timestamp=1&signature=ef9d3d77a34d9a13a21a4c2d7f3e8cb091888a74ca62b5b62f430e78eded95ba"
                .to_owned(),
        })
    );
}

#[test]
fn response_errors() {
    assert!(response_error(200, None).is_none());
    assert!(response_error(200, Some(BinanceRestError { code: -1, msg: "x".to_owned() })).is_none());
    let e = response_error(400, Some(BinanceRestError { code: -2010, msg: "Duplicate order sent.".to_owned() })).unwrap();
    assert_eq!(e.kind, RestErrorKind::MalformedRequest);
    assert_eq!(e.error_code, Some(-2010));
    assert_eq!(e.error_msg.as_deref(), Some("Duplicate order sent."));
    let e = response_error(429, None).unwrap();
    assert_eq!(e.kind, RestErrorKind::BrokeRateLimit);
    assert_eq!(e.error_code, None);
}

#[test]
fn snapshot_address() {
    let symbol = SymbolInfo {
        name: "BTCUSDT".to_owned(),
        price_tick: Tick::new(100),
        size_tick: Tick::new(1000),
        commission_tick: Tick::new(100_000_000),
    };
    assert_eq!(
        book_snapshot_address("https://www.binance.com", &symbol),
        "https://www.binance.com/api/v1/depth?symbol=BTCUSDT&limit=1000"
    );
}

#[test]
fn times_in_force_by_name() {
    assert_eq!(time_in_force_of("gtc".to_owned()), Ok(TimeInForce::GoodTilCanceled));
    assert_eq!(time_in_force_of("ioc".to_owned()), Ok(TimeInForce::ImmediateOrCancel));
    assert_eq!(time_in_force_of("fok".to_owned()), Ok(TimeInForce::FillOrKilll));
    assert_eq!(time_in_force_of("GTC".to_owned()), Err(InputError::ExpectedTimeInForce("GTC".to_owned())));
}

#[test]
fn timestamps_of_parsed_times() {
    assert_eq!(timestamp_of_utc(Some((1538570096, 123))), Some(1538570096123));
    assert_eq!(timestamp_of_utc(Some((0, 0))), Some(0));
    assert_eq!(timestamp_of_utc(Some((-1, 999))), None);
    assert_eq!(timestamp_of_utc(Some((i64::MAX, 0))), None);
    assert_eq!(timestamp_of_utc(None), None);
}

#[test]
fn default_order_book_is_empty() {
    let b = OrderBook::default();
    assert_eq!(b, OrderBook::new());
    assert!(b.bid().is_empty() && b.ask().is_empty());
    assert_eq!(b.best_bid(), 0);
    assert_eq!(b.best_ask(), u64::MAX);
}

#[test]
fn hitbtc_order_query_and_ack() {
    let symbol = SymbolInfo {
        name: "BTCUSD".to_owned(),
        price_tick: Tick::new(100),
        size_tick: Tick::new(1000),
        commission_tick: Tick::new(100_000_000),
    };
    let order = Order {
        price: 650010,
        size: 1500,
        side: Side::Ask,
        time_in_force: TimeInForce::ImmediateOrCancel,
        time_window: 5000,
        order_id: Some("mine".to_owned()),
    };
    assert_eq!(
        order_query(&order, OrderType::LimitMaker, &symbol).into_string(),
        "symbol=BTCUSD&side=sell&type=limit&timeInForce=IOC&quantity=1.500&price=6500.10&clientOrderId=mine"
    );
    assert_eq!(cancel_path("mine"), "api/2/order/mine");
    assert_eq!(
        order_ack("mine".to_owned(), "2018-10-03T12:34:56.123456789Z"),
        Some(OrderAck { timestamp: 1538570096123, order_id: "mine".to_owned() })
    );
    assert_eq!(order_ack("mine".to_owned(), "yesterday"), None);
}

#[test]
fn order_book_update_all_applies_in_order() {
    let mut b = OrderBook::new();
    b.update_all(&vec![
        LimitUpdate::new(10, 5, Side::Bid),
        LimitUpdate::new(11, 2, Side::Bid),
        LimitUpdate::new(10, 0, Side::Bid),
        LimitUpdate::new(20, 1, Side::Ask),
    ]);
    assert_eq!(b.bid(), vec![(11, 2)]);
    assert_eq!(b.ask(), vec![(20, 1)]);
}
