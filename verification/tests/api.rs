use trade::api::errors::{CancelErrorKind, OrderErrorKind, RestErrorKind as GeneralKind};
use trade::api::query_string::QueryString;
use trade::api::timestamp::{convert_str_timestamp, timestamp_from_parts, timestamp_ms, IntoTimestamped};
use trade::api::{Cancel, Order, TimeInForce};
use trade::api::binance;
use trade::api::gdax;
use trade::api::hitbtc;
use trade::Side;
use trade::api::OrderType;
use trade::api::gdax::rest::{order_ack, AckError, GdaxOrderAck};
use trade::api::binance::errors::RestErrorKind as BinanceKind;
use trade::api::gdax::errors::RestErrorKind as GdaxKind;
use trade::api::hitbtc::errors::RestErrorKind as HitBtcKind;
use trade::api::binance::rest::AsStr as BinanceName;
use trade::api::gdax::rest::AsStr as GdaxName;
use trade::api::hitbtc::rest::AsStr as HitBtcName;

#[test]
fn query_string_joins_parameters() {
    let mut query = QueryString::new();
    query.push_str("symbol", "LTCBTC");
    query.push("recvWindow", 5000);
    query.push_str("side", "BUY");
    assert_eq!(query.into_string(), "symbol=LTCBTC&recvWindow=5000&side=BUY");
}

#[test]
fn empty_query_string() {
    assert_eq!(QueryString::new().into_string(), "");
}

#[test]
fn query_string_signature_is_hmac_sha256_in_hex() {
    let mut query = QueryString::new();
    query.push_str("symbol", "LTCBTC");
    query.push_str("side", "BUY");
    query.push_str("type", "LIMIT");
    query.push_str("timeInForce", "GTC");
    query.push_str("quantity", "1");
    query.push_str("price", "0.1");
    query.push("recvWindow", 5000);
    query.push("timestamp", 1499827319559);
    let secret = b"NhqPtmdSJYdKjVHjA7PZj4Mge3R5YNiP1e3UZjInClVN65XAbvqqM6A7H5fATj0j";
    let signed = query.into_string_with_signature(secret).unwrap();
    assert_eq!(
        signed,
        "symbol=LTCBTC&side=BUY&type=LIMIT&timeInForce=GTC&quantity=1&price=0.1&recvWindow=5000\
         &timestamp=1499827319559&signature=c8db56825ae71d6d79447849e617115f4a920fa2acdcab2b053c4b2838bd6b71"
    );
}

#[test]
fn signature_of_an_empty_query() {
    let signed = QueryString::new().into_string_with_signature(b"key").unwrap();
    assert_eq!(signed, "signature=5d5d139563c95b5967b9bd9a8c9b233a9dedb45072794cd232dc1b74832607d0");
}

#[test]
fn timestamp_from_seconds_and_milliseconds() {
    assert_eq!(timestamp_from_parts(1538570096, 789), Some(1538570096789));
    assert_eq!(timestamp_from_parts(0, 0), Some(0));
    assert_eq!(timestamp_from_parts(u64::MAX / 1000, 615), Some(u64::MAX));
    assert_eq!(timestamp_from_parts(u64::MAX / 1000, 616), None);
    assert_eq!(timestamp_from_parts(u64::MAX, 0), None);
}

#[test]
fn current_timestamp_is_after_2018() {
    assert!(timestamp_ms().unwrap() > 1514764800000);
}

#[test]
fn timestamps_are_read_from_utc_times() {
    assert_eq!(convert_str_timestamp("2018-10-03T12:34:56.123456789Z"), Some(1538570096123));
    assert_eq!(convert_str_timestamp("1970-01-01T00:00:00.0Z"), Some(0));
    assert_eq!(convert_str_timestamp("1969-12-31T23:59:59.0Z"), None);
    assert_eq!(convert_str_timestamp("2018-10-03 12:34:56"), None);
    assert_eq!(convert_str_timestamp(""), None);
}

#[test]
fn fractional_seconds_are_read_as_nanoseconds() {
    // `%f` reads its digits as a number of nanoseconds.
    assert_eq!(convert_str_timestamp("2018-10-03T12:34:56.789Z"), Some(1538570096000));
}

#[test]
fn timestamped_values() {
    let t = "abc".with_timestamp(42);
    assert_eq!(t.timestamp(), 42);
    assert_eq!(*t.inner(), "abc");
    assert_eq!(t.into_inner(), "abc");
    let now = 7u8.timestamped().unwrap();
    assert_eq!(now.into_inner(), 7);
}

#[test]
fn order_and_cancel_builders() {
    let order = Order::new(100, 5, Side::Bid);
    assert_eq!(order.time_in_force, TimeInForce::GoodTilCanceled);
    assert_eq!(order.time_window, 5000);
    assert_eq!(order.order_id, None);
    let order = order.time_window(1000).order_id("my-order".to_owned());
    assert_eq!(order.time_window, 1000);
    assert_eq!(order.order_id, Some("my-order".to_owned()));
    assert_eq!((order.price, order.size, order.side), (100, 5, Side::Bid));

    let cancel = Cancel::new("my-order".to_owned());
    assert_eq!(cancel.time_window, 5000);
    let cancel = cancel.time_window(10);
    assert_eq!(cancel.time_window, 10);
    assert_eq!(cancel.order_id, "my-order");
}

#[test]
fn general_kinds_convert() {
    let kind: GeneralKind<CancelErrorKind> = GeneralKind::<OrderErrorKind>::OtherSide.convert();
    assert_eq!(kind, GeneralKind::OtherSide);
    let kind: GeneralKind<OrderErrorKind> = GeneralKind::<CancelErrorKind>::TooManyRequests.convert();
    assert_eq!(kind, GeneralKind::TooManyRequests);
}

#[test]
fn binance_status_codes() {
    let kind = binance::errors::RestErrorKind::from_status_code;
    assert_eq!(kind(400), BinanceKind::MalformedRequest);
    assert_eq!(kind(418), BinanceKind::AddressBanned);
    assert_eq!(kind(429), BinanceKind::BrokeRateLimit);
    assert_eq!(kind(500), BinanceKind::InternalError);
    assert_eq!(kind(504), BinanceKind::Timeout);
    assert_eq!(kind(302), BinanceKind::Unknown(302));
}

#[test]
fn binance_error_kinds() {
    let err = |status: u16, code: i32, msg: &str| {
        binance::errors::RestError::from_binance_error(status, Some(binance::errors::BinanceRestError { code, msg: msg.to_owned() }))
    };
    let e = err(400, -2010, "Account has insufficient balance for requested action.");
    assert_eq!(e.error_code, Some(-2010));
    assert_eq!(e.error_msg.as_deref(), Some("Account has insufficient balance for requested action."));
    assert_eq!(e.order_kind(), GeneralKind::Specific(OrderErrorKind::InsufficientBalance));
    let e = err(400, -2010, "Duplicate order sent.");
    assert_eq!(e.order_kind(), GeneralKind::Specific(OrderErrorKind::DuplicateOrder));
    let e = err(400, -2010, "Order would immediately match and take.");
    assert_eq!(e.order_kind(), GeneralKind::Specific(OrderErrorKind::WouldTakeLiquidity));
    let e = err(400, -2011, "Unknown order sent.");
    assert_eq!(e.cancel_kind(), GeneralKind::Specific(CancelErrorKind::UnknownOrder));
    let e = err(400, -2013, "Order does not exist.");
    assert_eq!(e.cancel_kind(), GeneralKind::Specific(CancelErrorKind::UnknownOrder));
    let e = err(400, -1021, "Timestamp for this request is outside of the recvWindow.");
    assert_eq!(e.general_kind::<OrderErrorKind>(), GeneralKind::OutsideTimeWindow);
    assert_eq!(e.cancel_kind(), GeneralKind::OutsideTimeWindow);
    let e = err(400, -1003, "Too many requests.");
    assert_eq!(e.general_kind::<CancelErrorKind>(), GeneralKind::TooManyRequests);
    let e = err(400, -1007, "Timeout waiting for response from backend server.");
    assert_eq!(e.general_kind::<CancelErrorKind>(), GeneralKind::UnknownStatus);
    let e = err(400, -1001, "Internal error; unable to process your request.");
    assert_eq!(e.general_kind::<CancelErrorKind>(), GeneralKind::OtherSide);
    let e = err(400, -1100, "Illegal characters found in a parameter.");
    assert_eq!(e.order_kind(), GeneralKind::InvalidRequest);
    let e = binance::errors::RestError::from_binance_error(504, None);
    assert_eq!(e.kind, binance::errors::RestErrorKind::Timeout);
    assert_eq!(e.error_code, None);
    assert_eq!(e.error_msg, None);
    assert_eq!(e.general_kind::<OrderErrorKind>(), GeneralKind::UnknownStatus);
    let e = binance::errors::RestError::from_binance_error(418, None);
    assert_eq!(e.general_kind::<OrderErrorKind>(), GeneralKind::TooManyRequests);
}

#[test]
fn gdax_status_codes() {
    let kind = gdax::errors::RestErrorKind::from_status_code;
    assert_eq!(kind(400), GdaxKind::BadRequest);
    assert_eq!(kind(401), GdaxKind::Unauthorized);
    assert_eq!(kind(403), GdaxKind::Forbidden);
    assert_eq!(kind(404), GdaxKind::NotFound);
    assert_eq!(kind(429), GdaxKind::TooManyRequests);
    assert_eq!(kind(500), GdaxKind::InternalError);
    assert_eq!(kind(504), GdaxKind::Timeout);
    assert_eq!(kind(503), GdaxKind::Unknown(503));
}

#[test]
fn gdax_error_kinds() {
    let err = |status: u16, message: &str| {
        gdax::errors::RestError::from_gdax_error(status, Some(gdax::errors::GdaxRestError { message: message.to_owned() }))
    };
    assert_eq!(err(400, "Insufficient funds").order_kind(), GeneralKind::Specific(OrderErrorKind::InsufficientBalance));
    assert_eq!(err(400, "Insufficient funds").cancel_kind(), GeneralKind::InvalidRequest);
    assert_eq!(err(404, "NotFound").cancel_kind(), GeneralKind::Specific(CancelErrorKind::UnknownOrder));
    assert_eq!(err(400, "Order already done").cancel_kind(), GeneralKind::Specific(CancelErrorKind::UnknownOrder));
    assert_eq!(err(400, "request timestamp expired").order_kind(), GeneralKind::OutsideTimeWindow);
    assert_eq!(err(429, "slow down").order_kind(), GeneralKind::TooManyRequests);
    assert_eq!(err(504, "").cancel_kind(), GeneralKind::UnknownStatus);
    assert_eq!(err(500, "").general_kind::<OrderErrorKind>(), GeneralKind::OtherSide);
    let e = gdax::errors::RestError::from_gdax_error(401, None);
    assert_eq!(e.kind, gdax::errors::RestErrorKind::Unauthorized);
    assert_eq!(e.error_msg, None);
    assert_eq!(e.order_kind(), GeneralKind::InvalidRequest);
}

#[test]
fn hitbtc_status_codes() {
    let kind = hitbtc::errors::RestErrorKind::from_status_code;
    assert_eq!(kind(400), HitBtcKind::BadRequest);
    assert_eq!(kind(401), HitBtcKind::Unauthorized);
    assert_eq!(kind(403), HitBtcKind::Forbidden);
    assert_eq!(kind(429), HitBtcKind::TooManyRequests);
    assert_eq!(kind(500), HitBtcKind::InternalError);
    assert_eq!(kind(503), HitBtcKind::ServiceUnavailable);
    assert_eq!(kind(504), HitBtcKind::Timeout);
    assert_eq!(kind(404), HitBtcKind::Unknown(404));
}

#[test]
fn hitbtc_error_kinds() {
    let err = |status: u16, code: i32| {
        hitbtc::errors::RestError::from_hit_btc_error(status, Some(hitbtc::errors::HitBtcRestError {
            code,
            message: "message".to_owned(),
            description: Some("description".to_owned()),
        }))
    };
    let e = err(400, 20001);
    assert_eq!((e.error_code, e.error_msg.as_str(), e.description.as_deref()), (20001, "message", Some("description")));
    assert_eq!(e.order_kind(), GeneralKind::Specific(OrderErrorKind::InsufficientBalance));
    assert_eq!(err(400, 20008).order_kind(), GeneralKind::Specific(OrderErrorKind::DuplicateOrder));
    assert_eq!(err(400, 20002).cancel_kind(), GeneralKind::Specific(CancelErrorKind::UnknownOrder));
    assert_eq!(err(400, 20002).order_kind(), GeneralKind::InvalidRequest);
    assert_eq!(err(401, 20001).order_kind(), GeneralKind::InvalidRequest);
    assert_eq!(err(503, 0).order_kind(), GeneralKind::OtherSide);
    assert_eq!(err(500, 0).cancel_kind(), GeneralKind::OtherSide);
    assert_eq!(err(504, 0).cancel_kind(), GeneralKind::UnknownStatus);
    assert_eq!(err(429, 0).general_kind::<OrderErrorKind>(), GeneralKind::TooManyRequests);
    let e = hitbtc::errors::RestError::from_hit_btc_error(500, None);
    assert_eq!((e.error_code, e.error_msg.as_str(), e.description), (-1, "<empty>", None));
}

#[test]
fn names_of_sides_and_times_in_force() {
    assert_eq!(BinanceName::as_str(Side::Bid), "BUY");
    assert_eq!(BinanceName::as_str(OrderType::LimitMaker), "LIMIT_MAKER");
    assert_eq!(BinanceName::as_str(TimeInForce::ImmediateOrCancel), "IOC");
    assert_eq!(GdaxName::as_str(&Side::Ask), "sell");
    assert_eq!(GdaxName::as_str(&TimeInForce::FillOrKilll), "FOK");
    assert_eq!(HitBtcName::as_str(Side::Bid), "buy");
    assert_eq!(HitBtcName::as_str(OrderType::LimitMaker), "limit");
    assert_eq!(HitBtcName::as_str(TimeInForce::GoodTilCanceled), "GTC");
}

#[test]
fn gdax_sides() {
    assert_eq!(gdax::convert_gdax_side("buy"), Ok(Side::Bid));
    assert_eq!(gdax::convert_gdax_side("sell"), Ok(Side::Ask));
    assert_eq!(gdax::convert_gdax_side("BUY"), Err("BUY".to_owned()));
}

fn btcusdt() -> trade::api::SymbolInfo {
    trade::api::SymbolInfo {
        name: "BTCUSDT".to_owned(),
        price_tick: trade::tick::Tick::new(100),
        size_tick: trade::tick::Tick::new(1_000_000),
        commission_tick: trade::tick::Tick::new(100_000_000),
    }
}

#[test]
fn binance_order_queries() {
    let order = Order::new(650012, 1500, Side::Bid).time_window(3000).order_id("my-order".to_owned());
    let query = binance::rest::order_query(&order, OrderType::Limit, &btcusdt(), 1538570096789);
    assert_eq!(
        query.into_string(),
        "symbol=BTCUSDT&side=BUY&type=LIMIT&timeInForce=GTC&quantity=0.001500&price=6500.12\
         &newClientOrderId=my-order&recvWindow=3000&timestamp=1538570096789"
    );
    let order = Order::new(100, 2_000_000, Side::Ask);
    let query = binance::rest::order_query(&order, OrderType::LimitMaker, &btcusdt(), 5);
    assert_eq!(
        query.into_string(),
        "symbol=BTCUSDT&side=SELL&type=LIMIT_MAKER&quantity=2.000000&price=1.00&recvWindow=5000&timestamp=5"
    );
}

#[test]
fn binance_cancel_queries() {
    let cancel = Cancel::new("my-order".to_owned());
    let query = binance::rest::cancel_query(&cancel, &btcusdt(), 42);
    assert_eq!(query.into_string(), "symbol=BTCUSDT&origClientOrderId=my-order&recvWindow=5000&timestamp=42");
}

#[test]
fn gdax_signatures() {
    assert_eq!(
        gdax::auth::signature("a2V5", "The quick brown fox jumps over the lazy dog"),
        Some("97yD9DBThCSxMpjmqm+xQ+9NWaFJRhdZl0edvC0aPNg=".to_owned())
    );
    let what = gdax::auth::prehash("1538570096.789", "POST", "orders", "{\"size\":\"1\"}");
    assert_eq!(what, "1538570096.789POST/orders{\"size\":\"1\"}");
    assert_eq!(
        gdax::auth::signature("Z2RheC1zZWNyZXQ=", &what),
        Some("B70GWwzT043Xu4euc5n40IElj2Z5+BIwg/iUbIC+5LY=".to_owned())
    );
    let what = gdax::auth::stream_prehash(1538570096);
    assert_eq!(what, "1538570096GET/users/self/verify");
    assert_eq!(
        gdax::auth::signature("Z2RheC1zZWNyZXQ=", &what),
        Some("TapI1yyt3WznoZlIeS+Itt13peeIyFTb4MU7cy1PGA4=".to_owned())
    );
    assert_eq!(gdax::auth::signature("not base64!", "x"), None);
}

#[test]
fn gdax_orders() {
    let order = Order::new(650012, 1500, Side::Ask).order_id("my-order".to_owned());
    let g = gdax::rest::gdax_order(&order, OrderType::LimitMaker, &btcusdt());
    assert_eq!(
        g,
        gdax::rest::GdaxOrder {
            size: "0.001500".to_owned(),
            price: "6500.12".to_owned(),
            side: "sell".to_owned(),
            product_id: "BTCUSDT".to_owned(),
            client_oid: Some("my-order".to_owned()),
            time_in_force: "GTC".to_owned(),
            post_only: true,
        }
    );
    let g = gdax::rest::gdax_order(&Order::new(1, 1, Side::Bid), OrderType::Limit, &btcusdt());
    assert_eq!((g.side.as_str(), g.client_oid, g.post_only), ("buy", None, false));
}

#[test]
fn gdax_order_acks() {
    let ack = |status: &str, reason: Option<&str>, created_at: &str| GdaxOrderAck {
        id: "server-id".to_owned(),
        created_at: created_at.to_owned(),
        status: status.to_owned(),
        reject_reason: reason.map(|r| r.to_owned()),
    };
    let t = "2018-10-03T12:34:56.0Z";
    assert_eq!(
        order_ack(Some("mine".to_owned()), ack("pending", None, t)),
        Ok(trade::api::OrderAck { timestamp: 1538570096000, order_id: "mine".to_owned() })
    );
    assert_eq!(
        order_ack(None, ack("pending", None, t)),
        Ok(trade::api::OrderAck { timestamp: 1538570096000, order_id: "server-id".to_owned() })
    );
    assert_eq!(order_ack(None, ack("rejected", Some("post only"), t)), Err(AckError::WouldTakeLiquidity));
    assert_eq!(order_ack(None, ack("rejected", Some("other"), "bad")), Err(AckError::Timestamp("bad".to_owned())));
}
