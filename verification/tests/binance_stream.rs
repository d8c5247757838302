use trade::api::binance::wss::{
    event_type_of, BinanceBookSnapshot, BinanceDepthUpdate, BinanceEvent, BinanceEventType,
    BinanceExecutionReport, BinanceLimitUpdate, BinanceTrade, HandlerImpl, LimitUpdates, StreamAction,
};
use trade::api::wss::MessageError;
use trade::api::{Notification, OrderExpired, OrderReceived, OrderUpdate, SymbolInfo, Trade};
use trade::order_book::LimitUpdate;
use trade::tick::Tick;
use trade::Side;

fn symbol() -> SymbolInfo {
    SymbolInfo {
        name: "BTCUSDT".to_owned(),
        price_tick: Tick::new(100),
        size_tick: Tick::new(1000),
        commission_tick: Tick::new(100_000_000),
    }
}

fn level(price: &str, size: &str) -> BinanceLimitUpdate {
    BinanceLimitUpdate { price: price.to_owned(), size: size.to_owned() }
}

fn depth(first: u64, last: u64, bids: Vec<BinanceLimitUpdate>, asks: Vec<BinanceLimitUpdate>) -> BinanceEvent {
    BinanceEvent::DepthUpdate(BinanceDepthUpdate {
        event_time: 1000,
        first_update_id: first,
        final_update_id: last,
        bids,
        asks,
    })
}

fn report(execution_type: &str, side: &str, quantity: &str, filled: &str) -> BinanceExecutionReport {
    BinanceExecutionReport {
        client_order_id: "client".to_owned(),
        original_client_order_id: "original".to_owned(),
        side: side.to_owned(),
        quantity: quantity.to_owned(),
        price: "6500.00".to_owned(),
        execution_type: execution_type.to_owned(),
        last_executed_quantity: "0.5".to_owned(),
        cumulative_filled_quantity: filled.to_owned(),
        last_executed_price: "6499.99".to_owned(),
        commission: "0.00000125".to_owned(),
        transaction_time: 77,
    }
}

fn lu(price: u64, size: u64, side: Side) -> LimitUpdate {
    LimitUpdate::new(price, size, side)
}

fn parse(handler: &mut HandlerImpl, e: BinanceEvent) -> Result<Option<Notification>, MessageError> {
    assert!(handler.check_message(&e));
    handler.parse_message(e)
}

#[test]
fn event_types() {
    assert_eq!(event_type_of("trade"), BinanceEventType::Trade);
    assert_eq!(event_type_of("depthUpdate"), BinanceEventType::DepthUpdate);
    assert_eq!(event_type_of("executionReport"), BinanceEventType::ExecutionReport);
    assert_eq!(event_type_of("kline"), BinanceEventType::Other);
}

#[test]
fn trades_are_converted_in_ticks() {
    let mut handler = HandlerImpl::new(symbol());
    let trade = BinanceTrade {
        price: "6500.12".to_owned(),
        quantity: "0.005".to_owned(),
        trade_time: 123,
        buyer_is_maker: true,
    };
    assert_eq!(
        parse(&mut handler, BinanceEvent::Trade(trade.clone())),
        Ok(Some(Notification::Trade(Trade { timestamp: 123, price: 650012, size: 5, maker_side: Side::Bid })))
    );
    let trade = BinanceTrade { buyer_is_maker: false, ..trade };
    assert_eq!(
        parse(&mut handler, BinanceEvent::Trade(trade)),
        Ok(Some(Notification::Trade(Trade { timestamp: 123, price: 650012, size: 5, maker_side: Side::Ask })))
    );
}

#[test]
fn a_price_off_the_tick_grid_is_an_error() {
    let mut handler = HandlerImpl::new(symbol());
    let trade = BinanceTrade {
        price: "6500.123".to_owned(),
        quantity: "0.005".to_owned(),
        trade_time: 1,
        buyer_is_maker: true,
    };
    match parse(&mut handler, BinanceEvent::Trade(trade)) {
        Err(MessageError::Conversion(e)) => assert_eq!(
            format!("{:?}", e),
            "ConversionError { tick: Tick(100), value: Unticked(\"6500.123\") }"
        ),
        other => panic!("unexpected {:?}", other),
    }
}

#[test]
fn depth_updates_convert_bids_then_asks() {
    let mut handler = HandlerImpl::new(symbol());
    let e = depth(10, 12, vec![level("6500.00", "1.5"), level("6499.99", "0")], vec![level("6500.01", "0.25")]);
    assert_eq!(
        parse(&mut handler, e),
        Ok(Some(Notification::LimitUpdates(vec![
            lu(650000, 1500, Side::Bid),
            lu(649999, 0, Side::Bid),
            lu(650001, 250, Side::Ask),
        ])))
    );
    assert_eq!(parse(&mut handler, depth(13, 13, vec![], vec![])), Ok(None));
}

#[test]
fn depth_updates_must_follow_each_other() {
    let mut handler = HandlerImpl::new(symbol());
    assert!(handler.check_message(&depth(5, 9, vec![], vec![])));
    handler.parse_message(depth(5, 9, vec![], vec![])).unwrap();
    assert!(!handler.check_message(&depth(11, 12, vec![], vec![])));
    assert!(handler.check_message(&depth(10, 12, vec![], vec![])));
}

#[test]
fn a_size_that_overflows_is_refused() {
    let handler = HandlerImpl::new(symbol());
    let e = depth(1, 1, vec![level("1", "100000000000000000000")], vec![]);
    assert!(!handler.check_message(&e));
}

#[test]
fn execution_reports() {
    let mut handler = HandlerImpl::new(symbol());
    assert_eq!(
        parse(&mut handler, BinanceEvent::ExecutionReport(report("NEW", "BUY", "1.2", "0"))),
        Ok(Some(Notification::OrderReceived(OrderReceived {
            timestamp: 77,
            order_id: "client".to_owned(),
            price: 650000,
            size: 1200,
            side: Side::Bid,
        })))
    );
    assert_eq!(
        parse(&mut handler, BinanceEvent::ExecutionReport(report("TRADE", "SELL", "1.2", "0.7"))),
        Ok(Some(Notification::OrderUpdate(OrderUpdate {
            timestamp: 77,
            order_id: "client".to_owned(),
            consumed_size: 500,
            remaining_size: 500,
            consumed_price: 649999,
            commission: 125,
        })))
    );
    assert_eq!(
        parse(&mut handler, BinanceEvent::ExecutionReport(report("EXPIRED", "SELL", "1.2", "0"))),
        Ok(Some(Notification::OrderExpired(OrderExpired { timestamp: 77, order_id: "client".to_owned() })))
    );
    assert_eq!(
        parse(&mut handler, BinanceEvent::ExecutionReport(report("CANCELED", "SELL", "1.2", "0"))),
        Ok(Some(Notification::OrderExpired(OrderExpired { timestamp: 77, order_id: "original".to_owned() })))
    );
    assert_eq!(parse(&mut handler, BinanceEvent::ExecutionReport(report("REJECTED", "SELL", "1.2", "0"))), Ok(None));
    assert_eq!(parse(&mut handler, BinanceEvent::Other), Ok(None));
}

#[test]
fn a_new_order_on_an_unknown_side_is_an_error() {
    let mut handler = HandlerImpl::new(symbol());
    assert_eq!(
        parse(&mut handler, BinanceEvent::ExecutionReport(report("NEW", "HOLD", "1.2", "0"))),
        Err(MessageError::WrongSide("HOLD".to_owned()))
    );
}

#[test]
fn a_fill_larger_than_the_order_is_refused() {
    let handler = HandlerImpl::new(symbol());
    assert!(!handler.check_message(&BinanceEvent::ExecutionReport(report("TRADE", "SELL", "1.2", "1.3"))));
    assert!(handler.check_message(&BinanceEvent::ExecutionReport(report("TRADE", "SELL", "1.2", "1.2"))));
}

#[test]
fn the_book_is_notified_once_its_snapshot_arrives() {
    let mut handler = HandlerImpl::new(symbol());

    // The first depth update has the snapshot requested and is buffered.
    let e = depth(100, 105, vec![level("6500.00", "1")], vec![]);
    assert!(handler.check_message(&e));
    assert_eq!(handler.on_message(e), Ok(StreamAction::RequestSnapshot));

    // The following ones are buffered too, while the snapshot is awaited.
    let e = depth(106, 110, vec![], vec![level("6501.00", "2")]);
    assert!(handler.check_message(&e));
    assert_eq!(handler.on_message(e), Ok(StreamAction::PollSnapshot));
    assert_eq!(handler.maybe_recv_book(None), Ok(None));

    // Other notifications are forwarded meanwhile.
    let trade = BinanceTrade { price: "1".to_owned(), quantity: "1".to_owned(), trade_time: 5, buyer_is_maker: false };
    assert_eq!(
        handler.on_message(BinanceEvent::Trade(trade)),
        Ok(StreamAction::Send(Notification::Trade(Trade { timestamp: 5, price: 100, size: 1000, maker_side: Side::Ask })))
    );

    // The snapshot holds the updates up to 105: only the second buffered
    // event follows it.
    let snapshot = BinanceBookSnapshot {
        last_update_id: 105,
        bids: vec![level("6499.00", "3")],
        asks: vec![level("6502.00", "4")],
    };
    assert_eq!(
        handler.maybe_recv_book(Some(snapshot)),
        Ok(Some(Notification::LimitUpdates(vec![
            lu(649900, 3000, Side::Bid),
            lu(650200, 4000, Side::Ask),
            lu(650100, 2000, Side::Ask),
        ])))
    );

    // Later depth updates are forwarded.
    let e = depth(111, 111, vec![level("6500.00", "0")], vec![]);
    assert!(handler.check_message(&e));
    assert_eq!(
        handler.on_message(e),
        Ok(StreamAction::Send(Notification::LimitUpdates(vec![lu(650000, 0, Side::Bid)])))
    );
    assert_eq!(handler.on_message(depth(112, 112, vec![], vec![])), Ok(StreamAction::Nothing));
}

#[test]
fn buffered_events_newer_than_the_snapshot_follow_it() {
    let handler = HandlerImpl::new(symbol());
    let snapshot = BinanceBookSnapshot { last_update_id: 7, bids: vec![], asks: vec![] };
    let buffered = vec![
        LimitUpdates { u: 6, updates: vec![lu(1, 1, Side::Bid)] },
        LimitUpdates { u: 7, updates: vec![lu(2, 2, Side::Bid)] },
        LimitUpdates { u: 8, updates: vec![lu(3, 3, Side::Ask), lu(4, 4, Side::Bid)] },
        LimitUpdates { u: 9, updates: vec![lu(5, 5, Side::Ask)] },
    ];
    assert_eq!(
        handler.process_book_snapshot(snapshot, buffered),
        Ok(Notification::LimitUpdates(vec![lu(3, 3, Side::Ask), lu(4, 4, Side::Bid), lu(5, 5, Side::Ask)]))
    );
}

#[test]
fn a_snapshot_off_the_tick_grid_is_an_error() {
    let handler = HandlerImpl::new(symbol());
    let snapshot = BinanceBookSnapshot { last_update_id: 7, bids: vec![level("1.001", "1")], asks: vec![] };
    assert!(handler.process_book_snapshot(snapshot, vec![]).is_err());
}
