//! The binance WebSocket stream: the events that binance sends, their
//! conversion into notifications, and the synchronization of the order book
//! with a snapshot fetched over REST.
//!
//! Binance sends depth updates numbered by update ids. The consumer is
//! notified of the order book once a snapshot has been received: the
//! snapshot, followed by the depth updates received in the meantime that are
//! newer than the snapshot. Later depth updates are forwarded as they come.

use vstd::prelude::*;
use crate::Side;
use crate::api::{Notification, Trade, OrderReceived, OrderUpdate, OrderExpired};
use crate::api::params::SymbolInfo;
use crate::order_book::LimitUpdate;
use crate::api::wss::{
    UntickedLimit, MessageError, Failure, failed_with, conversion_failed, in_ticks, sides_update, sides_fit,
    lemma_levels_ok, convert_levels, check_levels, ticks, in_sequence,
};
use crate::text::str_eq;
use crate::tick::{TickUnit, ConversionError, probe, ticks_of};

verus! {

/// A limit update embedded into other binance events.
pub type BinanceLimitUpdate = UntickedLimit;

/// A trade, sent by binance.
#[derive(Clone, PartialEq, Eq, Hash, Debug)]
pub struct BinanceTrade {
    /// Price, unticked (`p`).
    pub price: String,
    /// Quantity, unticked (`q`).
    pub quantity: String,
    /// Trade time, in ms (`T`).
    pub trade_time: u64,
    /// Whether the buyer was the maker (`m`).
    pub buyer_is_maker: bool,
}

/// An order book update, sent by binance.
#[derive(Clone, PartialEq, Eq, Hash, Debug)]
pub struct BinanceDepthUpdate {
    /// Event time, in ms (`E`).
    pub event_time: u64,
    /// First update id of the event (`U`).
    pub first_update_id: u64,
    /// Final update id of the event (`u`).
    pub final_update_id: u64,
    /// Bid limits (`b`).
    pub bids: Vec<BinanceLimitUpdate>,
    /// Ask limits (`a`).
    pub asks: Vec<BinanceLimitUpdate>,
}

/// An order book snapshot, sent by binance over REST.
#[derive(Clone, PartialEq, Eq, Hash, Debug)]
pub struct BinanceBookSnapshot {
    /// Id of the last update that the snapshot includes.
    pub last_update_id: u64,
    /// Bid limits.
    pub bids: Vec<BinanceLimitUpdate>,
    /// Ask limits.
    pub asks: Vec<BinanceLimitUpdate>,
}

/// An order update, sent by binance.
#[derive(Clone, PartialEq, Eq, Hash, Debug)]
pub struct BinanceExecutionReport {
    /// Client order id (`c`).
    pub client_order_id: String,
    /// Original client order id, that of a canceled order (`C`).
    pub original_client_order_id: String,
    /// Side, `BUY` or `SELL` (`S`).
    pub side: String,
    /// Order quantity, unticked (`q`).
    pub quantity: String,
    /// Order price, unticked (`p`).
    pub price: String,
    /// Execution type: `NEW`, `TRADE`, `EXPIRED`, `CANCELED`... (`x`).
    pub execution_type: String,
    /// Last executed quantity, unticked (`l`).
    pub last_executed_quantity: String,
    /// Cumulative filled quantity, unticked (`z`).
    pub cumulative_filled_quantity: String,
    /// Last executed price, unticked (`L`).
    pub last_executed_price: String,
    /// Commission amount, unticked (`n`).
    pub commission: String,
    /// Transaction time, in ms (`T`).
    pub transaction_time: u64,
}

/// The type of an event sent by binance.
#[derive(Copy, Clone, PartialEq, Eq, Hash, Debug, Structural)]
pub enum BinanceEventType {
    /// `trade`.
    Trade,
    /// `depthUpdate`.
    DepthUpdate,
    /// `executionReport`.
    ExecutionReport,
    /// Another type.
    Other,
}

/// The event type that binance names `e`.
pub open spec fn event_type_named(e: Seq<char>) -> BinanceEventType {
    if e == "trade"@ {
        BinanceEventType::Trade
    } else if e == "depthUpdate"@ {
        BinanceEventType::DepthUpdate
    } else if e == "executionReport"@ {
        BinanceEventType::ExecutionReport
    } else {
        BinanceEventType::Other
    }
}

/// The event type that binance names `e`, which tells what the fields of
/// the event are.
pub fn event_type_of(e: &str) -> (t: BinanceEventType)
    ensures
        t == event_type_named(e@),
{
    if str_eq(e, "trade") {
        BinanceEventType::Trade
    } else if str_eq(e, "depthUpdate") {
        BinanceEventType::DepthUpdate
    } else if str_eq(e, "executionReport") {
        BinanceEventType::ExecutionReport
    } else {
        BinanceEventType::Other
    }
}

/// An event sent by binance on the stream, by its event type (`e`).
#[derive(Clone, PartialEq, Eq, Hash, Debug)]
pub enum BinanceEvent {
    /// A `trade` event.
    Trade(BinanceTrade),
    /// A `depthUpdate` event.
    DepthUpdate(BinanceDepthUpdate),
    /// An `executionReport` event.
    ExecutionReport(BinanceExecutionReport),
    /// An event of another type.
    Other,
}

/// The notification of the trade `t`: its quantity, then its price,
/// converted in ticks; the maker was on the bid side if the buyer was the
/// maker.
pub open spec fn trade_notification(sym: SymbolInfo, t: BinanceTrade) -> Result<Notification, Failure> {
    match in_ticks(sym.size_tick, t.quantity@) {
        Err(f) => Err(f),
        Ok(size) => match in_ticks(sym.price_tick, t.price@) {
            Err(f) => Err(f),
            Ok(price) => Ok(Notification::Trade(Trade {
                timestamp: t.trade_time,
                price,
                size,
                maker_side: if t.buyer_is_maker { Side::Bid } else { Side::Ask },
            })),
        },
    }
}

/// The conversions of the trade `t` that are made stay in range.
pub open spec fn trade_fits(sym: SymbolInfo, t: BinanceTrade) -> bool {
    match probe(sym.size_tick, t.quantity@) {
        None => false,
        Some(None) => true,
        Some(Some(_)) => probe(sym.price_tick, t.price@) is Some,
    }
}

/// The side that binance names `s`.
pub open spec fn side_named(s: Seq<char>) -> Option<Side> {
    if s == "BUY"@ {
        Some(Side::Bid)
    } else if s == "SELL"@ {
        Some(Side::Ask)
    } else {
        None
    }
}

/// The notification of the order update `r`, by its execution type: a new
/// order is received, a trade updates it, and an expired or a canceled
/// order expires (a canceled order by its original client id). Other
/// execution types give no notification.
pub open spec fn report_notification(sym: SymbolInfo, r: BinanceExecutionReport) -> Result<Option<Notification>, Failure> {
    let x = r.execution_type@;
    if x == "NEW"@ {
        match in_ticks(sym.size_tick, r.quantity@) {
            Err(f) => Err(f),
            Ok(size) => match in_ticks(sym.price_tick, r.price@) {
                Err(f) => Err(f),
                Ok(price) => match side_named(r.side@) {
                    None => Err(Failure::WrongSide(r.side@)),
                    Some(side) => Ok(Some(Notification::OrderReceived(OrderReceived {
                        timestamp: r.transaction_time,
                        order_id: r.client_order_id,
                        price,
                        size,
                        side,
                    }))),
                },
            },
        }
    } else if x == "TRADE"@ {
        match in_ticks(sym.size_tick, r.last_executed_quantity@) {
            Err(f) => Err(f),
            Ok(consumed_size) => match in_ticks(sym.size_tick, r.quantity@) {
                Err(f) => Err(f),
                Ok(quantity) => match in_ticks(sym.size_tick, r.cumulative_filled_quantity@) {
                    Err(f) => Err(f),
                    Ok(filled) => match in_ticks(sym.price_tick, r.last_executed_price@) {
                        Err(f) => Err(f),
                        Ok(consumed_price) => match in_ticks(sym.commission_tick, r.commission@) {
                            Err(f) => Err(f),
                            Ok(commission) => Ok(Some(Notification::OrderUpdate(OrderUpdate {
                                timestamp: r.transaction_time,
                                order_id: r.client_order_id,
                                consumed_size,
                                remaining_size: (quantity - filled) as TickUnit,
                                consumed_price,
                                commission,
                            }))),
                        },
                    },
                },
            },
        }
    } else if x == "EXPIRED"@ {
        Ok(Some(Notification::OrderExpired(OrderExpired {
            timestamp: r.transaction_time,
            order_id: r.client_order_id,
        })))
    } else if x == "CANCELED"@ {
        Ok(Some(Notification::OrderExpired(OrderExpired {
            timestamp: r.transaction_time,
            order_id: r.original_client_order_id,
        })))
    } else {
        Ok(None)
    }
}

/// The conversions of the order update `r` that are made stay in range,
/// and the filled quantity of a trade is at most the order quantity.
pub open spec fn report_fits(sym: SymbolInfo, r: BinanceExecutionReport) -> bool {
    let x = r.execution_type@;
    if x == "NEW"@ {
        match probe(sym.size_tick, r.quantity@) {
            None => false,
            Some(None) => true,
            Some(Some(_)) => probe(sym.price_tick, r.price@) is Some,
        }
    } else if x == "TRADE"@ {
        match probe(sym.size_tick, r.last_executed_quantity@) {
            None => false,
            Some(None) => true,
            Some(Some(_)) => match probe(sym.size_tick, r.quantity@) {
                None => false,
                Some(None) => true,
                Some(Some(quantity)) => match probe(sym.size_tick, r.cumulative_filled_quantity@) {
                    None => false,
                    Some(None) => true,
                    Some(Some(filled)) => quantity >= filled && match probe(sym.price_tick, r.last_executed_price@) {
                        None => false,
                        Some(None) => true,
                        Some(Some(_)) => probe(sym.commission_tick, r.commission@) is Some,
                    },
                },
            },
        }
    } else {
        true
    }
}

/// What an event gives once converted.
pub enum Parsed {
    /// No notification.
    Nothing,
    /// Limit updates of the order book, in order.
    Updates(Seq<LimitUpdate>),
    /// Another notification.
    Notify(Notification),
}

/// What the event `e` gives once converted, or the first failure: a trade,
/// the limit updates of a depth update (its bids, then its asks; nothing if
/// there are none) or an order update.
pub open spec fn parsed(sym: SymbolInfo, e: BinanceEvent) -> Result<Parsed, Failure> {
    match e {
        BinanceEvent::Trade(t) => match trade_notification(sym, t) {
            Err(f) => Err(f),
            Ok(n) => Ok(Parsed::Notify(n)),
        },
        BinanceEvent::DepthUpdate(d) => match sides_update(sym, d.bids@, d.asks@) {
            Err(f) => Err(f),
            Ok(us) => if us.len() == 0 {
                Ok(Parsed::Nothing)
            } else {
                Ok(Parsed::Updates(us))
            },
        },
        BinanceEvent::ExecutionReport(r) => match report_notification(sym, r) {
            Err(f) => Err(f),
            Ok(None) => Ok(Parsed::Nothing),
            Ok(Some(n)) => Ok(Parsed::Notify(n)),
        },
        BinanceEvent::Other => Ok(Parsed::Nothing),
    }
}

/// `r` is what `p` describes.
pub open spec fn gives(r: Result<Option<Notification>, MessageError>, p: Result<Parsed, Failure>) -> bool {
    match p {
        Err(f) => r matches Err(e) && failed_with(e, f),
        Ok(Parsed::Nothing) => r matches Ok(None),
        Ok(Parsed::Updates(us)) => r matches Ok(Some(Notification::LimitUpdates(v))) && v@ == us,
        Ok(Parsed::Notify(n)) => r == Ok::<Option<Notification>, MessageError>(Some(n)),
    }
}

/// Converting the event `e` stays in range, and a depth update is in
/// sequence.
pub open spec fn event_fits(sym: SymbolInfo, previous_u: Option<u64>, e: BinanceEvent) -> bool {
    match e {
        BinanceEvent::Trade(t) => trade_fits(sym, t),
        BinanceEvent::DepthUpdate(d) => in_sequence(previous_u, d.first_update_id) && sides_fit(sym, d.bids@, d.asks@),
        BinanceEvent::ExecutionReport(r) => report_fits(sym, r),
        BinanceEvent::Other => true,
    }
}

/// Convert the trade `t` into a notification.
fn convert_trade(sym: &SymbolInfo, t: &BinanceTrade) -> (r: Result<Notification, ConversionError>)
    requires
        trade_fits(*sym, *t),
    ensures
        match trade_notification(*sym, *t) {
            Ok(n) => r == Ok::<Notification, ConversionError>(n),
            Err(f) => r matches Err(e) && conversion_failed(e, f),
        },
{
    let size = match sym.size_tick.ticked(t.quantity.as_str()) {
        Ok(v) => v,
        Err(e) => return Err(e),
    };
    let price = match sym.price_tick.ticked(t.price.as_str()) {
        Ok(v) => v,
        Err(e) => return Err(e),
    };
    let maker_side = if t.buyer_is_maker { Side::Bid } else { Side::Ask };
    Ok(Notification::Trade(Trade { timestamp: t.trade_time, price, size, maker_side }))
}

/// Convert the order update `r` into a notification, if any.
fn convert_report(sym: &SymbolInfo, r: BinanceExecutionReport) -> (res: Result<Option<Notification>, MessageError>)
    requires
        report_fits(*sym, r),
    ensures
        match report_notification(*sym, r) {
            Ok(n) => res == Ok::<Option<Notification>, MessageError>(n),
            Err(f) => res matches Err(e) && failed_with(e, f),
        },
{
    let ghost r0 = r;
    if str_eq(r.execution_type.as_str(), "NEW") {
        let size = ticks(sym.size_tick, &r.quantity)?;
        let price = ticks(sym.price_tick, &r.price)?;
        let side = if str_eq(r.side.as_str(), "BUY") {
            Side::Bid
        } else if str_eq(r.side.as_str(), "SELL") {
            Side::Ask
        } else {
            return Err(MessageError::WrongSide(r.side));
        };
        Ok(Some(Notification::OrderReceived(OrderReceived {
            timestamp: r.transaction_time,
            order_id: r.client_order_id,
            price,
            size,
            side,
        })))
    } else if str_eq(r.execution_type.as_str(), "TRADE") {
        let consumed_size = ticks(sym.size_tick, &r.last_executed_quantity)?;
        let quantity = ticks(sym.size_tick, &r.quantity)?;
        let filled = ticks(sym.size_tick, &r.cumulative_filled_quantity)?;
        let remaining_size = quantity - filled;
        let consumed_price = ticks(sym.price_tick, &r.last_executed_price)?;
        let commission = ticks(sym.commission_tick, &r.commission)?;
        Ok(Some(Notification::OrderUpdate(OrderUpdate {
            timestamp: r.transaction_time,
            order_id: r.client_order_id,
            consumed_size,
            remaining_size,
            consumed_price,
            commission,
        })))
    } else if str_eq(r.execution_type.as_str(), "EXPIRED") {
        Ok(Some(Notification::OrderExpired(OrderExpired {
            timestamp: r.transaction_time,
            order_id: r.client_order_id,
        })))
    } else if str_eq(r.execution_type.as_str(), "CANCELED") {
        Ok(Some(Notification::OrderExpired(OrderExpired {
            timestamp: r.transaction_time,
            order_id: r.original_client_order_id,
        })))
    } else {
        Ok(None)
    }
}

/// Depth updates received before the book snapshot, with the final update
/// id of their event.
#[derive(Clone, PartialEq, Eq, Debug)]
pub struct LimitUpdates {
    /// Final update id of the event (`u`).
    pub u: u64,
    /// Limit updates of the event.
    pub updates: Vec<LimitUpdate>,
}

/// The buffered events `events`, by their update ids and limit updates.
pub open spec fn buffered(events: Seq<LimitUpdates>) -> Seq<(u64, Seq<LimitUpdate>)> {
    events.map_values(|e: LimitUpdates| (e.u, e.updates@))
}

/// The limit updates of the buffered events newer than the update
/// `last_update_id`, in the order of the events.
pub open spec fn newer_updates(events: Seq<(u64, Seq<LimitUpdate>)>, last_update_id: u64) -> Seq<LimitUpdate>
    decreases events.len(),
{
    if events.len() == 0 {
        Seq::empty()
    } else {
        newer_updates(events.drop_last(), last_update_id) + if events.last().0 > last_update_id {
            events.last().1
        } else {
            Seq::empty()
        }
    }
}

/// State of the book snapshot request.
#[derive(Clone, PartialEq, Eq, Debug)]
pub enum BookSnapshotState {
    /// The request has not been made yet.
    NotRequested,
    /// The request has started; the depth updates received in the meantime
    /// may need to be notified once it is complete.
    Waiting(Vec<LimitUpdates>),
    /// The request was completed already.
    Received,
}

/// What the stream must do after an event.
#[derive(Clone, PartialEq, Eq, Debug)]
pub enum StreamAction {
    /// Nothing.
    Nothing,
    /// Send this notification to the consumer.
    Send(Notification),
    /// Request the order book snapshot.
    RequestSnapshot,
    /// See whether the requested snapshot has arrived, and if it has, hand it
    /// to `maybe_recv_book`.
    PollSnapshot,
}

/// The address of the order book snapshot of `symbol`, at the REST
/// address `http_address`: its 1000 best limits on each side.
pub fn book_snapshot_address(http_address: &str, symbol: &SymbolInfo) -> (s: String)
    ensures
        s@ == http_address@ + "/api/v1/depth?symbol="@ + symbol.name@ + "&limit=1000"@,
{
    let mut s = String::new();
    s.append(http_address);
    s.append("/api/v1/depth?symbol=");
    s.append(symbol.name.as_str());
    s.append("&limit=1000");
    s
}

/// The handler of a binance stream for one symbol.
pub struct HandlerImpl {
    symbol: SymbolInfo,
    book_snapshot_state: BookSnapshotState,
    /// The final update id of the last depth update, used for checking that
    /// binance sends the events in order.
    previous_u: Option<u64>,
}

impl HandlerImpl {
    /// The traded symbol.
    pub closed spec fn symbol(&self) -> SymbolInfo {
        self.symbol
    }

    /// The state of the book snapshot request.
    pub closed spec fn state(&self) -> BookSnapshotState {
        self.book_snapshot_state
    }

    /// The final update id of the last depth update.
    pub closed spec fn previous_u(&self) -> Option<u64> {
        self.previous_u
    }

    /// `parse_message` and `on_message` accept the event `e`.
    pub open spec fn accepts(&self, e: BinanceEvent) -> bool {
        event_fits(self.symbol(), self.previous_u(), e)
    }

    /// A handler for `symbol` which has not received anything yet.
    pub fn new(symbol: SymbolInfo) -> (h: Self)
        ensures
            h.symbol() == symbol,
            h.state() == BookSnapshotState::NotRequested,
            h.previous_u() == None::<u64>,
    {
        HandlerImpl { symbol, book_snapshot_state: BookSnapshotState::NotRequested, previous_u: None }
    }

    /// Whether `parse_message` and `on_message` accept the event `e`: its
    /// conversions stay in range and a depth update is in sequence.
    pub fn check_message(&self, e: &BinanceEvent) -> (b: bool)
        ensures
            b == self.accepts(*e),
    {
        let sym = &self.symbol;
        match e {
            BinanceEvent::Trade(t) => match sym.size_tick.probe(t.quantity.as_str()) {
                None => false,
                Some(None) => true,
                Some(Some(_)) => sym.price_tick.probe(t.price.as_str()).is_some(),
            },
            BinanceEvent::DepthUpdate(d) => {
                let in_sequence = match self.previous_u {
                    Some(p) => p < u64::MAX && p + 1 == d.first_update_id,
                    None => true,
                };
                if !in_sequence {
                    return false;
                }
                let (bids_fit, bids_convert) = check_levels(sym, &d.bids);
                if !bids_fit {
                    return false;
                }
                if !bids_convert {
                    return true;
                }
                check_levels(sym, &d.asks).0
            },
            BinanceEvent::ExecutionReport(r) => check_report(sym, r),
            BinanceEvent::Other => true,
        }
    }

    /// Whether `process_book_snapshot` and `maybe_recv_book` accept the
    /// snapshot `snapshot`: its conversions stay in range.
    pub fn check_snapshot(&self, snapshot: &BinanceBookSnapshot) -> (b: bool)
        ensures
            b == sides_fit(self.symbol(), snapshot.bids@, snapshot.asks@),
    {
        let sym = &self.symbol;
        let (bids_fit, bids_convert) = check_levels(sym, &snapshot.bids);
        if !bids_fit {
            return false;
        }
        if !bids_convert {
            return true;
        }
        check_levels(sym, &snapshot.asks).0
    }

    /// Convert the event `e` into a notification, if any. A depth update
    /// becomes the final update id of the last depth update.
    pub fn parse_message(&mut self, e: BinanceEvent) -> (r: Result<Option<Notification>, MessageError>)
        requires
            old(self).accepts(e),
        ensures
            gives(r, parsed(old(self).symbol(), e)),
            final(self).symbol() == old(self).symbol(),
            final(self).state() == old(self).state(),
            final(self).previous_u() == match e {
                BinanceEvent::DepthUpdate(d) => Some(d.final_update_id),
                _ => old(self).previous_u(),
            },
    {
        let sym = &self.symbol;
        match e {
            BinanceEvent::Trade(t) => match convert_trade(sym, &t) {
                Ok(n) => Ok(Some(n)),
                Err(err) => Err(MessageError::Conversion(err)),
            },
            BinanceEvent::DepthUpdate(d) => {
                self.previous_u = Some(d.final_update_id);
                let sym = &self.symbol;
                let mut updates: Vec<LimitUpdate> = Vec::new();
                proof {
                    lemma_levels_ok(*sym, d.bids@, Side::Bid);
                }
                if let Err(err) = convert_levels(sym, &d.bids, Side::Bid, &mut updates) {
                    return Err(MessageError::Conversion(err));
                }
                if let Err(err) = convert_levels(sym, &d.asks, Side::Ask, &mut updates) {
                    return Err(MessageError::Conversion(err));
                }
                if updates.len() > 0 {
                    Ok(Some(Notification::LimitUpdates(updates)))
                } else {
                    Ok(None)
                }
            },
            BinanceEvent::ExecutionReport(r) => convert_report(sym, r),
            BinanceEvent::Other => Ok(None),
        }
    }

    /// Handle the event `e`: convert it, then forward the notification,
    /// except for depth updates before the book snapshot has been received.
    /// The first one has the snapshot requested; it and the following ones
    /// are buffered, with the final update id of their event, until the
    /// snapshot arrives.
    pub fn on_message(&mut self, e: BinanceEvent) -> (r: Result<StreamAction, MessageError>)
        requires
            old(self).accepts(e),
        ensures
            final(self).symbol() == old(self).symbol(),
            final(self).previous_u() == match e {
                BinanceEvent::DepthUpdate(d) => Some(d.final_update_id),
                _ => old(self).previous_u(),
            },
            match parsed(old(self).symbol(), e) {
                Err(f) => r matches Err(err) && failed_with(err, f) && final(self).state() == old(self).state(),
                Ok(Parsed::Nothing) => r == Ok::<StreamAction, MessageError>(StreamAction::Nothing)
                    && final(self).state() == old(self).state(),
                Ok(Parsed::Notify(n)) => r == Ok::<StreamAction, MessageError>(StreamAction::Send(n))
                    && final(self).state() == old(self).state(),
                Ok(Parsed::Updates(us)) => match old(self).state() {
                    BookSnapshotState::NotRequested => r == Ok::<StreamAction, MessageError>(StreamAction::RequestSnapshot)
                        && (final(self).state() matches BookSnapshotState::Waiting(events)
                        && buffered(events@) == seq![(e->DepthUpdate_0.final_update_id, us)]),
                    BookSnapshotState::Waiting(events) => r == Ok::<StreamAction, MessageError>(StreamAction::PollSnapshot)
                        && (final(self).state() matches BookSnapshotState::Waiting(events2)
                        && buffered(events2@) == buffered(events@).push((e->DepthUpdate_0.final_update_id, us))),
                    BookSnapshotState::Received => (r matches Ok(StreamAction::Send(Notification::LimitUpdates(v))) && v@ == us)
                        && final(self).state() == BookSnapshotState::Received,
                },
            },
    {
        match self.parse_message(e) {
            Err(err) => Err(err),
            Ok(None) => Ok(StreamAction::Nothing),
            Ok(Some(Notification::LimitUpdates(updates))) => {
                let u = match self.previous_u {
                    Some(u) => u,
                    None => 0,
                };
                let mut state = BookSnapshotState::Received;
                std::mem::swap(&mut state, &mut self.book_snapshot_state);
                match state {
                    BookSnapshotState::NotRequested => {
                        let events = vec![LimitUpdates { u, updates }];
                        assert(buffered(events@) =~= seq![(u, updates@)]);
                        self.book_snapshot_state = BookSnapshotState::Waiting(events);
                        Ok(StreamAction::RequestSnapshot)
                    },
                    BookSnapshotState::Waiting(events) => {
                        let mut events = events;
                        let ghost before = events@;
                        events.push(LimitUpdates { u, updates });
                        assert(buffered(events@) =~= buffered(before).push((u, updates@)));
                        self.book_snapshot_state = BookSnapshotState::Waiting(events);
                        Ok(StreamAction::PollSnapshot)
                    },
                    BookSnapshotState::Received => Ok(StreamAction::Send(Notification::LimitUpdates(updates))),
                }
            },
            Ok(Some(n)) => Ok(StreamAction::Send(n)),
        }
    }

    /// The notification of the order book once its snapshot has been
    /// received: the limits of the snapshot (bids, then asks), followed by
    /// the buffered depth updates of the events newer than the snapshot, in
    /// the order in which they came.
    pub fn process_book_snapshot(&self, snapshot: BinanceBookSnapshot, buffered_events: Vec<LimitUpdates>) -> (r: Result<Notification, ConversionError>)
        requires
            sides_fit(self.symbol(), snapshot.bids@, snapshot.asks@),
        ensures
            match sides_update(self.symbol(), snapshot.bids@, snapshot.asks@) {
                Ok(us) => r matches Ok(Notification::LimitUpdates(v))
                    && v@ == us + newer_updates(buffered(buffered_events@), snapshot.last_update_id),
                Err(f) => r matches Err(e) && conversion_failed(e, f),
            },
    {
        let sym = &self.symbol;
        let mut updates: Vec<LimitUpdate> = Vec::new();
        proof {
            lemma_levels_ok(*sym, snapshot.bids@, Side::Bid);
        }
        if let Err(e) = convert_levels(sym, &snapshot.bids, Side::Bid, &mut updates) {
            return Err(e);
        }
        if let Err(e) = convert_levels(sym, &snapshot.asks, Side::Ask, &mut updates) {
            return Err(e);
        }
        let ghost prefix = updates@;
        let ghost all = buffered(buffered_events@);
        let last_update_id = snapshot.last_update_id;
        let mut events = buffered_events;
        let ghost mut k: int = 0;
        assert(all.take(0) =~= Seq::<(u64, Seq<LimitUpdate>)>::empty());
        assert(all.skip(0) =~= all);
        while events.len() > 0
            invariant
                0 <= k <= all.len(),
                buffered(events@) == all.skip(k),
                updates@ == prefix + newer_updates(all.take(k), last_update_id),
            decreases events.len(),
        {
            let ghost old_events = events@;
            let ev = events.remove(0);
            proof {
                let bo = buffered(old_events);
                assert(bo.len() == old_events.len());
                assert(bo[0] == all.skip(k)[0]);
                assert(bo[0] == all[k]);
                assert forall|i: int| 0 <= i < events@.len() implies #[trigger] buffered(events@)[i] == all.skip(k + 1)[i] by {
                    assert(events@[i] == old_events[i + 1]);
                    assert(bo[i + 1] == all.skip(k)[i + 1]);
                }
                assert(buffered(events@) =~= all.skip(k + 1));
                assert(all.take(k + 1).drop_last() =~= all.take(k));
                assert(all.take(k + 1).last() == all[k]);
                k = k + 1;
            }
            let mut ups = ev.updates;
            if ev.u > last_update_id {
                let ghost before = updates@;
                updates.append(&mut ups);
            }
            proof {
                assert(updates@ =~= prefix + newer_updates(all.take(k), last_update_id));
            }
        }
        assert(all.take(k) =~= all);
        Ok(Notification::LimitUpdates(updates))
    }

    /// Handle the outcome of polling the requested snapshot: if it has
    /// arrived, notify the order book (see `process_book_snapshot`) and
    /// forward the later depth updates from then on.
    pub fn maybe_recv_book(&mut self, received: Option<BinanceBookSnapshot>) -> (r: Result<Option<Notification>, ConversionError>)
        requires
            old(self).state() is Waiting,
            received matches Some(snapshot) ==> sides_fit(old(self).symbol(), snapshot.bids@, snapshot.asks@),
        ensures
            final(self).symbol() == old(self).symbol(),
            final(self).previous_u() == old(self).previous_u(),
            match received {
                None => r == Ok::<Option<Notification>, ConversionError>(None) && final(self).state() == old(self).state(),
                Some(snapshot) => match sides_update(old(self).symbol(), snapshot.bids@, snapshot.asks@) {
                    Ok(us) => (r matches Ok(Some(Notification::LimitUpdates(v)))
                        && v@ == us + newer_updates(buffered(old(self).state()->Waiting_0@), snapshot.last_update_id))
                        && final(self).state() == BookSnapshotState::Received,
                    Err(f) => r matches Err(e) && conversion_failed(e, f),
                },
            },
    {
        let snapshot = match received {
            None => return Ok(None),
            Some(snapshot) => snapshot,
        };
        let mut state = BookSnapshotState::Received;
        std::mem::swap(&mut state, &mut self.book_snapshot_state);
        let events = match state {
            BookSnapshotState::Waiting(events) => events,
            _ => Vec::new(),
        };
        match self.process_book_snapshot(snapshot, events) {
            Ok(n) => Ok(Some(n)),
            Err(e) => Err(e),
        }
    }
}

/// Whether the conversions of the order update `r` that are made stay in
/// range, and the filled quantity of a trade is at most the order quantity.
fn check_report(sym: &SymbolInfo, r: &BinanceExecutionReport) -> (b: bool)
    ensures
        b == report_fits(*sym, *r),
{
    if str_eq(r.execution_type.as_str(), "NEW") {
        match sym.size_tick.probe(r.quantity.as_str()) {
            None => false,
            Some(None) => true,
            Some(Some(_)) => sym.price_tick.probe(r.price.as_str()).is_some(),
        }
    } else if str_eq(r.execution_type.as_str(), "TRADE") {
        match sym.size_tick.probe(r.last_executed_quantity.as_str()) {
            None => false,
            Some(None) => true,
            Some(Some(_)) => match sym.size_tick.probe(r.quantity.as_str()) {
                None => false,
                Some(None) => true,
                Some(Some(quantity)) => match sym.size_tick.probe(r.cumulative_filled_quantity.as_str()) {
                    None => false,
                    Some(None) => true,
                    Some(Some(filled)) => {
                        if quantity < filled {
                            return false;
                        }
                        match sym.price_tick.probe(r.last_executed_price.as_str()) {
                            None => false,
                            Some(None) => true,
                            Some(Some(_)) => sym.commission_tick.probe(r.commission.as_str()).is_some(),
                        }
                    },
                },
            },
        }
    } else {
        true
    }
}

/// A trade whose quantity and price are whole numbers of ticks is notified
/// with its time, that quantity and that price in ticks, and its maker on
/// the bid side exactly when the buyer was the maker.
pub proof fn lemma_trade_notified(sym: SymbolInfo, t: BinanceTrade)
    requires
        ticks_of(sym.size_tick, t.quantity@) is Some,
        ticks_of(sym.price_tick, t.price@) is Some,
    ensures
        parsed(sym, BinanceEvent::Trade(t)) == Ok::<Parsed, Failure>(Parsed::Notify(Notification::Trade(Trade {
            timestamp: t.trade_time,
            price: ticks_of(sym.price_tick, t.price@)->0,
            size: ticks_of(sym.size_tick, t.quantity@)->0,
            maker_side: if t.buyer_is_maker { Side::Bid } else { Side::Ask },
        }))),
{
}

/// What an execution report gives, by its execution type, when its texts
/// convert: a `NEW` order is received with its quantity, its price and the
/// side that the report names (`BUY` a bid, `SELL` an ask); a `TRADE`
/// updates the order with the last executed quantity and price (`l` and
/// `L`), the quantity left (the order quantity less the cumulative filled
/// quantity) and the commission; an `EXPIRED` order expires by its client
/// order id, and a `CANCELED` one by its original client order id.
pub proof fn lemma_report_notified(sym: SymbolInfo, r: BinanceExecutionReport)
    ensures
        r.execution_type@ == "NEW"@ && ticks_of(sym.size_tick, r.quantity@) is Some
            && ticks_of(sym.price_tick, r.price@) is Some && (r.side@ == "BUY"@ || r.side@ == "SELL"@)
            ==> parsed(sym, BinanceEvent::ExecutionReport(r)) == Ok::<Parsed, Failure>(Parsed::Notify(
                Notification::OrderReceived(OrderReceived {
                    timestamp: r.transaction_time,
                    order_id: r.client_order_id,
                    price: ticks_of(sym.price_tick, r.price@)->0,
                    size: ticks_of(sym.size_tick, r.quantity@)->0,
                    side: if r.side@ == "BUY"@ { Side::Bid } else { Side::Ask },
                }),
            )),
        r.execution_type@ == "TRADE"@
            && ticks_of(sym.size_tick, r.last_executed_quantity@) is Some
            && ticks_of(sym.size_tick, r.quantity@) is Some
            && ticks_of(sym.size_tick, r.cumulative_filled_quantity@) is Some
            && ticks_of(sym.price_tick, r.last_executed_price@) is Some
            && ticks_of(sym.commission_tick, r.commission@) is Some
            && ticks_of(sym.size_tick, r.quantity@)->0 >= ticks_of(sym.size_tick, r.cumulative_filled_quantity@)->0
            ==> parsed(sym, BinanceEvent::ExecutionReport(r)) == Ok::<Parsed, Failure>(Parsed::Notify(
                Notification::OrderUpdate(OrderUpdate {
                    timestamp: r.transaction_time,
                    order_id: r.client_order_id,
                    consumed_size: ticks_of(sym.size_tick, r.last_executed_quantity@)->0,
                    remaining_size: (ticks_of(sym.size_tick, r.quantity@)->0
                        - ticks_of(sym.size_tick, r.cumulative_filled_quantity@)->0) as TickUnit,
                    consumed_price: ticks_of(sym.price_tick, r.last_executed_price@)->0,
                    commission: ticks_of(sym.commission_tick, r.commission@)->0,
                }),
            )),
        r.execution_type@ == "EXPIRED"@ ==> parsed(sym, BinanceEvent::ExecutionReport(r))
            == Ok::<Parsed, Failure>(Parsed::Notify(Notification::OrderExpired(OrderExpired {
                timestamp: r.transaction_time,
                order_id: r.client_order_id,
            }))),
        r.execution_type@ == "CANCELED"@ ==> parsed(sym, BinanceEvent::ExecutionReport(r))
            == Ok::<Parsed, Failure>(Parsed::Notify(Notification::OrderExpired(OrderExpired {
                timestamp: r.transaction_time,
                order_id: r.original_client_order_id,
            }))),
{
    reveal_strlit("NEW");
    reveal_strlit("TRADE");
    reveal_strlit("EXPIRED");
    reveal_strlit("CANCELED");
    reveal_strlit("BUY");
    reveal_strlit("SELL");
    assert("TRADE"@ != "NEW"@) by {
        assert("TRADE"@[0] != "NEW"@[0]);
    }
    assert("EXPIRED"@ != "NEW"@ && "EXPIRED"@ != "TRADE"@) by {
        assert("EXPIRED"@[0] != "NEW"@[0] && "EXPIRED"@[0] != "TRADE"@[0]);
    }
    assert("CANCELED"@ != "NEW"@ && "CANCELED"@ != "TRADE"@ && "CANCELED"@ != "EXPIRED"@) by {
        assert("CANCELED"@[0] != "NEW"@[0] && "CANCELED"@[0] != "TRADE"@[0] && "CANCELED"@[0] != "EXPIRED"@[0]);
    }
}

} // verus!
