//! The HitBTC WebSocket stream: the messages that HitBTC sends, and their
//! conversion into notifications, for the kinds of notifications asked for.

use vstd::prelude::*;
use crate::Side;
use crate::api::{Notification, Trade, OrderReceived, OrderUpdate, OrderExpired};
use crate::api::params::SymbolInfo;
use crate::api::hitbtc::KeyPair;
use crate::api::timestamp::{str_timestamp, convert_str_timestamp};
use crate::api::wss::{
    UntickedLimit, MessageError, Failure, failed_with, in_ticks, sides_update, sides_fit, lemma_levels_ok,
    convert_levels, check_levels, ticks, Sent, are_sent, in_sequence, in_time, read_timestamp,
};
use crate::order_book::LimitUpdate;
use crate::text::str_eq;
use crate::tick::{TickUnit, probe, ticks_of};

verus! {

/// The kinds of notifications that a stream forwards.
#[derive(Copy, Clone, PartialEq, Eq, Hash, Debug, Structural)]
pub struct NotificationFlags {
    /// Order book updates.
    pub order_book: bool,
    /// Trades.
    pub trades: bool,
    /// Updates of the orders of the account.
    pub orders: bool,
}

/// The subscriptions that HitBTC has confirmed.
#[derive(Copy, Clone, PartialEq, Eq, Hash, Debug, Structural)]
pub struct SubscriptionState {
    /// Order book updates.
    pub order_book: bool,
    /// Trades.
    pub trades: bool,
    /// Reports on the orders of the account.
    pub report: bool,
}

impl SubscriptionState {
    /// No subscription confirmed yet.
    pub fn new() -> (s: Self)
        ensures
            s == (SubscriptionState { order_book: false, trades: false, report: false }),
    {
        SubscriptionState { order_book: false, trades: false, report: false }
    }
}

/// A limit update, sent by HitBTC.
pub type HitBtcLimitUpdate = UntickedLimit;

/// An order book snapshot or update, sent by HitBTC.
#[derive(Clone, PartialEq, Eq, Hash, Debug)]
pub struct HitBtcLimitUpdates {
    /// Ask limits.
    pub ask: Vec<HitBtcLimitUpdate>,
    /// Bid limits.
    pub bid: Vec<HitBtcLimitUpdate>,
    /// Sequence number of the message.
    pub sequence: u64,
}

/// A trade, sent by HitBTC.
#[derive(Clone, PartialEq, Eq, Hash, Debug)]
pub struct HitBtcTradeData {
    /// Price, unticked.
    pub price: String,
    /// Quantity, unticked.
    pub quantity: String,
    /// Side of the maker, `buy` or `sell`.
    pub side: String,
    /// Time of the trade, `%FT%T.%fZ`.
    pub timestamp: String,
}

/// A report on an order of the account, sent by HitBTC.
#[derive(Clone, PartialEq, Eq, Hash, Debug)]
pub struct HitBtcReportParams {
    /// Client order id (`clientOrderId`).
    pub client_order_id: String,
    /// Side, `buy` or `sell`.
    pub side: String,
    /// Status of the order: `new`, `partiallyFilled`, `filled`,
    /// `canceled`, `expired`, `suspended`...
    pub status: String,
    /// Order quantity, unticked.
    pub quantity: String,
    /// Order price, unticked.
    pub price: String,
    /// Cumulative filled quantity, unticked (`cumQuantity`).
    pub cum_quantity: String,
    /// Quantity of the trade, unticked (`tradeQuantity`).
    pub trade_quantity: Option<String>,
    /// Price of the trade, unticked (`tradePrice`).
    pub trade_price: Option<String>,
    /// Time of the update, `%FT%T.%fZ` (`updatedAt`).
    pub updated_at: String,
}

/// The method of a message sent by HitBTC.
#[derive(Copy, Clone, PartialEq, Eq, Hash, Debug, Structural)]
pub enum HitBtcMethod {
    /// `snapshotOrderbook`.
    SnapshotOrderbook,
    /// `updateOrderbook`.
    UpdateOrderbook,
    /// `snapshotTrades`.
    SnapshotTrades,
    /// `updateTrades`.
    UpdateTrades,
    /// `activeOrders`.
    ActiveOrders,
    /// `report`.
    Report,
    /// Another method, or none.
    Other,
}

/// The method that HitBTC names `m`.
pub open spec fn method_named(m: Seq<char>) -> HitBtcMethod {
    if m == "snapshotOrderbook"@ {
        HitBtcMethod::SnapshotOrderbook
    } else if m == "updateOrderbook"@ {
        HitBtcMethod::UpdateOrderbook
    } else if m == "snapshotTrades"@ {
        HitBtcMethod::SnapshotTrades
    } else if m == "updateTrades"@ {
        HitBtcMethod::UpdateTrades
    } else if m == "activeOrders"@ {
        HitBtcMethod::ActiveOrders
    } else if m == "report"@ {
        HitBtcMethod::Report
    } else {
        HitBtcMethod::Other
    }
}

/// The method that HitBTC names `m`, which tells what the parameters of the
/// message are.
pub fn method_of(m: &str) -> (k: HitBtcMethod)
    ensures
        k == method_named(m@),
{
    if str_eq(m, "snapshotOrderbook") {
        HitBtcMethod::SnapshotOrderbook
    } else if str_eq(m, "updateOrderbook") {
        HitBtcMethod::UpdateOrderbook
    } else if str_eq(m, "snapshotTrades") {
        HitBtcMethod::SnapshotTrades
    } else if str_eq(m, "updateTrades") {
        HitBtcMethod::UpdateTrades
    } else if str_eq(m, "activeOrders") {
        HitBtcMethod::ActiveOrders
    } else if str_eq(m, "report") {
        HitBtcMethod::Report
    } else {
        HitBtcMethod::Other
    }
}

/// A message sent by HitBTC, with its parameters, by its method.
#[derive(Clone, PartialEq, Eq, Hash, Debug)]
pub enum HitBtcMessage {
    /// An order book snapshot.
    SnapshotOrderbook(HitBtcLimitUpdates),
    /// An order book update.
    UpdateOrderbook(HitBtcLimitUpdates),
    /// The confirmation of the trades subscription.
    SnapshotTrades,
    /// New trades.
    UpdateTrades(Vec<HitBtcTradeData>),
    /// The confirmation of the reports subscription.
    ActiveOrders,
    /// A report on an order of the account.
    Report(HitBtcReportParams),
    /// A message of another method, or without one.
    Other,
}

/// The side that HitBTC names `s`: `buy` or `sell`.
pub open spec fn hit_btc_side(s: Seq<char>) -> Option<Side> {
    if s == "buy"@ {
        Some(Side::Bid)
    } else if s == "sell"@ {
        Some(Side::Ask)
    } else {
        None
    }
}

/// The side that HitBTC names `side`.
pub fn convert_hit_btc_side(side: &str) -> (r: Result<Side, MessageError>)
    ensures
        match hit_btc_side(side@) {
            Some(s) => r == Ok::<Side, MessageError>(s),
            None => r matches Err(e) && failed_with(e, Failure::WrongSide(side@)),
        },
{
    if str_eq(side, "buy") {
        Ok(Side::Bid)
    } else if str_eq(side, "sell") {
        Ok(Side::Ask)
    } else {
        Err(MessageError::WrongSide(side.to_owned()))
    }
}

/// The notification of the trade `t`: its time, its quantity, its price and
/// the side of its maker, read in this order.
pub open spec fn trade_notification(sym: SymbolInfo, t: HitBtcTradeData) -> Result<Notification, Failure> {
    match in_time(t.timestamp@) {
        Err(f) => Err(f),
        Ok(timestamp) => match in_ticks(sym.size_tick, t.quantity@) {
            Err(f) => Err(f),
            Ok(size) => match in_ticks(sym.price_tick, t.price@) {
                Err(f) => Err(f),
                Ok(price) => match hit_btc_side(t.side@) {
                    None => Err(Failure::WrongSide(t.side@)),
                    Some(maker_side) => Ok(Notification::Trade(Trade { timestamp, price, size, maker_side })),
                },
            },
        },
    }
}

/// The conversions of the trade `t` that are made stay in range.
pub open spec fn trade_fits(sym: SymbolInfo, t: HitBtcTradeData) -> bool {
    str_timestamp(t.timestamp@) is Some ==> match probe(sym.size_tick, t.quantity@) {
        None => false,
        Some(None) => true,
        Some(Some(_)) => probe(sym.price_tick, t.price@) is Some,
    }
}

/// All the trades of `ts` before the `i`-th convert.
pub open spec fn trades_before(sym: SymbolInfo, ts: Seq<HitBtcTradeData>, i: int) -> bool {
    forall|j: int| 0 <= j < i ==> #[trigger] trade_notification(sym, ts[j]) is Ok
}

/// The conversions of the trades `ts` that are made stay in range: those of
/// each trade that follows trades that all convert.
pub open spec fn trades_fit(sym: SymbolInfo, ts: Seq<HitBtcTradeData>) -> bool {
    forall|i: int| 0 <= i < ts.len() && trades_before(sym, ts, i) ==> trade_fits(sym, #[trigger] ts[i])
}

/// The notifications of the trades `ts`, sent one by one, and the failure
/// of the first trade that does not convert, which stops the sending.
#[verifier::opaque]
pub open spec fn trades_sent(sym: SymbolInfo, ts: Seq<HitBtcTradeData>) -> (Seq<Sent>, Result<(), Failure>)
    decreases ts.len(),
{
    if ts.len() == 0 {
        (Seq::empty(), Ok(()))
    } else {
        let (sent, r) = trades_sent(sym, ts.drop_last());
        match r {
            Err(f) => (sent, Err(f)),
            Ok(_) => match trade_notification(sym, ts.last()) {
                Err(f) => (sent, Err(f)),
                Ok(n) => (sent.push(Sent::Notify(n)), Ok(())),
            },
        }
    }
}

/// Converting one more trade of `ts`.
proof fn lemma_trades_step(sym: SymbolInfo, ts: Seq<HitBtcTradeData>, i: int)
    requires
        0 <= i < ts.len(),
        trades_sent(sym, ts.take(i)).1 is Ok,
    ensures
        trades_sent(sym, ts.take(i + 1)) == match trade_notification(sym, ts[i]) {
            Err(f) => (trades_sent(sym, ts.take(i)).0, Err(f)),
            Ok(n) => (trades_sent(sym, ts.take(i)).0.push(Sent::Notify(n)), Ok::<(), Failure>(())),
        },
{
    reveal(trades_sent);
    assert(ts.take(i + 1).drop_last() =~= ts.take(i));
    assert(ts.take(i + 1).last() == ts[i]);
}

/// A failure in a prefix of `ts` is the failure of `ts`, after the same
/// notifications.
proof fn lemma_trades_prefix(sym: SymbolInfo, ts: Seq<HitBtcTradeData>, k: int)
    requires
        0 <= k <= ts.len(),
        trades_sent(sym, ts.take(k)).1 is Err,
    ensures
        trades_sent(sym, ts) == trades_sent(sym, ts.take(k)),
    decreases ts.len(),
{
    reveal(trades_sent);
    if k == ts.len() {
        assert(ts.take(k) =~= ts);
    } else {
        assert(ts.drop_last().take(k) =~= ts.take(k));
        lemma_trades_prefix(sym, ts.drop_last(), k);
    }
}

/// The notification of the report `r`, by the status of the order, all read
/// after the time of the report: a new order is received; a (partially)
/// filled order is updated by the trade, with no commission; a canceled,
/// expired or suspended order expires. Other statuses give no
/// notification.
pub open spec fn report_notification(sym: SymbolInfo, r: HitBtcReportParams) -> Result<Option<Notification>, Failure> {
    match in_time(r.updated_at@) {
        Err(f) => Err(f),
        Ok(timestamp) => {
            let st = r.status@;
            if st == "new"@ {
                match in_ticks(sym.size_tick, r.quantity@) {
                    Err(f) => Err(f),
                    Ok(size) => match in_ticks(sym.price_tick, r.price@) {
                        Err(f) => Err(f),
                        Ok(price) => match hit_btc_side(r.side@) {
                            None => Err(Failure::WrongSide(r.side@)),
                            Some(side) => Ok(Some(Notification::OrderReceived(OrderReceived {
                                timestamp,
                                order_id: r.client_order_id,
                                price,
                                size,
                                side,
                            }))),
                        },
                    },
                }
            } else if st == "partiallyFilled"@ || st == "filled"@ {
                match r.trade_quantity {
                    None => Err(Failure::MissingTradeQuantity),
                    Some(tq) => match in_ticks(sym.size_tick, tq@) {
                        Err(f) => Err(f),
                        Ok(consumed_size) => match r.trade_price {
                            None => Err(Failure::MissingTradePrice),
                            Some(tp) => match in_ticks(sym.price_tick, tp@) {
                                Err(f) => Err(f),
                                Ok(consumed_price) => match in_ticks(sym.size_tick, r.quantity@) {
                                    Err(f) => Err(f),
                                    Ok(quantity) => match in_ticks(sym.size_tick, r.cum_quantity@) {
                                        Err(f) => Err(f),
                                        Ok(cum_quantity) => Ok(Some(Notification::OrderUpdate(OrderUpdate {
                                            timestamp,
                                            order_id: r.client_order_id,
                                            consumed_size,
                                            remaining_size: (quantity - cum_quantity) as TickUnit,
                                            consumed_price,
                                            commission: 0,
                                        }))),
                                    },
                                },
                            },
                        },
                    },
                }
            } else if st == "canceled"@ || st == "expired"@ || st == "suspended"@ {
                Ok(Some(Notification::OrderExpired(OrderExpired { timestamp, order_id: r.client_order_id })))
            } else {
                Ok(None)
            }
        },
    }
}

/// The conversions of the report `r` that are made stay in range, and the
/// filled quantity of a trade is at most the order quantity.
pub open spec fn report_fits(sym: SymbolInfo, r: HitBtcReportParams) -> bool {
    let st = r.status@;
    str_timestamp(r.updated_at@) is Some ==> if st == "new"@ {
        match probe(sym.size_tick, r.quantity@) {
            None => false,
            Some(None) => true,
            Some(Some(_)) => probe(sym.price_tick, r.price@) is Some,
        }
    } else if st == "partiallyFilled"@ || st == "filled"@ {
        r.trade_quantity matches Some(tq) ==> match probe(sym.size_tick, tq@) {
            None => false,
            Some(None) => true,
            Some(Some(_)) => r.trade_price matches Some(tp) ==> match probe(sym.price_tick, tp@) {
                None => false,
                Some(None) => true,
                Some(Some(_)) => match probe(sym.size_tick, r.quantity@) {
                    None => false,
                    Some(None) => true,
                    Some(Some(quantity)) => match probe(sym.size_tick, r.cum_quantity@) {
                        None => false,
                        Some(None) => true,
                        Some(Some(cum_quantity)) => quantity >= cum_quantity,
                    },
                },
            },
        }
    } else {
        true
    }
}

/// The notifications sent for the limit updates `u` (its bids, then its
/// asks; none if there are none), and the first failure.
pub open spec fn book_sent(sym: SymbolInfo, u: HitBtcLimitUpdates) -> (Seq<Sent>, Result<(), Failure>) {
    match sides_update(sym, u.bid@, u.ask@) {
        Err(f) => (Seq::empty(), Err(f)),
        Ok(us) => if us.len() == 0 {
            (Seq::empty(), Ok(()))
        } else {
            (seq![Sent::Updates(us)], Ok(()))
        },
    }
}

/// The notifications sent for the message `m`, in order, and the failure
/// that stopped it, if any. Only the kinds of notifications in `flags` are
/// sent.
pub open spec fn message_sent(sym: SymbolInfo, flags: NotificationFlags, m: HitBtcMessage) -> (Seq<Sent>, Result<(), Failure>) {
    match m {
        HitBtcMessage::SnapshotOrderbook(u) if flags.order_book => book_sent(sym, u),
        HitBtcMessage::UpdateOrderbook(u) if flags.order_book => book_sent(sym, u),
        HitBtcMessage::UpdateTrades(ts) if flags.trades => trades_sent(sym, ts@),
        HitBtcMessage::Report(r) if flags.orders => match report_notification(sym, r) {
            Err(f) => (Seq::empty(), Err(f)),
            Ok(None) => (Seq::empty(), Ok(())),
            Ok(Some(n)) => (seq![Sent::Notify(n)], Ok(())),
        },
        _ => (Seq::empty(), Ok(())),
    }
}

/// The subscriptions confirmed once the message `m` is received.
pub open spec fn next_state(state: SubscriptionState, flags: NotificationFlags, m: HitBtcMessage) -> SubscriptionState {
    match m {
        HitBtcMessage::SnapshotOrderbook(_) if flags.order_book => SubscriptionState { order_book: true, ..state },
        HitBtcMessage::UpdateOrderbook(_) if flags.order_book => SubscriptionState { order_book: true, ..state },
        HitBtcMessage::SnapshotTrades if flags.trades => SubscriptionState { trades: true, ..state },
        HitBtcMessage::ActiveOrders if flags.orders => SubscriptionState { report: true, ..state },
        _ => state,
    }
}

/// The sequence number of the last order book message once the message `m`
/// is received.
pub open spec fn next_sequence(last: Option<u64>, flags: NotificationFlags, m: HitBtcMessage) -> Option<u64> {
    match m {
        HitBtcMessage::SnapshotOrderbook(u) if flags.order_book => Some(u.sequence),
        HitBtcMessage::UpdateOrderbook(u) if flags.order_book => Some(u.sequence),
        _ => last,
    }
}

/// The order book messages are in sequence and the conversions of the
/// message `m` that are made stay in range.
pub open spec fn message_fits(sym: SymbolInfo, flags: NotificationFlags, last: Option<u64>, m: HitBtcMessage) -> bool {
    match m {
        HitBtcMessage::SnapshotOrderbook(u) if flags.order_book => in_sequence(last, u.sequence) && sides_fit(sym, u.bid@, u.ask@),
        HitBtcMessage::UpdateOrderbook(u) if flags.order_book => in_sequence(last, u.sequence) && sides_fit(sym, u.bid@, u.ask@),
        HitBtcMessage::UpdateTrades(ts) if flags.trades => trades_fit(sym, ts@),
        HitBtcMessage::Report(r) if flags.orders => report_fits(sym, r),
        _ => true,
    }
}

/// Convert the trade `t` into a notification.
fn convert_trade(sym: &SymbolInfo, t: &HitBtcTradeData) -> (r: Result<Notification, MessageError>)
    requires
        trade_fits(*sym, *t),
    ensures
        match trade_notification(*sym, *t) {
            Ok(n) => r == Ok::<Notification, MessageError>(n),
            Err(f) => r matches Err(e) && failed_with(e, f),
        },
{
    let timestamp = read_timestamp(&t.timestamp)?;
    let size = ticks(sym.size_tick, &t.quantity)?;
    let price = ticks(sym.price_tick, &t.price)?;
    let maker_side = convert_hit_btc_side(t.side.as_str())?;
    Ok(Notification::Trade(Trade { timestamp, price, size, maker_side }))
}

/// Append to `sent` the notifications of the trades `ts`, one by one, until
/// a trade does not convert.
fn convert_trades(sym: &SymbolInfo, ts: &Vec<HitBtcTradeData>, sent: &mut Vec<Notification>) -> (r: Result<(), MessageError>)
    requires
        trades_fit(*sym, ts@),
        old(sent)@.len() == 0,
    ensures
        are_sent(final(sent)@, trades_sent(*sym, ts@).0),
        match trades_sent(*sym, ts@).1 {
            Ok(_) => r is Ok,
            Err(f) => r matches Err(e) && failed_with(e, f),
        },
{
    let n = ts.len();
    let mut i: usize = 0;
    assert(ts@.take(0) =~= Seq::<HitBtcTradeData>::empty());
    assert(trades_sent(*sym, ts@.take(0)) == (Seq::<Sent>::empty(), Ok::<(), Failure>(()))) by {
        reveal(trades_sent);
    }
    while i < n
        invariant
            n == ts@.len(),
            i <= n,
            trades_fit(*sym, ts@),
            trades_before(*sym, ts@, i as int),
            trades_sent(*sym, ts@.take(i as int)).1 is Ok,
            are_sent(sent@, trades_sent(*sym, ts@.take(i as int)).0),
        decreases n - i,
    {
        let ghost before = trades_sent(*sym, ts@.take(i as int)).0;
        proof {
            lemma_trades_step(*sym, ts@, i as int);
        }
        match convert_trade(sym, &ts[i]) {
            Ok(note) => {
                let ghost sent_before = sent@;
                sent.push(note);
                proof {
                    let after = trades_sent(*sym, ts@.take(i + 1)).0;
                    assert(after == before.push(Sent::Notify(note)));
                    assert forall|k: int| 0 <= k < sent@.len() implies crate::api::wss::is_sent(#[trigger] sent@[k], after[k]) by {
                        if k < sent_before.len() {
                            assert(sent@[k] == sent_before[k]);
                        }
                    }
                }
            },
            Err(e) => {
                proof {
                    lemma_trades_prefix(*sym, ts@, i + 1);
                }
                return Err(e);
            },
        }
        i = i + 1;
    }
    assert(ts@.take(n as int) =~= ts@);
    Ok(())
}

/// Convert the report `r` into a notification, if any.
fn convert_report(sym: &SymbolInfo, r: HitBtcReportParams) -> (res: Result<Option<Notification>, MessageError>)
    requires
        report_fits(*sym, r),
    ensures
        match report_notification(*sym, r) {
            Ok(n) => res == Ok::<Option<Notification>, MessageError>(n),
            Err(f) => res matches Err(e) && failed_with(e, f),
        },
{
    let timestamp = read_timestamp(&r.updated_at)?;
    let status = r.status.as_str();
    if str_eq(status, "new") {
        let size = ticks(sym.size_tick, &r.quantity)?;
        let price = ticks(sym.price_tick, &r.price)?;
        let side = convert_hit_btc_side(r.side.as_str())?;
        Ok(Some(Notification::OrderReceived(OrderReceived {
            timestamp,
            order_id: r.client_order_id,
            price,
            size,
            side,
        })))
    } else if str_eq(status, "partiallyFilled") || str_eq(status, "filled") {
        let consumed_size = match &r.trade_quantity {
            Some(tq) => ticks(sym.size_tick, tq)?,
            None => return Err(MessageError::MissingTradeQuantity),
        };
        let consumed_price = match &r.trade_price {
            Some(tp) => ticks(sym.price_tick, tp)?,
            None => return Err(MessageError::MissingTradePrice),
        };
        let quantity = ticks(sym.size_tick, &r.quantity)?;
        let cum_quantity = ticks(sym.size_tick, &r.cum_quantity)?;
        Ok(Some(Notification::OrderUpdate(OrderUpdate {
            timestamp,
            order_id: r.client_order_id,
            consumed_size,
            remaining_size: quantity - cum_quantity,
            consumed_price,
            commission: 0,
        })))
    } else if str_eq(status, "canceled") || str_eq(status, "expired") || str_eq(status, "suspended") {
        Ok(Some(Notification::OrderExpired(OrderExpired { timestamp, order_id: r.client_order_id })))
    } else {
        Ok(None)
    }
}

/// Whether the conversions of the trade `t` that are made stay in range,
/// and whether it converts.
fn check_trade(sym: &SymbolInfo, t: &HitBtcTradeData) -> (r: (bool, bool))
    ensures
        r.0 == trade_fits(*sym, *t),
        r.0 ==> r.1 == trade_notification(*sym, *t) is Ok,
{
    if convert_str_timestamp(t.timestamp.as_str()).is_none() {
        return (true, false);
    }
    match sym.size_tick.probe(t.quantity.as_str()) {
        None => (false, false),
        Some(None) => (true, false),
        Some(Some(_)) => match sym.price_tick.probe(t.price.as_str()) {
            None => (false, false),
            Some(None) => (true, false),
            Some(Some(_)) => (true, convert_hit_btc_side(t.side.as_str()).is_ok()),
        },
    }
}

/// Whether the conversions of the trades `ts` that are made stay in range.
fn check_trades(sym: &SymbolInfo, ts: &Vec<HitBtcTradeData>) -> (b: bool)
    ensures
        b == trades_fit(*sym, ts@),
{
    let n = ts.len();
    let mut i: usize = 0;
    while i < n
        invariant
            n == ts@.len(),
            i <= n,
            trades_before(*sym, ts@, i as int),
            forall|k: int| 0 <= k < i ==> trade_fits(*sym, #[trigger] ts@[k]),
        decreases n - i,
    {
        let (fits, converts) = check_trade(sym, &ts[i]);
        if !fits {
            return false;
        }
        if !converts {
            proof {
                assert forall|k: int| 0 <= k < ts@.len() && trades_before(*sym, ts@, k)
                    implies trade_fits(*sym, #[trigger] ts@[k]) by {
                    if k > i {
                        assert(trade_notification(*sym, ts@[i as int]) is Ok);
                    }
                }
            }
            return true;
        }
        i = i + 1;
    }
    true
}

/// Whether the conversions of the report `r` that are made stay in range,
/// and the filled quantity of a trade is at most the order quantity.
fn check_report(sym: &SymbolInfo, r: &HitBtcReportParams) -> (b: bool)
    ensures
        b == report_fits(*sym, *r),
{
    if convert_str_timestamp(r.updated_at.as_str()).is_none() {
        return true;
    }
    let status = r.status.as_str();
    if str_eq(status, "new") {
        match sym.size_tick.probe(r.quantity.as_str()) {
            None => false,
            Some(None) => true,
            Some(Some(_)) => sym.price_tick.probe(r.price.as_str()).is_some(),
        }
    } else if str_eq(status, "partiallyFilled") || str_eq(status, "filled") {
        let tq = match &r.trade_quantity {
            Some(tq) => tq,
            None => return true,
        };
        match sym.size_tick.probe(tq.as_str()) {
            None => false,
            Some(None) => true,
            Some(Some(_)) => {
                let tp = match &r.trade_price {
                    Some(tp) => tp,
                    None => return true,
                };
                match sym.price_tick.probe(tp.as_str()) {
                    None => false,
                    Some(None) => true,
                    Some(Some(_)) => match sym.size_tick.probe(r.quantity.as_str()) {
                        None => false,
                        Some(None) => true,
                        Some(Some(quantity)) => match sym.size_tick.probe(r.cum_quantity.as_str()) {
                            None => false,
                            Some(None) => true,
                            Some(Some(cum_quantity)) => quantity >= cum_quantity,
                        },
                    },
                }
            },
        }
    } else {
        true
    }
}

/// Whether the conversions of the limit updates `u` that are made stay in
/// range.
fn check_book(sym: &SymbolInfo, u: &HitBtcLimitUpdates) -> (b: bool)
    ensures
        b == sides_fit(*sym, u.bid@, u.ask@),
{
    let (bids_fit, bids_convert) = check_levels(sym, &u.bid);
    if !bids_fit {
        return false;
    }
    if !bids_convert {
        return true;
    }
    check_levels(sym, &u.ask).0
}

/// A request sent to HitBTC when the stream opens.
#[derive(Clone, PartialEq, Eq, Hash, Debug)]
pub enum HitBtcRequest {
    /// `subscribeOrderbook` for the symbol.
    SubscribeOrderbook(String),
    /// `subscribeTrades` for the symbol.
    SubscribeTrades(String),
    /// `login` with the public and the secret key (algorithm `BASIC`).
    Login(String, String),
    /// `subscribeReports`.
    SubscribeReports,
}

/// The handler of a HitBTC stream for one symbol.
pub struct HandlerImpl {
    symbol: SymbolInfo,
    flags: NotificationFlags,
    state: SubscriptionState,
    last_sequence: Option<u64>,
}

impl HandlerImpl {
    /// The traded symbol.
    pub closed spec fn symbol(&self) -> SymbolInfo {
        self.symbol
    }

    /// The kinds of notifications forwarded.
    pub closed spec fn flags(&self) -> NotificationFlags {
        self.flags
    }

    /// The subscriptions that HitBTC has confirmed.
    pub closed spec fn state(&self) -> SubscriptionState {
        self.state
    }

    /// The sequence number of the last order book message.
    pub closed spec fn last_sequence(&self) -> Option<u64> {
        self.last_sequence
    }

    /// `parse_message` accepts the message `m`.
    pub open spec fn accepts(&self, m: HitBtcMessage) -> bool {
        message_fits(self.symbol(), self.flags(), self.last_sequence(), m)
    }

    /// A handler for `symbol` that forwards the notifications of `flags`,
    /// with no subscription confirmed yet.
    pub fn new(symbol: SymbolInfo, flags: NotificationFlags) -> (h: Self)
        ensures
            h.symbol() == symbol,
            h.flags() == flags,
            h.state() == (SubscriptionState { order_book: false, trades: false, report: false }),
            h.last_sequence() == None::<u64>,
    {
        HandlerImpl { symbol, flags, state: SubscriptionState::new(), last_sequence: None }
    }

    /// The requests sent when the stream opens: the order book and trades
    /// subscriptions for the symbol and, with a key pair, the login and the
    /// reports subscription.
    pub fn on_open(&self, keys: Option<&KeyPair>) -> (r: Vec<HitBtcRequest>)
        ensures
            r@.len() == if keys is Some { 4nat } else { 2nat },
            r@[0] matches HitBtcRequest::SubscribeOrderbook(s) && s@ == self.symbol().name@,
            r@[1] matches HitBtcRequest::SubscribeTrades(s) && s@ == self.symbol().name@,
            keys matches Some(k) ==> (r@[2] matches HitBtcRequest::Login(p, s) && p@ == k.public_key()
                && s@ == k.secret_key()) && r@[3] == HitBtcRequest::SubscribeReports,
    {
        let mut requests = vec![
            HitBtcRequest::SubscribeOrderbook(self.symbol.name.clone()),
            HitBtcRequest::SubscribeTrades(self.symbol.name.clone()),
        ];
        if let Some(k) = keys {
            requests.push(HitBtcRequest::Login(k.public_key_string(), k.secret_key_string()));
            requests.push(HitBtcRequest::SubscribeReports);
        }
        requests
    }

    /// Whether `parse_message` accepts the message `m`: the order book
    /// messages are in sequence, and the conversions stay in range.
    pub fn check_message(&self, m: &HitBtcMessage) -> (b: bool)
        ensures
            b == self.accepts(*m),
    {
        let sym = &self.symbol;
        let in_sequence = |seq: u64| -> (b: bool)
            ensures
                b == in_sequence(self.last_sequence, seq),
        {
            match self.last_sequence {
                Some(p) => p < u64::MAX && p + 1 == seq,
                None => true,
            }
        };
        match m {
            HitBtcMessage::SnapshotOrderbook(u) => !self.flags.order_book || (in_sequence(u.sequence) && check_book(sym, u)),
            HitBtcMessage::UpdateOrderbook(u) => !self.flags.order_book || (in_sequence(u.sequence) && check_book(sym, u)),
            HitBtcMessage::UpdateTrades(ts) => !self.flags.trades || check_trades(sym, ts),
            HitBtcMessage::Report(r) => !self.flags.orders || check_report(sym, r),
            _ => true,
        }
    }

    /// Handle the message `m`: return the notifications that it gives, in
    /// the order in which they are sent, and the failure that stopped it,
    /// if any; the confirmed subscriptions and the sequence number of the
    /// order book are updated.
    pub fn parse_message(&mut self, m: HitBtcMessage) -> (res: (Vec<Notification>, Result<(), MessageError>))
        requires
            old(self).accepts(m),
        ensures
            are_sent(res.0@, message_sent(old(self).symbol(), old(self).flags(), m).0),
            match message_sent(old(self).symbol(), old(self).flags(), m).1 {
                Ok(_) => res.1 is Ok,
                Err(f) => res.1 matches Err(e) && failed_with(e, f),
            },
            final(self).symbol() == old(self).symbol(),
            final(self).flags() == old(self).flags(),
            final(self).state() == next_state(old(self).state(), old(self).flags(), m),
            final(self).last_sequence() == next_sequence(old(self).last_sequence(), old(self).flags(), m),
    {
        let mut sent: Vec<Notification> = Vec::new();
        let flags = self.flags;
        let is_book = match &m {
            HitBtcMessage::SnapshotOrderbook(_) | HitBtcMessage::UpdateOrderbook(_) => flags.order_book,
            _ => false,
        };
        if is_book {
            let u = match m {
                HitBtcMessage::SnapshotOrderbook(u) | HitBtcMessage::UpdateOrderbook(u) => u,
                _ => return (sent, Ok(())),
            };
            let r = self.order_book_message(u, &mut sent);
            return (sent, r);
        }
        match m {
            HitBtcMessage::SnapshotTrades => {
                if flags.trades {
                    self.state = SubscriptionState { trades: true, ..self.state };
                }
                (sent, Ok(()))
            },
            HitBtcMessage::UpdateTrades(ts) => {
                if flags.trades {
                    let r = convert_trades(&self.symbol, &ts, &mut sent);
                    (sent, r)
                } else {
                    (sent, Ok(()))
                }
            },
            HitBtcMessage::ActiveOrders => {
                if flags.orders {
                    self.state = SubscriptionState { report: true, ..self.state };
                }
                (sent, Ok(()))
            },
            HitBtcMessage::Report(r) => {
                if !flags.orders {
                    return (sent, Ok(()));
                }
                match convert_report(&self.symbol, r) {
                    Ok(Some(n)) => {
                        sent.push(n);
                        (sent, Ok(()))
                    },
                    Ok(None) => (sent, Ok(())),
                    Err(e) => (sent, Err(e)),
                }
            },
            _ => (sent, Ok(())),
        }
    }

    /// Handle an order book message `u`: the order book subscription is
    /// confirmed, its sequence number recorded, and its limit updates sent.
    fn order_book_message(&mut self, u: HitBtcLimitUpdates, sent: &mut Vec<Notification>) -> (r: Result<(), MessageError>)
        requires
            old(self).flags().order_book,
            in_sequence(old(self).last_sequence(), u.sequence),
            sides_fit(old(self).symbol(), u.bid@, u.ask@),
            old(sent)@.len() == 0,
        ensures
            are_sent(final(sent)@, book_sent(old(self).symbol(), u).0),
            match book_sent(old(self).symbol(), u).1 {
                Ok(_) => r is Ok,
                Err(f) => r matches Err(e) && failed_with(e, f),
            },
            final(self).symbol() == old(self).symbol(),
            final(self).flags() == old(self).flags(),
            final(self).state() == (SubscriptionState { order_book: true, ..old(self).state() }),
            final(self).last_sequence() == Some(u.sequence),
    {
        self.state.order_book = true;
        self.last_sequence = Some(u.sequence);
        let sym = &self.symbol;
        let mut updates: Vec<LimitUpdate> = Vec::new();
        proof {
            lemma_levels_ok(*sym, u.bid@, Side::Bid);
        }
        if let Err(e) = convert_levels(sym, &u.bid, Side::Bid, &mut updates) {
            return Err(MessageError::Conversion(e));
        }
        if let Err(e) = convert_levels(sym, &u.ask, Side::Ask, &mut updates) {
            return Err(MessageError::Conversion(e));
        }
        if updates.len() > 0 {
            let ghost us = updates@;
            sent.push(Notification::LimitUpdates(updates));
            assert(sent@[0] == Notification::LimitUpdates(updates));
        }
        Ok(())
    }
}

/// What a report gives, with order updates asked for, by the status of the
/// order, when its time and its texts convert: a `new` order is received
/// with its quantity, its price and the side that the report names (`buy`
/// a bid, `sell` an ask); a `partiallyFilled` or `filled` order is updated
/// with the quantity and the price of the trade, the quantity left (the
/// order quantity less the cumulative quantity) and no commission; a
/// `canceled`, `expired` or `suspended` order expires.
pub proof fn lemma_report_sent(sym: SymbolInfo, flags: NotificationFlags, r: HitBtcReportParams)
    requires
        flags.orders,
        str_timestamp(r.updated_at@) is Some,
    ensures
        r.status@ == "new"@ && ticks_of(sym.size_tick, r.quantity@) is Some
            && ticks_of(sym.price_tick, r.price@) is Some && (r.side@ == "buy"@ || r.side@ == "sell"@)
            ==> message_sent(sym, flags, HitBtcMessage::Report(r)) == (
                seq![Sent::Notify(Notification::OrderReceived(OrderReceived {
                    timestamp: str_timestamp(r.updated_at@)->0,
                    order_id: r.client_order_id,
                    price: ticks_of(sym.price_tick, r.price@)->0,
                    size: ticks_of(sym.size_tick, r.quantity@)->0,
                    side: if r.side@ == "buy"@ { Side::Bid } else { Side::Ask },
                }))],
                Ok::<(), Failure>(()),
            ),
        (r.status@ == "partiallyFilled"@ || r.status@ == "filled"@)
            && r.trade_quantity is Some && r.trade_price is Some
            && ticks_of(sym.size_tick, r.trade_quantity->0@) is Some
            && ticks_of(sym.price_tick, r.trade_price->0@) is Some
            && ticks_of(sym.size_tick, r.quantity@) is Some
            && ticks_of(sym.size_tick, r.cum_quantity@) is Some
            && ticks_of(sym.size_tick, r.quantity@)->0 >= ticks_of(sym.size_tick, r.cum_quantity@)->0
            ==> message_sent(sym, flags, HitBtcMessage::Report(r)) == (
                seq![Sent::Notify(Notification::OrderUpdate(OrderUpdate {
                    timestamp: str_timestamp(r.updated_at@)->0,
                    order_id: r.client_order_id,
                    consumed_size: ticks_of(sym.size_tick, r.trade_quantity->0@)->0,
                    remaining_size: (ticks_of(sym.size_tick, r.quantity@)->0
                        - ticks_of(sym.size_tick, r.cum_quantity@)->0) as TickUnit,
                    consumed_price: ticks_of(sym.price_tick, r.trade_price->0@)->0,
                    commission: 0,
                }))],
                Ok::<(), Failure>(()),
            ),
        r.status@ == "canceled"@ || r.status@ == "expired"@ || r.status@ == "suspended"@
            ==> message_sent(sym, flags, HitBtcMessage::Report(r)) == (
                seq![Sent::Notify(Notification::OrderExpired(OrderExpired {
                    timestamp: str_timestamp(r.updated_at@)->0,
                    order_id: r.client_order_id,
                }))],
                Ok::<(), Failure>(()),
            ),
{
    reveal_strlit("new");
    reveal_strlit("partiallyFilled");
    reveal_strlit("filled");
    reveal_strlit("canceled");
    reveal_strlit("expired");
    reveal_strlit("suspended");
    reveal_strlit("buy");
    reveal_strlit("sell");
    assert("partiallyFilled"@[0] != "new"@[0] && "filled"@[0] != "new"@[0]);
    assert("canceled"@[0] != "new"@[0] && "expired"@[0] != "new"@[0] && "suspended"@[0] != "new"@[0]);
    assert("canceled"@[0] != "partiallyFilled"@[0] && "expired"@[0] != "partiallyFilled"@[0] && "suspended"@[0] != "partiallyFilled"@[0]);
    assert("canceled"@[0] != "filled"@[0] && "expired"@[0] != "filled"@[0] && "suspended"@[0] != "filled"@[0]);
}

/// A trade whose time and texts convert, and whose side is `buy` or
/// `sell`, is notified with its time, its quantity and its price in ticks,
/// and its maker on the side that it names (`buy` a bid, `sell` an ask).
pub proof fn lemma_trade_notified(sym: SymbolInfo, t: HitBtcTradeData)
    requires
        str_timestamp(t.timestamp@) is Some,
        ticks_of(sym.size_tick, t.quantity@) is Some,
        ticks_of(sym.price_tick, t.price@) is Some,
        t.side@ == "buy"@ || t.side@ == "sell"@,
    ensures
        trade_notification(sym, t) == Ok::<Notification, Failure>(Notification::Trade(Trade {
            timestamp: str_timestamp(t.timestamp@)->0,
            price: ticks_of(sym.price_tick, t.price@)->0,
            size: ticks_of(sym.size_tick, t.quantity@)->0,
            maker_side: if t.side@ == "buy"@ { Side::Bid } else { Side::Ask },
        })),
{
    reveal_strlit("buy");
    reveal_strlit("sell");
}

} // verus!
