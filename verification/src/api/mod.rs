//! A unified API for abstracting over various exchanges: orders, cancel
//! orders and the notifications that exchanges send.

pub mod binance;
pub mod errors;
pub mod gdax;
pub mod hitbtc;
pub mod params;
pub mod query_string;
pub mod timestamp;
pub mod wss;

use vstd::prelude::*;
use crate::Side;
use crate::order_book::LimitUpdate;
use crate::tick::TickUnit;

pub use self::params::SymbolInfo;

verus! {

/// A price, in ticks.
pub type Price = TickUnit;

/// A size, in ticks.
pub type Size = TickUnit;

/// See https://www.investopedia.com/terms/t/timeinforce.asp.
#[derive(Copy, Clone, PartialEq, Eq, Hash, Debug, Structural)]
pub enum TimeInForce {
    /// The order stays in the book until it is filled or canceled.
    GoodTilCanceled,
    /// Whatever cannot be filled immediately is canceled.
    ImmediateOrCancel,
    /// The order is filled completely and immediately, or canceled.
    FillOrKilll,
}

/// Type of an order.
#[derive(Copy, Clone, PartialEq, Eq, Hash, Debug, Structural)]
pub enum OrderType {
    /// A limit order.
    Limit,
    /// A limit order which is rejected if it would take liquidity.
    LimitMaker,
}

/// The name by which an exchange API knows a value.
trait AsStr {
    fn as_str(&self) -> &'static str;
}

impl AsStr for Side {
    fn as_str(&self) -> (s: &'static str)
        ensures
            s@ == (match self {
                Side::Ask => "SELL"@,
                Side::Bid => "BUY"@,
            }),
    {
        match self {
            Side::Ask => "SELL",
            Side::Bid => "BUY",
        }
    }
}

impl AsStr for TimeInForce {
    fn as_str(&self) -> (s: &'static str)
        ensures
            s@ == (match self {
                TimeInForce::GoodTilCanceled => "GTC"@,
                TimeInForce::FillOrKilll => "FOK"@,
                TimeInForce::ImmediateOrCancel => "IOC"@,
            }),
    {
        match self {
            TimeInForce::GoodTilCanceled => "GTC",
            TimeInForce::FillOrKilll => "FOK",
            TimeInForce::ImmediateOrCancel => "IOC",
        }
    }
}

/// An order to be sent through the API.
#[derive(Clone, PartialEq, Eq, Hash, Debug)]
pub struct Order {
    /// Order price.
    pub price: Price,
    /// Order size.
    pub size: Size,
    /// Order side: `Bid` / buy or `Ask`/ sell.
    pub side: Side,
    /// Time in force, see https://www.investopedia.com/terms/t/timeinforce.asp.
    pub time_in_force: TimeInForce,
    /// Delay until the order becomes invalid if not treated by the server, in
    /// ms.
    pub time_window: u64,
    /// Unique id used to identify this order, stringified. Automatically
    /// generated if `None`.
    pub order_id: Option<String>,
}

impl Order {
    /// A good-til-canceled order with a time window of 5 seconds and no
    /// order id.
    pub fn new(price: Price, size: Size, side: Side) -> (order: Self)
        ensures
            order.price == price,
            order.size == size,
            order.side == side,
            order.time_in_force == TimeInForce::GoodTilCanceled,
            order.time_window == 5000,
            order.order_id is None,
    {
        Order {
            price,
            size,
            side,
            time_in_force: TimeInForce::GoodTilCanceled,
            time_window: 5000,
            order_id: None,
        }
    }

    /// The same order with another time window.
    pub fn time_window(self, time_window: u64) -> (order: Self)
        ensures
            order == (Order { time_window, ..self }),
    {
        let mut order = self;
        order.time_window = time_window;
        order
    }

    /// The same order with the given order id.
    pub fn order_id(self, order_id: String) -> (order: Self)
        ensures
            order == (Order { order_id: Some(order_id), ..self }),
    {
        let mut order = self;
        order.order_id = Some(order_id);
        order
    }
}

/// An order to cancel a previous order.
#[derive(Clone, PartialEq, Eq, Hash, Debug)]
pub struct Cancel {
    /// Identify the order to cancel.
    pub order_id: String,
    /// Delay until the cancel order becomes invalid if not treated by the
    /// server, in ms.
    pub time_window: u64,
}

impl Cancel {
    /// A cancel order with a time window of 5 seconds.
    pub fn new(order_id: String) -> (cancel: Self)
        ensures
            cancel == (Cancel { order_id, time_window: 5000 }),
    {
        Cancel { order_id, time_window: 5000 }
    }

    /// The same cancel order with another time window.
    pub fn time_window(self, time_window: u64) -> (cancel: Self)
        ensures
            cancel == (Cancel { time_window, ..self }),
    {
        let mut cancel = self;
        cancel.time_window = time_window;
        cancel
    }
}

/// An acknowledgment that an order has been treated by the server.
#[derive(Clone, PartialEq, Eq, Hash, Debug)]
pub struct OrderAck {
    /// Timestamp at which the order was treated, in ms.
    pub timestamp: u64,
    /// ID identifiying the order.
    pub order_id: String,
}

/// An acknowledgment that a cancel order has been treated by the server.
#[derive(Clone, PartialEq, Eq, Hash, Debug)]
pub struct CancelAck {
    /// ID identifying the canceled order.
    pub order_id: String,
}

/// A notification that some order has been updated, i.e. a trade crossed
/// through this order.
#[derive(Clone, PartialEq, Eq, Hash, Debug)]
pub struct OrderUpdate {
    /// Timestamp at which the update happened, in ms.
    pub timestamp: u64,
    /// ID identifying the order being updated.
    pub order_id: String,
    /// Size just consumed by last trade.
    pub consumed_size: Size,
    /// Total remaining size for this order.
    pub remaining_size: Size,
    /// Price at which the last trade happened.
    pub consumed_price: Price,
    /// Commission amount.
    pub commission: Size,
}

/// A liquidity consuming order.
#[derive(Copy, Clone, PartialEq, Eq, Hash, Debug, Structural)]
pub struct Trade {
    /// Trade timestamp, in ms.
    pub timestamp: u64,
    /// Price in ticks.
    pub price: Price,
    /// Size consumed by the trade.
    pub size: Size,
    /// Side of the maker: if `Ask`, the maker was providing liquidity on the
    /// ask side, i.e. the consumer bought to the maker; if `Bid`, the
    /// consumer sold to the maker.
    pub maker_side: Side,
}

/// A notification that some order has expired or was canceled.
#[derive(Clone, PartialEq, Eq, Hash, Debug)]
pub struct OrderExpired {
    /// Expiration timestamp, in ms.
    pub timestamp: u64,
    /// Expired order.
    pub order_id: String,
}

/// A notification that some order has been received by the exchange.
#[derive(Clone, PartialEq, Eq, Hash, Debug)]
pub struct OrderReceived {
    /// Timestamp at which the order was received.
    pub timestamp: u64,
    /// Unique order id.
    pub order_id: String,
    /// Price at which the order was inserted.
    pub price: Price,
    /// Size at which the order was inserted.
    pub size: Size,
    /// Side of the order.
    pub side: Side,
}

/// A notification that some event happened.
#[derive(Clone, PartialEq, Eq, Debug)]
pub enum Notification {
    /// A trade was executed.
    Trade(Trade),
    /// The limit order book has changed and should be updated.
    LimitUpdates(Vec<LimitUpdate>),
    /// An order was received by the exchange.
    OrderReceived(OrderReceived),
    /// An order has been updated.
    OrderUpdate(OrderUpdate),
    /// An order has expired or was canceled.
    OrderExpired(OrderExpired),
}

} // verus!
