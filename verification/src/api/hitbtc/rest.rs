//! The names that the HitBTC REST API gives to sides, order types and times
//! in force, the query of an order, the address of a cancel, and the
//! reading of an order's acknowledgment.

use vstd::prelude::*;
use crate::Side;
use crate::api::{Order, OrderAck, OrderType, TimeInForce};
use crate::api::params::SymbolInfo;
use crate::api::query_string::{QueryString, with_param};
use crate::api::timestamp::{str_timestamp, convert_str_timestamp};
use crate::tick::unticked_text;

verus! {

/// The name by which the HitBTC API knows a value.
pub trait AsStr {
    /// The name of `self`.
    fn as_str(self) -> &'static str;
}

impl AsStr for Side {
    fn as_str(self) -> (s: &'static str)
        ensures
            s@ == (match self {
                Side::Ask => "sell"@,
                Side::Bid => "buy"@,
            }),
    {
        match self {
            Side::Ask => "sell",
            Side::Bid => "buy",
        }
    }
}

impl AsStr for OrderType {
    /// HitBTC knows both order types as limit orders.
    fn as_str(self) -> (s: &'static str)
        ensures
            s@ == "limit"@,
    {
        match self {
            OrderType::Limit => "limit",
            OrderType::LimitMaker => "limit",
        }
    }
}

impl AsStr for TimeInForce {
    fn as_str(self) -> (s: &'static str)
        ensures
            s@ == (match self {
                TimeInForce::GoodTilCanceled => "GTC"@,
                TimeInForce::FillOrKilll => "FOK"@,
                TimeInForce::ImmediateOrCancel => "IOC"@,
            }),
    {
        match self {
            TimeInForce::GoodTilCanceled => "GTC",
            TimeInForce::FillOrKilll => "FOK",
            TimeInForce::ImmediateOrCancel => "IOC",
        }
    }
}

/// The name that HitBTC gives to `side`.
pub open spec fn side_name(side: Side) -> Seq<char> {
    match side {
        Side::Ask => "sell"@,
        Side::Bid => "buy"@,
    }
}

/// The name that HitBTC gives to `t`.
pub open spec fn time_in_force_name(t: TimeInForce) -> Seq<char> {
    match t {
        TimeInForce::GoodTilCanceled => "GTC"@,
        TimeInForce::FillOrKilll => "FOK"@,
        TimeInForce::ImmediateOrCancel => "IOC"@,
    }
}

/// The query of the order `order` on `symbol`: the symbol, the side, the
/// type (always `limit`), the time in force, the quantity and the price in
/// units, and the client order id if there is one.
pub open spec fn order_query_text(order: Order, symbol: SymbolInfo) -> Seq<char> {
    let q0 = with_param(Seq::empty(), "symbol"@, symbol.name@);
    let q1 = with_param(q0, "side"@, side_name(order.side));
    let q2 = with_param(q1, "type"@, "limit"@);
    let q3 = with_param(q2, "timeInForce"@, time_in_force_name(order.time_in_force));
    let q4 = with_param(q3, "quantity"@, unticked_text(symbol.size_tick@, order.size as nat)->0);
    let q5 = with_param(q4, "price"@, unticked_text(symbol.price_tick@, order.price as nat)->0);
    match order.order_id {
        Some(id) => with_param(q5, "clientOrderId"@, id@),
        None => q5,
    }
}

/// The query of an order, parameter by parameter, with HitBTC's names: the
/// symbol; the side, `buy` for a bid and `sell` for an ask; the type
/// `limit`; the order's own time in force, `GTC`, `IOC` or `FOK`; the
/// quantity and the price in units; and the client order id if there is
/// one.
pub proof fn lemma_order_query_params(order: Order, symbol: SymbolInfo)
    ensures
        ({
            let side = if order.side == Side::Bid { "buy"@ } else { "sell"@ };
            let tif = if order.time_in_force == TimeInForce::GoodTilCanceled {
                "GTC"@
            } else if order.time_in_force == TimeInForce::ImmediateOrCancel {
                "IOC"@
            } else {
                "FOK"@
            };
            let q4 = with_param(
                with_param(
                    with_param(with_param(with_param(Seq::empty(), "symbol"@, symbol.name@), "side"@, side), "type"@, "limit"@),
                    "timeInForce"@,
                    tif,
                ),
                "quantity"@,
                unticked_text(symbol.size_tick@, order.size as nat)->0,
            );
            let q5 = with_param(q4, "price"@, unticked_text(symbol.price_tick@, order.price as nat)->0);
            order_query_text(order, symbol) == if order.order_id is Some {
                with_param(q5, "clientOrderId"@, order.order_id->0@)
            } else {
                q5
            }
        }),
{
}

/// The query that sends the order `order` of type `order_type` on `symbol`
/// (see `order_query_text`; HitBTC knows both types as limit orders).
pub fn order_query(order: &Order, order_type: OrderType, symbol: &SymbolInfo) -> (q: QueryString)
    requires
        unticked_text(symbol.size_tick@, order.size as nat) is Some,
        unticked_text(symbol.price_tick@, order.price as nat) is Some,
    ensures
        q@ == order_query_text(*order, *symbol),
{
    let mut query = QueryString::new();
    query.push_str("symbol", symbol.name.as_str());
    query.push_str("side", order.side.as_str());
    query.push_str("type", order_type.as_str());
    query.push_str("timeInForce", order.time_in_force.as_str());
    let quantity = match symbol.size_tick.unticked(order.size) {
        Ok(s) => s,
        Err(_) => String::new(),
    };
    query.push_str("quantity", quantity.as_str());
    let price = match symbol.price_tick.unticked(order.price) {
        Ok(s) => s,
        Err(_) => String::new(),
    };
    query.push_str("price", price.as_str());
    if let Some(order_id) = &order.order_id {
        query.push_str("clientOrderId", order_id.as_str());
    }
    query
}

/// The path at which the order with the client order id `order_id` is
/// canceled.
pub fn cancel_path(order_id: &str) -> (s: String)
    ensures
        s@ == "api/2/order/"@ + order_id@,
{
    let mut s = String::new();
    s.append("api/2/order/");
    s.append(order_id);
    s
}

/// The acknowledgment of an order that HitBTC created at `created_at`
/// (`%FT%T.%fZ`) with the client order id `client_order_id`, or `None` if
/// that time cannot be read as a timestamp.
pub fn order_ack(client_order_id: String, created_at: &str) -> (r: Option<OrderAck>)
    ensures
        match str_timestamp(created_at@) {
            Some(t) => r == Some(OrderAck { timestamp: t, order_id: client_order_id }),
            None => r is None,
        },
{
    match convert_str_timestamp(created_at) {
        Some(timestamp) => Some(OrderAck { timestamp, order_id: client_order_id }),
        None => None,
    }
}

} // verus!
