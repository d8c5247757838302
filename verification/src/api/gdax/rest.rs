//! The names that the GDAX REST API gives to sides and times in force, the
//! orders sent to it and the acknowledgments that it sends back.

use vstd::prelude::*;
use crate::Side;
use crate::api::{Order, OrderAck, OrderType, TimeInForce};
use crate::api::params::SymbolInfo;
use crate::api::timestamp::{str_timestamp, convert_str_timestamp};
use crate::text::{starts_with, str_eq};
use crate::tick::unticked_text;

verus! {

/// The name by which the GDAX API knows a value.
pub trait AsStr {
    /// The name of `self`.
    fn as_str(&self) -> &'static str;
}

impl AsStr for Side {
    fn as_str(&self) -> (s: &'static str)
        ensures
            s@ == (match self {
                Side::Ask => "sell"@,
                Side::Bid => "buy"@,
            }),
    {
        match self {
            Side::Ask => "sell",
            Side::Bid => "buy",
        }
    }
}

impl AsStr for TimeInForce {
    fn as_str(&self) -> (s: &'static str)
        ensures
            s@ == (match self {
                TimeInForce::GoodTilCanceled => "GTC"@,
                TimeInForce::FillOrKilll => "FOK"@,
                TimeInForce::ImmediateOrCancel => "IOC"@,
            }),
    {
        match self {
            TimeInForce::GoodTilCanceled => "GTC",
            TimeInForce::FillOrKilll => "FOK",
            TimeInForce::ImmediateOrCancel => "IOC",
        }
    }
}

/// An order as GDAX reads it.
#[derive(Clone, PartialEq, Eq, Hash, Debug)]
pub struct GdaxOrder {
    /// Size, unticked.
    pub size: String,
    /// Price, unticked.
    pub price: String,
    /// Side, `buy` or `sell`.
    pub side: String,
    /// The traded symbol.
    pub product_id: String,
    /// The client order id, if any.
    pub client_oid: Option<String>,
    /// Time in force, `GTC`, `IOC` or `FOK`.
    pub time_in_force: String,
    /// Whether the order is rejected if it would take liquidity.
    pub post_only: bool,
}

/// The order `order` of type `order_type` on `symbol`, as GDAX reads it.
pub fn gdax_order(order: &Order, order_type: OrderType, symbol: &SymbolInfo) -> (g: GdaxOrder)
    requires
        unticked_text(symbol.size_tick@, order.size as nat) is Some,
        unticked_text(symbol.price_tick@, order.price as nat) is Some,
    ensures
        g.size@ == unticked_text(symbol.size_tick@, order.size as nat)->0,
        g.price@ == unticked_text(symbol.price_tick@, order.price as nat)->0,
        g.side@ == (match order.side {
            Side::Ask => "sell"@,
            Side::Bid => "buy"@,
        }),
        g.product_id@ == symbol.name@,
        g.client_oid == order.order_id,
        g.time_in_force@ == (match order.time_in_force {
            TimeInForce::GoodTilCanceled => "GTC"@,
            TimeInForce::FillOrKilll => "FOK"@,
            TimeInForce::ImmediateOrCancel => "IOC"@,
        }),
        g.post_only == (order_type == OrderType::LimitMaker),
{
    let size = match symbol.size_tick.unticked(order.size) {
        Ok(s) => s,
        Err(_) => String::new(),
    };
    let price = match symbol.price_tick.unticked(order.price) {
        Ok(s) => s,
        Err(_) => String::new(),
    };
    GdaxOrder {
        size,
        price,
        side: order.side.as_str().to_owned(),
        product_id: symbol.name.clone(),
        client_oid: order.order_id.clone(),
        time_in_force: order.time_in_force.as_str().to_owned(),
        post_only: order_type == OrderType::LimitMaker,
    }
}

/// The acknowledgment of an order, sent by GDAX.
#[derive(Clone, PartialEq, Eq, Hash, Debug)]
pub struct GdaxOrderAck {
    /// The server order id.
    pub id: String,
    /// Time of creation, `%FT%T.%fZ`.
    pub created_at: String,
    /// Status of the order.
    pub status: String,
    /// Why the order was rejected, if it was.
    pub reject_reason: Option<String>,
}

/// Why an acknowledged order failed.
#[derive(Clone, PartialEq, Eq, Hash, Debug)]
pub enum AckError {
    /// The post-only order would have taken liquidity.
    WouldTakeLiquidity,
    /// The time of creation cannot be read.
    Timestamp(String),
}

/// The order was rejected because it was post-only.
pub open spec fn rejected_post_only(ack: GdaxOrderAck) -> bool {
    ack.status@ == "rejected"@ && (ack.reject_reason matches Some(r) && "post only"@.is_prefix_of(r@))
}

/// What the acknowledgment `ack` of an order sent with the client order id
/// `client_oid` tells: the order was rejected because it would have taken
/// liquidity, or it was received at the time of its creation, under the
/// client order id (or the server one if there was none).
pub fn order_ack(client_oid: Option<String>, ack: GdaxOrderAck) -> (r: Result<OrderAck, AckError>)
    ensures
        rejected_post_only(ack) ==> r == Err::<OrderAck, AckError>(AckError::WouldTakeLiquidity),
        !rejected_post_only(ack) ==> match str_timestamp(ack.created_at@) {
            None => r matches Err(AckError::Timestamp(t)) && t@ == ack.created_at@,
            Some(ts) => r matches Ok(a) && a.timestamp == ts && a.order_id == match client_oid {
                Some(id) => id,
                None => ack.id,
            },
        },
{
    let post_only = match &ack.reject_reason {
        Some(reason) => starts_with(reason.as_str(), "post only"),
        None => false,
    };
    if str_eq(ack.status.as_str(), "rejected") && post_only {
        return Err(AckError::WouldTakeLiquidity);
    }
    let timestamp = match convert_str_timestamp(ack.created_at.as_str()) {
        Some(ts) => ts,
        None => return Err(AckError::Timestamp(ack.created_at)),
    };
    let order_id = match client_oid {
        Some(id) => id,
        None => ack.id,
    };
    Ok(OrderAck { timestamp, order_id })
}

} // verus!
