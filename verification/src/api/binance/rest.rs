//! The names that the binance REST API gives to sides, order types and
//! times in force, the queries of orders and cancels, and what a request
//! sends and how its response is read.

use vstd::prelude::*;
use crate::Side;
use crate::api::{Cancel, Order, OrderType, TimeInForce};
use crate::api::params::SymbolInfo;
use crate::api::query_string::{QueryString, with_param, hex_lower, hmac_sha256};
use crate::api::binance::KeyPair;
use crate::api::binance::errors::{BinanceRestError, RestError, status_kind};
use vstd::utf8::encode_utf8;
use crate::decimal::dec_digits;
use crate::tick::{Tick, TickUnit, unticked_text};

verus! {

/// The name by which the binance API knows a value.
pub trait AsStr {
    /// The name of `self`.
    fn as_str(self) -> &'static str;
}

impl AsStr for Side {
    fn as_str(self) -> (s: &'static str)
        ensures
            s@ == (match self {
                Side::Ask => "SELL"@,
                Side::Bid => "BUY"@,
            }),
    {
        match self {
            Side::Ask => "SELL",
            Side::Bid => "BUY",
        }
    }
}

impl AsStr for OrderType {
    fn as_str(self) -> (s: &'static str)
        ensures
            s@ == (match self {
                OrderType::Limit => "LIMIT"@,
                OrderType::LimitMaker => "LIMIT_MAKER"@,
            }),
    {
        match self {
            OrderType::Limit => "LIMIT",
            OrderType::LimitMaker => "LIMIT_MAKER",
        }
    }
}

impl AsStr for TimeInForce {
    fn as_str(self) -> (s: &'static str)
        ensures
            s@ == (match self {
                TimeInForce::GoodTilCanceled => "GTC"@,
                TimeInForce::FillOrKilll => "FOK"@,
                TimeInForce::ImmediateOrCancel => "IOC"@,
            }),
    {
        match self {
            TimeInForce::GoodTilCanceled => "GTC",
            TimeInForce::FillOrKilll => "FOK",
            TimeInForce::ImmediateOrCancel => "IOC",
        }
    }
}

/// The name that binance gives to `side`.
pub open spec fn side_name(side: Side) -> Seq<char> {
    match side {
        Side::Ask => "SELL"@,
        Side::Bid => "BUY"@,
    }
}

/// The name that binance gives to `t`.
pub open spec fn order_type_name(t: OrderType) -> Seq<char> {
    match t {
        OrderType::Limit => "LIMIT"@,
        OrderType::LimitMaker => "LIMIT_MAKER"@,
    }
}

/// The name that binance gives to `t`.
pub open spec fn time_in_force_name(t: TimeInForce) -> Seq<char> {
    match t {
        TimeInForce::GoodTilCanceled => "GTC"@,
        TimeInForce::FillOrKilll => "FOK"@,
        TimeInForce::ImmediateOrCancel => "IOC"@,
    }
}

/// The ticked value `v` can be written in units of `tick`.
pub open spec fn writable(tick: Tick, v: TickUnit) -> bool {
    unticked_text(tick@, v as nat) is Some
}

/// The query of the order `order` of type `order_type` on `symbol`, sent at
/// `timestamp`: the symbol, the side, the type, the time in force (for a
/// limit order), the quantity and the price in units, the client order id
/// if there is one, the time window and the timestamp.
pub open spec fn order_query_text(order: Order, order_type: OrderType, symbol: SymbolInfo, timestamp: u64) -> Seq<char> {
    let q0 = with_param(Seq::empty(), "symbol"@, symbol.name@);
    let q1 = with_param(q0, "side"@, side_name(order.side));
    let q2 = with_param(q1, "type"@, order_type_name(order_type));
    let q3 = if order_type == OrderType::Limit {
        with_param(q2, "timeInForce"@, time_in_force_name(order.time_in_force))
    } else {
        q2
    };
    let q4 = with_param(q3, "quantity"@, unticked_text(symbol.size_tick@, order.size as nat)->0);
    let q5 = with_param(q4, "price"@, unticked_text(symbol.price_tick@, order.price as nat)->0);
    let q6 = match order.order_id {
        Some(id) => with_param(q5, "newClientOrderId"@, id@),
        None => q5,
    };
    let q7 = with_param(q6, "recvWindow"@, dec_digits(order.time_window as nat));
    with_param(q7, "timestamp"@, dec_digits(timestamp as nat))
}

/// The query of an order, parameter by parameter, with binance's names:
/// the symbol; the side, `BUY` for a bid and `SELL` for an ask; the type,
/// `LIMIT` or `LIMIT_MAKER`; for a limit order its own time in force,
/// `GTC`, `IOC` or `FOK`; the quantity and the price in units; the client
/// order id if there is one; the time window and the timestamp.
pub proof fn lemma_order_query_params(order: Order, order_type: OrderType, symbol: SymbolInfo, timestamp: u64)
    ensures
        ({
            let side = if order.side == Side::Bid { "BUY"@ } else { "SELL"@ };
            let kind = if order_type == OrderType::Limit { "LIMIT"@ } else { "LIMIT_MAKER"@ };
            let tif = if order.time_in_force == TimeInForce::GoodTilCanceled {
                "GTC"@
            } else if order.time_in_force == TimeInForce::ImmediateOrCancel {
                "IOC"@
            } else {
                "FOK"@
            };
            let q2 = with_param(with_param(with_param(Seq::empty(), "symbol"@, symbol.name@), "side"@, side), "type"@, kind);
            let q3 = if order_type == OrderType::Limit { with_param(q2, "timeInForce"@, tif) } else { q2 };
            let q5 = with_param(
                with_param(q3, "quantity"@, unticked_text(symbol.size_tick@, order.size as nat)->0),
                "price"@,
                unticked_text(symbol.price_tick@, order.price as nat)->0,
            );
            let q6 = if order.order_id is Some { with_param(q5, "newClientOrderId"@, order.order_id->0@) } else { q5 };
            order_query_text(order, order_type, symbol, timestamp) == with_param(
                with_param(q6, "recvWindow"@, dec_digits(order.time_window as nat)),
                "timestamp"@,
                dec_digits(timestamp as nat),
            )
        }),
{
}

/// The query that sends the order `order` of type `order_type` on `symbol`
/// at `timestamp` (see `order_query_text`).
pub fn order_query(order: &Order, order_type: OrderType, symbol: &SymbolInfo, timestamp: u64) -> (q: QueryString)
    requires
        writable(symbol.size_tick, order.size),
        writable(symbol.price_tick, order.price),
    ensures
        q@ == order_query_text(*order, order_type, *symbol, timestamp),
{
    let mut query = QueryString::new();
    query.push_str("symbol", symbol.name.as_str());
    query.push_str("side", order.side.as_str());
    query.push_str("type", order_type.as_str());
    if order_type == OrderType::Limit {
        query.push_str("timeInForce", order.time_in_force.as_str());
    }
    let quantity = match symbol.size_tick.unticked(order.size) {
        Ok(s) => s,
        Err(_) => String::new(),
    };
    query.push_str("quantity", quantity.as_str());
    let price = match symbol.price_tick.unticked(order.price) {
        Ok(s) => s,
        Err(_) => String::new(),
    };
    query.push_str("price", price.as_str());
    if let Some(order_id) = &order.order_id {
        query.push_str("newClientOrderId", order_id.as_str());
    }
    query.push("recvWindow", order.time_window);
    query.push("timestamp", timestamp);
    query
}

/// The query that cancels the order `cancel` on `symbol` at `timestamp`:
/// the symbol, the client order id to cancel, the time window and the
/// timestamp.
pub fn cancel_query(cancel: &Cancel, symbol: &SymbolInfo, timestamp: u64) -> (q: QueryString)
    ensures
        q@ == with_param(
            with_param(
                with_param(with_param(Seq::empty(), "symbol"@, symbol.name@), "origClientOrderId"@, cancel.order_id@),
                "recvWindow"@,
                dec_digits(cancel.time_window as nat),
            ),
            "timestamp"@,
            dec_digits(timestamp as nat),
        ),
{
    let mut query = QueryString::new();
    query.push_str("symbol", symbol.name.as_str());
    query.push_str("origClientOrderId", cancel.order_id.as_str());
    query.push("recvWindow", cancel.time_window);
    query.push("timestamp", timestamp);
    query
}

/// What a REST request to binance sends.
#[derive(Clone, PartialEq, Eq, Hash, Debug)]
pub struct BinanceRequest {
    /// The address: the REST endpoint, `/`, then the path.
    pub address: String,
    /// The value of the `X-MBX-APIKEY` header, with a key pair.
    pub api_key: Option<String>,
    /// The body: the query, signed with a key pair.
    pub body: String,
}

/// What a REST request to binance at `endpoint`, on `path`, with `query`,
/// sends: with a key pair, the api key goes in a header and the query is
/// signed with the secret key. `None` if the secret key is too long for
/// openssl, or openssl cannot sign.
pub fn request_parts(endpoint: &str, path: &str, query: QueryString, keys: Option<&KeyPair>) -> (r: Option<BinanceRequest>)
    ensures
        r matches Some(req) ==> req.address@ == endpoint@ + "/"@ + path@,
        match keys {
            None => (r matches Some(req) && req.api_key is None && req.body@ == query@),
            Some(k) => {
                &&& encode_utf8(k.secret_key()).len() > i32::MAX ==> r is None
                &&& r matches Some(req) ==> (req.api_key matches Some(a) && a@ == k.api_key())
                    && req.body@ == with_param(
                        query@,
                        "signature"@,
                        hex_lower(hmac_sha256(encode_utf8(k.secret_key()), encode_utf8(query@))),
                    )
            },
        },
{
    let mut address = String::new();
    address.append(endpoint);
    address.append("/");
    address.append(path);
    match keys {
        None => Some(BinanceRequest { address, api_key: None, body: query.into_string() }),
        Some(k) => {
            let secret = k.secret_key_str().as_bytes();
            if secret.len() > i32::MAX as usize {
                return None;
            }
            match query.into_string_with_signature(secret) {
                Some(body) => Some(BinanceRequest { address, api_key: Some(k.api_key_string()), body }),
                None => None,
            }
        },
    }
}

/// The error of a response with HTTP status `status` and the error body
/// that binance sent, if it could be read: none for `200 OK`.
pub fn response_error(status: u16, body: Option<BinanceRestError>) -> (r: Option<RestError>)
    ensures
        (status == 200) == (r is None),
        r matches Some(e) ==> {
            &&& e.kind == status_kind(status)
            &&& e.error_code == (match body {
                Some(b) => Some(b.code),
                None => None,
            })
            &&& match body {
                Some(b) => e.error_msg matches Some(m) && m@ == b.msg@,
                None => e.error_msg is None,
            }
        },
{
    if status == 200 {
        None
    } else {
        Some(RestError::from_binance_error(status, body))
    }
}

} // verus!
