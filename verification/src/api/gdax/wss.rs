//! The GDAX WebSocket stream: the events that GDAX sends, and their
//! conversion into notifications, with the orders of the account that the
//! stream has seen received.

use vstd::prelude::*;
use crate::Side;
use crate::api::{Notification, Trade, OrderReceived, OrderUpdate, OrderExpired};
use crate::api::params::SymbolInfo;
use crate::api::gdax::{gdax_side, convert_gdax_side};
use crate::api::timestamp::{Timestamp, str_timestamp, convert_str_timestamp, timestamp_ms};
use crate::api::gdax::KeyPair;
use crate::api::gdax::auth::{base64_decoded, base64_encoded, stream_prehash, signature};
use crate::api::query_string::hmac_sha256;
use crate::decimal::dec_digits;
use vstd::utf8::encode_utf8;
use crate::api::wss::{
    UntickedLimit, MessageError, Failure, failed_with, in_ticks, level_update, level_fits, level_converts,
    sides_update, sides_fit, lemma_levels_ok, convert_update, convert_levels, check_levels, ticks, Sent, is_sent,
    are_sent, in_time, read_timestamp,
};
use crate::order_book::LimitUpdate;
use crate::text::str_eq;
use crate::text_map::TextMap;
use crate::tick::{TickUnit, probe, ticks_of};

verus! {

/// The type of an event sent by GDAX.
#[derive(Copy, Clone, PartialEq, Eq, Hash, Debug, Structural)]
pub enum GdaxEventType {
    /// `subscribe`.
    Subscribe,
    /// `snapshot`.
    Snapshot,
    /// `l2update`.
    L2Update,
    /// `match`.
    Match,
    /// `received`.
    Received,
    /// `done`.
    Done,
    /// `error`.
    Error,
    /// Another type.
    Other,
}

/// The event type that GDAX names `t`.
pub open spec fn event_type_named(t: Seq<char>) -> GdaxEventType {
    if t == "subscribe"@ {
        GdaxEventType::Subscribe
    } else if t == "snapshot"@ {
        GdaxEventType::Snapshot
    } else if t == "l2update"@ {
        GdaxEventType::L2Update
    } else if t == "match"@ {
        GdaxEventType::Match
    } else if t == "received"@ {
        GdaxEventType::Received
    } else if t == "done"@ {
        GdaxEventType::Done
    } else if t == "error"@ {
        GdaxEventType::Error
    } else {
        GdaxEventType::Other
    }
}

/// The event type that GDAX names `t`, which tells what the fields of the
/// event are.
pub fn event_type_of(t: &str) -> (k: GdaxEventType)
    ensures
        k == event_type_named(t@),
{
    if str_eq(t, "subscribe") {
        GdaxEventType::Subscribe
    } else if str_eq(t, "snapshot") {
        GdaxEventType::Snapshot
    } else if str_eq(t, "l2update") {
        GdaxEventType::L2Update
    } else if str_eq(t, "match") {
        GdaxEventType::Match
    } else if str_eq(t, "received") {
        GdaxEventType::Received
    } else if str_eq(t, "done") {
        GdaxEventType::Done
    } else if str_eq(t, "error") {
        GdaxEventType::Error
    } else {
        GdaxEventType::Other
    }
}

/// An order book snapshot, sent by GDAX.
#[derive(Clone, PartialEq, Eq, Hash, Debug)]
pub struct GdaxBookSnapshot {
    /// Bid limits.
    pub bids: Vec<UntickedLimit>,
    /// Ask limits.
    pub asks: Vec<UntickedLimit>,
}

/// A change of an order book limit, sent by GDAX.
#[derive(Clone, PartialEq, Eq, Hash, Debug)]
pub struct GdaxChange {
    /// Side, `buy` or `sell`.
    pub side: String,
    /// Price, unticked.
    pub price: String,
    /// Size, unticked.
    pub size: String,
}

/// A trade, sent by GDAX.
#[derive(Clone, PartialEq, Eq, Hash, Debug)]
pub struct GdaxMatch {
    /// Time of the trade, `%FT%T.%fZ`.
    pub time: String,
    /// Size, unticked.
    pub size: String,
    /// Price, unticked.
    pub price: String,
    /// Side of the maker, `buy` or `sell`.
    pub side: String,
    /// Server id of the maker order.
    pub maker_order_id: String,
    /// Server id of the taker order.
    pub taker_order_id: String,
    /// Present when the trade concerns the account.
    pub profile_id: Option<String>,
}

/// An order of the account received by GDAX.
#[derive(Clone, PartialEq, Eq, Hash, Debug)]
pub struct GdaxReceived {
    /// Time of reception, `%FT%T.%fZ`.
    pub time: String,
    /// Client order id, if the order had one.
    pub client_oid: Option<String>,
    /// Server order id.
    pub order_id: String,
    /// Size, unticked.
    pub size: String,
    /// Price, unticked.
    pub price: String,
    /// Side, `buy` or `sell`.
    pub side: String,
}

/// An order of the account that is done.
#[derive(Clone, PartialEq, Eq, Hash, Debug)]
pub struct GdaxDone {
    /// Why the order is done, e.g. `canceled` or `filled`.
    pub reason: String,
    /// Server order id.
    pub order_id: String,
    /// Time, `%FT%T.%fZ`.
    pub time: String,
}

/// An error, sent by GDAX.
#[derive(Clone, PartialEq, Eq, Hash, Debug)]
pub struct GdaxError {
    /// Error message.
    pub message: String,
    /// Reason of the error, if any.
    pub reason: Option<String>,
}

/// An event sent by GDAX on the stream, by its type.
#[derive(Clone, PartialEq, Eq, Hash, Debug)]
pub enum GdaxEvent {
    /// The subscription is confirmed.
    Subscribe,
    /// An order book snapshot.
    Snapshot(GdaxBookSnapshot),
    /// Changes of the order book.
    L2Update(Vec<GdaxChange>),
    /// A trade.
    Match(GdaxMatch),
    /// An order of the account was received.
    Received(GdaxReceived),
    /// An order of the account is done.
    Done(GdaxDone),
    /// An error.
    Error(GdaxError),
    /// An event of another type.
    Other,
}

/// The limit update of the change `c`: its side, then its price, then its
/// size, converted.
pub open spec fn change_update(sym: SymbolInfo, c: GdaxChange) -> Result<LimitUpdate, Failure> {
    match gdax_side(c.side@) {
        None => Err(Failure::WrongSide(c.side@)),
        Some(side) => level_update(sym, UntickedLimit { price: c.price, size: c.size }, side),
    }
}

/// The change `c` converts.
pub open spec fn change_converts(sym: SymbolInfo, c: GdaxChange) -> bool {
    gdax_side(c.side@) is Some && level_converts(sym, UntickedLimit { price: c.price, size: c.size })
}

/// The conversions of the change `c` that are made stay in range.
pub open spec fn change_fits(sym: SymbolInfo, c: GdaxChange) -> bool {
    gdax_side(c.side@) is Some ==> level_fits(sym, UntickedLimit { price: c.price, size: c.size })
}

/// The limit updates of the changes `cs`, in order, or the failure of the
/// first one that does not convert.
#[verifier::opaque]
pub open spec fn changes_update(sym: SymbolInfo, cs: Seq<GdaxChange>) -> Result<Seq<LimitUpdate>, Failure>
    decreases cs.len(),
{
    if cs.len() == 0 {
        Ok(Seq::empty())
    } else {
        match changes_update(sym, cs.drop_last()) {
            Err(f) => Err(f),
            Ok(us) => match change_update(sym, cs.last()) {
                Err(f) => Err(f),
                Ok(u) => Ok(us.push(u)),
            },
        }
    }
}

/// All the changes of `cs` before the `i`-th convert.
pub open spec fn changes_before(sym: SymbolInfo, cs: Seq<GdaxChange>, i: int) -> bool {
    forall|j: int| 0 <= j < i ==> change_converts(sym, #[trigger] cs[j])
}

/// The conversions of the changes `cs` that are made stay in range.
pub open spec fn changes_fit(sym: SymbolInfo, cs: Seq<GdaxChange>) -> bool {
    forall|i: int| 0 <= i < cs.len() && changes_before(sym, cs, i) ==> change_fits(sym, #[trigger] cs[i])
}

/// Converting one more change of `cs`.
proof fn lemma_changes_step(sym: SymbolInfo, cs: Seq<GdaxChange>, i: int)
    requires
        0 <= i < cs.len(),
        changes_update(sym, cs.take(i)) is Ok,
    ensures
        changes_update(sym, cs.take(i + 1)) == match change_update(sym, cs[i]) {
            Err(f) => Err(f),
            Ok(u) => Ok(changes_update(sym, cs.take(i))->Ok_0.push(u)),
        },
{
    reveal(changes_update);
    assert(cs.take(i + 1).drop_last() =~= cs.take(i));
    assert(cs.take(i + 1).last() == cs[i]);
}

/// A failure in a prefix of `cs` is the failure of `cs`.
proof fn lemma_changes_prefix(sym: SymbolInfo, cs: Seq<GdaxChange>, k: int)
    requires
        0 <= k <= cs.len(),
        changes_update(sym, cs.take(k)) is Err,
    ensures
        changes_update(sym, cs) == changes_update(sym, cs.take(k)),
    decreases cs.len(),
{
    reveal(changes_update);
    if k == cs.len() {
        assert(cs.take(k) =~= cs);
    } else {
        assert(cs.drop_last().take(k) =~= cs.take(k));
        lemma_changes_prefix(sym, cs.drop_last(), k);
    }
}

/// Converting changes, when it succeeds, gives one update for each change,
/// in order, on the side that it names (`buy` a bid, `sell` an ask), with
/// its price and size in ticks.
pub proof fn lemma_changes_each(sym: SymbolInfo, cs: Seq<GdaxChange>)
    requires
        changes_update(sym, cs) is Ok,
    ensures
        changes_update(sym, cs)->Ok_0.len() == cs.len(),
        forall|i: int| 0 <= i < cs.len() ==> {
            &&& (#[trigger] cs[i]).side@ == "buy"@ || cs[i].side@ == "sell"@
            &&& ticks_of(sym.price_tick, cs[i].price@) is Some
            &&& ticks_of(sym.size_tick, cs[i].size@) is Some
            &&& changes_update(sym, cs)->Ok_0[i] == LimitUpdate {
                price: ticks_of(sym.price_tick, cs[i].price@)->0,
                size: ticks_of(sym.size_tick, cs[i].size@)->0,
                side: if cs[i].side@ == "buy"@ { Side::Bid } else { Side::Ask },
            }
        },
    decreases cs.len(),
{
    reveal(changes_update);
    reveal_strlit("buy");
    reveal_strlit("sell");
    if cs.len() > 0 {
        let d = cs.drop_last();
        lemma_changes_each(sym, d);
        assert forall|i: int| 0 <= i < cs.len() implies {
            &&& (#[trigger] cs[i]).side@ == "buy"@ || cs[i].side@ == "sell"@
            &&& ticks_of(sym.price_tick, cs[i].price@) is Some
            &&& ticks_of(sym.size_tick, cs[i].size@) is Some
            &&& changes_update(sym, cs)->Ok_0[i] == LimitUpdate {
                price: ticks_of(sym.price_tick, cs[i].price@)->0,
                size: ticks_of(sym.size_tick, cs[i].size@)->0,
                side: if cs[i].side@ == "buy"@ { Side::Bid } else { Side::Ask },
            }
        } by {
            if i < d.len() {
                assert(d[i] == cs[i]);
            }
        }
    }
}

/// Convert the change `c`.
fn convert_change(sym: &SymbolInfo, c: &GdaxChange) -> (r: Result<LimitUpdate, MessageError>)
    requires
        change_fits(*sym, *c),
    ensures
        match change_update(*sym, *c) {
            Ok(u) => r == Ok::<LimitUpdate, MessageError>(u),
            Err(f) => r matches Err(e) && failed_with(e, f),
        },
{
    let side = match convert_gdax_side(c.side.as_str()) {
        Ok(side) => side,
        Err(name) => return Err(MessageError::WrongSide(name)),
    };
    let l = UntickedLimit { price: c.price.clone(), size: c.size.clone() };
    match convert_update(sym, &l, side) {
        Ok(u) => Ok(u),
        Err(e) => Err(MessageError::Conversion(e)),
    }
}

/// The limit updates of the changes `cs`.
fn convert_changes(sym: &SymbolInfo, cs: &Vec<GdaxChange>) -> (r: Result<Vec<LimitUpdate>, MessageError>)
    requires
        changes_fit(*sym, cs@),
    ensures
        match changes_update(*sym, cs@) {
            Ok(us) => r matches Ok(v) && v@ == us,
            Err(f) => r matches Err(e) && failed_with(e, f),
        },
{
    let n = cs.len();
    let mut out: Vec<LimitUpdate> = Vec::new();
    let mut i: usize = 0;
    assert(cs@.take(0) =~= Seq::<GdaxChange>::empty());
    assert(changes_update(*sym, cs@.take(0)) == Ok::<Seq<LimitUpdate>, Failure>(Seq::empty())) by {
        reveal(changes_update);
    }
    while i < n
        invariant
            n == cs@.len(),
            i <= n,
            changes_fit(*sym, cs@),
            changes_before(*sym, cs@, i as int),
            changes_update(*sym, cs@.take(i as int)) == Ok::<Seq<LimitUpdate>, Failure>(out@),
        decreases n - i,
    {
        proof {
            lemma_changes_step(*sym, cs@, i as int);
        }
        match convert_change(sym, &cs[i]) {
            Ok(u) => {
                out.push(u);
            },
            Err(e) => {
                proof {
                    lemma_changes_prefix(*sym, cs@, i + 1);
                }
                return Err(e);
            },
        }
        i = i + 1;
    }
    assert(cs@.take(n as int) =~= cs@);
    Ok(out)
}

/// Whether the conversions of the changes `cs` that are made stay in range.
fn check_changes(sym: &SymbolInfo, cs: &Vec<GdaxChange>) -> (b: bool)
    ensures
        b == changes_fit(*sym, cs@),
{
    let n = cs.len();
    let mut i: usize = 0;
    while i < n
        invariant
            n == cs@.len(),
            i <= n,
            changes_before(*sym, cs@, i as int),
            forall|k: int| 0 <= k < i ==> change_fits(*sym, #[trigger] cs@[k]),
        decreases n - i,
    {
        let c = &cs[i];
        let converts = match convert_gdax_side(c.side.as_str()) {
            Err(_) => false,
            Ok(_) => match sym.price_tick.probe(c.price.as_str()) {
                None => return false,
                Some(None) => false,
                Some(Some(_)) => match sym.size_tick.probe(c.size.as_str()) {
                    None => return false,
                    Some(None) => false,
                    Some(Some(_)) => true,
                },
            },
        };
        if !converts {
            proof {
                assert forall|k: int| 0 <= k < cs@.len() && changes_before(*sym, cs@, k)
                    implies change_fits(*sym, #[trigger] cs@[k]) by {
                    if k > i {
                        assert(change_converts(*sym, cs@[i as int]));
                    }
                }
            }
            return true;
        }
        i = i + 1;
    }
    true
}

/// Whether the subscription is confirmed.
#[derive(Copy, Clone, PartialEq, Eq, Hash, Debug, Structural)]
pub enum SubscriptionState {
    /// Not yet.
    NotSubscribed,
    /// Confirmed.
    Subscribed,
}

/// An order of the account that the stream has seen received: what is left
/// of it, its price, its side and its client order id.
#[derive(Clone, PartialEq, Eq, Hash, Debug)]
pub struct OpenOrder {
    /// Size left, in ticks.
    pub size: TickUnit,
    /// Price, in ticks.
    pub price: TickUnit,
    /// Side.
    pub side: Side,
    /// Client order id (the server order id when there was none).
    pub order_id: String,
}

/// The state of a GDAX stream.
pub struct GdaxState {
    /// Whether the subscription is confirmed.
    pub subscription: SubscriptionState,
    /// The orders of the account seen received, by server order id.
    pub orders: Map<Seq<char>, OpenOrder>,
    /// The server order id of each client order id.
    pub order_ids: Map<Seq<char>, String>,
}

/// A trade of `size` at `price` at time `ts` fills the order of the account
/// whose server order id is `id`, if the stream knows it: what is left of
/// it decreases, and an order update is notified.
pub open spec fn fill(orders: Map<Seq<char>, OpenOrder>, id: Seq<char>, size: TickUnit, price: TickUnit, ts: Timestamp) -> (Map<Seq<char>, OpenOrder>, Seq<Sent>) {
    if orders.contains_key(id) {
        let o = orders[id];
        let left = (o.size - size) as TickUnit;
        (
            orders.insert(id, OpenOrder { size: left, ..o }),
            seq![Sent::Notify(Notification::OrderUpdate(OrderUpdate {
                timestamp: ts,
                order_id: o.order_id,
                consumed_size: size,
                remaining_size: left,
                consumed_price: price,
                commission: 0,
            }))],
        )
    } else {
        (orders, Seq::empty())
    }
}

/// The fill of `size` of the order `id`, if known, leaves a size.
pub open spec fn fill_fits(orders: Map<Seq<char>, OpenOrder>, id: Seq<char>, size: TickUnit) -> bool {
    orders.contains_key(id) ==> orders[id].size >= size
}

/// What the trade `m` gives: when it concerns the account, the fills of
/// the taker order, then of the maker order; then the trade itself. Its
/// time, size, price and side are read in this order; a wrong side is
/// found after the fills are made.
pub open spec fn match_step(sym: SymbolInfo, orders: Map<Seq<char>, OpenOrder>, m: GdaxMatch) -> (Map<Seq<char>, OpenOrder>, Seq<Sent>, Result<(), Failure>) {
    match in_time(m.time@) {
        Err(f) => (orders, Seq::empty(), Err(f)),
        Ok(ts) => match in_ticks(sym.size_tick, m.size@) {
            Err(f) => (orders, Seq::empty(), Err(f)),
            Ok(size) => match in_ticks(sym.price_tick, m.price@) {
                Err(f) => (orders, Seq::empty(), Err(f)),
                Ok(price) => {
                    let (o1, s1) = if m.profile_id is Some { fill(orders, m.taker_order_id@, size, price, ts) } else { (orders, Seq::empty()) };
                    let (o2, s2) = if m.profile_id is Some { fill(o1, m.maker_order_id@, size, price, ts) } else { (o1, Seq::empty()) };
                    match gdax_side(m.side@) {
                        None => (o2, Seq::empty(), Err(Failure::WrongSide(m.side@))),
                        Some(maker_side) => (
                            o2,
                            s1 + s2 + seq![Sent::Notify(Notification::Trade(Trade { timestamp: ts, price, size, maker_side }))],
                            Ok(()),
                        ),
                    }
                },
            },
        },
    }
}

/// The conversions of the trade `m` that are made stay in range, and its
/// fills leave sizes.
pub open spec fn match_fits(sym: SymbolInfo, orders: Map<Seq<char>, OpenOrder>, m: GdaxMatch) -> bool {
    str_timestamp(m.time@) is Some ==> match probe(sym.size_tick, m.size@) {
        None => false,
        Some(None) => true,
        Some(Some(size)) => match probe(sym.price_tick, m.price@) {
            None => false,
            Some(None) => true,
            Some(Some(price)) => m.profile_id is Some ==> {
                &&& fill_fits(orders, m.taker_order_id@, size)
                &&& fill_fits(fill(orders, m.taker_order_id@, size, price, 0).0, m.maker_order_id@, size)
            },
        },
    }
}

/// The client order id of the received order `r`: its own, or the server
/// one if it had none.
pub open spec fn received_id(r: GdaxReceived) -> String {
    match r.client_oid {
        Some(id) => id,
        None => r.order_id,
    }
}

/// What the received order `r` gives: its time, size, price and side are
/// read in this order; its client order id is mapped to its server order
/// id, the order is recorded under its server order id, and its reception
/// is notified.
pub open spec fn received_step(sym: SymbolInfo, st: GdaxState, r: GdaxReceived) -> (GdaxState, Seq<Sent>, Result<(), Failure>) {
    match in_time(r.time@) {
        Err(f) => (st, Seq::empty(), Err(f)),
        Ok(ts) => match in_ticks(sym.size_tick, r.size@) {
            Err(f) => (st, Seq::empty(), Err(f)),
            Ok(size) => match in_ticks(sym.price_tick, r.price@) {
                Err(f) => (st, Seq::empty(), Err(f)),
                Ok(price) => match gdax_side(r.side@) {
                    None => (st, Seq::empty(), Err(Failure::WrongSide(r.side@))),
                    Some(side) => {
                        let id = received_id(r);
                        (
                            GdaxState {
                                orders: st.orders.insert(r.order_id@, OpenOrder { size, price, side, order_id: id }),
                                order_ids: st.order_ids.insert(id@, r.order_id),
                                ..st
                            },
                            seq![Sent::Notify(Notification::OrderReceived(OrderReceived { timestamp: ts, order_id: id, price, size, side }))],
                            Ok(()),
                        )
                    },
                },
            },
        },
    }
}

/// The conversions of the received order `r` that are made stay in range.
pub open spec fn received_fits(sym: SymbolInfo, r: GdaxReceived) -> bool {
    str_timestamp(r.time@) is Some ==> match probe(sym.size_tick, r.size@) {
        None => false,
        Some(None) => true,
        Some(Some(_)) => probe(sym.price_tick, r.price@) is Some,
    }
}

/// What the done order `d` gives: once its time is read, a canceled order
/// that the stream knows expires.
pub open spec fn done_step(orders: Map<Seq<char>, OpenOrder>, d: GdaxDone) -> (Seq<Sent>, Result<(), Failure>) {
    match in_time(d.time@) {
        Err(f) => (Seq::empty(), Err(f)),
        Ok(ts) => if d.reason@ == "canceled"@ && orders.contains_key(d.order_id@) {
            (seq![Sent::Notify(Notification::OrderExpired(OrderExpired { timestamp: ts, order_id: orders[d.order_id@].order_id }))], Ok(()))
        } else {
            (Seq::empty(), Ok(()))
        },
    }
}

/// The state after the event `e`, the notifications that it gives and the
/// failure that stopped it, if any.
pub open spec fn step(sym: SymbolInfo, st: GdaxState, e: GdaxEvent) -> (GdaxState, Seq<Sent>, Result<(), Failure>) {
    match e {
        GdaxEvent::Subscribe => (GdaxState { subscription: SubscriptionState::Subscribed, ..st }, Seq::empty(), Ok(())),
        GdaxEvent::Snapshot(s) => match sides_update(sym, s.bids@, s.asks@) {
            Err(f) => (st, Seq::empty(), Err(f)),
            Ok(us) => (st, seq![Sent::Updates(us)], Ok(())),
        },
        GdaxEvent::L2Update(cs) => match changes_update(sym, cs@) {
            Err(f) => (st, Seq::empty(), Err(f)),
            Ok(us) => (st, seq![Sent::Updates(us)], Ok(())),
        },
        GdaxEvent::Match(m) => {
            let (orders, sent, r) = match_step(sym, st.orders, m);
            (GdaxState { orders, ..st }, sent, r)
        },
        GdaxEvent::Received(r) => received_step(sym, st, r),
        GdaxEvent::Done(d) => {
            let (sent, r) = done_step(st.orders, d);
            (st, sent, r)
        },
        GdaxEvent::Error(err) => (
            st,
            Seq::empty(),
            Err(Failure::Server(err.message@, match err.reason {
                Some(r) => Some(r@),
                None => None,
            })),
        ),
        GdaxEvent::Other => (st, Seq::empty(), Ok(())),
    }
}

/// The conversions of the event `e` that are made stay in range, and the
/// fills of a trade leave sizes.
pub open spec fn event_fits(sym: SymbolInfo, st: GdaxState, e: GdaxEvent) -> bool {
    match e {
        GdaxEvent::Snapshot(s) => sides_fit(sym, s.bids@, s.asks@),
        GdaxEvent::L2Update(cs) => changes_fit(sym, cs@),
        GdaxEvent::Match(m) => match_fits(sym, st.orders, m),
        GdaxEvent::Received(r) => received_fits(sym, r),
        _ => true,
    }
}

/// Fill the order of the account whose server order id is `id`, if known,
/// with `size` at `price`: what is left of it decreases, and the order
/// update is returned.
fn fill_order(orders: &mut TextMap<OpenOrder>, id: &String, size: TickUnit, price: TickUnit, ts: Timestamp) -> (r: Option<Notification>)
    requires
        fill_fits(old(orders).view(), id@, size),
    ensures
        final(orders).view() == fill(old(orders).view(), id@, size, price, ts).0,
        match r {
            Some(n) => fill(old(orders).view(), id@, size, price, ts).1 == seq![Sent::Notify(n)],
            None => fill(old(orders).view(), id@, size, price, ts).1 == Seq::<Sent>::empty(),
        },
{
    let (left, order) = match orders.get(id.as_str()) {
        None => return None,
        Some(o) => {
            let left = o.size - size;
            (left, OpenOrder { size: left, price: o.price, side: o.side, order_id: o.order_id.clone() })
        },
    };
    let n = Notification::OrderUpdate(OrderUpdate {
        timestamp: ts,
        order_id: order.order_id.clone(),
        consumed_size: size,
        remaining_size: left,
        consumed_price: price,
        commission: 0,
    });
    orders.insert(id.clone(), order);
    Some(n)
}

/// Once a received order is converted, the stream knows it: under its
/// server order id, with what was received and its client order id, and
/// its client order id leads to its server order id.
pub proof fn lemma_received_is_known(sym: SymbolInfo, st: GdaxState, r: GdaxReceived)
    requires
        step(sym, st, GdaxEvent::Received(r)).2 is Ok,
    ensures
        ({
            let after = step(sym, st, GdaxEvent::Received(r)).0;
            &&& after.orders.contains_key(r.order_id@)
            &&& after.orders[r.order_id@].order_id == received_id(r)
            &&& after.orders[r.order_id@].size == ticks_of(sym.size_tick, r.size@)->Some_0
            &&& after.orders[r.order_id@].price == ticks_of(sym.price_tick, r.price@)->Some_0
            &&& after.order_ids.contains_key(received_id(r)@)
            &&& after.order_ids[received_id(r)@] == r.order_id
            &&& after.subscription == st.subscription
        }),
{
}

/// A trade fills an order of the account by its size: what is left of the
/// order and what the trade consumed add up to what was left before, and
/// the order update says so. A trade that does not concern the account
/// changes no order.
pub proof fn lemma_fill_conserves(sym: SymbolInfo, st: GdaxState, m: GdaxMatch, id: Seq<char>)
    requires
        match_fits(sym, st.orders, m),
        step(sym, st, GdaxEvent::Match(m)).2 is Ok,
        st.orders.contains_key(id),
        id == m.taker_order_id@ || id == m.maker_order_id@,
        m.taker_order_id@ != m.maker_order_id@,
    ensures
        ({
            let after = step(sym, st, GdaxEvent::Match(m));
            let size = ticks_of(sym.size_tick, m.size@)->Some_0;
            &&& after.0.orders.contains_key(id)
            &&& m.profile_id is Some ==> after.0.orders[id].size + size == st.orders[id].size
            &&& m.profile_id is Some ==> exists|k: int| 0 <= k < after.1.len() && ((#[trigger] after.1[k]) matches Sent::Notify(Notification::OrderUpdate(u))
                && u.order_id == st.orders[id].order_id && u.consumed_size == size
                && u.remaining_size == after.0.orders[id].size)
            &&& m.profile_id is None ==> after.0.orders == st.orders
        }),
{
    let after = step(sym, st, GdaxEvent::Match(m));
    if m.profile_id is Some {
        let ts = str_timestamp(m.time@)->Some_0;
        let size = ticks_of(sym.size_tick, m.size@)->Some_0;
        let price = ticks_of(sym.price_tick, m.price@)->Some_0;
        let f1 = fill(st.orders, m.taker_order_id@, size, price, ts);
        let f2 = fill(f1.0, m.maker_order_id@, size, price, ts);
        assert(fill(st.orders, m.taker_order_id@, size, price, 0).0 == f1.0);
        if id == m.taker_order_id@ {
            assert(after.1[0] == f1.1[0]);
        } else {
            assert(after.1[f1.1.len() as int] == f2.1[0]);
        }
    }
}

/// A trade that converts is notified last, with its time, its size and
/// its price in ticks and its maker on the side that it names (`buy` a
/// bid, `sell` an ask). Before it come only the updates of the account's
/// orders that it fills, each consuming the trade's size at the trade's
/// price, at the trade's time and with no commission: none when the trade
/// does not concern the account, and at most one for each of its two
/// orders.
pub proof fn lemma_match_sent(sym: SymbolInfo, st: GdaxState, m: GdaxMatch)
    requires
        step(sym, st, GdaxEvent::Match(m)).2 is Ok,
    ensures
        ({
            let sent = step(sym, st, GdaxEvent::Match(m)).1;
            let ts = str_timestamp(m.time@)->0;
            let size = ticks_of(sym.size_tick, m.size@)->0;
            let price = ticks_of(sym.price_tick, m.price@)->0;
            &&& str_timestamp(m.time@) is Some
            &&& ticks_of(sym.size_tick, m.size@) is Some
            &&& ticks_of(sym.price_tick, m.price@) is Some
            &&& m.side@ == "buy"@ || m.side@ == "sell"@
            &&& 1 <= sent.len() <= 3
            &&& sent.last() == Sent::Notify(Notification::Trade(Trade {
                timestamp: ts,
                price,
                size,
                maker_side: if m.side@ == "buy"@ { Side::Bid } else { Side::Ask },
            }))
            &&& forall|i: int| 0 <= i < sent.len() - 1 ==> (#[trigger] sent[i] matches Sent::Notify(Notification::OrderUpdate(u))
                && u.consumed_price == price && u.consumed_size == size && u.timestamp == ts && u.commission == 0)
            &&& m.profile_id is None ==> sent.len() == 1
        }),
{
    reveal_strlit("buy");
    reveal_strlit("sell");
    let ts = str_timestamp(m.time@)->0;
    let size = ticks_of(sym.size_tick, m.size@)->0;
    let price = ticks_of(sym.price_tick, m.price@)->0;
    if m.profile_id is Some {
        let f1 = fill(st.orders, m.taker_order_id@, size, price, ts);
        let f2 = fill(f1.0, m.maker_order_id@, size, price, ts);
        let sent = step(sym, st, GdaxEvent::Match(m)).1;
        assert(f1.1.len() <= 1 && f2.1.len() <= 1);
        assert forall|i: int| 0 <= i < sent.len() - 1 implies (#[trigger] sent[i] matches Sent::Notify(Notification::OrderUpdate(u))
            && u.consumed_price == price && u.consumed_size == size && u.timestamp == ts && u.commission == 0) by {
            if i < f1.1.len() {
                assert(sent[i] == f1.1[i]);
            } else {
                assert(sent[i] == f2.1[i - f1.1.len()]);
            }
        }
    }
}

/// A received order that converts is notified with its time, its size and
/// its price in ticks, the side that it names (`buy` a bid, `sell` an ask)
/// and its client order id (its server order id when it has none).
pub proof fn lemma_received_sent(sym: SymbolInfo, st: GdaxState, r: GdaxReceived)
    requires
        str_timestamp(r.time@) is Some,
        ticks_of(sym.size_tick, r.size@) is Some,
        ticks_of(sym.price_tick, r.price@) is Some,
        r.side@ == "buy"@ || r.side@ == "sell"@,
    ensures
        step(sym, st, GdaxEvent::Received(r)).2 is Ok,
        step(sym, st, GdaxEvent::Received(r)).1 == seq![Sent::Notify(Notification::OrderReceived(OrderReceived {
            timestamp: str_timestamp(r.time@)->0,
            order_id: if r.client_oid is Some { r.client_oid->0 } else { r.order_id },
            price: ticks_of(sym.price_tick, r.price@)->0,
            size: ticks_of(sym.size_tick, r.size@)->0,
            side: if r.side@ == "buy"@ { Side::Bid } else { Side::Ask },
        }))],
{
    reveal_strlit("buy");
    reveal_strlit("sell");
}

/// An order that is done expires, with its client order id and the time,
/// exactly when it was canceled and the stream knows it; otherwise nothing
/// is sent.
pub proof fn lemma_done_sent(sym: SymbolInfo, st: GdaxState, d: GdaxDone)
    requires
        str_timestamp(d.time@) is Some,
    ensures
        step(sym, st, GdaxEvent::Done(d)).2 is Ok,
        step(sym, st, GdaxEvent::Done(d)).0 == st,
        step(sym, st, GdaxEvent::Done(d)).1 == if d.reason@ == "canceled"@ && st.orders.contains_key(d.order_id@) {
            seq![Sent::Notify(Notification::OrderExpired(OrderExpired {
                timestamp: str_timestamp(d.time@)->0,
                order_id: st.orders[d.order_id@].order_id,
            }))]
        } else {
            Seq::<Sent>::empty()
        },
{
}

/// A channel of a GDAX subscription.
#[derive(Clone, PartialEq, Eq, Hash, Debug)]
pub enum GdaxChannel {
    /// A channel for the products of the subscription.
    Channel(String),
    /// A channel for the given products.
    WithProducts {
        /// Name of the channel.
        name: String,
        /// The products.
        product_ids: Vec<String>,
    },
}

/// The authentication of a GDAX subscription.
#[derive(Clone, PartialEq, Eq, Hash, Debug)]
pub struct GdaxAuth {
    /// The api key.
    pub key: String,
    /// The signature of the request, in base64.
    pub signature: String,
    /// Seconds since the epoch.
    pub timestamp: u64,
    /// The pass phrase.
    pub passphrase: String,
}

/// Subscription parameters to be sent to GDAX.
#[derive(Clone, PartialEq, Eq, Hash, Debug)]
pub struct GdaxSubscription {
    /// `subscribe`.
    pub type_: String,
    /// The products.
    pub product_ids: Vec<String>,
    /// The channels.
    pub channels: Vec<GdaxChannel>,
    /// The authentication, with a key pair.
    pub auth: Option<GdaxAuth>,
}

/// `c` is the channel `name`.
pub open spec fn is_channel(c: GdaxChannel, name: Seq<char>) -> bool {
    c matches GdaxChannel::Channel(n) && n@ == name
}

/// `sub` subscribes to the product `product`: its order book (`level2`),
/// its trades (`matches`), the heartbeats of the product and, for `user`,
/// the orders of the account.
pub open spec fn subscribes(sub: GdaxSubscription, product: Seq<char>, user: bool) -> bool {
    &&& sub.type_@ == "subscribe"@
    &&& sub.product_ids@.len() == 1
    &&& sub.product_ids@[0]@ == product
    &&& sub.channels@.len() == if user { 4nat } else { 3nat }
    &&& is_channel(sub.channels@[0], "level2"@)
    &&& is_channel(sub.channels@[1], "matches"@)
    &&& sub.channels@[2] matches GdaxChannel::WithProducts { name, product_ids }
        && name@ == "heartbeat"@ && product_ids@.len() == 1 && product_ids@[0]@ == product
    &&& user ==> is_channel(sub.channels@[3], "user"@)
}

/// `a` authenticates the subscription with the key pair `k` at `timestamp`
/// seconds: the signature is that of the timestamp followed by
/// `GET/users/self/verify`, with the secret key.
pub open spec fn authenticates(a: GdaxAuth, k: KeyPair, timestamp: u64) -> bool {
    &&& a.key@ == k.api_key()
    &&& a.passphrase@ == k.pass_phrase()
    &&& a.timestamp == timestamp
    &&& base64_decoded(k.secret_key()) matches Some(key)
        && a.signature@ == base64_encoded(hmac_sha256(key, encode_utf8(dec_digits(timestamp as nat) + "GET/users/self/verify"@)))
}

/// The handler of a GDAX stream for one symbol.
pub struct HandlerImpl {
    symbol: SymbolInfo,
    subscription: SubscriptionState,
    /// The orders of the account seen received, by server order id.
    orders: TextMap<OpenOrder>,
    /// The server order id of each client order id.
    order_ids: TextMap<String>,
}

impl HandlerImpl {
    /// The traded symbol.
    pub closed spec fn symbol(&self) -> SymbolInfo {
        self.symbol
    }

    /// The state of the stream.
    pub closed spec fn state(&self) -> GdaxState {
        GdaxState { subscription: self.subscription, orders: self.orders.view(), order_ids: self.order_ids.view() }
    }

    /// `parse_message` accepts the event `e`.
    pub open spec fn accepts(&self, e: GdaxEvent) -> bool {
        event_fits(self.symbol(), self.state(), e)
    }

    /// A handler for `symbol`, not yet subscribed, which knows no order.
    pub fn new(symbol: SymbolInfo) -> (h: Self)
        ensures
            h.symbol() == symbol,
            h.state().subscription == SubscriptionState::NotSubscribed,
            h.state().orders == Map::<Seq<char>, OpenOrder>::empty(),
            h.state().order_ids == Map::<Seq<char>, String>::empty(),
    {
        HandlerImpl {
            symbol,
            subscription: SubscriptionState::NotSubscribed,
            orders: TextMap::new(),
            order_ids: TextMap::new(),
        }
    }

    /// The subscription sent when the stream opens at `timestamp` seconds
    /// since the epoch, authenticated with `keys` if there are any; `None`
    /// if the request cannot be signed.
    pub fn subscription_request(&self, keys: Option<&KeyPair>, timestamp: u64) -> (r: Option<GdaxSubscription>)
        ensures
            match keys {
                None => (r matches Some(sub) && subscribes(sub, self.symbol().name@, false) && sub.auth is None),
                Some(k) => {
                    &&& base64_decoded(k.secret_key()) is None ==> r is None
                    &&& r matches Some(sub) ==> subscribes(sub, self.symbol().name@, true)
                        && (sub.auth matches Some(a) && authenticates(a, *k, timestamp))
                },
            },
    {
        let name = &self.symbol.name;
        let mut channels = vec![
            GdaxChannel::Channel("level2".to_string()),
            GdaxChannel::Channel("matches".to_string()),
            GdaxChannel::WithProducts { name: "heartbeat".to_string(), product_ids: vec![name.clone()] },
        ];
        let auth = match keys {
            None => None,
            Some(k) => {
                let what = stream_prehash(timestamp);
                let signature = match signature(k.secret_key_str(), what.as_str()) {
                    Some(s) => s,
                    None => return None,
                };
                channels.push(GdaxChannel::Channel("user".to_string()));
                Some(GdaxAuth { key: k.api_key_string(), signature, timestamp, passphrase: k.pass_phrase_string() })
            },
        };
        Some(GdaxSubscription { type_: "subscribe".to_string(), product_ids: vec![name.clone()], channels, auth })
    }

    /// The subscription sent when the stream opens now, authenticated with
    /// `keys` if there are any; `None` if the request cannot be signed, or
    /// the system clock cannot be read as a timestamp to sign it.
    pub fn on_open(&self, keys: Option<&KeyPair>) -> (r: Option<GdaxSubscription>)
        ensures
            match keys {
                None => (r matches Some(sub) && subscribes(sub, self.symbol().name@, false) && sub.auth is None),
                Some(k) => {
                    &&& base64_decoded(k.secret_key()) is None ==> r is None
                    &&& r matches Some(sub) ==> subscribes(sub, self.symbol().name@, true)
                        && (sub.auth matches Some(a) && authenticates(a, *k, a.timestamp))
                },
            },
    {
        match keys {
            None => self.subscription_request(None, 0),
            Some(_) => match timestamp_ms() {
                Some(ms) => self.subscription_request(keys, ms / 1000),
                None => None,
            },
        }
    }

    /// Whether the subscription is confirmed.
    pub fn subscription(&self) -> (s: SubscriptionState)
        ensures
            s == self.state().subscription,
    {
        self.subscription
    }

    /// The server order id of the order whose client order id is
    /// `client_order_id`, if the stream has seen it received.
    pub fn server_order_id(&self, client_order_id: &str) -> (r: Option<String>)
        ensures
            match r {
                Some(id) => self.state().order_ids.contains_key(client_order_id@)
                    && id@ == self.state().order_ids[client_order_id@]@,
                None => !self.state().order_ids.contains_key(client_order_id@),
            },
    {
        match self.order_ids.get(client_order_id) {
            Some(id) => Some(id.clone()),
            None => None,
        }
    }

    /// Record that the order whose client order id is `client_order_id` has
    /// the server order id `server_order_id`.
    pub fn record_order_id(&mut self, client_order_id: String, server_order_id: String)
        ensures
            final(self).symbol() == old(self).symbol(),
            final(self).state() == (GdaxState {
                order_ids: old(self).state().order_ids.insert(client_order_id@, server_order_id),
                ..old(self).state()
            }),
    {
        self.order_ids.insert(client_order_id, server_order_id);
    }

    /// Whether `parse_message` accepts the event `e`: its conversions stay
    /// in range, and the fills of a trade leave sizes.
    pub fn check_message(&self, e: &GdaxEvent) -> (b: bool)
        ensures
            b == self.accepts(*e),
    {
        let sym = &self.symbol;
        match e {
            GdaxEvent::Snapshot(s) => {
                let (bids_fit, bids_convert) = check_levels(sym, &s.bids);
                if !bids_fit {
                    return false;
                }
                if !bids_convert {
                    return true;
                }
                check_levels(sym, &s.asks).0
            },
            GdaxEvent::L2Update(cs) => check_changes(sym, cs),
            GdaxEvent::Match(m) => {
                if convert_str_timestamp(m.time.as_str()).is_none() {
                    return true;
                }
                let size = match sym.size_tick.probe(m.size.as_str()) {
                    None => return false,
                    Some(None) => return true,
                    Some(Some(size)) => size,
                };
                match sym.price_tick.probe(m.price.as_str()) {
                    None => return false,
                    Some(None) => return true,
                    Some(Some(_)) => {},
                }
                if m.profile_id.is_none() {
                    return true;
                }
                let taker_left = match self.orders.get(m.taker_order_id.as_str()) {
                    Some(o) => {
                        if o.size < size {
                            return false;
                        }
                        Some(o.size - size)
                    },
                    None => None,
                };
                let maker_size = if str_eq(m.maker_order_id.as_str(), m.taker_order_id.as_str()) {
                    taker_left
                } else {
                    match self.orders.get(m.maker_order_id.as_str()) {
                        Some(o) => Some(o.size),
                        None => None,
                    }
                };
                match maker_size {
                    Some(left) => left >= size,
                    None => true,
                }
            },
            GdaxEvent::Received(r) => {
                if convert_str_timestamp(r.time.as_str()).is_none() {
                    return true;
                }
                match sym.size_tick.probe(r.size.as_str()) {
                    None => false,
                    Some(None) => true,
                    Some(Some(_)) => sym.price_tick.probe(r.price.as_str()).is_some(),
                }
            },
            _ => true,
        }
    }

    /// Convert the event `e` into notifications, keeping track of the
    /// subscription and of the orders of the account: a confirmed
    /// subscription is recorded; a snapshot or changes of the order book
    /// give their limit updates; a trade of the account fills its orders;
    /// a received order is recorded, with its client order id; a canceled
    /// order that the stream knows expires; an error of the exchange is
    /// reported.
    pub fn parse_message(&mut self, e: GdaxEvent) -> (r: Result<Vec<Notification>, MessageError>)
        requires
            old(self).accepts(e),
        ensures
            final(self).symbol() == old(self).symbol(),
            final(self).state() == step(old(self).symbol(), old(self).state(), e).0,
            match step(old(self).symbol(), old(self).state(), e).2 {
                Ok(_) => r matches Ok(ns) && are_sent(ns@, step(old(self).symbol(), old(self).state(), e).1),
                Err(f) => r matches Err(err) && failed_with(err, f),
            },
    {
        match e {
            GdaxEvent::Subscribe => {
                self.subscription = SubscriptionState::Subscribed;
                Ok(Vec::new())
            },
            GdaxEvent::Snapshot(s) => {
                let mut updates: Vec<LimitUpdate> = Vec::new();
                proof {
                    lemma_levels_ok(self.symbol, s.bids@, Side::Bid);
                }
                if let Err(err) = convert_levels(&self.symbol, &s.bids, Side::Bid, &mut updates) {
                    return Err(MessageError::Conversion(err));
                }
                if let Err(err) = convert_levels(&self.symbol, &s.asks, Side::Ask, &mut updates) {
                    return Err(MessageError::Conversion(err));
                }
                let ns = vec![Notification::LimitUpdates(updates)];
                assert(is_sent(ns@[0], seq![Sent::Updates(updates@)][0]));
                Ok(ns)
            },
            GdaxEvent::L2Update(cs) => {
                let updates = convert_changes(&self.symbol, &cs)?;
                let ns = vec![Notification::LimitUpdates(updates)];
                assert(is_sent(ns@[0], seq![Sent::Updates(updates@)][0]));
                Ok(ns)
            },
            GdaxEvent::Match(m) => {
                let ts = read_timestamp(&m.time)?;
                let size = ticks(self.symbol.size_tick, &m.size)?;
                let price = ticks(self.symbol.price_tick, &m.price)?;
                let mut ns: Vec<Notification> = Vec::new();
                let ghost orders0 = self.orders.view();
                if m.profile_id.is_some() {
                    if let Some(n) = fill_order(&mut self.orders, &m.taker_order_id, size, price, ts) {
                        ns.push(n);
                    }
                    assert(fill(orders0, m.taker_order_id@, size, price, ts).0 == fill(orders0, m.taker_order_id@, size, price, 0).0);
                    if let Some(n) = fill_order(&mut self.orders, &m.maker_order_id, size, price, ts) {
                        ns.push(n);
                    }
                }
                let maker_side = match convert_gdax_side(m.side.as_str()) {
                    Ok(side) => side,
                    Err(name) => return Err(MessageError::WrongSide(name)),
                };
                ns.push(Notification::Trade(Trade { timestamp: ts, price, size, maker_side }));
                proof {
                    let sent = match_step(self.symbol, orders0, m).1;
                    assert(ns@.len() == sent.len());
                    assert forall|k: int| 0 <= k < ns@.len() implies is_sent(#[trigger] ns@[k], sent[k]) by {}
                }
                Ok(ns)
            },
            GdaxEvent::Received(r) => {
                let ts = read_timestamp(&r.time)?;
                let size = ticks(self.symbol.size_tick, &r.size)?;
                let price = ticks(self.symbol.price_tick, &r.price)?;
                let side = match convert_gdax_side(r.side.as_str()) {
                    Ok(side) => side,
                    Err(name) => return Err(MessageError::WrongSide(name)),
                };
                let order_id = match &r.client_oid {
                    Some(id) => id.clone(),
                    None => r.order_id.clone(),
                };
                self.order_ids.insert(order_id.clone(), r.order_id.clone());
                self.orders.insert(r.order_id.clone(), OpenOrder { size, price, side, order_id: order_id.clone() });
                let ns = vec![Notification::OrderReceived(OrderReceived { timestamp: ts, order_id, price, size, side })];
                Ok(ns)
            },
            GdaxEvent::Done(d) => {
                let ts = read_timestamp(&d.time)?;
                if !str_eq(d.reason.as_str(), "canceled") {
                    return Ok(Vec::new());
                }
                match self.orders.get(d.order_id.as_str()) {
                    Some(o) => Ok(vec![Notification::OrderExpired(OrderExpired { timestamp: ts, order_id: o.order_id.clone() })]),
                    None => Ok(Vec::new()),
                }
            },
            GdaxEvent::Error(err) => Err(MessageError::Server(err.message, err.reason)),
            GdaxEvent::Other => Ok(Vec::new()),
        }
    }
}

} // verus!
