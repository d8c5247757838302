//! What a trading prompt shows and how the events of a session change it:
//! the orders of the account that are still open, the last message, and
//! the order book.

use vstd::prelude::*;
use crate::api::{Cancel, Notification, Order, OrderAck, OrderUpdate};
use crate::decimal::{dec_digits, push_decimal};
use crate::order_book::{BookSides, OrderBook};
use crate::text_map::TextMap;

verus! {

/// An event shown by the prompt: the outcome of a request, a notification
/// of the exchange, the new order book or a message. A failed request
/// carries the description of its error.
#[derive(Debug)]
pub enum PullEvent {
    /// An order was sent: the order with the id that the exchange
    /// acknowledged, or the error.
    OrderAck(Result<Order, String>),
    /// A cancel was sent: the cancel, or the error.
    CancelAck(Result<Cancel, String>),
    /// An order of the account was filled.
    OrderUpdate(OrderUpdate),
    /// The order with this id has expired.
    OrderExpired(String),
    /// The order book changed.
    OrderBook(OrderBook),
    /// A message to show.
    Message(String),
}

/// The text `prefix`, then `id` in backquotes, then `suffix`.
pub open spec fn quoted(prefix: Seq<char>, id: Seq<char>, suffix: Seq<char>) -> Seq<char> {
    prefix + "`"@ + id + "`"@ + suffix
}

/// The orders of the account and the message shown after the event `e`,
/// from the orders `orders`: an acknowledged order is added, a canceled or
/// expired one is removed, a filled one keeps what is left of it and is
/// removed when nothing is; an event about an unknown order is reported.
pub open spec fn after_event(orders: Map<Seq<char>, Order>, output: Seq<char>, e: PullEvent) -> (Map<Seq<char>, Order>, Seq<char>) {
    match e {
        PullEvent::OrderAck(Ok(o)) => {
            let id = o.order_id->Some_0@;
            (orders.insert(id, o), quoted("inserted order "@, id, ""@))
        },
        PullEvent::OrderAck(Err(msg)) => (orders, msg@),
        PullEvent::CancelAck(Ok(c)) => if orders.contains_key(c.order_id@) {
            (orders.remove(c.order_id@), quoted("canceled order "@, c.order_id@, ""@))
        } else {
            (orders, quoted("received `CancelAck` for unknown order "@, c.order_id@, ""@))
        },
        PullEvent::CancelAck(Err(msg)) => (orders, msg@),
        PullEvent::OrderUpdate(u) => if orders.contains_key(u.order_id@) {
            let filled = quoted("filled order "@, u.order_id@, " with quantity "@) + dec_digits(u.consumed_size as nat);
            if u.remaining_size == 0 {
                (orders.remove(u.order_id@), filled)
            } else {
                (orders.insert(u.order_id@, Order { size: u.remaining_size, ..orders[u.order_id@] }), filled)
            }
        } else {
            (orders, quoted("received `OrderUpdate` for unknown order "@, u.order_id@, ""@))
        },
        PullEvent::OrderExpired(id) => if orders.contains_key(id@) {
            (orders.remove(id@), quoted("order "@, id@, " has expired"@))
        } else {
            (orders, quoted("received `OrderExpired` for unknown order "@, id@, ""@))
        },
        PullEvent::OrderBook(_) => (orders, output),
        PullEvent::Message(msg) => (orders, msg@),
    }
}

/// Canceling an order that was just acknowledged, and that was not open
/// before, leaves the open orders as they were.
pub proof fn lemma_ack_then_cancel(orders: Map<Seq<char>, Order>, output: Seq<char>, o: Order, c: Cancel)
    requires
        o.order_id matches Some(id) && id@ == c.order_id@,
        !orders.contains_key(c.order_id@),
    ensures
        ({
            let (acked, out) = after_event(orders, output, PullEvent::OrderAck(Ok(o)));
            after_event(acked, out, PullEvent::CancelAck(Ok(c))).0 == orders
        }),
{
    let (acked, out) = after_event(orders, output, PullEvent::OrderAck(Ok(o)));
    assert(after_event(acked, out, PullEvent::CancelAck(Ok(c))).0 =~= orders);
}

/// An open order is no longer open once it is filled with nothing left,
/// canceled, or expired; while something is left, what is left is what the
/// last fill says.
pub proof fn lemma_order_closes(orders: Map<Seq<char>, Order>, output: Seq<char>, e: PullEvent)
    ensures
        match e {
            PullEvent::OrderUpdate(u) => {
                &&& u.remaining_size == 0 ==> !after_event(orders, output, e).0.contains_key(u.order_id@)
                &&& u.remaining_size > 0 && orders.contains_key(u.order_id@)
                    ==> after_event(orders, output, e).0[u.order_id@].size == u.remaining_size
            },
            PullEvent::CancelAck(Ok(c)) => !after_event(orders, output, e).0.contains_key(c.order_id@),
            PullEvent::OrderExpired(id) => !after_event(orders, output, e).0.contains_key(id@),
            _ => true,
        },
{
}

/// `prefix`, then `id` in backquotes, then `suffix`.
fn quoted_text(prefix: &str, id: &str, suffix: &str) -> (s: String)
    ensures
        s@ == quoted(prefix@, id@, suffix@),
{
    let mut s = String::new();
    s.append(prefix);
    s.append("`");
    s.append(id);
    s.append("`");
    s.append(suffix);
    s
}

/// A copy of the text `s`, if any.
fn copy_id(s: &Option<String>) -> (r: Option<String>)
    ensures
        r == *s,
{
    match s {
        Some(id) => Some(id.clone()),
        None => None,
    }
}

/// The event that the outcome `ack` of sending `order` gives: the order
/// with the id that the exchange acknowledged, or the error.
pub fn order_acknowledged(order: Order, ack: Result<OrderAck, String>) -> (e: PullEvent)
    ensures
        match ack {
            Ok(a) => e == PullEvent::OrderAck(Ok(Order { order_id: Some(a.order_id), ..order })),
            Err(msg) => e == PullEvent::OrderAck(Err(msg)),
        },
{
    match ack {
        Ok(a) => PullEvent::OrderAck(Ok(Order { order_id: Some(a.order_id), ..order })),
        Err(msg) => PullEvent::OrderAck(Err(msg)),
    }
}

/// Keep `book` up to date with the notification `notif`, and give the event
/// that the prompt shows of it, if any: the new order book after limit
/// updates (applied in order), a fill or an expiration of an order of the
/// account.
pub fn process_notif(book: &mut OrderBook, notif: Notification) -> (e: Option<PullEvent>)
    ensures
        match notif {
            Notification::LimitUpdates(us) => final(book)@ == old(book)@.apply_all(us@)
                && (e matches Some(PullEvent::OrderBook(b)) && b@ == final(book)@),
            Notification::OrderUpdate(u) => final(book)@ == old(book)@ && e == Some(PullEvent::OrderUpdate(u)),
            Notification::OrderExpired(x) => final(book)@ == old(book)@
                && (e matches Some(PullEvent::OrderExpired(id)) && id == x.order_id),
            _ => final(book)@ == old(book)@ && e is None,
        },
{
    match notif {
        Notification::LimitUpdates(updates) => {
            book.update_all(&updates);
            Some(PullEvent::OrderBook(book.clone()))
        },
        Notification::OrderUpdate(u) => Some(PullEvent::OrderUpdate(u)),
        Notification::OrderExpired(x) => Some(PullEvent::OrderExpired(x.order_id)),
        _ => None,
    }
}

/// What a trading prompt shows.
pub struct Prompt {
    /// The open orders of the account, by order id.
    orders: TextMap<Order>,
    /// The last message.
    output: String,
    /// The order book.
    order_book: OrderBook,
}

impl Prompt {
    /// The open orders of the account, by order id.
    pub closed spec fn open_orders(&self) -> Map<Seq<char>, Order> {
        self.orders.view()
    }

    /// The last message.
    pub closed spec fn message(&self) -> Seq<char> {
        self.output@
    }

    /// The order book.
    pub closed spec fn book(&self) -> BookSides {
        self.order_book@
    }

    /// A prompt with no order, no message and an empty order book.
    pub fn new() -> (p: Self)
        ensures
            p.open_orders() == Map::<Seq<char>, Order>::empty(),
            p.message() == Seq::<char>::empty(),
            p.book().bid == Map::<u64, u64>::empty(),
            p.book().ask == Map::<u64, u64>::empty(),
    {
        Prompt { orders: TextMap::new(), output: String::new(), order_book: OrderBook::new() }
    }

    /// The last message.
    pub fn output(&self) -> (s: &str)
        ensures
            s@ == self.message(),
    {
        self.output.as_str()
    }

    /// The order book.
    pub fn order_book(&self) -> (b: &OrderBook)
        ensures
            b@ == self.book(),
    {
        &self.order_book
    }

    /// The ids of the open orders of the account, each once, in no
    /// particular order.
    pub fn order_ids(&self) -> (r: Vec<String>)
        ensures
            r@.len() == self.open_orders().dom().len(),
            forall|i: int| 0 <= i < r@.len() ==> self.open_orders().contains_key(#[trigger] r@[i]@),
            forall|k: Seq<char>| #[trigger] self.open_orders().contains_key(k)
                ==> exists|i: int| 0 <= i < r@.len() && (#[trigger] r@[i])@ == k,
    {
        self.orders.keys()
    }

    /// The open order of the account whose id is `order_id`, if any.
    pub fn order(&self, order_id: &str) -> (r: Option<&Order>)
        ensures
            match r {
                Some(o) => self.open_orders().contains_key(order_id@) && *o == self.open_orders()[order_id@],
                None => !self.open_orders().contains_key(order_id@),
            },
    {
        self.orders.get(order_id)
    }

    /// Show the event `e`.
    pub fn process_event(&mut self, e: PullEvent)
        requires
            e matches PullEvent::OrderAck(Ok(o)) ==> o.order_id is Some,
        ensures
            (final(self).open_orders(), final(self).message()) == after_event(old(self).open_orders(), old(self).message(), e),
            final(self).book() == match e {
                PullEvent::OrderBook(b) => b@,
                _ => old(self).book(),
            },
    {
        match e {
            PullEvent::OrderAck(Ok(order)) => {
                let id = match &order.order_id {
                    Some(id) => id.clone(),
                    None => return,
                };
                self.output = quoted_text("inserted order ", id.as_str(), "");
                self.orders.insert(id, order);
            },
            PullEvent::OrderAck(Err(msg)) => {
                self.output = msg;
            },
            PullEvent::CancelAck(Ok(cancel)) => {
                let id = cancel.order_id.as_str();
                match self.orders.remove(id) {
                    Some(_) => {
                        self.output = quoted_text("canceled order ", id, "");
                    },
                    None => {
                        self.output = quoted_text("received `CancelAck` for unknown order ", id, "");
                    },
                }
            },
            PullEvent::CancelAck(Err(msg)) => {
                self.output = msg;
            },
            PullEvent::OrderUpdate(update) => {
                let id = update.order_id.as_str();
                let left = match self.orders.get(id) {
                    Some(o) => Order {
                        price: o.price,
                        size: update.remaining_size,
                        side: o.side,
                        time_in_force: o.time_in_force,
                        time_window: o.time_window,
                        order_id: copy_id(&o.order_id),
                    },
                    None => {
                        self.output = quoted_text("received `OrderUpdate` for unknown order ", id, "");
                        return;
                    },
                };
                let mut filled = quoted_text("filled order ", id, " with quantity ");
                push_decimal(&mut filled, update.consumed_size as u128);
                self.output = filled;
                if update.remaining_size == 0 {
                    self.orders.remove(id);
                } else {
                    self.orders.insert(update.order_id.clone(), left);
                }
            },
            PullEvent::OrderExpired(id) => {
                match self.orders.remove(id.as_str()) {
                    Some(_) => {
                        self.output = quoted_text("order ", id.as_str(), " has expired");
                    },
                    None => {
                        self.output = quoted_text("received `OrderExpired` for unknown order ", id.as_str(), "");
                    },
                }
            },
            PullEvent::OrderBook(book) => {
                self.order_book = book;
            },
            PullEvent::Message(msg) => {
                self.output = msg;
            },
        }
    }
}

} // verus!
