//! A complete trading matching engine: can be used for e.g. simulations, or
//! for implementing an exchange.
//!
//! Orders rest in FIFO queues, one per price limit. An incoming limit order
//! first crosses the opposite side of the book, best price first and oldest
//! order first within a price limit; whatever remains of it then rests at its
//! own price.

pub mod arena;

use std::collections::BTreeMap;
use vstd::prelude::*;
use self::arena::{Arena, Index};
use crate::decimal::{dec_digits, push_decimal};
use crate::price_map::{first_key_at_or_above, last_key_at_or_below};

verus! {

/// A price, in ticks.
pub type Price = u64;

/// An identifier of the owner of an order.
pub type TraderId = usize;

/// An identifier which uniquely determines an order.
pub type OrderId = usize;

/// Side of an order.
#[derive(Copy, Clone, PartialEq, Eq, Hash, Debug, Structural)]
pub enum Side {
    /// Buy order.
    Buy,
    /// Sell order.
    Sell,
}

/// An order.
#[derive(Copy, Clone, PartialEq, Eq, Hash, Debug, Structural)]
pub struct Order {
    /// Order price.
    pub price: Price,
    /// Order size, in atomic asset units.
    pub size: usize,
    /// Order side: `Buy` or `Sell`.
    pub side: Side,
    /// ID of the order owner.
    pub trader: TraderId,
}

/// A limit order at some price limit of the order book.
#[derive(Copy, Clone, PartialEq, Eq, Hash, Debug)]
struct BookEntry {
    /// Size of the limit order.
    size: usize,
    /// Pointer to the next order at this price limit. If `None`, then this
    /// entry is the last one at this price limit.
    next: Option<Index>,
    /// ID of the order.
    order_id: OrderId,
}

/// Pointers to the first and last entries of the list of a price limit.
#[derive(Copy, Clone, PartialEq, Eq, Hash, Debug)]
struct Link {
    head: Index,
    tail: Index,
}

/// A price limit in the order book. If `link` is `None`, the limit is empty.
#[derive(Copy, Clone, PartialEq, Eq, Hash, Debug)]
struct PriceLimit {
    link: Option<Link>,
}

/// A resting order, as seen from outside: its id and its remaining size.
pub type Resting = (OrderId, usize);

/// The abstract state of a matching engine.
pub struct BookView {
    /// The queue of resting orders at each price limit that was ever used,
    /// oldest first. A price limit may be present with an empty queue.
    pub levels: Map<Price, Seq<Resting>>,
    /// Best bid price, `0` when there is no bid.
    pub best_bid: Price,
    /// Best ask price, `Price::MAX` when there is no ask.
    pub best_ask: Price,
    /// The id that the next inserted order receives.
    pub next_id: OrderId,
}

/// The queue of resting orders at price `p` (empty if there is none).
pub open spec fn level(levels: Map<Price, Seq<Resting>>, p: int) -> Seq<Resting> {
    if 0 <= p <= u64::MAX && levels.dom().contains(p as u64) {
        levels[p as u64]
    } else {
        Seq::empty()
    }
}

/// Whether some order rests at price `p`.
pub open spec fn nonempty(levels: Map<Price, Seq<Resting>>, p: int) -> bool {
    level(levels, p).len() > 0
}

/// Total size of the orders of a queue.
pub open spec fn queue_volume(q: Seq<Resting>) -> nat
    decreases q.len(),
{
    if q.len() == 0 {
        0
    } else {
        q[0].1 as nat + queue_volume(q.drop_first())
    }
}

/// Cross an incoming order of size `size` through queue `q`, oldest order
/// first. Return the queue left, the size left of the incoming order and
/// whether it was completely filled before the queue was exhausted.
pub open spec fn exec_queue(q: Seq<Resting>, size: nat) -> (Seq<Resting>, nat, bool)
    decreases q.len(),
{
    if q.len() == 0 {
        (q, size, false)
    } else if q[0].1 <= size {
        exec_queue(q.drop_first(), (size - q[0].1) as nat)
    } else {
        (q.update(0, (q[0].0, (q[0].1 - size) as usize)), 0, true)
    }
}

/// The result of crossing an order through price limits.
pub struct Sweep {
    /// The price limits afterwards.
    pub levels: Map<Price, Seq<Resting>>,
    /// The size left of the incoming order.
    pub left: nat,
    /// The price limit at which the incoming order was completely filled
    /// with orders still resting there, if any.
    pub stop: Option<Price>,
    /// Whether at least one non-empty price limit was crossed.
    pub filled: bool,
}

/// Cross an incoming buy order of size `size` through the price limits from
/// `lo` up to `hi`.
pub open spec fn sweep_up(levels: Map<Price, Seq<Resting>>, lo: int, hi: int, size: nat) -> Sweep
    decreases hi - lo + 1,
{
    if lo > hi {
        Sweep { levels, left: size, stop: None, filled: false }
    } else if !nonempty(levels, lo) {
        sweep_up(levels, lo + 1, hi, size)
    } else {
        let (q, left, done) = exec_queue(level(levels, lo), size);
        if done {
            Sweep { levels: levels.insert(lo as u64, q), left, stop: Some(lo as u64), filled: true }
        } else {
            let rest = sweep_up(levels.insert(lo as u64, q), lo + 1, hi, left);
            Sweep { filled: true, ..rest }
        }
    }
}

/// Cross an incoming sell order of size `size` through the price limits from
/// `hi` down to `lo`.
pub open spec fn sweep_down(levels: Map<Price, Seq<Resting>>, lo: int, hi: int, size: nat) -> Sweep
    decreases hi - lo + 1,
{
    if lo > hi {
        Sweep { levels, left: size, stop: None, filled: false }
    } else if !nonempty(levels, hi) {
        sweep_down(levels, lo, hi - 1, size)
    } else {
        let (q, left, done) = exec_queue(level(levels, hi), size);
        if done {
            Sweep { levels: levels.insert(hi as u64, q), left, stop: Some(hi as u64), filled: true }
        } else {
            let rest = sweep_down(levels.insert(hi as u64, q), lo, hi - 1, left);
            Sweep { filled: true, ..rest }
        }
    }
}

/// The lowest price at or above `from` at which some order rests.
pub open spec fn first_nonempty_up(levels: Map<Price, Seq<Resting>>, from: int) -> Option<Price>
    decreases u64::MAX + 1 - from,
{
    if from > u64::MAX {
        None
    } else if nonempty(levels, from) {
        Some(from as u64)
    } else {
        first_nonempty_up(levels, from + 1)
    }
}

/// The highest price at or below `from` at which some order rests.
pub open spec fn first_nonempty_down(levels: Map<Price, Seq<Resting>>, from: int) -> Option<Price>
    decreases from + 1,
{
    if from < 0 {
        None
    } else if nonempty(levels, from) {
        Some(from as u64)
    } else {
        first_nonempty_down(levels, from - 1)
    }
}

impl BookView {
    /// The book is not crossed: every resting order is either a bid at or
    /// below the best bid or an ask at or above the best ask, the best bid
    /// is below the best ask, and each of them is a non-empty price limit
    /// unless its side is empty.
    pub open spec fn uncrossed(self) -> bool {
        &&& self.best_bid < self.best_ask
        &&& self.best_bid == 0 || nonempty(self.levels, self.best_bid as int)
        &&& self.best_ask == u64::MAX || nonempty(self.levels, self.best_ask as int)
        &&& forall|p: int| #[trigger] nonempty(self.levels, p) ==> p <= self.best_bid || p >= self.best_ask
    }

    /// Insert `order` in the book without crossing it.
    pub open spec fn insert(self, order: Order) -> BookView {
        BookView {
            levels: self.levels.insert(
                order.price,
                level(self.levels, order.price as int).push((self.next_id, order.size)),
            ),
            best_bid: if order.side == Side::Buy && order.price > self.best_bid {
                order.price
            } else {
                self.best_bid
            },
            best_ask: if order.side == Side::Sell && order.price < self.best_ask {
                order.price
            } else {
                self.best_ask
            },
            next_id: (self.next_id + 1) as usize,
        }
    }

    /// Whether `order` crosses the opposite side of the book.
    pub open spec fn marketable(self, order: Order) -> bool {
        match order.side {
            Side::Buy => order.price >= self.best_ask,
            Side::Sell => order.price <= self.best_bid,
        }
    }

    /// The crossing of a marketable `order` through the opposite side.
    pub open spec fn sweep(self, order: Order) -> Sweep {
        match order.side {
            Side::Buy => sweep_up(self.levels, self.best_ask as int, order.price as int, order.size as nat),
            Side::Sell => sweep_down(self.levels, order.price as int, self.best_bid as int, order.size as nat),
        }
    }

    /// Submit a limit order: the book afterwards, and the id of the order if
    /// some part of it was inserted in the book.
    pub open spec fn limit(self, order: Order) -> (BookView, Option<OrderId>) {
        let s = self.sweep(order);
        if !self.marketable(order) || !s.filled {
            (self.insert(order), Some(self.next_id))
        } else {
            let after = match order.side {
                Side::Buy => {
                    let from = match s.stop {
                        Some(p) => p as int,
                        None => order.price + 1,
                    };
                    BookView {
                        levels: s.levels,
                        best_ask: match first_nonempty_up(s.levels, from) {
                            Some(p) => p,
                            None => u64::MAX,
                        },
                        ..self
                    }
                },
                Side::Sell => {
                    let from = match s.stop {
                        Some(p) => p as int,
                        None => order.price - 1,
                    };
                    BookView {
                        levels: s.levels,
                        best_bid: match first_nonempty_down(s.levels, from) {
                            Some(p) => p,
                            None => 0,
                        },
                        ..self
                    }
                },
            };
            if s.left > 0 {
                (after.insert(Order { size: s.left as usize, ..order }), Some(self.next_id))
            } else {
                (after, None)
            }
        }
    }

    /// The inputs on which `limit` computes a price beyond the range of
    /// `Price`: a buy order at `Price::MAX` or a sell order at `0` that is
    /// not completely filled by resting orders.
    pub open spec fn limit_overflows(self, order: Order) -> bool {
        ||| order.side == Side::Buy && order.price == u64::MAX && self.sweep(order).stop is None
        ||| order.side == Side::Sell && order.price == 0 && self.sweep(order).stop is None
    }
}

/// Price limits without resting orders do not change a crossing.
proof fn lemma_sweep_up_skip(levels: Map<Price, Seq<Resting>>, a: int, b: int, hi: int, size: nat)
    requires
        a <= b <= hi + 1,
        forall|p: int| a <= p < b ==> !#[trigger] nonempty(levels, p),
    ensures
        sweep_up(levels, a, hi, size) == sweep_up(levels, b, hi, size),
    decreases b - a,
{
    if a < b {
        assert(!nonempty(levels, a));
        lemma_sweep_up_skip(levels, a + 1, b, hi, size);
    }
}

/// Price limits without resting orders do not change a crossing.
proof fn lemma_sweep_down_skip(levels: Map<Price, Seq<Resting>>, lo: int, a: int, b: int, size: nat)
    requires
        lo - 1 <= a <= b,
        forall|p: int| a < p <= b ==> !#[trigger] nonempty(levels, p),
    ensures
        sweep_down(levels, lo, b, size) == sweep_down(levels, lo, a, size),
    decreases b - a,
{
    if a < b {
        assert(!nonempty(levels, b));
        lemma_sweep_down_skip(levels, lo, a, b - 1, size);
    }
}

/// Price limits without resting orders are skipped by the search upwards.
proof fn lemma_first_up_skip(levels: Map<Price, Seq<Resting>>, a: int, b: int)
    requires
        a <= b <= u64::MAX + 1,
        forall|p: int| a <= p < b ==> !#[trigger] nonempty(levels, p),
    ensures
        first_nonempty_up(levels, a) == first_nonempty_up(levels, b),
    decreases b - a,
{
    if a < b {
        assert(!nonempty(levels, a));
        lemma_first_up_skip(levels, a + 1, b);
    }
}

/// Price limits without resting orders are skipped by the search downwards.
proof fn lemma_first_down_skip(levels: Map<Price, Seq<Resting>>, a: int, b: int)
    requires
        -1 <= a <= b,
        forall|p: int| a < p <= b ==> !#[trigger] nonempty(levels, p),
    ensures
        first_nonempty_down(levels, b) == first_nonempty_down(levels, a),
    decreases b - a,
{
    if a < b {
        assert(!nonempty(levels, b));
        lemma_first_down_skip(levels, a, b - 1);
    }
}

/// What crossing a queue leaves: a completely filled order leaves a
/// non-empty queue and nothing of itself, otherwise the queue is exhausted.
proof fn lemma_exec_queue(q: Seq<Resting>, size: nat)
    ensures
        exec_queue(q, size).2 ==> exec_queue(q, size).0.len() > 0 && exec_queue(q, size).1 == 0,
        !exec_queue(q, size).2 ==> exec_queue(q, size).0.len() == 0,
        exec_queue(q, size).1 <= size,
    decreases q.len(),
{
    if q.len() > 0 && q[0].1 <= size {
        lemma_exec_queue(q.drop_first(), (size - q[0].1) as nat);
    }
}

/// What crossing the price limits from `lo` up to `hi` leaves: the limits
/// outside the range are unchanged; those crossed are exhausted, except the
/// one at which the order was completely filled; those beyond it are
/// unchanged.
proof fn lemma_sweep_up(levels: Map<Price, Seq<Resting>>, lo: int, hi: int, size: nat)
    ensures
        ({
            let s = sweep_up(levels, lo, hi, size);
            &&& forall|p: int| (p < lo || p > hi) ==> #[trigger] level(s.levels, p) == level(levels, p)
            &&& s.stop is None ==> forall|p: int| lo <= p <= hi ==> !#[trigger] nonempty(s.levels, p)
            &&& s.stop is Some ==> {
                &&& lo <= s.stop->0 <= hi
                &&& nonempty(s.levels, s.stop->0 as int)
                &&& s.left == 0
                &&& s.filled
                &&& forall|p: int| lo <= p < s.stop->0 ==> !#[trigger] nonempty(s.levels, p)
                &&& forall|p: int| s.stop->0 < p <= hi ==> #[trigger] level(s.levels, p) == level(levels, p)
            }
            &&& (lo <= hi && nonempty(levels, lo)) ==> s.filled
            &&& !s.filled ==> s.levels == levels && s.left == size && s.stop is None
            &&& s.left <= size
        }),
    decreases hi - lo + 1,
{
    if lo <= hi {
        if !nonempty(levels, lo) {
            lemma_sweep_up(levels, lo + 1, hi, size);
        } else {
            let (q, left, done) = exec_queue(level(levels, lo), size);
            lemma_exec_queue(level(levels, lo), size);
            let l2 = levels.insert(lo as u64, q);
            assert forall|p: int| p != lo implies #[trigger] level(l2, p) == level(levels, p) by {}
            assert(level(l2, lo) == q);
            if !done {
                lemma_sweep_up(l2, lo + 1, hi, left);
            }
        }
    }
}

/// What crossing the price limits from `hi` down to `lo` leaves: the limits
/// outside the range are unchanged; those crossed are exhausted, except the
/// one at which the order was completely filled; those beyond it are
/// unchanged.
proof fn lemma_sweep_down(levels: Map<Price, Seq<Resting>>, lo: int, hi: int, size: nat)
    ensures
        ({
            let s = sweep_down(levels, lo, hi, size);
            &&& forall|p: int| (p < lo || p > hi) ==> #[trigger] level(s.levels, p) == level(levels, p)
            &&& s.stop is None ==> forall|p: int| lo <= p <= hi ==> !#[trigger] nonempty(s.levels, p)
            &&& s.stop is Some ==> {
                &&& lo <= s.stop->0 <= hi
                &&& nonempty(s.levels, s.stop->0 as int)
                &&& s.left == 0
                &&& s.filled
                &&& forall|p: int| s.stop->0 < p <= hi ==> !#[trigger] nonempty(s.levels, p)
                &&& forall|p: int| lo <= p < s.stop->0 ==> #[trigger] level(s.levels, p) == level(levels, p)
            }
            &&& (lo <= hi && nonempty(levels, hi)) ==> s.filled
            &&& !s.filled ==> s.levels == levels && s.left == size && s.stop is None
            &&& s.left <= size
        }),
    decreases hi - lo + 1,
{
    if lo <= hi {
        if !nonempty(levels, hi) {
            lemma_sweep_down(levels, lo, hi - 1, size);
        } else {
            let (q, left, done) = exec_queue(level(levels, hi), size);
            lemma_exec_queue(level(levels, hi), size);
            let l2 = levels.insert(hi as u64, q);
            assert forall|p: int| p != hi implies #[trigger] level(l2, p) == level(levels, p) by {}
            assert(level(l2, hi) == q);
            if !done {
                lemma_sweep_down(l2, lo, hi - 1, left);
            }
        }
    }
}

/// The search upwards finds the lowest non-empty price limit.
proof fn lemma_first_up(levels: Map<Price, Seq<Resting>>, from: int)
    ensures
        match first_nonempty_up(levels, from) {
            Some(p) => from <= p && nonempty(levels, p as int)
                && forall|x: int| from <= x < p ==> !#[trigger] nonempty(levels, x),
            None => forall|x: int| from <= x <= u64::MAX ==> !#[trigger] nonempty(levels, x),
        },
    decreases u64::MAX + 1 - from,
{
    if from <= u64::MAX && !nonempty(levels, from) {
        lemma_first_up(levels, from + 1);
    }
}

/// The search downwards finds the highest non-empty price limit.
proof fn lemma_first_down(levels: Map<Price, Seq<Resting>>, from: int)
    ensures
        match first_nonempty_down(levels, from) {
            Some(p) => p <= from && nonempty(levels, p as int)
                && forall|x: int| p < x <= from ==> !#[trigger] nonempty(levels, x),
            None => forall|x: int| 0 <= x <= from ==> !#[trigger] nonempty(levels, x),
        },
    decreases from + 1,
{
    if from >= 0 && !nonempty(levels, from) {
        lemma_first_down(levels, from - 1);
    }
}

/// Submitting a limit order keeps the book uncrossed.
pub proof fn lemma_limit_uncrossed(book: BookView, order: Order)
    requires
        book.uncrossed(),
        !book.limit_overflows(order),
    ensures
        book.limit(order).0.uncrossed(),
{
    let s = book.sweep(order);
    let after = book.limit(order).0;
    match order.side {
        Side::Buy => {
            lemma_sweep_up(book.levels, book.best_ask as int, order.price as int, order.size as nat);
            if book.marketable(order) && s.filled {
                let from = match s.stop {
                    Some(p) => p as int,
                    None => order.price + 1,
                };
                lemma_first_up(s.levels, from);
                let mid = BookView {
                    levels: s.levels,
                    best_ask: match first_nonempty_up(s.levels, from) {
                        Some(p) => p,
                        None => u64::MAX,
                    },
                    ..book
                };
                assert(mid.uncrossed()) by {
                    assert forall|p: int| #[trigger] nonempty(mid.levels, p) implies p <= mid.best_bid || p >= mid.best_ask by {
                        if book.best_ask <= p <= order.price {
                            assert(p >= from);
                        } else if p > order.price {
                            assert(nonempty(book.levels, p));
                        } else {
                            assert(nonempty(book.levels, p));
                        }
                    }
                    assert(level(mid.levels, book.best_bid as int) == level(book.levels, book.best_bid as int));
                }
                if s.left > 0 {
                    let o2 = Order { size: s.left as usize, ..order };
                    assert(after == mid.insert(o2));
                    assert forall|p: int| #[trigger] nonempty(after.levels, p) implies p <= after.best_bid || p >= after.best_ask by {
                        if p != order.price {
                            assert(level(after.levels, p) == level(mid.levels, p));
                            assert(nonempty(mid.levels, p));
                        }
                    }
                    assert(level(after.levels, after.best_ask as int) == level(mid.levels, after.best_ask as int));
                    assert(level(after.levels, book.best_bid as int) == level(mid.levels, book.best_bid as int)
                        || book.best_bid == order.price);
                }
            } else {
                assert forall|p: int| #[trigger] nonempty(after.levels, p) implies p <= after.best_bid || p >= after.best_ask by {
                    if p != order.price {
                        assert(level(after.levels, p) == level(book.levels, p));
                        assert(nonempty(book.levels, p));
                    }
                }
                assert(level(after.levels, book.best_ask as int) == level(book.levels, book.best_ask as int));
                assert(level(after.levels, book.best_bid as int) == level(book.levels, book.best_bid as int)
                    || book.best_bid == order.price);
            }
        },
        Side::Sell => {
            lemma_sweep_down(book.levels, order.price as int, book.best_bid as int, order.size as nat);
            if book.marketable(order) && s.filled {
                let from = match s.stop {
                    Some(p) => p as int,
                    None => order.price - 1,
                };
                lemma_first_down(s.levels, from);
                let mid = BookView {
                    levels: s.levels,
                    best_bid: match first_nonempty_down(s.levels, from) {
                        Some(p) => p,
                        None => 0,
                    },
                    ..book
                };
                assert(mid.uncrossed()) by {
                    assert forall|p: int| #[trigger] nonempty(mid.levels, p) implies p <= mid.best_bid || p >= mid.best_ask by {
                        if order.price <= p <= book.best_bid {
                            assert(p <= from);
                        } else {
                            assert(nonempty(book.levels, p));
                        }
                    }
                    assert(level(mid.levels, book.best_ask as int) == level(book.levels, book.best_ask as int));
                }
                if s.left > 0 {
                    let o2 = Order { size: s.left as usize, ..order };
                    assert(after == mid.insert(o2));
                    assert forall|p: int| #[trigger] nonempty(after.levels, p) implies p <= after.best_bid || p >= after.best_ask by {
                        if p != order.price {
                            assert(level(after.levels, p) == level(mid.levels, p));
                            assert(nonempty(mid.levels, p));
                        }
                    }
                    assert(level(after.levels, after.best_bid as int) == level(mid.levels, after.best_bid as int));
                    assert(level(after.levels, book.best_ask as int) == level(mid.levels, book.best_ask as int)
                        || book.best_ask == order.price);
                }
            } else {
                assert forall|p: int| #[trigger] nonempty(after.levels, p) implies p <= after.best_bid || p >= after.best_ask by {
                    if p != order.price {
                        assert(level(after.levels, p) == level(book.levels, p));
                        assert(nonempty(book.levels, p));
                    }
                }
                assert(level(after.levels, book.best_bid as int) == level(book.levels, book.best_bid as int));
                assert(level(after.levels, book.best_ask as int) == level(book.levels, book.best_ask as int)
                    || book.best_ask == order.price);
            }
        },
    }
}

/// The total size of the orders resting at the prices from `lo` to `hi`.
pub open spec fn range_volume(levels: Map<Price, Seq<Resting>>, lo: int, hi: int) -> nat
    decreases hi - lo + 1,
{
    if lo > hi {
        0
    } else {
        queue_volume(level(levels, lo)) + range_volume(levels, lo + 1, hi)
    }
}

/// The volume of the prices from `lo` to `hi` depends on their queues only.
proof fn lemma_range_volume_frame(a: Map<Price, Seq<Resting>>, b: Map<Price, Seq<Resting>>, lo: int, hi: int)
    requires
        forall|p: int| lo <= p <= hi ==> #[trigger] level(a, p) == level(b, p),
    ensures
        range_volume(a, lo, hi) == range_volume(b, lo, hi),
    decreases hi - lo + 1,
{
    if lo <= hi {
        assert(level(a, lo) == level(b, lo));
        lemma_range_volume_frame(a, b, lo + 1, hi);
    }
}

/// The volume of the prices from `lo` to `hi`, split at the highest one.
proof fn lemma_range_volume_top(levels: Map<Price, Seq<Resting>>, lo: int, hi: int)
    requires
        lo <= hi,
    ensures
        range_volume(levels, lo, hi) == range_volume(levels, lo, hi - 1) + queue_volume(level(levels, hi)),
    decreases hi - lo + 1,
{
    if lo < hi {
        lemma_range_volume_top(levels, lo + 1, hi);
        assert(range_volume(levels, lo, hi - 1) == queue_volume(level(levels, lo)) + range_volume(levels, lo + 1, hi - 1));
    } else {
        assert(range_volume(levels, lo + 1, hi) == 0);
        assert(range_volume(levels, lo, hi - 1) == 0);
    }
}

/// Crossing a queue conserves size: what the incoming order loses of its
/// size is what leaves the queue.
pub proof fn lemma_exec_queue_conserves(q: Seq<Resting>, size: nat)
    ensures
        queue_volume(q) + exec_queue(q, size).1 == queue_volume(exec_queue(q, size).0) + size,
    decreases q.len(),
{
    if q.len() > 0 {
        if q[0].1 <= size {
            lemma_exec_queue_conserves(q.drop_first(), (size - q[0].1) as nat);
        } else {
            let q2 = q.update(0, (q[0].0, (q[0].1 - size) as usize));
            assert(q2.drop_first() =~= q.drop_first());
        }
    }
}

/// Crossing a buy order conserves size: what it loses of its size is what
/// leaves the price limits that it crosses.
pub proof fn lemma_sweep_up_conserves(levels: Map<Price, Seq<Resting>>, lo: int, hi: int, size: nat)
    ensures
        range_volume(levels, lo, hi) + sweep_up(levels, lo, hi, size).left
            == range_volume(sweep_up(levels, lo, hi, size).levels, lo, hi) + size,
    decreases hi - lo + 1,
{
    if lo <= hi {
        if !nonempty(levels, lo) {
            lemma_sweep_up_conserves(levels, lo + 1, hi, size);
            assert(queue_volume(level(levels, lo)) == 0);
            lemma_sweep_up(levels, lo + 1, hi, size);
            assert(level(sweep_up(levels, lo + 1, hi, size).levels, lo) == level(levels, lo));
        } else {
            let (q, left, done) = exec_queue(level(levels, lo), size);
            lemma_exec_queue_conserves(level(levels, lo), size);
            let l2 = levels.insert(lo as u64, q);
            assert forall|p: int| lo < p <= hi implies #[trigger] level(l2, p) == level(levels, p) by {}
            lemma_range_volume_frame(l2, levels, lo + 1, hi);
            assert(level(l2, lo) == q);
            if !done {
                lemma_sweep_up_conserves(l2, lo + 1, hi, left);
                lemma_sweep_up(l2, lo + 1, hi, left);
                assert(level(sweep_up(l2, lo + 1, hi, left).levels, lo) == q);
            }
        }
    }
}

/// Crossing a sell order conserves size: what it loses of its size is what
/// leaves the price limits that it crosses.
pub proof fn lemma_sweep_down_conserves(levels: Map<Price, Seq<Resting>>, lo: int, hi: int, size: nat)
    ensures
        range_volume(levels, lo, hi) + sweep_down(levels, lo, hi, size).left
            == range_volume(sweep_down(levels, lo, hi, size).levels, lo, hi) + size,
    decreases hi - lo + 1,
{
    if lo <= hi {
        lemma_range_volume_top(levels, lo, hi);
        if !nonempty(levels, hi) {
            lemma_sweep_down_conserves(levels, lo, hi - 1, size);
            assert(queue_volume(level(levels, hi)) == 0);
            lemma_sweep_down(levels, lo, hi - 1, size);
            let s = sweep_down(levels, lo, hi - 1, size);
            assert(level(s.levels, hi) == level(levels, hi));
            lemma_range_volume_top(s.levels, lo, hi);
        } else {
            let (q, left, done) = exec_queue(level(levels, hi), size);
            lemma_exec_queue_conserves(level(levels, hi), size);
            let l2 = levels.insert(hi as u64, q);
            assert forall|p: int| lo <= p < hi implies #[trigger] level(l2, p) == level(levels, p) by {}
            lemma_range_volume_frame(l2, levels, lo, hi - 1);
            assert(level(l2, hi) == q);
            lemma_range_volume_top(l2, lo, hi);
            if !done {
                lemma_sweep_down_conserves(l2, lo, hi - 1, left);
                lemma_sweep_down(l2, lo, hi - 1, left);
                let s = sweep_down(l2, lo, hi - 1, left);
                assert(level(s.levels, hi) == q);
                lemma_range_volume_top(s.levels, lo, hi);
            }
        }
    }
}

/// The line of the price limit at `price` holding `size`.
pub open spec fn engine_line(price: int, size: nat) -> Seq<char> {
    dec_digits(price as nat) + ": "@ + dec_digits(size) + "\n"@
}

/// The lines of the price limits from `hi` down to `lo` that hold some
/// size, highest price first.
pub open spec fn engine_lines(levels: Map<Price, Seq<Resting>>, lo: int, hi: int) -> Seq<char>
    decreases hi - lo + 1,
{
    if hi < lo {
        Seq::empty()
    } else {
        let v = queue_volume(level(levels, hi));
        (if v > 0 { engine_line(hi, v) } else { Seq::empty() }) + engine_lines(levels, lo, hi - 1)
    }
}

/// The text of the book `book`: the asks (the price limits at or above the
/// best ask), then the bids (those below it), highest price first, each
/// with the size resting there.
pub open spec fn engine_text(book: BookView) -> Seq<char> {
    "--- ASK ---\n"@ + engine_lines(book.levels, book.best_ask as int, u64::MAX as int) + "--- BID ---\n"@
        + engine_lines(book.levels, 0, book.best_ask - 1)
}

/// The size resting at each price limit fits in a `usize`.
pub open spec fn volumes_fit(levels: Map<Price, Seq<Resting>>) -> bool {
    forall|p: int| #[trigger] queue_volume(level(levels, p)) <= usize::MAX
}

/// Append to `text` the line of the price limit at `price` holding `size`.
fn push_engine_line(text: &mut String, price: Price, size: usize)
    ensures
        final(text)@ == old(text)@ + engine_line(price as int, size as nat),
{
    push_decimal(text, price as u128);
    text.append(": ");
    push_decimal(text, size as u128);
    text.append("\n");
    assert(text@ =~= old(text)@ + engine_line(price as int, size as nat));
}

/// The lines of a range of price limits, split at `m`.
proof fn lemma_engine_lines_split(levels: Map<Price, Seq<Resting>>, lo: int, m: int, hi: int)
    requires
        lo <= m <= hi + 1,
    ensures
        engine_lines(levels, lo, hi) == engine_lines(levels, m, hi) + engine_lines(levels, lo, m - 1),
    decreases hi - m + 1,
{
    if m <= hi {
        lemma_engine_lines_split(levels, lo, m + 1, hi);
        let v = queue_volume(level(levels, m));
        let line = if v > 0 { engine_line(m, v) } else { Seq::<char>::empty() };
        assert(engine_lines(levels, lo, m) == line + engine_lines(levels, lo, m - 1));
        assert(engine_lines(levels, m, hi) =~= engine_lines(levels, m + 1, hi) + line) by {
            lemma_engine_lines_top(levels, m, hi);
        }
    } else {
        assert(engine_lines(levels, m, hi) =~= Seq::<char>::empty());
        assert(engine_lines(levels, lo, hi) =~= engine_lines(levels, m, hi) + engine_lines(levels, lo, m - 1));
    }
}

/// The lines of a range of price limits end with the line of its lowest
/// one.
proof fn lemma_engine_lines_top(levels: Map<Price, Seq<Resting>>, lo: int, hi: int)
    requires
        lo <= hi,
    ensures
        engine_lines(levels, lo, hi) == engine_lines(levels, lo + 1, hi) + if queue_volume(level(levels, lo)) > 0 {
            engine_line(lo, queue_volume(level(levels, lo)))
        } else {
            Seq::empty()
        },
    decreases hi - lo,
{
    if lo < hi {
        lemma_engine_lines_top(levels, lo, hi - 1);
        let v = queue_volume(level(levels, hi));
        let line = if v > 0 { engine_line(hi, v) } else { Seq::<char>::empty() };
        assert(engine_lines(levels, lo + 1, hi) == line + engine_lines(levels, lo + 1, hi - 1));
        assert(engine_lines(levels, lo, hi) =~= engine_lines(levels, lo + 1, hi) + if queue_volume(level(levels, lo)) > 0 {
            engine_line(lo, queue_volume(level(levels, lo)))
        } else {
            Seq::empty()
        });
    } else {
        assert(engine_lines(levels, lo + 1, hi) =~= Seq::<char>::empty());
        assert(engine_lines(levels, lo, hi - 1) =~= Seq::<char>::empty());
        assert(engine_lines(levels, lo, hi) =~= engine_lines(levels, lo + 1, hi) + if queue_volume(level(levels, lo)) > 0 {
            engine_line(lo, queue_volume(level(levels, lo)))
        } else {
            Seq::empty()
        });
    }
}

/// Price limits without size have no line.
proof fn lemma_engine_lines_empty(levels: Map<Price, Seq<Resting>>, lo: int, hi: int)
    requires
        forall|p: int| lo <= p <= hi ==> queue_volume(#[trigger] level(levels, p)) == 0,
    ensures
        engine_lines(levels, lo, hi) == Seq::<char>::empty(),
    decreases hi - lo + 1,
{
    if lo <= hi {
        assert(queue_volume(level(levels, hi)) == 0);
        lemma_engine_lines_empty(levels, lo, hi - 1);
        assert(engine_lines(levels, lo, hi) =~= Seq::<char>::empty());
    }
}

/// A matching engine.
pub struct MatchingEngine {
    /// The various price limits, which are initialized lazily.
    price_limits: BTreeMap<Price, PriceLimit>,
    /// A memory arena for storing book entries, independently of their
    /// actual price limit.
    entries: Arena<BookEntry>,
    best_bid: Price,
    best_ask: Price,
    max_order_id: OrderId,
    /// The arena indices of the entries of each price limit, oldest first.
    queues: Ghost<Map<Price, Seq<Index>>>,
}

/// The index that follows position `i` of queue `q`.
spec fn next_of(q: Seq<Index>, i: int) -> Option<Index> {
    if i + 1 < q.len() {
        Some(q[i + 1])
    } else {
        None
    }
}

/// Whether `link` points at the first and last indices of `q`.
spec fn link_matches(link: Option<Link>, q: Seq<Index>) -> bool {
    match link {
        None => q.len() == 0,
        Some(l) => q.len() > 0 && l.head == q[0] && l.tail == q.last(),
    }
}

impl View for MatchingEngine {
    type V = BookView;

    closed spec fn view(&self) -> BookView {
        BookView {
            levels: Map::new(
                |p: Price| self.queues@.dom().contains(p),
                |p: Price| self.queue_view(self.queues@[p]),
            ),
            best_bid: self.best_bid,
            best_ask: self.best_ask,
            next_id: self.max_order_id,
        }
    }
}

impl MatchingEngine {
    /// The resting orders stored at the arena indices of `q`.
    closed spec fn queue_view(&self, q: Seq<Index>) -> Seq<Resting> {
        q.map_values(|i: Index| (self.entries.blocks()[i as int].order_id, self.entries.blocks()[i as int].size))
    }

    /// The price limits, the arena and the ghost queues agree.
    closed spec fn wf_store(&self) -> bool {
        let q = self.queues@;
        let b = self.entries.blocks();
        let f = self.entries.free_list();
        &&& self.entries.wf()
        &&& f.no_duplicates()
        &&& q.dom() == self.price_limits@.dom()
        &&& forall|p: Price| #[trigger] q.dom().contains(p) ==> link_matches(self.price_limits@[p].link, q[p])
        &&& forall|p: Price, i: int|
            q.dom().contains(p) && 0 <= i < q[p].len() ==> #[trigger] q[p][i] < b.len()
                && b[q[p][i] as int].next == next_of(q[p], i)
        &&& forall|p1: Price, i1: int, p2: Price, i2: int|
            q.dom().contains(p1) && q.dom().contains(p2) && 0 <= i1 < q[p1].len() && 0 <= i2 < q[p2].len()
                && #[trigger] q[p1][i1] == #[trigger] q[p2][i2] ==> p1 == p2 && i1 == i2
        &&& forall|p: Price, i: int, j: int|
            q.dom().contains(p) && 0 <= i < q[p].len() && 0 <= j < f.len() ==> #[trigger] q[p][i] != #[trigger] f[j]
    }

    /// The engine is well formed: its store is consistent and its book is
    /// not crossed.
    pub closed spec fn wf(&self) -> bool {
        &&& self.wf_store()
        &&& self@.uncrossed()
    }

    /// A well-formed engine's book is not crossed.
    pub proof fn lemma_wf_uncrossed(&self)
        requires
            self.wf(),
        ensures
            self@.uncrossed(),
    {
    }

    /// Return an empty matching engine, with room for `capacity` orders
    /// before its arena grows.
    pub fn new(capacity: usize) -> (engine: Self)
        ensures
            engine.wf(),
            engine@.levels == Map::<Price, Seq<Resting>>::empty(),
            engine@.best_bid == 0,
            engine@.best_ask == u64::MAX,
            engine@.next_id == 0,
    {
        let engine = MatchingEngine {
            price_limits: BTreeMap::new(),
            entries: Arena::new(capacity),
            best_bid: 0,
            best_ask: u64::MAX,
            max_order_id: 0,
            queues: Ghost(Map::empty()),
        };
        assert(engine@.levels =~= Map::<Price, Seq<Resting>>::empty());
        engine
    }

    /// Append `order` to the queue of its price limit, without crossing it,
    /// and update the best limits. Return the id given to the order.
    fn insert_order(&mut self, order: Order) -> (id: OrderId)
        requires
            old(self).wf_store(),
            old(self).max_order_id < usize::MAX,
        ensures
            final(self).wf_store(),
            final(self)@ == old(self)@.insert(order),
            id == old(self)@.next_id,
    {
        let ghost q0 = self.queues@;
        let ghost b0 = self.entries.blocks();
        let ghost f0 = self.entries.free_list();
        let ghost old_view = self@;
        let order_id = self.max_order_id;
        let index = self.entries.allocate(BookEntry { size: order.size, next: None, order_id });
        self.max_order_id += 1;
        proof {
            // The new index is used by no queue.
            assert forall|p: Price, i: int| q0.dom().contains(p) && 0 <= i < q0[p].len() implies #[trigger] q0[p][i] != index by {
                if f0.len() > 0 {
                    assert(f0[f0.len() - 1] == index);
                }
            }
        }
        let limit = match self.price_limits.get(&order.price) {
            Some(limit) => *limit,
            None => PriceLimit { link: None },
        };
        let ghost old_q = if q0.dom().contains(order.price) { q0[order.price] } else { Seq::<Index>::empty() };
        match limit.link {
            Some(link) => {
                let tail = self.entries.get_mut(link.tail);
                tail.next = Some(index);
                self.price_limits.insert(order.price, PriceLimit { link: Some(Link { head: link.head, tail: index }) });
            },
            None => {
                self.price_limits.insert(order.price, PriceLimit { link: Some(Link { head: index, tail: index }) });
            },
        }
        proof {
            self.queues@ = q0.insert(order.price, old_q.push(index));
        }
        if order.side == Side::Buy && order.price > self.best_bid {
            self.best_bid = order.price;
        }
        if order.side == Side::Sell && order.price < self.best_ask {
            self.best_ask = order.price;
        }
        proof {
            let q = self.queues@;
            let b = self.entries.blocks();
            assert(self@.levels =~= old_view.insert(order).levels) by {
                assert forall|p: Price| #[trigger] self@.levels.dom().contains(p) implies self@.levels[p] == old_view.insert(order).levels[p] by {
                    if p == order.price {
                        assert(self.queue_view(q[p]) =~= level(old_view.levels, order.price as int).push((order_id, order.size)));
                    } else {
                        assert(self.queue_view(q[p]) =~= old_view.levels[p]);
                    }
                }
            }
        }
        order_id
    }


    /// A price limit of the map is non-empty exactly when some order rests
    /// there, and a price absent from the map has no resting order.
    proof fn lemma_limit_link(&self, p: Price)
        requires
            self.wf_store(),
        ensures
            self.price_limits@.contains_key(p) ==> (self.price_limits@[p].link is Some <==> nonempty(self@.levels, p as int)),
            !self.price_limits@.contains_key(p) ==> !nonempty(self@.levels, p as int),
    {
        if self.price_limits@.contains_key(p) {
            assert(self.queues@.dom().contains(p));
            assert(link_matches(self.price_limits@[p].link, self.queues@[p]));
        }
    }


    /// Submit a limit order. It first crosses the opposite side of the book
    /// (see `BookView::limit`); whatever remains of it is inserted in the
    /// book. Return the id of the order if some part of it was inserted.
    pub fn limit(&mut self, order: Order) -> (id: Option<OrderId>)
        requires
            old(self).wf(),
            old(self)@.next_id < usize::MAX,
            !old(self)@.limit_overflows(order),
        ensures
            final(self).wf(),
            (final(self)@, id) == old(self)@.limit(order),
    {
        let ghost v0 = self@;
        proof {
            lemma_limit_uncrossed(v0, order);
        }
        let marketable = match order.side {
            Side::Buy => order.price >= self.best_ask,
            Side::Sell => order.price <= self.best_bid,
        };
        let mut left = order.size;
        let mut filled = false;
        let mut new_price: Price = 0;
        if marketable {
            match order.side {
                Side::Buy => {
                    let (l, stop, f) = self.sweep_up_exec(self.best_ask, order.price, order.size);
                    left = l;
                    filled = f;
                    new_price = match stop {
                        Some(p) => p,
                        None => order.price + 1,
                    };
                },
                Side::Sell => {
                    let (l, stop, f) = self.sweep_down_exec(order.price, self.best_bid, order.size);
                    left = l;
                    filled = f;
                    new_price = match stop {
                        Some(p) => p,
                        None => order.price - 1,
                    };
                },
            }
        }
        if !filled {
            // The crossed range was empty: the order is not marketable and
            // is inserted in the order book.
            return Some(self.insert_order(order));
        }
        // Go find the new best limit.
        match order.side {
            Side::Buy => {
                self.best_ask = match self.first_nonempty_at_or_above(new_price) {
                    Some(p) => p,
                    None => u64::MAX,
                };
            },
            Side::Sell => {
                self.best_bid = match self.first_nonempty_at_or_below(new_price) {
                    Some(p) => p,
                    None => 0,
                };
            },
        }
        proof {
            let sw = v0.sweep(order);
            let after = match order.side {
                Side::Buy => BookView {
                    levels: sw.levels,
                    best_ask: match first_nonempty_up(sw.levels, new_price as int) {
                        Some(p) => p,
                        None => u64::MAX,
                    },
                    ..v0
                },
                Side::Sell => BookView {
                    levels: sw.levels,
                    best_bid: match first_nonempty_down(sw.levels, new_price as int) {
                        Some(p) => p,
                        None => 0,
                    },
                    ..v0
                },
            };
            assert(self@.levels == after.levels);
            assert(self@.best_bid == after.best_bid);
            assert(self@.best_ask == after.best_ask);
            assert(self@.next_id == after.next_id);
            assert(self@ == after);
            assert(left as nat == sw.left);
            if left > 0 {
                assert(Order { size: left, ..order } == Order { size: sw.left as usize, ..order });
            }
        }
        // The order has exhausted the whole range, we insert what remains.
        if left > 0 {
            Some(self.insert_order(Order { size: left, ..order }))
        } else {
            None
        }
    }


    /// The best bid and best ask prices.
    pub fn best_limits(&self) -> (r: (Price, Price))
        ensures
            r == (self@.best_bid, self@.best_ask),
    {
        (self.best_bid, self.best_ask)
    }

    /// Total size of the orders resting at `price`.
    pub fn size_at_price(&self, price: Price) -> (size: usize)
        requires
            self.wf(),
            queue_volume(level(self@.levels, price as int)) <= usize::MAX,
        ensures
            size as nat == queue_volume(level(self@.levels, price as int)),
    {
        proof {
            self.lemma_limit_link(price);
        }
        match self.price_limits.get(&price) {
            Some(limit) => self.limit_size(*limit, Ghost(price)),
            None => 0,
        }
    }

    /// Append to `text` the lines of the price limits from `hi` down to `lo`
    /// that hold some size.
    #[verifier::rlimit(40)]
    fn push_lines(&self, text: &mut String, lo: Price, hi: Price)
        requires
            self.wf(),
            volumes_fit(self@.levels),
            lo <= hi,
        ensures
            final(text)@ == old(text)@ + engine_lines(self@.levels, lo as int, hi as int),
    {
        let ghost levels = self@.levels;
        let ghost start = text@;
        let mut cur: Price = hi;
        assert(engine_lines(levels, hi + 1, hi as int) =~= Seq::<char>::empty());
        assert(start =~= start + engine_lines(levels, hi + 1, hi as int));
        loop
            invariant_except_break
                lo <= cur <= hi,
                text@ == start + engine_lines(levels, cur + 1, hi as int),
            invariant
                self.wf(),
                volumes_fit(levels),
                levels == self@.levels,
            ensures
                text@ == start + engine_lines(levels, lo as int, hi as int),
            decreases cur,
        {
            let found = last_key_at_or_below(&self.price_limits, cur);
            let k = match found {
                Some(k) => k,
                None => {
                    proof {
                        assert forall|p: int| lo <= p <= cur implies queue_volume(#[trigger] level(levels, p)) == 0 by {
                            self.lemma_limit_link(p as u64);
                            assert(level(levels, p).len() == 0);
                        }
                        lemma_engine_lines_empty(levels, lo as int, cur as int);
                        lemma_engine_lines_split(levels, lo as int, cur + 1, hi as int);
                        assert(text@ =~= start + engine_lines(levels, lo as int, hi as int));
                    }
                    break;
                },
            };
            proof {
                assert forall|p: int| k < p <= cur implies queue_volume(#[trigger] level(levels, p)) == 0 by {
                    self.lemma_limit_link(p as u64);
                    assert(level(levels, p).len() == 0);
                }
            }
            if k < lo {
                proof {
                    lemma_engine_lines_empty(levels, lo as int, cur as int);
                    lemma_engine_lines_split(levels, lo as int, cur + 1, hi as int);
                    assert(text@ =~= start + engine_lines(levels, lo as int, hi as int));
                }
                break;
            }
            proof {
                lemma_engine_lines_empty(levels, k + 1, cur as int);
                lemma_engine_lines_split(levels, k + 1, cur + 1, hi as int);
                lemma_engine_lines_split(levels, k as int, k + 1, hi as int);
                lemma_engine_lines_top(levels, k as int, hi as int);
                self.lemma_limit_link(k);
            }
            let limit = *self.price_limits.get(&k).unwrap();
            let size = self.limit_size(limit, Ghost(k));
            if size > 0 {
                push_engine_line(text, k, size);
            }
            proof {
                assert(text@ =~= start + engine_lines(levels, k as int, hi as int));
            }
            if k == lo {
                break;
            }
            cur = k - 1;
        }
    }

    /// The text of the book (see `engine_text`): the asks, then the bids,
    /// highest price first, each with the size resting there.
    pub fn display(&self) -> (s: String)
        requires
            self.wf(),
            volumes_fit(self@.levels),
        ensures
            s@ == engine_text(self@),
    {
        let mut text = String::new();
        text.append("--- ASK ---\n");
        self.push_lines(&mut text, self.best_ask, u64::MAX);
        text.append("--- BID ---\n");
        if self.best_ask > 0 {
            self.push_lines(&mut text, 0, self.best_ask - 1);
        } else {
            assert(engine_lines(self@.levels, 0, -1) =~= Seq::<char>::empty());
        }
        assert(text@ =~= engine_text(self@));
        text
    }

    /// Total size of the orders of `limit`, the price limit at `price`.
    fn limit_size(&self, limit: PriceLimit, Ghost(price): Ghost<Price>) -> (size: usize)
        requires
            self.wf_store(),
            self.price_limits@.contains_key(price),
            self.price_limits@[price] == limit,
            queue_volume(level(self@.levels, price as int)) <= usize::MAX,
        ensures
            size as nat == queue_volume(level(self@.levels, price as int)),
    {
        let ghost qi = self.queues@[price];
        let ghost vq = self.queue_view(qi);
        assert(vq == level(self@.levels, price as int));
        assert(link_matches(limit.link, qi));
        match limit.link {
            Some(link) => {
                let mut count: usize = 0;
                let mut maybe_index = Some(link.head);
                let ghost mut j: int = 0;
                assert(vq.skip(0) =~= vq);
                while maybe_index.is_some()
                    invariant
                        self.wf_store(),
                        self.queues@.dom().contains(price),
                        qi == self.queues@[price],
                        vq == self.queue_view(qi),
                        queue_volume(vq) <= usize::MAX,
                        0 <= j <= qi.len(),
                        maybe_index == (if j < qi.len() { Some(qi[j]) } else { None::<Index> }),
                        count + queue_volume(vq.skip(j)) == queue_volume(vq),
                    decreases qi.len() - j,
                {
                    let index = maybe_index.unwrap();
                    let entry = self.entries.get(index);
                    proof {
                        assert(vq.skip(j)[0] == vq[j]);
                        assert(vq.skip(j).drop_first() =~= vq.skip(j + 1));
                    }
                    count += entry.size;
                    maybe_index = entry.next;
                    proof {
                        j = j + 1;
                    }
                }
                assert(vq.skip(j).len() == 0);
                count
            },
            None => 0,
        }
    }

    /// Make a buy order of size `size` cross through the price limits from
    /// `lo` up to `hi`. Return the size left, the price limit at which the
    /// order was completely filled with orders still resting there, and
    /// whether some non-empty price limit was crossed.
    fn sweep_up_exec(&mut self, lo: Price, hi: Price, size: usize) -> (res: (usize, Option<Price>, bool))
        requires
            old(self).wf_store(),
        ensures
            final(self).wf_store(),
            ({
                let s = sweep_up(old(self)@.levels, lo as int, hi as int, size as nat);
                &&& final(self)@.levels == s.levels
                &&& res.0 as nat == s.left
                &&& res.1 == s.stop
                &&& res.2 == s.filled
            }),
            final(self)@.best_bid == old(self)@.best_bid,
            final(self)@.best_ask == old(self)@.best_ask,
            final(self)@.next_id == old(self)@.next_id,
    {
        let ghost target = sweep_up(self@.levels, lo as int, hi as int, size as nat);
        if lo > hi {
            return (size, None, false);
        }
        let mut cur = lo;
        let mut left = size;
        let mut filled = false;
        let mut stop: Option<Price> = None;
        loop
            invariant_except_break
                lo <= cur <= hi,
                stop is None,
                ({
                    let rest = sweep_up(self@.levels, cur as int, hi as int, left as nat);
                    &&& target.levels == rest.levels
                    &&& target.left == rest.left
                    &&& target.stop == rest.stop
                    &&& target.filled == (filled || rest.filled)
                }),
            invariant
                self.wf_store(),
                target == sweep_up(old(self)@.levels, lo as int, hi as int, size as nat),
                self@.best_bid == old(self)@.best_bid,
                self@.best_ask == old(self)@.best_ask,
                self@.next_id == old(self)@.next_id,
            ensures
                self@.levels == target.levels,
                left as nat == target.left,
                filled == target.filled,
                stop == target.stop,
            decreases hi - cur,
        {
            let ghost levels = self@.levels;
            let next = first_key_at_or_above(&self.price_limits, cur);
            let k = match next {
                None => hi,
                Some(k) => if k > hi { hi } else { k },
            };
            let found = match next {
                None => false,
                Some(k) => k <= hi,
            };
            proof {
                assert forall|p: int| cur <= p < k implies !#[trigger] nonempty(levels, p) by {
                    self.lemma_limit_link(p as u64);
                }
                lemma_sweep_up_skip(levels, cur as int, k as int, hi as int, left as nat);
                if !found {
                    self.lemma_limit_link(k);
                }
            }
            if !found {
                // No price limit left in the range.
                proof {
                    lemma_sweep_up_skip(levels, k as int, k + 1, hi as int, left as nat);
                }
                break;
            }
            let limit = *self.price_limits.get(&k).unwrap();
            proof {
                self.lemma_limit_link(k);
            }
            if limit.link.is_some() {
                let (new_left, done) = self.exec_level(k, left);
                left = new_left;
                filled = true;
                if done {
                    stop = Some(k);
                    break;
                }
            }
            proof {
                let rest = sweep_up(self@.levels, k + 1, hi as int, left as nat);
                assert(target.levels == rest.levels);
                assert(target.left == rest.left);
                assert(target.stop == rest.stop);
                assert(target.filled == (filled || rest.filled));
            }
            if k == hi {
                break;
            }
            cur = k + 1;
        }
        (left, stop, filled)
    }


    /// Make a sell order of size `size` cross through the price limits from
    /// `hi` down to `lo`. Return the size left, the price limit at which the
    /// order was completely filled with orders still resting there, and
    /// whether some non-empty price limit was crossed.
    fn sweep_down_exec(&mut self, lo: Price, hi: Price, size: usize) -> (res: (usize, Option<Price>, bool))
        requires
            old(self).wf_store(),
        ensures
            final(self).wf_store(),
            ({
                let s = sweep_down(old(self)@.levels, lo as int, hi as int, size as nat);
                &&& final(self)@.levels == s.levels
                &&& res.0 as nat == s.left
                &&& res.1 == s.stop
                &&& res.2 == s.filled
            }),
            final(self)@.best_bid == old(self)@.best_bid,
            final(self)@.best_ask == old(self)@.best_ask,
            final(self)@.next_id == old(self)@.next_id,
    {
        let ghost target = sweep_down(self@.levels, lo as int, hi as int, size as nat);
        if lo > hi {
            return (size, None, false);
        }
        let mut cur = hi;
        let mut left = size;
        let mut filled = false;
        let mut stop: Option<Price> = None;
        loop
            invariant_except_break
                lo <= cur <= hi,
                stop is None,
                ({
                    let rest = sweep_down(self@.levels, lo as int, cur as int, left as nat);
                    &&& target.levels == rest.levels
                    &&& target.left == rest.left
                    &&& target.stop == rest.stop
                    &&& target.filled == (filled || rest.filled)
                }),
            invariant
                self.wf_store(),
                target == sweep_down(old(self)@.levels, lo as int, hi as int, size as nat),
                self@.best_bid == old(self)@.best_bid,
                self@.best_ask == old(self)@.best_ask,
                self@.next_id == old(self)@.next_id,
            ensures
                self@.levels == target.levels,
                left as nat == target.left,
                filled == target.filled,
                stop == target.stop,
            decreases cur - lo,
        {
            let ghost levels = self@.levels;
            let next = last_key_at_or_below(&self.price_limits, cur);
            let k = match next {
                None => lo,
                Some(k) => if k < lo { lo } else { k },
            };
            let found = match next {
                None => false,
                Some(k) => k >= lo,
            };
            proof {
                assert forall|p: int| k < p <= cur implies !#[trigger] nonempty(levels, p) by {
                    self.lemma_limit_link(p as u64);
                }
                lemma_sweep_down_skip(levels, lo as int, k as int, cur as int, left as nat);
                if !found {
                    self.lemma_limit_link(k);
                }
            }
            if !found {
                // No price limit left in the range.
                proof {
                    lemma_sweep_down_skip(levels, lo as int, k - 1, k as int, left as nat);
                }
                break;
            }
            let limit = *self.price_limits.get(&k).unwrap();
            proof {
                self.lemma_limit_link(k);
            }
            if limit.link.is_some() {
                let (new_left, done) = self.exec_level(k, left);
                left = new_left;
                filled = true;
                if done {
                    stop = Some(k);
                    break;
                }
            }
            proof {
                let rest = sweep_down(self@.levels, lo as int, k - 1, left as nat);
                assert(target.levels == rest.levels);
                assert(target.left == rest.left);
                assert(target.stop == rest.stop);
                assert(target.filled == (filled || rest.filled));
            }
            if k == lo {
                break;
            }
            cur = k - 1;
        }
        (left, stop, filled)
    }

    /// The lowest price at or above `from` at which some order rests.
    fn first_nonempty_at_or_above(&self, from: Price) -> (r: Option<Price>)
        requires
            self.wf_store(),
        ensures
            r == first_nonempty_up(self@.levels, from as int),
    {
        let mut cur = from;
        loop
            invariant
                self.wf_store(),
                from <= cur,
                first_nonempty_up(self@.levels, from as int) == first_nonempty_up(self@.levels, cur as int),
            decreases u64::MAX - cur,
        {
            let next = first_key_at_or_above(&self.price_limits, cur);
            match next {
                None => {
                    proof {
                        assert forall|p: int| cur <= p < u64::MAX + 1 implies !#[trigger] nonempty(self@.levels, p) by {
                            self.lemma_limit_link(p as u64);
                        }
                        lemma_first_up_skip(self@.levels, cur as int, u64::MAX + 1);
                    }
                    return None;
                },
                Some(k) => {
                    proof {
                        assert forall|p: int| cur <= p < k implies !#[trigger] nonempty(self@.levels, p) by {
                            self.lemma_limit_link(p as u64);
                        }
                        lemma_first_up_skip(self@.levels, cur as int, k as int);
                        self.lemma_limit_link(k);
                    }
                    let limit = *self.price_limits.get(&k).unwrap();
                    if limit.link.is_some() {
                        return Some(k);
                    }
                    if k == u64::MAX {
                        assert(first_nonempty_up(self@.levels, u64::MAX + 1) is None);
                        return None;
                    }
                    cur = k + 1;
                },
            }
        }
    }

    /// The highest price at or below `from` at which some order rests.
    fn first_nonempty_at_or_below(&self, from: Price) -> (r: Option<Price>)
        requires
            self.wf_store(),
        ensures
            r == first_nonempty_down(self@.levels, from as int),
    {
        let mut cur = from;
        loop
            invariant
                self.wf_store(),
                cur <= from,
                first_nonempty_down(self@.levels, from as int) == first_nonempty_down(self@.levels, cur as int),
            decreases cur,
        {
            let next = last_key_at_or_below(&self.price_limits, cur);
            match next {
                None => {
                    proof {
                        assert forall|p: int| -1 < p <= cur implies !#[trigger] nonempty(self@.levels, p) by {
                            self.lemma_limit_link(p as u64);
                        }
                        lemma_first_down_skip(self@.levels, -1, cur as int);
                    }
                    return None;
                },
                Some(k) => {
                    proof {
                        assert forall|p: int| k < p <= cur implies !#[trigger] nonempty(self@.levels, p) by {
                            self.lemma_limit_link(p as u64);
                        }
                        lemma_first_down_skip(self@.levels, k as int, cur as int);
                        self.lemma_limit_link(k);
                    }
                    let limit = *self.price_limits.get(&k).unwrap();
                    if limit.link.is_some() {
                        return Some(k);
                    }
                    if k == 0 {
                        assert(first_nonempty_down(self@.levels, -1) is None);
                        return None;
                    }
                    cur = k - 1;
                },
            }
        }
    }

    /// Make an order of size `size` cross through the non-empty price limit
    /// at `price`, oldest entry first: exhausted entries are freed. Return the
    /// size left of the order and whether it was completely filled before
    /// the price limit was exhausted.
    fn exec_level(&mut self, price: Price, size: usize) -> (res: (usize, bool))
        requires
            old(self).wf_store(),
            nonempty(old(self)@.levels, price as int),
        ensures
            final(self).wf_store(),
            ({
                let (q, left, done) = exec_queue(level(old(self)@.levels, price as int), size as nat);
                &&& final(self)@.levels == old(self)@.levels.insert(price, q)
                &&& res.0 == left
                &&& res.1 == done
            }),
            final(self)@.best_bid == old(self)@.best_bid,
            final(self)@.best_ask == old(self)@.best_ask,
            final(self)@.next_id == old(self)@.next_id,
    {
        let ghost q0 = self.queues@;
        let ghost b0 = self.entries.blocks();
        let ghost f0 = self.entries.free_list();
        let ghost qi = q0[price];
        let ghost vq = self.queue_view(qi);
        assert(vq == level(self@.levels, price as int));
        let limit = *self.price_limits.get(&price).unwrap();
        let link = limit.link.unwrap();
        let mut order_size = size;
        let mut cur: Option<Index> = Some(link.head);
        let ghost mut j: int = 0;
        let ghost mut stop_rem: nat = 0;
        let mut done = false;
        assert(vq.skip(0) =~= vq);
        loop
            invariant_except_break
                cur == (if j < qi.len() { Some(qi[j]) } else { None::<Index> }),
                !done,
                exec_queue(vq, size as nat) == exec_queue(vq.skip(j), order_size as nat),
                forall|x: int| 0 <= x < b0.len() && !qi.take(j).contains(x as usize)
                    ==> #[trigger] self.entries.blocks()[x] == b0[x],
            invariant
                0 <= j <= qi.len(),
                old(self).wf_store(),
                q0 == old(self).queues@,
                b0 == old(self).entries.blocks(),
                f0 == old(self).entries.free_list(),
                qi == q0[price],
                q0.dom().contains(price),
                vq == old(self).queue_view(qi),
                self.queues@ == q0,
                self.price_limits@ == old(self).price_limits@,
                self.best_bid == old(self).best_bid,
                self.best_ask == old(self).best_ask,
                self.max_order_id == old(self).max_order_id,
                self.entries.blocks().len() == b0.len(),
                self.entries.free_list() == f0 + qi.take(j),
            ensures
                done ==> {
                    &&& j < qi.len()
                    &&& cur == Some(qi[j])
                    &&& order_size == 0
                    &&& stop_rem < vq[j].1
                    &&& forall|x: int| 0 <= x < b0.len() && !qi.take(j + 1).contains(x as usize)
                        ==> #[trigger] self.entries.blocks()[x] == b0[x]
                    &&& self.entries.blocks()[qi[j] as int] == (BookEntry { size: (b0[qi[j] as int].size - stop_rem) as usize, ..b0[qi[j] as int] })
                    &&& exec_queue(vq, size as nat) == (vq.skip(j).update(0, (vq[j].0, (vq[j].1 - stop_rem) as usize)), 0nat, true)
                },
                !done ==> {
                    &&& j == qi.len()
                    &&& exec_queue(vq, size as nat) == (Seq::<Resting>::empty(), order_size as nat, false)
                    &&& forall|x: int| 0 <= x < b0.len() && !qi.take(j).contains(x as usize)
                        ==> #[trigger] self.entries.blocks()[x] == b0[x]
                },
            decreases qi.len() - j,
        {
            match cur {
                None => {
                    proof {
                        assert(vq.skip(j) =~= Seq::<Resting>::empty());
                    }
                    break;
                },
                Some(index) => {
                    proof {
                        assert(qi[j] < b0.len());
                        assert(!qi.take(j).contains(qi[j])) by {
                            if qi.take(j).contains(qi[j]) {
                                let k = choose|k: int| 0 <= k < qi.take(j).len() && #[trigger] qi.take(j)[k] == qi[j];
                                assert(qi[k] == qi[j]);
                            }
                        }
                    }
                    let entry = *self.entries.get(index);
                    assert(entry == b0[qi[j] as int]);
                    assert(vq.skip(j)[0] == vq[j]);
                    assert(vq[j] == (entry.order_id, entry.size));
                    let ghost blocks_before = self.entries.blocks();
                    if entry.size <= order_size {
                        order_size -= entry.size;
                        let e = self.entries.get_mut(index);
                        e.size = 0;
                        self.entries.free(index);
                        cur = entry.next;
                        proof {
                            assert(vq.skip(j).drop_first() =~= vq.skip(j + 1));
                            assert(qi.take(j + 1) =~= qi.take(j).push(qi[j]));
                            assert forall|x: int| 0 <= x < b0.len() && !qi.take(j + 1).contains(x as usize)
                                implies #[trigger] self.entries.blocks()[x] == b0[x] by {
                                assert(qi.take(j + 1)[j] == qi[j]);
                                assert(x != qi[j]);
                                assert(!qi.take(j).contains(x as usize)) by {
                                    if qi.take(j).contains(x as usize) {
                                        let k = choose|k: int| 0 <= k < qi.take(j).len() && #[trigger] qi.take(j)[k] == x as usize;
                                        assert(qi.take(j + 1)[k] == x as usize);
                                    }
                                }
                                assert(self.entries.blocks()[x] == blocks_before[x]);
                            }
                            j = j + 1;
                        }
                    } else {
                        let e = self.entries.get_mut(index);
                        e.size = entry.size - order_size;
                        proof {
                            stop_rem = order_size as nat;
                            assert(qi.take(j + 1) =~= qi.take(j).push(qi[j]));
                            assert forall|x: int| 0 <= x < b0.len() && !qi.take(j + 1).contains(x as usize)
                                implies #[trigger] self.entries.blocks()[x] == b0[x] by {
                                assert(qi.take(j + 1)[j] == qi[j]);
                                assert(x != qi[j]);
                                assert(!qi.take(j).contains(x as usize)) by {
                                    if qi.take(j).contains(x as usize) {
                                        let k = choose|k: int| 0 <= k < qi.take(j).len() && #[trigger] qi.take(j)[k] == x as usize;
                                        assert(qi.take(j + 1)[k] == x as usize);
                                    }
                                }
                                assert(self.entries.blocks()[x] == blocks_before[x]);
                            }
                        }
                        order_size = 0;
                        done = true;
                        break;
                    }
                },
            }
        }
        let ghost mid = *self;
        if done {
            let idx = cur.unwrap();
            self.price_limits.insert(price, PriceLimit { link: Some(Link { head: idx, tail: link.tail }) });
            proof {
                self.queues@ = q0.insert(price, qi.skip(j));
                MatchingEngine::lemma_exec_level_stopped(*old(self), *self, price, j, stop_rem);
            }
        } else {
            self.price_limits.insert(price, PriceLimit { link: None });
            proof {
                self.queues@ = q0.insert(price, Seq::empty());
                MatchingEngine::lemma_exec_level_exhausted(*old(self), *self, price);
            }
        }
        (order_size, done)
    }

    /// The store after the orders of `price` before position `j` were
    /// exhausted and the one at position `j` was reduced by `r`.
    #[verifier::rlimit(40)]
    proof fn lemma_exec_level_stopped(e0: MatchingEngine, e1: MatchingEngine, price: Price, j: int, r: nat)
        requires
            e0.wf_store(),
            e0.queues@.dom().contains(price),
            0 <= j < e0.queues@[price].len(),
            r < e0.entries.blocks()[e0.queues@[price][j] as int].size,
            e1.queues@ == e0.queues@.insert(price, e0.queues@[price].skip(j)),
            e1.price_limits@ == e0.price_limits@.insert(price, PriceLimit { link: Some(Link {
                head: e0.queues@[price][j],
                tail: e0.price_limits@[price].link.unwrap().tail,
            }) }),
            e1.entries.blocks().len() == e0.entries.blocks().len(),
            forall|x: int| 0 <= x < e0.entries.blocks().len() && !e0.queues@[price].take(j + 1).contains(x as usize)
                ==> #[trigger] e1.entries.blocks()[x] == e0.entries.blocks()[x],
            e1.entries.blocks()[e0.queues@[price][j] as int] == (BookEntry {
                size: (e0.entries.blocks()[e0.queues@[price][j] as int].size - r) as usize,
                ..e0.entries.blocks()[e0.queues@[price][j] as int]
            }),
            e1.entries.free_list() == e0.entries.free_list() + e0.queues@[price].take(j),
        ensures
            e1.wf_store(),
            e1@.levels == e0@.levels.insert(price, e0.queue_view(e0.queues@[price]).skip(j).update(0, (
                e0.queue_view(e0.queues@[price])[j].0,
                (e0.queue_view(e0.queues@[price])[j].1 - r) as usize,
            ))),
    {
        let q0 = e0.queues@;
        let q1 = e1.queues@;
        let b0 = e0.entries.blocks();
        let b1 = e1.entries.blocks();
        let f0 = e0.entries.free_list();
        let f1 = e1.entries.free_list();
        let qi = q0[price];
        let t = qi.take(j);
        let sk = qi.skip(j);
        // Indices of other price limits are not in `qi`.
        assert forall|p: Price, i: int, k: int|
            q0.dom().contains(p) && p != price && 0 <= i < q0[p].len() && 0 <= k < qi.len()
            implies #[trigger] q0[p][i] != #[trigger] qi[k] by {}
        assert forall|p: Price, i: int| q0.dom().contains(p) && p != price && 0 <= i < q0[p].len()
            implies !qi.take(j + 1).contains(#[trigger] q0[p][i]) by {
            if qi.take(j + 1).contains(q0[p][i]) {
                let k = choose|k: int| 0 <= k < qi.take(j + 1).len() && #[trigger] qi.take(j + 1)[k] == q0[p][i];
                assert(qi[k] == q0[p][i]);
            }
        }
        assert forall|i: int| 0 < i < sk.len() implies !qi.take(j + 1).contains(#[trigger] sk[i]) by {
            if qi.take(j + 1).contains(sk[i]) {
                let k = choose|k: int| 0 <= k < qi.take(j + 1).len() && #[trigger] qi.take(j + 1)[k] == sk[i];
                assert(qi[k] == qi[j + i]);
            }
        }
        // The freed list.
        assert forall|a: int| 0 <= a < f1.len() implies #[trigger] f1[a] < b1.len() by {
            if a < f0.len() {
                assert(f1[a] == f0[a]);
            } else {
                assert(f1[a] == qi[a - f0.len()]);
            }
        }
        assert(f1.no_duplicates()) by {
            assert forall|a: int, c: int| 0 <= a < f1.len() && 0 <= c < f1.len() && a != c implies f1[a] != f1[c] by {
                if a < f0.len() && c < f0.len() {
                } else if a < f0.len() {
                    assert(f1[c] == qi[c - f0.len()]);
                    assert(q0[price][c - f0.len()] != f0[a]);
                } else if c < f0.len() {
                    assert(f1[a] == qi[a - f0.len()]);
                    assert(q0[price][a - f0.len()] != f0[c]);
                } else {
                    assert(f1[a] == qi[a - f0.len()]);
                    assert(f1[c] == qi[c - f0.len()]);
                }
            }
        }
        assert forall|p: Price| #[trigger] q1.dom().contains(p) implies link_matches(e1.price_limits@[p].link, q1[p]) by {
            if p == price {
                assert(sk[0] == qi[j]);
                assert(sk.last() == qi.last());
            }
        }
        assert forall|p: Price, i: int| q1.dom().contains(p) && 0 <= i < q1[p].len() implies #[trigger] q1[p][i] < b1.len()
            && b1[q1[p][i] as int].next == next_of(q1[p], i) by {
            if p == price {
                assert(sk[i] == qi[j + i]);
                if i > 0 {
                    assert(b1[sk[i] as int] == b0[sk[i] as int]);
                }
                if i + 1 < sk.len() {
                    assert(sk[i + 1] == qi[j + i + 1]);
                }
            } else {
                assert(b1[q0[p][i] as int] == b0[q0[p][i] as int]);
            }
        }
        assert forall|p1: Price, i1: int, p2: Price, i2: int|
            q1.dom().contains(p1) && q1.dom().contains(p2) && 0 <= i1 < q1[p1].len() && 0 <= i2 < q1[p2].len()
                && #[trigger] q1[p1][i1] == #[trigger] q1[p2][i2] implies p1 == p2 && i1 == i2 by {
            let a1 = if p1 == price { j + i1 } else { i1 };
            let a2 = if p2 == price { j + i2 } else { i2 };
            assert(q1[p1][i1] == q0[p1][a1]);
            assert(q1[p2][i2] == q0[p2][a2]);
        }
        assert forall|p: Price, i: int, a: int| q1.dom().contains(p) && 0 <= i < q1[p].len() && 0 <= a < f1.len()
            implies #[trigger] q1[p][i] != #[trigger] f1[a] by {
            let ai = if p == price { j + i } else { i };
            assert(q1[p][i] == q0[p][ai]);
            if a < f0.len() {
                assert(f1[a] == f0[a]);
            } else {
                assert(f1[a] == qi[a - f0.len()]);
            }
        }
        let expected = e0@.levels.insert(price, e0.queue_view(qi).skip(j).update(0, (
            e0.queue_view(qi)[j].0,
            (e0.queue_view(qi)[j].1 - r) as usize,
        )));
        assert forall|p: Price| #[trigger] e1@.levels.dom().contains(p) implies e1@.levels[p] == expected[p] by {
            if p == price {
                assert(e1.queue_view(sk) =~= expected[p]);
            } else {
                assert(e1.queue_view(q0[p]) =~= e0.queue_view(q0[p]));
            }
        }
        assert(e1@.levels =~= expected);
    }

    /// The store after all the orders of `price` were exhausted.
    proof fn lemma_exec_level_exhausted(e0: MatchingEngine, e1: MatchingEngine, price: Price)
        requires
            e0.wf_store(),
            e0.queues@.dom().contains(price),
            e1.queues@ == e0.queues@.insert(price, Seq::empty()),
            e1.price_limits@ == e0.price_limits@.insert(price, PriceLimit { link: None }),
            e1.entries.blocks().len() == e0.entries.blocks().len(),
            forall|x: int| 0 <= x < e0.entries.blocks().len() && !e0.queues@[price].take(e0.queues@[price].len() as int).contains(x as usize)
                ==> #[trigger] e1.entries.blocks()[x] == e0.entries.blocks()[x],
            e1.entries.free_list() == e0.entries.free_list() + e0.queues@[price].take(e0.queues@[price].len() as int),
        ensures
            e1.wf_store(),
            e1@.levels == e0@.levels.insert(price, Seq::empty()),
    {
        let q0 = e0.queues@;
        let q1 = e1.queues@;
        let b0 = e0.entries.blocks();
        let b1 = e1.entries.blocks();
        let f0 = e0.entries.free_list();
        let f1 = e1.entries.free_list();
        let qi = q0[price];
        assert(qi.take(qi.len() as int) =~= qi);
        assert forall|p: Price, i: int| q0.dom().contains(p) && p != price && 0 <= i < q0[p].len()
            implies !qi.contains(#[trigger] q0[p][i]) by {
            if qi.contains(q0[p][i]) {
                let k = choose|k: int| 0 <= k < qi.len() && #[trigger] qi[k] == q0[p][i];
                assert(qi[k] == q0[p][i]);
            }
        }
        assert forall|a: int| 0 <= a < f1.len() implies #[trigger] f1[a] < b1.len() by {
            if a < f0.len() {
                assert(f1[a] == f0[a]);
            } else {
                assert(f1[a] == qi[a - f0.len()]);
            }
        }
        assert(f1.no_duplicates()) by {
            assert forall|a: int, c: int| 0 <= a < f1.len() && 0 <= c < f1.len() && a != c implies f1[a] != f1[c] by {
                if a < f0.len() && c < f0.len() {
                } else if a < f0.len() {
                    assert(f1[c] == qi[c - f0.len()]);
                    assert(q0[price][c - f0.len()] != f0[a]);
                } else if c < f0.len() {
                    assert(f1[a] == qi[a - f0.len()]);
                    assert(q0[price][a - f0.len()] != f0[c]);
                } else {
                    assert(f1[a] == qi[a - f0.len()]);
                    assert(f1[c] == qi[c - f0.len()]);
                }
            }
        }
        assert forall|p: Price| #[trigger] q1.dom().contains(p) implies link_matches(e1.price_limits@[p].link, q1[p]) by {}
        assert forall|p: Price, i: int| q1.dom().contains(p) && 0 <= i < q1[p].len() implies #[trigger] q1[p][i] < b1.len()
            && b1[q1[p][i] as int].next == next_of(q1[p], i) by {
            assert(b1[q0[p][i] as int] == b0[q0[p][i] as int]);
        }
        assert forall|p: Price, i: int, a: int| q1.dom().contains(p) && 0 <= i < q1[p].len() && 0 <= a < f1.len()
            implies #[trigger] q1[p][i] != #[trigger] f1[a] by {
            if a < f0.len() {
                assert(f1[a] == f0[a]);
            } else {
                assert(f1[a] == qi[a - f0.len()]);
                assert(q0[price][a - f0.len()] == qi[a - f0.len()]);
            }
        }
        let expected = e0@.levels.insert(price, Seq::empty());
        assert forall|p: Price| #[trigger] e1@.levels.dom().contains(p) implies e1@.levels[p] == expected[p] by {
            if p == price {
                assert(e1.queue_view(q1[p]) =~= expected[p]);
            } else {
                assert(e1.queue_view(q0[p]) =~= e0.queue_view(q0[p]));
            }
        }
        assert(e1@.levels =~= expected);
    }
}

} // verus!
