//! A module defining a simple data structure representing an order book.

pub mod display;

use std::collections::BTreeMap;
use vstd::prelude::*;
use crate::Side;
use crate::tick::TickUnit;
use crate::price_map::{first_key_at_or_above, last_key_at_or_below};

verus! {

/// An order book. Internally uses two `BTreeMap`, one for the bid side and
/// another one for the ask side, each mapping a price to the size resting
/// at that price.
#[derive(PartialEq, Eq, Debug)]
pub struct OrderBook {
    ask: BTreeMap<TickUnit, TickUnit>,
    bid: BTreeMap<TickUnit, TickUnit>,
}

/// Represent a limit update of the order book.
#[derive(Copy, Clone, PartialEq, Eq, Hash, Debug, Structural)]
pub struct LimitUpdate {
    /// Price of the corresponding limit.
    pub price: TickUnit,
    /// Updated size.
    pub size: TickUnit,
    /// Side of the corresponding limit.
    pub side: Side,
}

/// The abstract state of an order book: the size at each price limit of
/// each side.
pub struct BookSides {
    /// Sizes at the bid limits.
    pub bid: Map<TickUnit, TickUnit>,
    /// Sizes at the ask limits.
    pub ask: Map<TickUnit, TickUnit>,
}

impl BookSides {
    /// The limits of `side`.
    pub open spec fn side(self, side: Side) -> Map<TickUnit, TickUnit> {
        match side {
            Side::Bid => self.bid,
            Side::Ask => self.ask,
        }
    }

    /// No limit holds a zero size, and there are finitely many limits.
    pub open spec fn wf(self) -> bool {
        &&& self.bid.dom().finite()
        &&& self.ask.dom().finite()
        &&& forall|p: TickUnit| #[trigger] self.bid.contains_key(p) ==> self.bid[p] > 0
        &&& forall|p: TickUnit| #[trigger] self.ask.contains_key(p) ==> self.ask[p] > 0
    }

    /// The book after a limit update: a zero size removes the limit,
    /// another size sets it.
    pub open spec fn apply(self, u: LimitUpdate) -> BookSides {
        let m = self.side(u.side);
        let m2 = if u.size == 0 {
            m.remove(u.price)
        } else {
            m.insert(u.price, u.size)
        };
        match u.side {
            Side::Bid => BookSides { bid: m2, ..self },
            Side::Ask => BookSides { ask: m2, ..self },
        }
    }

    /// The book after a sequence of limit updates, applied in order.
    pub open spec fn apply_all(self, us: Seq<LimitUpdate>) -> BookSides
        decreases us.len(),
    {
        if us.len() == 0 {
            self
        } else {
            self.apply(us[0]).apply_all(us.drop_first())
        }
    }

    /// The size at the limit of `side` at `price`, `0` if there is none.
    pub open spec fn size_at(self, side: Side, price: TickUnit) -> TickUnit {
        if self.side(side).contains_key(price) {
            self.side(side)[price]
        } else {
            0
        }
    }

    /// The best bid price: the highest bid price, `0` if there is none.
    pub open spec fn is_best_bid(self, price: TickUnit) -> bool {
        ||| self.bid.dom().is_empty() && price == 0
        ||| self.bid.contains_key(price) && forall|p: TickUnit| #[trigger] self.bid.contains_key(p) ==> p <= price
    }

    /// The best ask price: the lowest ask price, `TickUnit::MAX` if there is
    /// none.
    pub open spec fn is_best_ask(self, price: TickUnit) -> bool {
        ||| self.ask.dom().is_empty() && price == u64::MAX
        ||| self.ask.contains_key(price) && forall|p: TickUnit| #[trigger] self.ask.contains_key(p) ==> price <= p
    }
}

/// The updates of `side` that set the limits of `theirs` that `mine` lacks
/// or holds with another size.
pub open spec fn side_changes(mine: Map<TickUnit, TickUnit>, theirs: Map<TickUnit, TickUnit>, side: Side) -> Set<LimitUpdate> {
    Set::new(
        |u: LimitUpdate|
            u.side == side && theirs.contains_key(u.price) && u.size == theirs[u.price]
                && !(mine.contains_key(u.price) && mine[u.price] == theirs[u.price]),
    )
}

/// The updates of `side` that remove the limits of `mine` that `theirs`
/// lacks.
pub open spec fn side_removals(mine: Map<TickUnit, TickUnit>, theirs: Map<TickUnit, TickUnit>, side: Side) -> Set<LimitUpdate> {
    Set::new(
        |u: LimitUpdate| u.side == side && mine.contains_key(u.price) && !theirs.contains_key(u.price) && u.size == 0,
    )
}

/// The updates of `side` that turn the limits `mine` into `theirs`.
pub open spec fn side_diff(mine: Map<TickUnit, TickUnit>, theirs: Map<TickUnit, TickUnit>, side: Side) -> Set<LimitUpdate> {
    side_changes(mine, theirs, side) + side_removals(mine, theirs, side)
}

/// `s` lists the limits of `m` by increasing price.
pub open spec fn lists_ascending(m: Map<TickUnit, TickUnit>, s: Seq<(TickUnit, TickUnit)>) -> bool {
    &&& forall|i: int, j: int| 0 <= i < j < s.len() ==> s[i].0 < s[j].0
    &&& forall|i: int| 0 <= i < s.len() ==> m.contains_key(#[trigger] s[i].0) && m[s[i].0] == s[i].1
    &&& forall|p: TickUnit| #[trigger] m.contains_key(p) ==> exists|i: int| 0 <= i < s.len() && s[i].0 == p
}

/// `s` lists the limits of `m` by decreasing price.
pub open spec fn lists_descending(m: Map<TickUnit, TickUnit>, s: Seq<(TickUnit, TickUnit)>) -> bool {
    &&& forall|i: int, j: int| 0 <= i < j < s.len() ==> s[i].0 > s[j].0
    &&& forall|i: int| 0 <= i < s.len() ==> m.contains_key(#[trigger] s[i].0) && m[s[i].0] == s[i].1
    &&& forall|p: TickUnit| #[trigger] m.contains_key(p) ==> exists|i: int| 0 <= i < s.len() && s[i].0 == p
}

/// Reading a limit after an update gives the size that the update set
/// there (`0` for a removed limit), and the size of any other limit is
/// unchanged.
pub proof fn lemma_update_then_read(book: BookSides, u: LimitUpdate, side: Side, price: TickUnit)
    ensures
        book.apply(u).size_at(side, price) == if side == u.side && price == u.price {
            u.size
        } else {
            book.size_at(side, price)
        },
{
}

/// Updating a book that holds no zero size keeps it so.
pub proof fn lemma_update_keeps_wf(book: BookSides, u: LimitUpdate)
    requires
        book.wf(),
    ensures
        book.apply(u).wf(),
{
}

/// A side of a book has one listing by increasing price.
pub proof fn lemma_ascending_unique(m: Map<TickUnit, TickUnit>, s1: Seq<(TickUnit, TickUnit)>, s2: Seq<(TickUnit, TickUnit)>)
    requires
        lists_ascending(m, s1),
        lists_ascending(m, s2),
    ensures
        s1 == s2,
    decreases s1.len(),
{
    if s1.len() == 0 {
        if s2.len() > 0 {
            assert(m.contains_key(s2[0].0));
        }
        assert(s1 =~= s2);
    } else {
        assert(m.contains_key(s1[0].0));
        let j2 = choose|i: int| 0 <= i < s2.len() && s2[i].0 == s1[0].0;
        assert(m.contains_key(s2[0].0));
        let j1 = choose|i: int| 0 <= i < s1.len() && s1[i].0 == s2[0].0;
        assert(s1[0].0 == s2[0].0) by {
            if j2 > 0 {
                assert(s2[0].0 < s2[j2].0);
            }
            if j1 > 0 {
                assert(s1[0].0 < s1[j1].0);
            }
        }
        let k = s1[0].0;
        let m2 = m.remove(k);
        let t1 = s1.drop_first();
        let t2 = s2.drop_first();
        assert forall|p: TickUnit| #[trigger] m2.contains_key(p) implies exists|i: int| 0 <= i < t1.len() && t1[i].0 == p by {
            let i = choose|i: int| 0 <= i < s1.len() && s1[i].0 == p;
            assert(t1[i - 1].0 == p);
        }
        assert forall|p: TickUnit| #[trigger] m2.contains_key(p) implies exists|i: int| 0 <= i < t2.len() && t2[i].0 == p by {
            let i = choose|i: int| 0 <= i < s2.len() && s2[i].0 == p;
            assert(t2[i - 1].0 == p);
        }
        assert forall|i: int| 0 <= i < t1.len() implies m2.contains_key(#[trigger] t1[i].0) && m2[t1[i].0] == t1[i].1 by {
            assert(s1[0].0 < s1[i + 1].0);
        }
        assert forall|i: int| 0 <= i < t2.len() implies m2.contains_key(#[trigger] t2[i].0) && m2[t2[i].0] == t2[i].1 by {
            assert(s2[0].0 < s2[i + 1].0);
        }
        lemma_ascending_unique(m2, t1, t2);
        assert(s1 =~= s2) by {
            assert forall|i: int| 0 <= i < s1.len() implies s1[i] == s2[i] by {
                if i > 0 {
                    assert(s1[i] == t1[i - 1]);
                    assert(s2[i] == t2[i - 1]);
                }
            }
        }
    }
}

/// A side of a book has one listing by decreasing price.
pub proof fn lemma_descending_unique(m: Map<TickUnit, TickUnit>, s1: Seq<(TickUnit, TickUnit)>, s2: Seq<(TickUnit, TickUnit)>)
    requires
        lists_descending(m, s1),
        lists_descending(m, s2),
    ensures
        s1 == s2,
    decreases s1.len(),
{
    if s1.len() == 0 {
        if s2.len() > 0 {
            assert(m.contains_key(s2[0].0));
        }
        assert(s1 =~= s2);
    } else {
        assert(m.contains_key(s1[0].0));
        let j2 = choose|i: int| 0 <= i < s2.len() && s2[i].0 == s1[0].0;
        assert(m.contains_key(s2[0].0));
        let j1 = choose|i: int| 0 <= i < s1.len() && s1[i].0 == s2[0].0;
        assert(s1[0].0 == s2[0].0) by {
            if j2 > 0 {
                assert(s2[0].0 > s2[j2].0);
            }
            if j1 > 0 {
                assert(s1[0].0 > s1[j1].0);
            }
        }
        let k = s1[0].0;
        let m2 = m.remove(k);
        let t1 = s1.drop_first();
        let t2 = s2.drop_first();
        assert forall|p: TickUnit| #[trigger] m2.contains_key(p) implies exists|i: int| 0 <= i < t1.len() && t1[i].0 == p by {
            let i = choose|i: int| 0 <= i < s1.len() && s1[i].0 == p;
            assert(t1[i - 1].0 == p);
        }
        assert forall|p: TickUnit| #[trigger] m2.contains_key(p) implies exists|i: int| 0 <= i < t2.len() && t2[i].0 == p by {
            let i = choose|i: int| 0 <= i < s2.len() && s2[i].0 == p;
            assert(t2[i - 1].0 == p);
        }
        assert forall|i: int| 0 <= i < t1.len() implies m2.contains_key(#[trigger] t1[i].0) && m2[t1[i].0] == t1[i].1 by {
            assert(s1[0].0 > s1[i + 1].0);
        }
        assert forall|i: int| 0 <= i < t2.len() implies m2.contains_key(#[trigger] t2[i].0) && m2[t2[i].0] == t2[i].1 by {
            assert(s2[0].0 > s2[i + 1].0);
        }
        lemma_descending_unique(m2, t1, t2);
        assert(s1 =~= s2) by {
            assert forall|i: int| 0 <= i < s1.len() implies s1[i] == s2[i] by {
                if i > 0 {
                    assert(s1[i] == t1[i - 1]);
                    assert(s2[i] == t2[i - 1]);
                }
            }
        }
    }
}

/// The limit updates that turn book `a` into book `b`.
pub open spec fn diff_set(a: BookSides, b: BookSides) -> Set<LimitUpdate> {
    side_diff(a.bid, b.bid, Side::Bid) + side_diff(a.ask, b.ask, Side::Ask)
}


/// No two updates of `us` are about the same limit.
pub open spec fn distinct_limits(us: Seq<LimitUpdate>) -> bool {
    forall|i: int, j: int|
        0 <= i < us.len() && 0 <= j < us.len() && i != j ==> (#[trigger] us[i]).side != (#[trigger] us[j]).side
            || us[i].price != us[j].price
}

/// Whether some update of `us` is about the limit at `price` of `side`.
pub open spec fn touches(us: Seq<LimitUpdate>, side: Side, price: TickUnit) -> bool {
    exists|i: int| 0 <= i < us.len() && (#[trigger] us[i]).side == side && us[i].price == price
}

/// Applying updates about distinct limits: each limit that an update is
/// about ends as that update says, the other limits are unchanged.
proof fn lemma_apply_all_distinct(a: BookSides, us: Seq<LimitUpdate>)
    requires
        distinct_limits(us),
    ensures
        forall|i: int|
            0 <= i < us.len() ==> {
                &&& (a.apply_all(us).side((#[trigger] us[i]).side).contains_key(us[i].price) <==> us[i].size != 0)
                &&& us[i].size != 0 ==> a.apply_all(us).side(us[i].side)[us[i].price] == us[i].size
            },
        forall|side: Side, price: TickUnit| !touches(us, side, price) ==> {
            &&& (#[trigger] a.apply_all(us).side(side).contains_key(price) <==> a.side(side).contains_key(price))
            &&& a.side(side).contains_key(price) ==> a.apply_all(us).side(side)[price] == a.side(side)[price]
        },
    decreases us.len(),
{
    if us.len() > 0 {
        let rest = us.drop_first();
        assert(distinct_limits(rest)) by {
            assert forall|i: int, j: int| 0 <= i < rest.len() && 0 <= j < rest.len() && i != j
                implies (#[trigger] rest[i]).side != (#[trigger] rest[j]).side || rest[i].price != rest[j].price by {
                assert(rest[i] == us[i + 1]);
                assert(rest[j] == us[j + 1]);
            }
        }
        let a1 = a.apply(us[0]);
        lemma_apply_all_distinct(a1, rest);
        assert(a.apply_all(us) == a1.apply_all(rest));
        assert forall|i: int|
            0 <= i < us.len() implies {
                &&& (a.apply_all(us).side((#[trigger] us[i]).side).contains_key(us[i].price) <==> us[i].size != 0)
                &&& us[i].size != 0 ==> a.apply_all(us).side(us[i].side)[us[i].price] == us[i].size
            } by {
            let side = us[i].side;
            let price = us[i].price;
            if i == 0 {
                assert(!touches(rest, side, price)) by {
                    if touches(rest, side, price) {
                        let k = choose|k: int| 0 <= k < rest.len() && (#[trigger] rest[k]).side == side && rest[k].price == price;
                        assert(rest[k] == us[k + 1]);
                    }
                }
                assert(a1.apply_all(rest).side(side).contains_key(price) <==> a1.side(side).contains_key(price));
                assert(a1.side(side).contains_key(price) ==> a1.apply_all(rest).side(side)[price] == a1.side(side)[price]);
                assert(a1.side(side).contains_key(price) <==> us[0].size != 0);
            } else {
                assert(rest[i - 1] == us[i]);
                assert(a1.apply_all(rest).side(rest[i - 1].side).contains_key(rest[i - 1].price) <==> rest[i - 1].size != 0);
            }
        }
        assert forall|side: Side, price: TickUnit| !touches(us, side, price) implies {
            &&& (#[trigger] a.apply_all(us).side(side).contains_key(price) <==> a.side(side).contains_key(price))
            &&& a.side(side).contains_key(price) ==> a.apply_all(us).side(side)[price] == a.side(side)[price]
        } by {
            assert(!touches(rest, side, price)) by {
                if touches(rest, side, price) {
                    let k = choose|k: int| 0 <= k < rest.len() && (#[trigger] rest[k]).side == side && rest[k].price == price;
                    assert(rest[k] == us[k + 1]);
                }
            }
            assert(!(us[0].side == side && us[0].price == price));
            assert(a1.apply_all(rest).side(side).contains_key(price) <==> a1.side(side).contains_key(price));
            assert(a1.side(side).contains_key(price) ==> a1.apply_all(rest).side(side)[price] == a1.side(side)[price]);
            assert(a1.side(side).contains_key(price) <==> a.side(side).contains_key(price));
            assert(a1.side(side).contains_key(price) ==> a1.side(side)[price] == a.side(side)[price]);
        }
    }
}

/// Applying to a book the updates of its difference with a well-formed
/// book `b`, in any order, gives `b`.
pub proof fn lemma_diff_apply(a: BookSides, b: BookSides, us: Seq<LimitUpdate>)
    requires
        b.wf(),
        us.to_set() == diff_set(a, b),
        distinct_limits(us),
    ensures
        a.apply_all(us) == b,
{
    lemma_apply_all_distinct(a, us);
    let r = a.apply_all(us);
    assert forall|side: Side| #[trigger] r.side(side) =~= b.side(side) by {
        assert forall|price: TickUnit| #[trigger] r.side(side).contains_key(price) <==> b.side(side).contains_key(price) by {
            if touches(us, side, price) {
                let i = choose|i: int| 0 <= i < us.len() && (#[trigger] us[i]).side == side && us[i].price == price;
                assert(us.to_set().contains(us[i]));
            } else {
                if b.side(side).contains_key(price) && !(a.side(side).contains_key(price) && a.side(side)[price] == b.side(side)[price]) {
                    let u = LimitUpdate { price, size: b.side(side)[price], side };
                    assert(diff_set(a, b).contains(u));
                    assert(us.to_set().contains(u));
                    let i = choose|i: int| 0 <= i < us.len() && us[i] == u;
                    assert(us[i].side == side && us[i].price == price);
                }
                if !b.side(side).contains_key(price) && a.side(side).contains_key(price) {
                    let u = LimitUpdate { price, size: 0, side };
                    assert(diff_set(a, b).contains(u));
                    assert(us.to_set().contains(u));
                    let i = choose|i: int| 0 <= i < us.len() && us[i] == u;
                    assert(us[i].side == side && us[i].price == price);
                }
            }
        }
        assert forall|price: TickUnit| #[trigger] r.side(side).contains_key(price) implies r.side(side)[price] == b.side(side)[price] by {
            if touches(us, side, price) {
                let i = choose|i: int| 0 <= i < us.len() && (#[trigger] us[i]).side == side && us[i].price == price;
                assert(us.to_set().contains(us[i]));
            } else {
                if !(a.side(side).contains_key(price) && a.side(side)[price] == b.side(side)[price]) {
                    let u = LimitUpdate { price, size: b.side(side)[price], side };
                    assert(diff_set(a, b).contains(u));
                    assert(us.to_set().contains(u));
                    let i = choose|i: int| 0 <= i < us.len() && us[i] == u;
                    assert(us[i].side == side && us[i].price == price);
                }
            }
        }
    }
    assert(r.side(Side::Bid) =~= b.side(Side::Bid));
    assert(r.side(Side::Ask) =~= b.side(Side::Ask));
}


/// The updates of `side` that turn the limits `mine` into `theirs`, by
/// increasing price: first the limits to set, then those to remove.
fn side_diff_exec(mine: &BTreeMap<TickUnit, TickUnit>, theirs: &BTreeMap<TickUnit, TickUnit>, side: Side) -> (r: Vec<LimitUpdate>)
    ensures
        r@.to_set() == side_diff(mine@, theirs@, side),
        forall|i: int| 0 <= i < r.len() ==> (#[trigger] r[i]).side == side,
        forall|i: int, j: int| 0 <= i < r.len() && 0 <= j < r.len() && i != j ==> (#[trigger] r[i]).price != (#[trigger] r[j]).price,
{
    let ghost changes = side_changes(mine@, theirs@, side);
    let ghost removals = side_removals(mine@, theirs@, side);
    // The limits to set.
    let mut set: Vec<LimitUpdate> = Vec::new();
    let mut cur: TickUnit = 0;
    loop
        invariant_except_break
            forall|i: int| 0 <= i < set.len() ==> (#[trigger] set[i]).price < cur,
            forall|u: LimitUpdate| #[trigger] changes.contains(u) && u.price < cur ==> set@.contains(u),
        invariant
            changes == side_changes(mine@, theirs@, side),
            forall|i: int, j: int| 0 <= i < j < set.len() ==> (#[trigger] set[i]).price < (#[trigger] set[j]).price,
            forall|i: int| 0 <= i < set.len() ==> changes.contains(#[trigger] set[i]),
        ensures
            forall|u: LimitUpdate| #[trigger] changes.contains(u) ==> set@.contains(u),
        decreases u64::MAX - cur,
    {
        match first_key_at_or_above(theirs, cur) {
            None => {
                break;
            },
            Some(k) => {
                let size = *theirs.get(&k).unwrap();
                let need_update = match mine.get(&k) {
                    Some(s) => *s != size,
                    None => true,
                };
                let ghost before = set@;
                if need_update {
                    set.push(LimitUpdate::new(k, size, side));
                }
                proof {
                    assert forall|u: LimitUpdate| #[trigger] changes.contains(u) && u.price <= k implies set@.contains(u) by {
                        if u.price < cur {
                            let i = choose|i: int| 0 <= i < before.len() && before[i] == u;
                            assert(set[i] == u);
                        } else {
                            assert(u.price == k);
                            assert(set[set.len() - 1] == u);
                        }
                    }
                }
                if k == u64::MAX {
                    break;
                }
                cur = k + 1;
            },
        }
    }
    // The limits to remove.
    let mut removed: Vec<LimitUpdate> = Vec::new();
    let mut cur: TickUnit = 0;
    loop
        invariant_except_break
            forall|i: int| 0 <= i < removed.len() ==> (#[trigger] removed[i]).price < cur,
            forall|u: LimitUpdate| #[trigger] removals.contains(u) && u.price < cur ==> removed@.contains(u),
        invariant
            removals == side_removals(mine@, theirs@, side),
            forall|i: int, j: int| 0 <= i < j < removed.len() ==> (#[trigger] removed[i]).price < (#[trigger] removed[j]).price,
            forall|i: int| 0 <= i < removed.len() ==> removals.contains(#[trigger] removed[i]),
        ensures
            forall|u: LimitUpdate| #[trigger] removals.contains(u) ==> removed@.contains(u),
        decreases u64::MAX - cur,
    {
        match first_key_at_or_above(mine, cur) {
            None => {
                break;
            },
            Some(k) => {
                let ghost before = removed@;
                if !theirs.contains_key(&k) {
                    removed.push(LimitUpdate::new(k, 0, side));
                }
                proof {
                    assert forall|u: LimitUpdate| #[trigger] removals.contains(u) && u.price <= k implies removed@.contains(u) by {
                        if u.price < cur {
                            let i = choose|i: int| 0 <= i < before.len() && before[i] == u;
                            assert(removed[i] == u);
                        } else {
                            assert(u.price == k);
                            assert(removed[removed.len() - 1] == u);
                        }
                    }
                }
                if k == u64::MAX {
                    break;
                }
                cur = k + 1;
            },
        }
    }
    let ghost s1 = set@;
    let ghost s2 = removed@;
    set.append(&mut removed);
    proof {
        let r = set@;
        assert(r == s1 + s2);
        assert forall|u: LimitUpdate| r.to_set().contains(u) <==> side_diff(mine@, theirs@, side).contains(u) by {
            if r.to_set().contains(u) {
                let i = choose|i: int| 0 <= i < r.len() && r[i] == u;
                if i < s1.len() {
                    assert(s1[i] == u);
                } else {
                    assert(s2[i - s1.len()] == u);
                }
            }
            if changes.contains(u) {
                let i = choose|i: int| 0 <= i < s1.len() && s1[i] == u;
                assert(r[i] == u);
            }
            if removals.contains(u) {
                let i = choose|i: int| 0 <= i < s2.len() && s2[i] == u;
                assert(r[i + s1.len()] == u);
            }
        }
        assert(r.to_set() =~= side_diff(mine@, theirs@, side));
        assert forall|i: int, j: int| 0 <= i < r.len() && 0 <= j < r.len() && i != j
            implies (#[trigger] r[i]).price != (#[trigger] r[j]).price by {
            if i < s1.len() && j < s1.len() {
                assert(s1[i] == r[i] && s1[j] == r[j]);
            } else if i >= s1.len() && j >= s1.len() {
                assert(s2[i - s1.len()] == r[i] && s2[j - s1.len()] == r[j]);
            } else if i < s1.len() {
                assert(changes.contains(s1[i]));
                assert(removals.contains(s2[j - s1.len()]));
            } else {
                assert(changes.contains(s1[j]));
                assert(removals.contains(s2[i - s1.len()]));
            }
        }
        assert forall|i: int| 0 <= i < r.len() implies (#[trigger] r[i]).side == side by {
            if i < s1.len() {
                assert(changes.contains(s1[i]));
            } else {
                assert(removals.contains(s2[i - s1.len()]));
            }
        }
    }
    set
}

/// Applying one more update after a sequence of updates.
pub proof fn lemma_apply_all_push(b: BookSides, us: Seq<LimitUpdate>, u: LimitUpdate)
    ensures
        b.apply_all(us.push(u)) == b.apply_all(us).apply(u),
    decreases us.len(),
{
    if us.len() == 0 {
        assert(us.push(u).drop_first() =~= Seq::<LimitUpdate>::empty());
        assert(b.apply(u).apply_all(Seq::<LimitUpdate>::empty()) == b.apply(u));
    } else {
        assert(us.push(u).drop_first() =~= us.drop_first().push(u));
        lemma_apply_all_push(b.apply(us[0]), us.drop_first(), u);
    }
}

impl LimitUpdate {
    /// Return a new `LimitUpdate`.
    pub fn new(price: TickUnit, size: TickUnit, side: Side) -> (u: Self)
        ensures
            u == (LimitUpdate { price, size, side }),
    {
        LimitUpdate { price, size, side }
    }
}

impl Clone for OrderBook {
    fn clone(&self) -> (book: Self)
        ensures
            book@ == self@,
    {
        proof {
            use_type_invariant(self);
        }
        OrderBook { ask: self.ask.clone(), bid: self.bid.clone() }
    }
}

impl Default for OrderBook {
    /// An empty order book.
    fn default() -> (book: Self)
        ensures
            book@.wf(),
            book@.bid == Map::<TickUnit, TickUnit>::empty(),
            book@.ask == Map::<TickUnit, TickUnit>::empty(),
    {
        OrderBook::new()
    }
}

impl View for OrderBook {
    type V = BookSides;

    closed spec fn view(&self) -> BookSides {
        BookSides { bid: self.bid@, ask: self.ask@ }
    }
}

impl OrderBook {
    /// No limit holds a zero size.
    #[verifier::type_invariant]
    spec fn no_empty_limit(self) -> bool {
        &&& forall|p: TickUnit| #[trigger] self.bid@.contains_key(p) ==> self.bid@[p] > 0
        &&& forall|p: TickUnit| #[trigger] self.ask@.contains_key(p) ==> self.ask@[p] > 0
    }

    /// Return an empty `OrderBook`.
    pub fn new() -> (book: Self)
        ensures
            book@.wf(),
            book@.bid == Map::<TickUnit, TickUnit>::empty(),
            book@.ask == Map::<TickUnit, TickUnit>::empty(),
    {
        OrderBook { ask: BTreeMap::new(), bid: BTreeMap::new() }
    }

    /// Return best bid price. If the bid side is empty, return `0`.
    pub fn best_bid(&self) -> (price: TickUnit)
        ensures
            self@.wf(),
            self@.is_best_bid(price),
    {
        proof {
            use_type_invariant(self);
        }
        match last_key_at_or_below(&self.bid, u64::MAX) {
            Some(price) => price,
            None => {
                assert(self@.bid.dom() =~= Set::<TickUnit>::empty());
                0
            },
        }
    }

    /// Return best ask price. If the ask side is empty, return
    /// `TickUnit::MAX`.
    pub fn best_ask(&self) -> (price: TickUnit)
        ensures
            self@.wf(),
            self@.is_best_ask(price),
    {
        proof {
            use_type_invariant(self);
        }
        match first_key_at_or_above(&self.ask, 0) {
            Some(price) => price,
            None => {
                assert(self@.ask.dom() =~= Set::<TickUnit>::empty());
                u64::MAX
            },
        }
    }

    /// Update the given limit with the given updated size: a zero size
    /// removes the limit.
    pub fn update(&mut self, update: LimitUpdate)
        ensures
            final(self)@ == old(self)@.apply(update),
            final(self)@.wf(),
    {
        proof {
            use_type_invariant(&*self);
        }
        let mut side = BTreeMap::new();
        match update.side {
            Side::Bid => std::mem::swap(&mut side, &mut self.bid),
            Side::Ask => std::mem::swap(&mut side, &mut self.ask),
        }
        if update.size == 0 {
            side.remove(&update.price);
        } else {
            side.insert(update.price, update.size);
        }
        match update.side {
            Side::Bid => std::mem::swap(&mut side, &mut self.bid),
            Side::Ask => std::mem::swap(&mut side, &mut self.ask),
        }
        proof {
            use_type_invariant(&*self);
        }
    }


    /// Apply the limit updates `updates`, in order.
    pub fn update_all(&mut self, updates: &Vec<LimitUpdate>)
        ensures
            final(self)@ == old(self)@.apply_all(updates@),
            final(self)@.wf(),
    {
        proof {
            use_type_invariant(&*self);
        }
        let ghost start = self@;
        let mut i: usize = 0;
        assert(updates@.take(0) =~= Seq::<LimitUpdate>::empty());
        while i < updates.len()
            invariant
                i <= updates@.len(),
                self@ == start.apply_all(updates@.take(i as int)),
                self@.wf(),
            decreases updates@.len() - i,
        {
            proof {
                lemma_apply_all_push(start, updates@.take(i as int), updates@[i as int]);
                assert(updates@.take(i as int).push(updates@[i as int]) =~= updates@.take(i + 1));
            }
            self.update(updates[i]);
            i = i + 1;
        }
        assert(updates@.take(updates@.len() as int) =~= updates@);
    }

    /// The limits at bid, sorted by decreasing price.
    pub fn bid(&self) -> (limits: Vec<(TickUnit, TickUnit)>)
        ensures
            self@.wf(),
            lists_descending(self@.bid, limits@),
    {
        proof {
            use_type_invariant(self);
        }
        let mut limits: Vec<(TickUnit, TickUnit)> = Vec::new();
        let mut cur = u64::MAX;
        loop
            invariant_except_break
                forall|i: int| 0 <= i < limits.len() ==> limits[i].0 > cur,
                forall|p: TickUnit| #[trigger] self@.bid.contains_key(p) && p > cur
                    ==> exists|i: int| 0 <= i < limits.len() && limits[i].0 == p,
            invariant
                forall|i: int, j: int| 0 <= i < j < limits.len() ==> limits[i].0 > limits[j].0,
                forall|i: int| 0 <= i < limits.len() ==> self@.bid.contains_key(#[trigger] limits[i].0)
                    && self@.bid[limits[i].0] == limits[i].1,
            ensures
                lists_descending(self@.bid, limits@),
            decreases cur,
        {
            match last_key_at_or_below(&self.bid, cur) {
                None => {
                    break;
                },
                Some(k) => {
                    let size = *self.bid.get(&k).unwrap();
                    let ghost before = limits@;
                    limits.push((k, size));
                    proof {
                        assert forall|p: TickUnit| #[trigger] self@.bid.contains_key(p) && p >= k
                            implies exists|i: int| 0 <= i < limits.len() && limits[i].0 == p by {
                            if p > cur {
                                let i = choose|i: int| 0 <= i < before.len() && before[i].0 == p;
                                assert(limits[i].0 == p);
                            } else {
                                assert(limits[limits.len() - 1].0 == p);
                            }
                        }
                    }
                    if k == 0 {
                        break;
                    }
                    cur = k - 1;
                },
            }
        }
        limits
    }

    /// The limits at ask, sorted by increasing price.
    pub fn ask(&self) -> (limits: Vec<(TickUnit, TickUnit)>)
        ensures
            self@.wf(),
            lists_ascending(self@.ask, limits@),
    {
        proof {
            use_type_invariant(self);
        }
        let mut limits: Vec<(TickUnit, TickUnit)> = Vec::new();
        let mut cur: TickUnit = 0;
        loop
            invariant_except_break
                forall|i: int| 0 <= i < limits.len() ==> limits[i].0 < cur,
                forall|p: TickUnit| #[trigger] self@.ask.contains_key(p) && p < cur
                    ==> exists|i: int| 0 <= i < limits.len() && limits[i].0 == p,
            invariant
                forall|i: int, j: int| 0 <= i < j < limits.len() ==> limits[i].0 < limits[j].0,
                forall|i: int| 0 <= i < limits.len() ==> self@.ask.contains_key(#[trigger] limits[i].0)
                    && self@.ask[limits[i].0] == limits[i].1,
            ensures
                lists_ascending(self@.ask, limits@),
            decreases u64::MAX - cur,
        {
            match first_key_at_or_above(&self.ask, cur) {
                None => {
                    break;
                },
                Some(k) => {
                    let size = *self.ask.get(&k).unwrap();
                    let ghost before = limits@;
                    limits.push((k, size));
                    proof {
                        assert forall|p: TickUnit| #[trigger] self@.ask.contains_key(p) && p <= k
                            implies exists|i: int| 0 <= i < limits.len() && limits[i].0 == p by {
                            if p < cur {
                                let i = choose|i: int| 0 <= i < before.len() && before[i].0 == p;
                                assert(limits[i].0 == p);
                            } else {
                                assert(limits[limits.len() - 1].0 == p);
                            }
                        }
                    }
                    if k == u64::MAX {
                        break;
                    }
                    cur = k + 1;
                },
            }
        }
        limits
    }


    /// Return the set of limit updates to apply to `self` in order to be
    /// equal to `other`: applied in any order, they turn `self` into
    /// `other`. Bid updates come first, then ask updates.
    pub fn diff(&self, other: &OrderBook) -> (updates: Vec<LimitUpdate>)
        ensures
            updates@.to_set() == diff_set(self@, other@),
            distinct_limits(updates@),
            self@.apply_all(updates@) == other@,
    {
        proof {
            use_type_invariant(other);
        }
        let mut updates = side_diff_exec(&self.bid, &other.bid, Side::Bid);
        let ghost b = updates@;
        let mut ask = side_diff_exec(&self.ask, &other.ask, Side::Ask);
        let ghost a = ask@;
        updates.append(&mut ask);
        proof {
            let r = updates@;
            assert(r == b + a);
            assert forall|u: LimitUpdate| r.to_set().contains(u) <==> diff_set(self@, other@).contains(u) by {
                if r.to_set().contains(u) {
                    let i = choose|i: int| 0 <= i < r.len() && r[i] == u;
                    if i < b.len() {
                        assert(b[i] == u);
                        assert(b.to_set().contains(u));
                    } else {
                        assert(a[i - b.len()] == u);
                        assert(a.to_set().contains(u));
                    }
                }
                if side_diff(self@.bid, other@.bid, Side::Bid).contains(u) {
                    assert(b.to_set().contains(u));
                    let i = choose|i: int| 0 <= i < b.len() && b[i] == u;
                    assert(r[i] == u);
                }
                if side_diff(self@.ask, other@.ask, Side::Ask).contains(u) {
                    assert(a.to_set().contains(u));
                    let i = choose|i: int| 0 <= i < a.len() && a[i] == u;
                    assert(r[i + b.len()] == u);
                }
            }
            assert(r.to_set() =~= diff_set(self@, other@));
            assert forall|i: int, j: int| 0 <= i < r.len() && 0 <= j < r.len() && i != j
                implies (#[trigger] r[i]).side != (#[trigger] r[j]).side || r[i].price != r[j].price by {
                if i < b.len() && j < b.len() {
                    assert(b[i] == r[i] && b[j] == r[j]);
                } else if i >= b.len() && j >= b.len() {
                    assert(a[i - b.len()] == r[i] && a[j - b.len()] == r[j]);
                } else if i < b.len() {
                    assert(b[i] == r[i] && a[j - b.len()] == r[j]);
                } else {
                    assert(a[i - b.len()] == r[i] && b[j] == r[j]);
                }
            }
            assert(other@.wf());
            lemma_diff_apply(self@, other@, r);
        }
        updates
    }

    /// Retrieve the size at the given limit, `0` if there is no such limit.
    pub fn size_at_limit(&self, side: Side, price: TickUnit) -> (size: TickUnit)
        ensures
            self@.wf(),
            size == self@.size_at(side, price),
    {
        proof {
            use_type_invariant(self);
        }
        let size = match side {
            Side::Bid => self.bid.get(&price),
            Side::Ask => self.ask.get(&price),
        };
        match size {
            Some(s) => *s,
            None => 0,
        }
    }
}

} // verus!
