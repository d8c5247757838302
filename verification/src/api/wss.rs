//! What the streams of the exchanges share: converting the texts of limit
//! updates into ticks, with the first failure reported, and the errors met
//! while converting messages.

use vstd::prelude::*;
use crate::Side;
use crate::api::Notification;
use crate::api::timestamp::{Timestamp, str_timestamp, convert_str_timestamp};
use crate::api::params::SymbolInfo;
use crate::order_book::LimitUpdate;
use crate::tick::{Tick, TickUnit, ConversionError, ticks_of, probe, reports_unticked};

verus! {

/// A limit update as exchanges send it: a price and a size, unticked.
#[derive(Clone, PartialEq, Eq, Hash, Debug)]
pub struct UntickedLimit {
    /// Price of the limit, unticked.
    pub price: String,
    /// Size at the limit, unticked.
    pub size: String,
}

/// An error met while converting a message of an exchange into
/// notifications.
#[derive(Clone, PartialEq, Eq, Hash, Debug)]
pub enum MessageError {
    /// A price or a size is not a whole number of ticks.
    Conversion(ConversionError),
    /// A side that the exchange does not name so.
    WrongSide(String),
    /// A time that is not a UTC time in the expected format, or is before
    /// the epoch.
    Timestamp(String),
    /// The quantity of a trade is missing.
    MissingTradeQuantity,
    /// The price of a trade is missing.
    MissingTradePrice,
    /// The exchange reports an error, with a message and maybe a reason.
    Server(String, Option<String>),
}

/// Why a message cannot be converted, in terms of its texts.
pub enum Failure {
    /// The text is not a whole number of ticks of the tick.
    Conversion(Tick, Seq<char>),
    /// The exchange does not name a side so.
    WrongSide(Seq<char>),
    /// The text is not a UTC time in the expected format, or is before the
    /// epoch.
    Timestamp(Seq<char>),
    /// The quantity of a trade is missing.
    MissingTradeQuantity,
    /// The price of a trade is missing.
    MissingTradePrice,
    /// The exchange reports an error, with a message and maybe a reason.
    Server(Seq<char>, Option<Seq<char>>),
}

/// `e` is the error that reports `f`.
pub open spec fn failed_with(e: MessageError, f: Failure) -> bool {
    match f {
        Failure::Conversion(tick, s) => e matches MessageError::Conversion(c) && reports_unticked(c, tick, s),
        Failure::WrongSide(s) => e matches MessageError::WrongSide(t) && t@ == s,
        Failure::Timestamp(s) => e matches MessageError::Timestamp(t) && t@ == s,
        Failure::MissingTradeQuantity => e is MissingTradeQuantity,
        Failure::MissingTradePrice => e is MissingTradePrice,
        Failure::Server(m, r) => e matches MessageError::Server(m2, r2) && m2@ == m && match r {
            Some(x) => r2 matches Some(y) && y@ == x,
            None => r2 is None,
        },
    }
}

/// `e` is the conversion error that reports `f`.
pub open spec fn conversion_failed(e: ConversionError, f: Failure) -> bool {
    f matches Failure::Conversion(tick, s) && reports_unticked(e, tick, s)
}

/// The text `s` in ticks of `tick`, or the failure to convert it.
pub open spec fn in_ticks(tick: Tick, s: Seq<char>) -> Result<TickUnit, Failure> {
    match ticks_of(tick, s) {
        Some(v) => Ok(v),
        None => Err(Failure::Conversion(tick, s)),
    }
}

/// The limit update that `l` stands for on `side`: its price, then its size,
/// converted in ticks.
pub open spec fn level_update(sym: SymbolInfo, l: UntickedLimit, side: Side) -> Result<LimitUpdate, Failure> {
    match in_ticks(sym.price_tick, l.price@) {
        Err(f) => Err(f),
        Ok(price) => match in_ticks(sym.size_tick, l.size@) {
            Err(f) => Err(f),
            Ok(size) => Ok(LimitUpdate { price, size, side }),
        },
    }
}

/// Both the price and the size of `l` are whole numbers of ticks.
pub open spec fn level_converts(sym: SymbolInfo, l: UntickedLimit) -> bool {
    ticks_of(sym.price_tick, l.price@) is Some && ticks_of(sym.size_tick, l.size@) is Some
}

/// The conversions of `l` that are made stay in range.
pub open spec fn level_fits(sym: SymbolInfo, l: UntickedLimit) -> bool {
    match probe(sym.price_tick, l.price@) {
        None => false,
        Some(None) => true,
        Some(Some(_)) => probe(sym.size_tick, l.size@) is Some,
    }
}

/// The limit updates that `ls` stand for on `side`, in order, or the failure
/// of the first one that does not convert.
#[verifier::opaque]
pub open spec fn levels_update(sym: SymbolInfo, ls: Seq<UntickedLimit>, side: Side) -> Result<Seq<LimitUpdate>, Failure>
    decreases ls.len(),
{
    if ls.len() == 0 {
        Ok(Seq::empty())
    } else {
        match levels_update(sym, ls.drop_last(), side) {
            Err(f) => Err(f),
            Ok(us) => match level_update(sym, ls.last(), side) {
                Err(f) => Err(f),
                Ok(u) => Ok(us.push(u)),
            },
        }
    }
}

/// All the limits of `ls` before the `i`-th convert.
pub open spec fn converts_before(sym: SymbolInfo, ls: Seq<UntickedLimit>, i: int) -> bool {
    forall|j: int| 0 <= j < i ==> level_converts(sym, #[trigger] ls[j])
}

/// The conversions of `ls` that are made stay in range: those of each limit
/// that follows limits that all convert.
pub open spec fn levels_fit(sym: SymbolInfo, ls: Seq<UntickedLimit>) -> bool {
    forall|i: int| 0 <= i < ls.len() && converts_before(sym, ls, i) ==> level_fits(sym, #[trigger] ls[i])
}

/// The limit updates of the bids, then of the asks, or the first failure.
pub open spec fn sides_update(sym: SymbolInfo, bids: Seq<UntickedLimit>, asks: Seq<UntickedLimit>) -> Result<Seq<LimitUpdate>, Failure> {
    match levels_update(sym, bids, Side::Bid) {
        Err(f) => Err(f),
        Ok(b) => match levels_update(sym, asks, Side::Ask) {
            Err(f) => Err(f),
            Ok(a) => Ok(b + a),
        },
    }
}

/// The conversions of the bids, then of the asks, stay in range.
pub open spec fn sides_fit(sym: SymbolInfo, bids: Seq<UntickedLimit>, asks: Seq<UntickedLimit>) -> bool {
    levels_fit(sym, bids) && (converts_before(sym, bids, bids.len() as int) ==> levels_fit(sym, asks))
}

/// Converting limits on `side`, when it succeeds, gives one update for
/// each limit, in order, on `side`, with the limit's price and size in
/// ticks.
pub proof fn lemma_levels_each(sym: SymbolInfo, ls: Seq<UntickedLimit>, side: Side)
    requires
        levels_update(sym, ls, side) is Ok,
    ensures
        levels_update(sym, ls, side)->Ok_0.len() == ls.len(),
        forall|i: int| 0 <= i < ls.len() ==> {
            &&& ticks_of(sym.price_tick, (#[trigger] ls[i]).price@) is Some
            &&& ticks_of(sym.size_tick, ls[i].size@) is Some
            &&& levels_update(sym, ls, side)->Ok_0[i] == LimitUpdate {
                price: ticks_of(sym.price_tick, ls[i].price@)->0,
                size: ticks_of(sym.size_tick, ls[i].size@)->0,
                side,
            }
        },
    decreases ls.len(),
{
    reveal(levels_update);
    if ls.len() > 0 {
        let d = ls.drop_last();
        lemma_levels_each(sym, d, side);
        assert forall|i: int| 0 <= i < ls.len() implies {
            &&& ticks_of(sym.price_tick, (#[trigger] ls[i]).price@) is Some
            &&& ticks_of(sym.size_tick, ls[i].size@) is Some
            &&& levels_update(sym, ls, side)->Ok_0[i] == LimitUpdate {
                price: ticks_of(sym.price_tick, ls[i].price@)->0,
                size: ticks_of(sym.size_tick, ls[i].size@)->0,
                side,
            }
        } by {
            if i < d.len() {
                assert(d[i] == ls[i]);
            }
        }
    }
}

/// Converting the bids and the asks of a book message, when it succeeds,
/// gives the updates of the bids, on the bid side, then those of the asks,
/// on the ask side, one for each limit, in order, with its price and size
/// in ticks.
pub proof fn lemma_sides_each(sym: SymbolInfo, bids: Seq<UntickedLimit>, asks: Seq<UntickedLimit>)
    requires
        sides_update(sym, bids, asks) is Ok,
    ensures
        ({
            let us = sides_update(sym, bids, asks)->Ok_0;
            &&& us.len() == bids.len() + asks.len()
            &&& forall|i: int| 0 <= i < bids.len() ==> us[i] == LimitUpdate {
                price: ticks_of(sym.price_tick, (#[trigger] bids[i]).price@)->0,
                size: ticks_of(sym.size_tick, bids[i].size@)->0,
                side: Side::Bid,
            }
            &&& forall|j: int| 0 <= j < asks.len() ==> us[bids.len() + j] == LimitUpdate {
                price: ticks_of(sym.price_tick, (#[trigger] asks[j]).price@)->0,
                size: ticks_of(sym.size_tick, asks[j].size@)->0,
                side: Side::Ask,
            }
        }),
{
    lemma_levels_each(sym, bids, Side::Bid);
    lemma_levels_each(sym, asks, Side::Ask);
}

/// A failure in a prefix of `ls` is the failure of `ls`.
pub(crate) proof fn lemma_levels_prefix(sym: SymbolInfo, ls: Seq<UntickedLimit>, side: Side, k: int)
    requires
        0 <= k <= ls.len(),
        levels_update(sym, ls.take(k), side) is Err,
    ensures
        levels_update(sym, ls, side) == levels_update(sym, ls.take(k), side),
    decreases ls.len(),
{
    reveal(levels_update);
    if k == ls.len() {
        assert(ls.take(k) =~= ls);
    } else {
        assert(ls.drop_last().take(k) =~= ls.take(k));
        lemma_levels_prefix(sym, ls.drop_last(), side, k);
    }
}

/// Converting one more limit of `ls`.
pub(crate) proof fn lemma_levels_step(sym: SymbolInfo, ls: Seq<UntickedLimit>, side: Side, i: int)
    requires
        0 <= i < ls.len(),
        levels_update(sym, ls.take(i), side) is Ok,
    ensures
        levels_update(sym, ls.take(i + 1), side) == match level_update(sym, ls[i], side) {
            Err(f) => Err(f),
            Ok(u) => Ok(levels_update(sym, ls.take(i), side)->Ok_0.push(u)),
        },
{
    reveal(levels_update);
    assert(ls.take(i + 1).drop_last() =~= ls.take(i));
    assert(ls.take(i + 1).last() == ls[i]);
}

/// Converting `ls` succeeds exactly when each of its limits converts.
pub(crate) proof fn lemma_levels_ok(sym: SymbolInfo, ls: Seq<UntickedLimit>, side: Side)
    ensures
        levels_update(sym, ls, side) is Ok <==> converts_before(sym, ls, ls.len() as int),
    decreases ls.len(),
{
    reveal(levels_update);
    if ls.len() > 0 {
        lemma_levels_ok(sym, ls.drop_last(), side);
        assert(forall|j: int| 0 <= j < ls.len() - 1 ==> ls.drop_last()[j] == ls[j]);
        if converts_before(sym, ls, ls.len() as int) {
            assert(level_converts(sym, ls[ls.len() - 1]));
        }
    }
}

/// Convert the limit `l` on `side`: its price, then its size.
pub(crate) fn convert_update(sym: &SymbolInfo, l: &UntickedLimit, side: Side) -> (r: Result<LimitUpdate, ConversionError>)
    requires
        level_fits(*sym, *l),
    ensures
        match level_update(*sym, *l, side) {
            Ok(u) => r == Ok::<LimitUpdate, ConversionError>(u),
            Err(f) => r matches Err(e) && conversion_failed(e, f),
        },
{
    let price = match sym.price_tick.ticked(l.price.as_str()) {
        Ok(v) => v,
        Err(e) => return Err(e),
    };
    let size = match sym.size_tick.ticked(l.size.as_str()) {
        Ok(v) => v,
        Err(e) => return Err(e),
    };
    Ok(LimitUpdate { price, size, side })
}

/// Append to `out` the limit updates that `levels` stand for on `side`.
pub(crate) fn convert_levels(sym: &SymbolInfo, levels: &Vec<UntickedLimit>, side: Side, out: &mut Vec<LimitUpdate>) -> (r: Result<(), ConversionError>)
    requires
        levels_fit(*sym, levels@),
    ensures
        match levels_update(*sym, levels@, side) {
            Ok(us) => r is Ok && final(out)@ == old(out)@ + us,
            Err(f) => r matches Err(e) && conversion_failed(e, f),
        },
{
    let ghost start = out@;
    let n = levels.len();
    let mut i: usize = 0;
    assert(levels@.take(0) =~= Seq::<UntickedLimit>::empty());
    assert(levels_update(*sym, levels@.take(0), side) == Ok::<Seq<LimitUpdate>, Failure>(Seq::empty())) by {
        reveal(levels_update);
    }
    while i < n
        invariant
            n == levels@.len(),
            i <= n,
            levels_fit(*sym, levels@),
            converts_before(*sym, levels@, i as int),
            levels_update(*sym, levels@.take(i as int), side) matches Ok(us) && out@ == start + us,
        decreases n - i,
    {
        let l = &levels[i];
        let ghost us = levels_update(*sym, levels@.take(i as int), side)->Ok_0;
        proof {
            lemma_levels_step(*sym, levels@, side, i as int);
        }
        match convert_update(sym, l, side) {
            Ok(u) => {
                out.push(u);
                assert(out@ =~= start + us.push(u));
            },
            Err(e) => {
                proof {
                    lemma_levels_prefix(*sym, levels@, side, i + 1);
                }
                return Err(e);
            },
        }
        i = i + 1;
    }
    assert(levels@.take(n as int) =~= levels@);
    Ok(())
}

/// Whether the conversions of `levels` that are made stay in range, and
/// whether all the limits convert.
pub(crate) fn check_levels(sym: &SymbolInfo, levels: &Vec<UntickedLimit>) -> (r: (bool, bool))
    ensures
        r.0 == levels_fit(*sym, levels@),
        r.0 ==> r.1 == converts_before(*sym, levels@, levels@.len() as int),
{
    let n = levels.len();
    let mut i: usize = 0;
    while i < n
        invariant
            n == levels@.len(),
            i <= n,
            converts_before(*sym, levels@, i as int),
            forall|k: int| 0 <= k < i ==> level_fits(*sym, #[trigger] levels@[k]),
        decreases n - i,
    {
        let l = &levels[i];
        let converts = match sym.price_tick.probe(l.price.as_str()) {
            None => return (false, false),
            Some(None) => false,
            Some(Some(_)) => match sym.size_tick.probe(l.size.as_str()) {
                None => return (false, false),
                Some(None) => false,
                Some(Some(_)) => true,
            },
        };
        if !converts {
            proof {
                assert forall|k: int| 0 <= k < levels@.len() && converts_before(*sym, levels@, k)
                    implies level_fits(*sym, #[trigger] levels@[k]) by {
                    if k > i {
                        assert(level_converts(*sym, levels@[i as int]));
                    }
                }
                assert(!level_converts(*sym, levels@[i as int]));
            }
            return (true, false);
        }
        i = i + 1;
    }
    (true, true)
}


/// Convert the text `s` with `tick`, reporting a failure as a message error.
pub(crate) fn ticks(tick: Tick, s: &String) -> (r: Result<TickUnit, MessageError>)
    requires
        probe(tick, s@) is Some,
    ensures
        match in_ticks(tick, s@) {
            Ok(v) => r == Ok::<TickUnit, MessageError>(v),
            Err(f) => r matches Err(e) && failed_with(e, f),
        },
{
    match tick.ticked(s.as_str()) {
        Ok(v) => Ok(v),
        Err(e) => Err(MessageError::Conversion(e)),
    }
}

/// A notification that a stream sends, in terms of what it holds.
pub enum Sent {
    /// Limit updates of the order book, in order.
    Updates(Seq<LimitUpdate>),
    /// Another notification.
    Notify(Notification),
}

/// `n` is the notification that `s` describes.
pub open spec fn is_sent(n: Notification, s: Sent) -> bool {
    match s {
        Sent::Updates(us) => n matches Notification::LimitUpdates(v) && v@ == us,
        Sent::Notify(m) => n == m,
    }
}

/// `ns` are the notifications that `ss` describe, in order.
pub open spec fn are_sent(ns: Seq<Notification>, ss: Seq<Sent>) -> bool {
    ns.len() == ss.len() && forall|i: int| 0 <= i < ns.len() ==> is_sent(#[trigger] ns[i], ss[i])
}

/// The events are in order: the first sequence number of an event follows
/// the last sequence number of the previous one.
pub open spec fn in_sequence(previous: Option<u64>, first: u64) -> bool {
    previous matches Some(p) ==> p + 1 == first
}

/// The timestamp that `s` writes, or the failure to read it.
pub open spec fn in_time(s: Seq<char>) -> Result<Timestamp, Failure> {
    match str_timestamp(s) {
        Some(t) => Ok(t),
        None => Err(Failure::Timestamp(s)),
    }
}

/// The timestamp that `s` writes, reporting a failure as a message error.
pub(crate) fn read_timestamp(s: &String) -> (r: Result<Timestamp, MessageError>)
    ensures
        match in_time(s@) {
            Ok(t) => r == Ok::<Timestamp, MessageError>(t),
            Err(f) => r matches Err(e) && failed_with(e, f),
        },
{
    match convert_str_timestamp(s.as_str()) {
        Some(t) => Ok(t),
        None => Err(MessageError::Timestamp(s.clone())),
    }
}

} // verus!
