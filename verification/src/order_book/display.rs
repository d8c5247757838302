//! Utilities for displaying order books: how many limits of each side are
//! shown, and in which unit prices and sizes are written.

use vstd::prelude::*;
use crate::decimal::{dec_digits, decimal_string};
use crate::order_book::{OrderBook, lists_ascending, lists_descending, lemma_ascending_unique, lemma_descending_unique};
use crate::tick::{Tick, TickUnit, unticked_text};

verus! {

/// How order books are displayed: the number of limits shown on each side,
/// and the ticks with which prices and sizes are written as values in
/// units (in tick units when there is none).
#[derive(Copy, Clone, PartialEq, Eq, Hash, Debug, Structural)]
pub struct DisplaySettings {
    /// The number of limits shown on each side.
    pub limit: usize,
    /// The tick of prices.
    pub price_tick: Option<Tick>,
    /// The tick of sizes.
    pub size_tick: Option<Tick>,
}

/// The value `v` can be written with `tick`: without a tick, or as a value
/// in units when the tick divides a power of ten and the conversion stays
/// in range.
pub open spec fn shows(tick: Option<Tick>, v: TickUnit) -> bool {
    match tick {
        Some(t) => unticked_text(t@, v as nat) is Some,
        None => true,
    }
}

/// The text of the value `v`: in units with `tick`, else in tick units.
pub open spec fn value_text(tick: Option<Tick>, v: TickUnit) -> Seq<char> {
    match tick {
        Some(t) => unticked_text(t@, v as nat)->0,
        None => dec_digits(v as nat),
    }
}

/// The line of the limit `l`: its price and its size.
pub open spec fn limit_line(settings: DisplaySettings, l: (TickUnit, TickUnit)) -> Seq<char> {
    value_text(settings.price_tick, l.0) + ":\t"@ + value_text(settings.size_tick, l.1) + "\n"@
}

/// The lines of the limits `s[lo..hi]`, last first.
pub open spec fn lines_down(settings: DisplaySettings, s: Seq<(TickUnit, TickUnit)>, lo: int, hi: int) -> Seq<char>
    decreases hi - lo,
{
    if lo >= hi {
        Seq::empty()
    } else {
        lines_down(settings, s, lo + 1, hi) + limit_line(settings, s[lo])
    }
}

/// The lines of the limits `s[0..hi]`, first first.
pub open spec fn lines_up(settings: DisplaySettings, s: Seq<(TickUnit, TickUnit)>, hi: int) -> Seq<char>
    decreases hi,
{
    if hi <= 0 {
        Seq::empty()
    } else {
        lines_up(settings, s, hi - 1) + limit_line(settings, s[hi - 1])
    }
}

/// The number of limits of `s` shown.
pub open spec fn shown(settings: DisplaySettings, s: Seq<(TickUnit, TickUnit)>) -> int {
    if settings.limit < s.len() {
        settings.limit as int
    } else {
        s.len() as int
    }
}

/// The text of a book whose asks are `asks` by increasing price and whose
/// bids are `bids` by decreasing price: the shown asks, highest first, under
/// a `## ASK` header, then an empty line, then the shown bids, highest
/// first, over a `## BID` footer.
pub open spec fn book_text(settings: DisplaySettings, asks: Seq<(TickUnit, TickUnit)>, bids: Seq<(TickUnit, TickUnit)>) -> Seq<char> {
    "## ASK\n"@ + lines_down(settings, asks, 0, shown(settings, asks)) + "\n\n"@
        + lines_up(settings, bids, shown(settings, bids)) + "## BID\n"@
}

/// The limit `l` can be written.
pub open spec fn limit_fits(settings: DisplaySettings, l: (TickUnit, TickUnit)) -> bool {
    shows(settings.price_tick, l.0) && shows(settings.size_tick, l.1)
}

/// Each shown limit of `s` can be written.
pub open spec fn all_shown_fit(settings: DisplaySettings, s: Seq<(TickUnit, TickUnit)>) -> bool {
    forall|i: int| 0 <= i < shown(settings, s) ==> limit_fits(settings, #[trigger] s[i])
}

/// The limits of the book `book` that are shown can be written.
pub open spec fn book_fits(settings: DisplaySettings, book: OrderBook) -> bool {
    forall|asks: Seq<(TickUnit, TickUnit)>, bids: Seq<(TickUnit, TickUnit)>|
        #![trigger lists_ascending(book@.ask, asks), lists_descending(book@.bid, bids)]
        lists_ascending(book@.ask, asks) && lists_descending(book@.bid, bids)
            ==> all_shown_fit(settings, asks) && all_shown_fit(settings, bids)
}

impl DisplaySettings {
    /// The settings in effect until they are set: five limits on each side,
    /// prices and sizes in tick units.
    pub fn new() -> (s: Self)
        ensures
            s == (DisplaySettings { limit: 5, price_tick: None, size_tick: None }),
    {
        DisplaySettings { limit: 5, price_tick: None, size_tick: None }
    }

    /// Set the display limit for both sides when displaying an order book.
    pub fn set_limit(&mut self, limit: usize)
        ensures
            *final(self) == (DisplaySettings { limit, ..*old(self) }),
    {
        self.limit = limit;
    }

    /// Set the tick size for displaying prices. If `None`, values are
    /// displayed in tick units.
    pub fn set_price_tick(&mut self, maybe_tick: Option<Tick>)
        ensures
            *final(self) == (DisplaySettings { price_tick: maybe_tick, ..*old(self) }),
    {
        self.price_tick = maybe_tick;
    }

    /// Set the tick size for displaying sizes. If `None`, values are
    /// displayed in tick units.
    pub fn set_size_tick(&mut self, maybe_tick: Option<Tick>)
        ensures
            *final(self) == (DisplaySettings { size_tick: maybe_tick, ..*old(self) }),
    {
        self.size_tick = maybe_tick;
    }

    /// Convert a ticked price to an unticked value with the price tick.
    pub fn displayable_price(&self, ticked: TickUnit) -> (s: String)
        requires
            shows(self.price_tick, ticked),
        ensures
            s@ == value_text(self.price_tick, ticked),
    {
        value_string(self.price_tick, ticked)
    }

    /// Convert a ticked size to an unticked value with the size tick.
    pub fn displayable_size(&self, ticked: TickUnit) -> (s: String)
        requires
            shows(self.size_tick, ticked),
        ensures
            s@ == value_text(self.size_tick, ticked),
    {
        value_string(self.size_tick, ticked)
    }
}

/// Whether the value `v` can be written with `tick`.
pub fn can_show(tick: Option<Tick>, v: TickUnit) -> (b: bool)
    ensures
        b == shows(tick, v),
{
    match tick {
        Some(t) => t.unticked(v).is_ok(),
        None => true,
    }
}

/// The text of the value `v`: in units with `tick`, else in tick units.
fn value_string(tick: Option<Tick>, v: TickUnit) -> (s: String)
    requires
        shows(tick, v),
    ensures
        s@ == value_text(tick, v),
{
    match tick {
        Some(t) => match t.unticked(v) {
            Ok(s) => s,
            Err(_) => String::new(),
        },
        None => decimal_string(v as u128),
    }
}

/// Append the line of the limit at `price` with `size` to `text`.
fn push_line(text: &mut String, settings: &DisplaySettings, price: TickUnit, size: TickUnit)
    requires
        shows(settings.price_tick, price),
        shows(settings.size_tick, size),
    ensures
        final(text)@ == old(text)@ + limit_line(*settings, (price, size)),
{
    let p = value_string(settings.price_tick, price);
    let s = value_string(settings.size_tick, size);
    text.append(p.as_str());
    text.append(":\t");
    text.append(s.as_str());
    text.append("\n");
    assert(text@ =~= old(text)@ + limit_line(*settings, (price, size)));
}

/// Whether each shown limit of `limits` can be written.
fn check_shown(settings: &DisplaySettings, limits: &Vec<(TickUnit, TickUnit)>) -> (b: bool)
    ensures
        b == all_shown_fit(*settings, limits@),
{
    let n = if settings.limit < limits.len() { settings.limit } else { limits.len() };
    let mut i: usize = 0;
    while i < n
        invariant
            n == shown(*settings, limits@),
            i <= n <= limits@.len(),
            forall|k: int| 0 <= k < i ==> limit_fits(*settings, #[trigger] limits@[k]),
        decreases n - i,
    {
        let (price, size) = limits[i];
        if !can_show(settings.price_tick, price) || !can_show(settings.size_tick, size) {
            assert(!limit_fits(*settings, limits@[i as int]));
            return false;
        }
        assert(limit_fits(*settings, limits@[i as int]));
        i = i + 1;
    }
    true
}

impl OrderBook {
    /// The text of the book with `settings` (see `book_text`): the shown
    /// asks, highest first, then the shown bids, highest first.
    pub fn display(&self, settings: &DisplaySettings) -> (s: String)
        requires
            book_fits(*settings, *self),
        ensures
            exists|asks: Seq<(TickUnit, TickUnit)>, bids: Seq<(TickUnit, TickUnit)>|
                lists_ascending(self@.ask, asks) && lists_descending(self@.bid, bids)
                    && s@ == book_text(*settings, asks, bids),
    {
        let asks = self.ask();
        let bids = self.bid();
        assert(all_shown_fit(*settings, asks@) && all_shown_fit(*settings, bids@));
        let mut text = String::new();
        text.append("## ASK\n");
        let ghost head = text@;
        let n = if settings.limit < asks.len() { settings.limit } else { asks.len() };
        let mut i = n;
        while i > 0
            invariant
                n == shown(*settings, asks@),
                i <= n <= asks@.len(),
                all_shown_fit(*settings, asks@),
                text@ == head + lines_down(*settings, asks@, i as int, n as int),
            decreases i,
        {
            i = i - 1;
            let (price, size) = asks[i];
            push_line(&mut text, settings, price, size);
        }
        text.append("\n\n");
        let ghost mid = text@;
        let m = if settings.limit < bids.len() { settings.limit } else { bids.len() };
        let mut j: usize = 0;
        while j < m
            invariant
                m == shown(*settings, bids@),
                j <= m <= bids@.len(),
                all_shown_fit(*settings, bids@),
                text@ == mid + lines_up(*settings, bids@, j as int),
            decreases m - j,
        {
            let (price, size) = bids[j];
            push_line(&mut text, settings, price, size);
            j = j + 1;
        }
        text.append("## BID\n");
        assert(text@ =~= book_text(*settings, asks@, bids@));
        text
    }

    /// Whether the limits of the book that `display` shows can be written
    /// with `settings`.
    pub fn can_display(&self, settings: &DisplaySettings) -> (b: bool)
        ensures
            b == book_fits(*settings, *self),
    {
        let asks = self.ask();
        let bids = self.bid();
        let b = check_shown(settings, &asks) && check_shown(settings, &bids);
        assert(lists_ascending(self@.ask, asks@) && lists_descending(self@.bid, bids@));
        proof {
            if b {
                assert forall|a: Seq<(TickUnit, TickUnit)>, d: Seq<(TickUnit, TickUnit)>|
                    lists_ascending(self@.ask, a) && lists_descending(self@.bid, d)
                    implies all_shown_fit(*settings, a) && all_shown_fit(*settings, d) by {
                    lemma_ascending_unique(self@.ask, a, asks@);
                    lemma_descending_unique(self@.bid, d, bids@);
                }
            }
        }
        b
    }
}

} // verus!
