use trade::matching_engine::{MatchingEngine, Order, Side as EngineSide};
use trade::order_book::{LimitUpdate, OrderBook};
use trade::tick::Tick;
use trade::Side;

#[test]
fn unticked_values_read_back_as_the_same_ticks() {
    for tpu in [1u64, 2, 4, 5, 8, 10, 16, 25, 40, 100, 125, 1000, 100_000_000, 10_000_000_000_000_000_000] {
        let tick = Tick::new(tpu);
        for v in [0u64, 1, 7, 99, 100, 12345, 1_000_000_007] {
            let text = tick.unticked(v).unwrap();
            assert!(tick.ticked_fits(&text));
            assert_eq!(tick.ticked(&text), Ok(v), "{} ticks of 1/{}: {}", v, tpu, text);
        }
    }
    // A tick that divides no power of ten has no text in units.
    assert!(Tick::new(3).unticked(1).is_err());
    assert!(Tick::new(40_000_000_000_000_000u64 * 3).unticked(1).is_err());
}

#[test]
fn a_read_after_an_update_gives_the_updated_size() {
    let mut book = OrderBook::new();
    book.update(LimitUpdate::new(100, 5, Side::Bid));
    book.update(LimitUpdate::new(101, 6, Side::Ask));
    assert_eq!(book.size_at_limit(Side::Bid, 100), 5);
    book.update(LimitUpdate::new(100, 9, Side::Bid));
    assert_eq!(book.size_at_limit(Side::Bid, 100), 9);
    assert_eq!(book.size_at_limit(Side::Ask, 101), 6);
    book.update(LimitUpdate::new(100, 0, Side::Bid));
    assert_eq!(book.size_at_limit(Side::Bid, 100), 0);
    assert_eq!(book.bid(), vec![]);
}

#[test]
fn applying_the_diff_of_two_books_gives_the_second() {
    let mut a = OrderBook::new();
    a.update(LimitUpdate::new(100, 10, Side::Ask));
    a.update(LimitUpdate::new(90, 6, Side::Ask));
    a.update(LimitUpdate::new(80, 8, Side::Bid));
    let mut b = OrderBook::new();
    b.update(LimitUpdate::new(91, 6, Side::Ask));
    b.update(LimitUpdate::new(80, 3, Side::Bid));
    b.update(LimitUpdate::new(70, 2, Side::Bid));
    for u in a.diff(&b) {
        a.update(u);
    }
    assert_eq!(a.bid(), b.bid());
    assert_eq!(a.ask(), b.ask());
}

fn order(price: u64, size: usize, side: EngineSide) -> Order {
    Order { price, size, side, trader: 1 }
}

fn volume(m: &MatchingEngine, prices: &[u64]) -> usize {
    prices.iter().map(|&p| m.size_at_price(p)).sum()
}

#[test]
fn matching_conserves_size_and_keeps_the_book_uncrossed() {
    let prices = [95, 96, 97, 98, 99, 100, 101, 102, 103, 104, 105];
    let mut m = MatchingEngine::new(16);
    m.limit(order(98, 4, EngineSide::Buy));
    m.limit(order(99, 3, EngineSide::Buy));
    m.limit(order(101, 5, EngineSide::Sell));
    m.limit(order(102, 2, EngineSide::Sell));
    m.limit(order(104, 7, EngineSide::Sell));
    assert_eq!(volume(&m, &prices), 21);

    // A buy of 9 up to 103 takes 5 at 101 and 2 at 102, and rests 2 at 103.
    let before = volume(&m, &prices);
    m.limit(order(103, 9, EngineSide::Buy));
    assert_eq!(volume(&m, &prices), before - 7 + 2);
    let (bid, ask) = m.best_limits();
    assert_eq!((bid, ask), (103, 104));
    assert!(bid < ask);

    // A sell of 5 down to 98 takes 2 at 103 and 3 at 99.
    let before = volume(&m, &prices);
    m.limit(order(98, 5, EngineSide::Sell));
    assert_eq!(volume(&m, &prices), before - 5);
    let (bid, ask) = m.best_limits();
    assert_eq!((bid, ask), (98, 104));
}
