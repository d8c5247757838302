use trade::order_book::{LimitUpdate, OrderBook};
use trade::Side;

fn lu(price: u64, size: u64, side: Side) -> LimitUpdate {
    LimitUpdate::new(price, size, side)
}

#[test]
fn test_diff() {
    let mut odb1 = OrderBook::new();
    odb1.update(lu(100, 10, Side::Ask));
    odb1.update(lu(90, 6, Side::Ask));
    odb1.update(lu(80, 8, Side::Bid));
    odb1.update(lu(77, 9, Side::Bid));

    let mut odb2 = OrderBook::new();
    odb2.update(lu(100, 10, Side::Ask));
    odb2.update(lu(91, 6, Side::Ask));
    odb2.update(lu(90, 3, Side::Ask));
    odb2.update(lu(78, 5, Side::Bid));
    odb2.update(lu(77, 4, Side::Bid));

    let mut diff = odb1.diff(&odb2);
    diff.sort_by(|x, y| x.price.cmp(&y.price));

    assert_eq!(
        diff,
        vec![
            lu(77, 4, Side::Bid),
            lu(78, 5, Side::Bid),
            lu(80, 0, Side::Bid),
            lu(90, 3, Side::Ask),
            lu(91, 6, Side::Ask),
        ]
    );

    for u in diff {
        odb1.update(u);
    }

    assert_eq!(odb1, odb2);

    let mut odb1 = OrderBook::new();
    for u in odb1.diff(&odb2) {
        odb1.update(u);
    }
    assert_eq!(odb1, odb2);
}

#[test]
fn best_limits_of_empty_book() {
    let book = OrderBook::new();
    assert_eq!(book.best_bid(), 0);
    assert_eq!(book.best_ask(), u64::MAX);
}

#[test]
fn best_limits_and_sizes() {
    let mut book = OrderBook::new();
    book.update(lu(100, 10, Side::Ask));
    book.update(lu(90, 6, Side::Ask));
    book.update(lu(80, 8, Side::Bid));
    book.update(lu(77, 9, Side::Bid));
    assert_eq!(book.best_bid(), 80);
    assert_eq!(book.best_ask(), 90);
    assert_eq!(book.size_at_limit(Side::Ask, 90), 6);
    assert_eq!(book.size_at_limit(Side::Bid, 90), 0);
    assert_eq!(book.bid(), vec![(80, 8), (77, 9)]);
    assert_eq!(book.ask(), vec![(90, 6), (100, 10)]);

    // A zero size removes the limit.
    book.update(lu(80, 0, Side::Bid));
    assert_eq!(book.best_bid(), 77);
    assert_eq!(book.size_at_limit(Side::Bid, 80), 0);
    assert_eq!(book.bid(), vec![(77, 9)]);
}

#[test]
fn clone_is_equal() {
    let mut book = OrderBook::new();
    book.update(lu(100, 10, Side::Ask));
    assert_eq!(book.clone(), book);
}
