use trade::order_book::display::{can_show, DisplaySettings};
use trade::order_book::{LimitUpdate, OrderBook};
use trade::tick::Tick;
use trade::Side;

fn book() -> OrderBook {
    let mut book = OrderBook::new();
    for (price, size) in [(101, 1), (102, 2), (103, 3)] {
        book.update(LimitUpdate::new(price, size, Side::Ask));
    }
    for (price, size) in [(100, 4), (99, 5), (98, 6)] {
        book.update(LimitUpdate::new(price, size, Side::Bid));
    }
    book
}

#[test]
fn default_settings() {
    let settings = DisplaySettings::new();
    assert_eq!(settings, DisplaySettings { limit: 5, price_tick: None, size_tick: None });
    assert_eq!(settings.displayable_price(1234), "1234");
    assert_eq!(settings.displayable_size(0), "0");
}

#[test]
fn settings_are_set() {
    let mut settings = DisplaySettings::new();
    settings.set_limit(2);
    settings.set_price_tick(Some(Tick::new(100)));
    settings.set_size_tick(Some(Tick::new(1000)));
    assert_eq!(settings.limit, 2);
    assert_eq!(settings.displayable_price(12345), "123.45");
    assert_eq!(settings.displayable_size(5), "0.005");
    settings.set_price_tick(None);
    assert_eq!(settings.displayable_price(12345), "12345");
}

#[test]
fn values_that_cannot_be_shown() {
    assert!(can_show(None, u64::MAX));
    assert!(can_show(Some(Tick::new(100)), 12345));
    assert!(!can_show(Some(Tick::new(3)), 1));
}

#[test]
fn book_is_displayed_asks_over_bids() {
    let settings = DisplaySettings::new();
    let book = book();
    assert!(book.can_display(&settings));
    assert_eq!(
        book.display(&settings),
        "## ASK\n103:\t3\n102:\t2\n101:\t1\n\n\n100:\t4\n99:\t5\n98:\t6\n## BID\n"
    );
}

#[test]
fn only_the_best_limits_are_displayed() {
    let mut settings = DisplaySettings::new();
    settings.set_limit(2);
    settings.set_price_tick(Some(Tick::new(10)));
    assert_eq!(
        book().display(&settings),
        "## ASK\n10.2:\t2\n10.1:\t1\n\n\n10.0:\t4\n9.9:\t5\n## BID\n"
    );
}

#[test]
fn empty_book_display() {
    assert_eq!(OrderBook::new().display(&DisplaySettings::new()), "## ASK\n\n\n## BID\n");
}

#[test]
fn a_book_whose_prices_cannot_be_written_is_refused() {
    let mut settings = DisplaySettings::new();
    settings.set_price_tick(Some(Tick::new(3)));
    assert!(!book().can_display(&settings));
    assert!(OrderBook::new().can_display(&settings));
}
