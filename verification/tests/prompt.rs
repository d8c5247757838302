use trade::api::{Cancel, Order, TimeInForce};
use trade::prompt::{check_input, process_input, submit_input, Command, InputError};
use trade::tick::Tick;
use trade::Side;

fn submit(line: &str) -> Result<Command, InputError> {
    let (price_tick, size_tick) = (Tick::new(100), Tick::new(1000));
    assert!(check_input(line, price_tick, size_tick));
    submit_input(line, price_tick, size_tick, 1000)
}

#[test]
fn quit() {
    assert_eq!(submit("quit"), Ok(Command::Quit));
}

#[test]
fn orders() {
    assert_eq!(
        submit("buy 0.5 6500.25 GTC"),
        Ok(Command::Order(Order {
            price: 650025,
            size: 500,
            side: Side::Bid,
            time_in_force: TimeInForce::GoodTilCanceled,
            time_window: 1000,
            order_id: None,
        }))
    );
    assert_eq!(
        submit("sell 1 10 fok my-id"),
        Ok(Command::Order(Order {
            price: 1000,
            size: 1000,
            side: Side::Ask,
            time_in_force: TimeInForce::FillOrKilll,
            time_window: 1000,
            order_id: Some("my-id".to_owned()),
        }))
    );
    // An order id is only read when it is the last argument.
    match submit("sell 1 10 IoC my-id extra") {
        Ok(Command::Order(order)) => {
            assert_eq!(order.time_in_force, TimeInForce::ImmediateOrCancel);
            assert_eq!(order.order_id, None);
        },
        other => panic!("unexpected {:?}", other),
    }
}

#[test]
fn order_errors() {
    assert_eq!(submit("buy 1 10"), Err(InputError::WrongNumberOfArguments));
    assert_eq!(submit("buy 1 10 day"), Err(InputError::ExpectedTimeInForce("day".to_owned())));
    assert_eq!(submit("buy 1 10 DAY"), Err(InputError::ExpectedTimeInForce("day".to_owned())));
    match submit("buy 0.0005 10 gtc") {
        Err(InputError::Conversion(e)) => assert_eq!(
            format!("{:?}", e),
            "ConversionError { tick: Tick(1000), value: Unticked(\"0.0005\") }"
        ),
        other => panic!("unexpected {:?}", other),
    }
    // Two spaces make an empty argument.
    assert_eq!(submit("buy  1 10"), Err(InputError::ExpectedTimeInForce("10".to_owned())));
}

#[test]
fn cancels() {
    assert_eq!(submit("cancel my-id"), Ok(Command::Cancel(Cancel { order_id: "my-id".to_owned(), time_window: 1000 })));
    assert_eq!(submit("cancel"), Err(InputError::WrongNumberOfArguments));
}

#[test]
fn time_windows() {
    assert_eq!(submit("time_window 5000"), Ok(Command::TimeWindow(5000)));
    assert_eq!(submit("time_window +20"), Ok(Command::TimeWindow(20)));
    assert_eq!(submit("time_window 5001"), Err(InputError::TimeWindowTooHigh(5001)));
    assert_eq!(submit("time_window soon"), Err(InputError::InvalidTimeWindow("soon".to_owned())));
    assert!(!check_input("time_window", Tick::new(100), Tick::new(1000)));
}

#[test]
fn unknown_commands() {
    assert_eq!(submit("hello world"), Err(InputError::UnknownCommand("hello".to_owned())));
    assert_eq!(submit(""), Err(InputError::UnknownCommand("".to_owned())));
}

#[test]
fn commands_with_words_already_split() {
    let args = vec!["2".to_owned(), "1.5".to_owned(), "ioc".to_owned()];
    assert_eq!(
        process_input("buy", args, Tick::new(10), Tick::new(1), 300),
        Ok(Command::Order(Order {
            price: 15,
            size: 2,
            side: Side::Bid,
            time_in_force: TimeInForce::ImmediateOrCancel,
            time_window: 300,
            order_id: None,
        }))
    );
}
