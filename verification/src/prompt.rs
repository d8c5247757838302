//! The commands of a trading prompt, typed as words separated by spaces:
//! `buy <size> <price> <gtc|ioc|fok> [order id]`, `sell ...`,
//! `cancel <order id>`, `time_window <ms>` and `quit`.

use vstd::prelude::*;
use vstd::utf8::encode_utf8;
use crate::Side;
use crate::api::{Cancel, Order, TimeInForce};
use crate::text::str_eq;
use crate::tick::{Tick, TickUnit, ConversionError, ticks_of, probe, reports_unticked, parse_u128, parse_u128_exec};

verus! {

/// A command typed at the prompt.
#[derive(Clone, PartialEq, Eq, Hash, Debug)]
pub enum Command {
    /// Leave the prompt.
    Quit,
    /// Send an order.
    Order(Order),
    /// Cancel an order.
    Cancel(Cancel),
    /// Set the time window of the following orders and cancels, in ms.
    TimeWindow(u64),
}

/// An error in a command typed at the prompt.
#[derive(Clone, PartialEq, Eq, Hash, Debug)]
pub enum InputError {
    /// The command lacks arguments.
    WrongNumberOfArguments,
    /// A size or a price is not a whole number of ticks.
    Conversion(ConversionError),
    /// The time in force is none of `gtc`, `ioc`, `fok` (given lowercased).
    ExpectedTimeInForce(String),
    /// The time window is not a number.
    InvalidTimeWindow(String),
    /// The time window is above 5000 ms.
    TimeWindowTooHigh(u64),
    /// No command has this name.
    UnknownCommand(String),
}

/// A command, in terms of its texts.
pub enum CommandSpec {
    /// Leave the prompt.
    Quit,
    /// Send an order.
    Order {
        side: Side,
        size: TickUnit,
        price: TickUnit,
        time_in_force: TimeInForce,
        order_id: Option<Seq<char>>,
        time_window: u64,
    },
    /// Cancel an order.
    Cancel { order_id: Seq<char>, time_window: u64 },
    /// Set the time window.
    TimeWindow(u64),
}

/// An error in a command, in terms of its texts.
pub enum InputFailure {
    /// The command lacks arguments.
    WrongNumberOfArguments,
    /// The text is not a whole number of ticks of the tick.
    Conversion(Tick, Seq<char>),
    /// The time in force, lowercased, is none of `gtc`, `ioc`, `fok`.
    ExpectedTimeInForce(Seq<char>),
    /// The time window is not a number.
    InvalidTimeWindow(Seq<char>),
    /// The time window is above 5000 ms.
    TimeWindowTooHigh(u64),
    /// No command has this name.
    UnknownCommand(Seq<char>),
}

/// `c` is the command that `s` describes.
pub open spec fn describes(c: Command, s: CommandSpec) -> bool {
    match s {
        CommandSpec::Quit => c is Quit,
        CommandSpec::Order { side, size, price, time_in_force, order_id, time_window } => c matches Command::Order(o) && {
            &&& o.side == side
            &&& o.size == size
            &&& o.price == price
            &&& o.time_in_force == time_in_force
            &&& o.time_window == time_window
            &&& match order_id {
                Some(id) => o.order_id matches Some(i) && i@ == id,
                None => o.order_id is None,
            }
        },
        CommandSpec::Cancel { order_id, time_window } => c matches Command::Cancel(k) && k.order_id@ == order_id
            && k.time_window == time_window,
        CommandSpec::TimeWindow(tw) => c == Command::TimeWindow(tw),
    }
}

/// `e` is the error that `f` describes.
pub open spec fn fails_as(e: InputError, f: InputFailure) -> bool {
    match f {
        InputFailure::WrongNumberOfArguments => e is WrongNumberOfArguments,
        InputFailure::Conversion(tick, s) => e matches InputError::Conversion(c) && reports_unticked(c, tick, s),
        InputFailure::ExpectedTimeInForce(s) => e matches InputError::ExpectedTimeInForce(t) && t@ == s,
        InputFailure::InvalidTimeWindow(s) => e matches InputError::InvalidTimeWindow(t) && t@ == s,
        InputFailure::TimeWindowTooHigh(tw) => e == InputError::TimeWindowTooHigh(tw),
        InputFailure::UnknownCommand(s) => e matches InputError::UnknownCommand(t) && t@ == s,
    }
}

/// What `str::to_lowercase` gives of `s`.
pub uninterp spec fn lowercase(s: Seq<char>) -> Seq<char>;

/// `str::to_lowercase`: the lowercase equivalent of `s`. The contract names
/// it and states nothing more of it.
#[verifier::external_body]
fn to_lowercase(s: &str) -> (r: String)
    ensures
        r@ == lowercase(s@),
{
    s.to_lowercase()
}

/// The time in force named `s`.
pub open spec fn time_in_force_named(s: Seq<char>) -> Option<TimeInForce> {
    if s == "gtc"@ {
        Some(TimeInForce::GoodTilCanceled)
    } else if s == "ioc"@ {
        Some(TimeInForce::ImmediateOrCancel)
    } else if s == "fok"@ {
        Some(TimeInForce::FillOrKilll)
    } else {
        None
    }
}

/// The time in force named `name` (given lowercased): `gtc`, `ioc` or
/// `fok`, else the error that names it.
pub fn time_in_force_of(name: String) -> (r: Result<TimeInForce, InputError>)
    ensures
        match time_in_force_named(name@) {
            Some(t) => r == Ok::<TimeInForce, InputError>(t),
            None => r matches Err(InputError::ExpectedTimeInForce(n)) && n@ == name@,
        },
{
    if str_eq(name.as_str(), "gtc") {
        Ok(TimeInForce::GoodTilCanceled)
    } else if str_eq(name.as_str(), "ioc") {
        Ok(TimeInForce::ImmediateOrCancel)
    } else if str_eq(name.as_str(), "fok") {
        Ok(TimeInForce::FillOrKilll)
    } else {
        Err(InputError::ExpectedTimeInForce(name))
    }
}

/// The `u64` that `s` writes: an optional `+` followed by decimal digits.
pub open spec fn u64_of(s: Seq<char>) -> Option<u64> {
    match parse_u128(encode_utf8(s)) {
        Some(v) => if v <= u64::MAX {
            Some(v as u64)
        } else {
            None
        },
        None => None,
    }
}

/// Parse `s` as a `u64`.
fn parse_u64(s: &str) -> (r: Option<u64>)
    ensures
        r == u64_of(s@),
{
    let bytes = s.as_bytes();
    assert(bytes@ == encode_utf8(s@));
    assert(bytes@.subrange(0, bytes@.len() as int) =~= bytes@);
    match parse_u128_exec(bytes, 0, bytes.len()) {
        Some(v) => if v <= u64::MAX as u128 {
            Some(v as u64)
        } else {
            None
        },
        None => None,
    }
}

/// What the command `cmd` with the arguments `args` is, or why it is
/// wrong. Orders and cancels have the time window `time_window`.
pub open spec fn command(cmd: Seq<char>, args: Seq<Seq<char>>, price_tick: Tick, size_tick: Tick, time_window: u64) -> Result<CommandSpec, InputFailure> {
    if cmd == "buy"@ || cmd == "sell"@ {
        if args.len() < 3 {
            Err(InputFailure::WrongNumberOfArguments)
        } else {
            match ticks_of(size_tick, args[0]) {
                None => Err(InputFailure::Conversion(size_tick, args[0])),
                Some(size) => match ticks_of(price_tick, args[1]) {
                    None => Err(InputFailure::Conversion(price_tick, args[1])),
                    Some(price) => match time_in_force_named(lowercase(args[2])) {
                        None => Err(InputFailure::ExpectedTimeInForce(lowercase(args[2]))),
                        Some(time_in_force) => Ok(CommandSpec::Order {
                            side: if cmd == "buy"@ { Side::Bid } else { Side::Ask },
                            size,
                            price,
                            time_in_force,
                            order_id: if args.len() == 4 { Some(args[3]) } else { None },
                            time_window,
                        }),
                    },
                },
            }
        }
    } else if cmd == "cancel"@ {
        if args.len() < 1 {
            Err(InputFailure::WrongNumberOfArguments)
        } else {
            Ok(CommandSpec::Cancel { order_id: args[0], time_window })
        }
    } else if cmd == "time_window"@ {
        match u64_of(args[0]) {
            None => Err(InputFailure::InvalidTimeWindow(args[0])),
            Some(tw) => if tw > 5000 {
                Err(InputFailure::TimeWindowTooHigh(tw))
            } else {
                Ok(CommandSpec::TimeWindow(tw))
            },
        }
    } else {
        Err(InputFailure::UnknownCommand(cmd))
    }
}

/// The command `cmd` with the arguments `args` can be processed: a time
/// window is given, and the conversions that are made stay in range.
pub open spec fn command_fits(cmd: Seq<char>, args: Seq<Seq<char>>, price_tick: Tick, size_tick: Tick) -> bool {
    &&& cmd == "time_window"@ ==> args.len() >= 1
    &&& (cmd == "buy"@ || cmd == "sell"@) && args.len() >= 3 ==> match probe(size_tick, args[0]) {
        None => false,
        Some(None) => true,
        Some(Some(_)) => probe(price_tick, args[1]) is Some,
    }
}

/// The texts of `ws`.
pub open spec fn texts(ws: Seq<String>) -> Seq<Seq<char>> {
    ws.map_values(|w: String| w@)
}

/// Process the command `cmd` with the arguments `args`: an order (`buy` or
/// `sell`, with a size, a price, a time in force and an optional order
/// id), a cancel (with an order id) or a new time window (at most 5000 ms).
pub fn process_input(cmd: &str, args: Vec<String>, price_tick: Tick, size_tick: Tick, time_window: u64) -> (r: Result<Command, InputError>)
    requires
        command_fits(cmd@, texts(args@), price_tick, size_tick),
    ensures
        match command(cmd@, texts(args@), price_tick, size_tick, time_window) {
            Ok(c) => r matches Ok(v) && describes(v, c),
            Err(f) => r matches Err(e) && fails_as(e, f),
        },
{
    let ghost ts = texts(args@);
    let mut args = args;
    let is_buy = str_eq(cmd, "buy");
    if is_buy || str_eq(cmd, "sell") {
        if args.len() < 3 {
            return Err(InputError::WrongNumberOfArguments);
        }
        assert(args@[0]@ == ts[0] && args@[1]@ == ts[1] && args@[2]@ == ts[2]);
        let size = match size_tick.ticked(args[0].as_str()) {
            Ok(v) => v,
            Err(e) => return Err(InputError::Conversion(e)),
        };
        let price = match price_tick.ticked(args[1].as_str()) {
            Ok(v) => v,
            Err(e) => return Err(InputError::Conversion(e)),
        };
        let time_in_force = time_in_force_of(to_lowercase(args[2].as_str()))?;
        let order_id = if args.len() == 4 {
            assert(args@[3]@ == ts[3]);
            Some(args.remove(3))
        } else {
            None
        };
        let side = if is_buy { Side::Bid } else { Side::Ask };
        Ok(Command::Order(Order { price, size, side, time_in_force, time_window, order_id }))
    } else if str_eq(cmd, "cancel") {
        if args.len() < 1 {
            return Err(InputError::WrongNumberOfArguments);
        }
        assert(args@[0]@ == ts[0]);
        let order_id = args.remove(0);
        Ok(Command::Cancel(Cancel { order_id, time_window }))
    } else if str_eq(cmd, "time_window") {
        assert(args@[0]@ == ts[0]);
        match parse_u64(args[0].as_str()) {
            None => Err(InputError::InvalidTimeWindow(args.remove(0))),
            Some(tw) => if tw > 5000 {
                Err(InputError::TimeWindowTooHigh(tw))
            } else {
                Ok(Command::TimeWindow(tw))
            },
        }
    } else {
        Err(InputError::UnknownCommand(cmd.to_owned()))
    }
}

/// The pieces of `s` between its spaces, in order: one more than the
/// number of spaces (`str::split(' ')`).
pub open spec fn words(s: Seq<char>) -> Seq<Seq<char>>
    decreases s.len(),
{
    if s.len() == 0 {
        seq![Seq::empty()]
    } else {
        let ws = words(s.drop_last());
        if s.last() == ' ' {
            ws.push(Seq::empty())
        } else {
            ws.update(ws.len() - 1, ws.last().push(s.last()))
        }
    }
}

/// `words` gives at least one piece, and the last piece is what follows
/// the last space.
proof fn lemma_words(s: Seq<char>)
    ensures
        words(s).len() >= 1,
    decreases s.len(),
{
    if s.len() > 0 {
        lemma_words(s.drop_last());
    }
}

/// The pieces of `content` between its spaces.
fn split_words(content: &str) -> (ws: Vec<String>)
    ensures
        texts(ws@) == words(content@),
{
    let n = content.unicode_len();
    let mut ws: Vec<String> = Vec::new();
    let mut start: usize = 0;
    let mut i: usize = 0;
    assert(content@.take(0) =~= Seq::<char>::empty());
    while i < n
        invariant
            n == content@.len(),
            start <= i <= n,
            words(content@.take(i as int)) == texts(ws@).push(content@.subrange(start as int, i as int)),
        decreases n - i,
    {
        let c = content.get_char(i);
        let ghost before = content@.take(i as int);
        proof {
            assert(content@.take(i + 1).drop_last() =~= before);
            assert(content@.take(i + 1).last() == c);
            lemma_words(before);
        }
        if c == ' ' {
            let w = content.substring_char(start, i).to_owned();
            let ghost old_ws = ws@;
            ws.push(w);
            start = i + 1;
            proof {
                assert(texts(ws@) =~= texts(old_ws).push(w@));
                assert(content@.subrange(start as int, i + 1) =~= Seq::<char>::empty());
            }
        } else {
            proof {
                assert(content@.subrange(start as int, i + 1) =~= content@.subrange(start as int, i as int).push(c));
            }
        }
        i = i + 1;
        proof {
            assert(words(content@.take(i as int)) =~= texts(ws@).push(content@.subrange(start as int, i as int)));
        }
    }
    let last = content.substring_char(start, n).to_owned();
    let ghost old_ws = ws@;
    ws.push(last);
    assert(content@.take(n as int) =~= content@);
    assert(texts(ws@) =~= texts(old_ws).push(last@));
    ws
}

/// What the line `content` typed at the prompt is: `quit`, or a command
/// (its first word) with arguments (the following words).
pub open spec fn input(content: Seq<char>, price_tick: Tick, size_tick: Tick, time_window: u64) -> Result<CommandSpec, InputFailure> {
    let ws = words(content);
    if ws[0] == "quit"@ {
        Ok(CommandSpec::Quit)
    } else {
        command(ws[0], ws.drop_first(), price_tick, size_tick, time_window)
    }
}

/// The line `content` can be submitted.
pub open spec fn input_fits(content: Seq<char>, price_tick: Tick, size_tick: Tick) -> bool {
    let ws = words(content);
    ws[0] != "quit"@ ==> command_fits(ws[0], ws.drop_first(), price_tick, size_tick)
}

/// Submit the line `content` typed at the prompt (see `input`).
pub fn submit_input(content: &str, price_tick: Tick, size_tick: Tick, time_window: u64) -> (r: Result<Command, InputError>)
    requires
        input_fits(content@, price_tick, size_tick),
    ensures
        match input(content@, price_tick, size_tick, time_window) {
            Ok(c) => r matches Ok(v) && describes(v, c),
            Err(f) => r matches Err(e) && fails_as(e, f),
        },
{
    let mut ws = split_words(content);
    proof {
        lemma_words(content@);
    }
    let ghost all = ws@;
    let cmd = ws.remove(0);
    assert(cmd@ == words(content@)[0]);
    assert(texts(ws@) =~= words(content@).drop_first());
    if str_eq(cmd.as_str(), "quit") {
        return Ok(Command::Quit);
    }
    process_input(cmd.as_str(), ws, price_tick, size_tick, time_window)
}

/// Whether the line `content` can be submitted.
pub fn check_input(content: &str, price_tick: Tick, size_tick: Tick) -> (b: bool)
    ensures
        b == input_fits(content@, price_tick, size_tick),
{
    let ws = split_words(content);
    proof {
        lemma_words(content@);
    }
    assert(ws@.len() >= 1);
    assert(ws@[0]@ == words(content@)[0]);
    let cmd = ws[0].as_str();
    if str_eq(cmd, "quit") {
        return true;
    }
    let nargs = ws.len() - 1;
    assert(words(content@).drop_first().len() == nargs);
    if str_eq(cmd, "time_window") && nargs < 1 {
        return false;
    }
    if (str_eq(cmd, "buy") || str_eq(cmd, "sell")) && nargs >= 3 {
        assert(ws@[1]@ == words(content@).drop_first()[0]);
        assert(ws@[2]@ == words(content@).drop_first()[1]);
        return match size_tick.probe(ws[1].as_str()) {
            None => false,
            Some(None) => true,
            Some(Some(_)) => price_tick.probe(ws[2].as_str()).is_some(),
        };
    }
    true
}

} // verus!
