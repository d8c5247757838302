# trade

Utilities for trading on crypto-currency exchanges, written in Verus: prices
and sizes in tick units, order books, a matching engine, the commands of a
trading prompt, and the conversion of the messages of three exchanges
(binance, GDAX, HitBTC) into notifications.

## Layout

- `src/` is the verified library. Its functions are verified against
  their contracts (a function that only reads the clock, such as
  `timestamp_ms`, promises nothing of the value it reads), and the
  properties that span functions stand as proof functions:
  - `tick`, `decimal`, `text`, `powers`: ticks and their decimal texts,
    with the round trip between the two, and which numbers of ticks per
    unit divide a power of ten.
  - `order_book`: the order book, its updates, its difference with another
    book, and its display.
  - `matching_engine`: a price-time priority matching engine, whose books
    stay uncrossed and whose executions conserve sizes.
  - `prompt`, `prompt_state`: the commands typed at a trading prompt, and
    what the prompt shows of a session.
  - `api`: orders, cancels and notifications; the query strings and
    signatures of REST requests; the error kinds of each exchange; and, for
    each exchange, the handler of its stream, which turns its events into
    notifications.
  - `price_map`, `text_map`: the maps that the above rely on. `TextMap`
    keeps texts as keys in a vector of entries with unique keys: it stands
    where a `HashMap` keyed by `String` would hold the open orders of a
    prompt, and where a concurrent `CHashMap` would hold the order ids of a
    GDAX stream. Verus proves nothing of lookups in a `HashMap` keyed by
    `String`. The GDAX stream's handler owns its map of order ids; the REST
    side records the ids it learns through the handler's
    `record_order_id`, behind whatever lock the caller shares the handler
    with.
- `tests/` runs the library on concrete values.
- `app/` surrounds the library: reading and writing JSON, REST requests
  to binance through a transport that the caller provides, the
  thread-local display settings, the live order book kept by a background
  thread, and the state of a prompt fed by other threads.

Calls into outside crates (`openssl`, `hex`, `base64`, `chrono`) and into
parts of `std` without specifications go through small wrappers whose
contracts are trusted; each says in its doc comment what it claims.
