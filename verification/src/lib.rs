//! Utilities for trading on crypto-currency exchanges: prices and sizes in
//! tick units, order books and a matching engine.

use vstd::prelude::*;

pub mod api;
pub mod decimal;
pub mod matching_engine;
pub mod order_book;
mod price_map;
pub mod powers;
pub mod prompt;
pub mod prompt_state;
pub mod text;
pub mod text_map;
pub mod tick;

verus! {

/// Side of an order (bid or ask).
#[derive(Copy, Clone, PartialEq, Eq, Hash, Debug, Structural)]
pub enum Side {
    /// Bid side.
    Bid,
    /// Ask side.
    Ask,
}

} // verus!
