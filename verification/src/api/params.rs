//! Parameters of a traded symbol.

use vstd::prelude::*;
use crate::tick::Tick;

verus! {

/// A type carrying information about the traded symbol.
#[derive(Clone, PartialEq, Eq, Hash, Debug)]
pub struct SymbolInfo {
    /// Symbol name.
    pub name: String,
    /// Tick unit for prices.
    pub price_tick: Tick,
    /// Tick unit for sizes.
    pub size_tick: Tick,
    /// Tick unit for commissions.
    pub commission_tick: Tick,
}

} // verus!
