//! Ordered lookups in a `BTreeMap` keyed by prices, taken from std's range
//! queries.

use std::collections::BTreeMap;
use vstd::prelude::*;

verus! {

/// The smallest key of `m` that is at least `from`: the first key that
/// `BTreeMap::range(from..)` yields.
#[verifier::external_body]
pub(crate) fn first_key_at_or_above<V>(m: &BTreeMap<u64, V>, from: u64) -> (r: Option<u64>)
    ensures
        match r {
            Some(k) => {
                &&& from <= k
                &&& m@.contains_key(k)
                &&& forall|j: u64| from <= j < k ==> !#[trigger] m@.contains_key(j)
            },
            None => forall|j: u64| from <= j ==> !#[trigger] m@.contains_key(j),
        },
{
    m.range(from..).next().map(|(k, _)| *k)
}

/// The largest key of `m` that is at most `to`: the last key that
/// `BTreeMap::range(..=to)` yields.
#[verifier::external_body]
pub(crate) fn last_key_at_or_below<V>(m: &BTreeMap<u64, V>, to: u64) -> (r: Option<u64>)
    ensures
        match r {
            Some(k) => {
                &&& k <= to
                &&& m@.contains_key(k)
                &&& forall|j: u64| k < j <= to ==> !#[trigger] m@.contains_key(j)
            },
            None => forall|j: u64| j <= to ==> !#[trigger] m@.contains_key(j),
        },
{
    m.range(..=to).next_back().map(|(k, _)| *k)
}

} // verus!
