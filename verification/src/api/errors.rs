//! Error kinds shared by the exchange APIs.

use vstd::prelude::*;
use crate::text::starts_with;

verus! {

/// Sealing trait of `ErrorKind`.
pub trait Sealed {
}

/// A kind of error specific to some API request.
pub trait ErrorKind: Sealed + Copy + Sized {
}

/// An error kind specific to the `order` API request.
#[derive(Copy, Clone, PartialEq, Eq, Hash, Debug, Structural)]
pub enum OrderErrorKind {
    /// Account does not have a sufficient balance for this order.
    InsufficientBalance,
    /// The client specified order id is already in use.
    DuplicateOrder,
    /// The order would take liquidity.
    WouldTakeLiquidity,
}

impl Sealed for OrderErrorKind {
}

impl ErrorKind for OrderErrorKind {
}

/// An error kind specific to the `cancel` API request.
#[derive(Copy, Clone, PartialEq, Eq, Hash, Debug, Structural)]
pub enum CancelErrorKind {
    /// The specified order id could not be found.
    UnknownOrder,
}

impl Sealed for CancelErrorKind {
}

impl ErrorKind for CancelErrorKind {
}

/// REST error kind.
#[derive(Copy, Clone, PartialEq, Eq, Hash, Debug, Structural)]
pub enum RestErrorKind<K> {
    /// Too many requests were sent during a given time window, check rate
    /// limits.
    TooManyRequests,
    /// Execution status are unknown: e.g. timeout.
    UnknownStatus,
    /// Invalid request, issue on the lib side or consumer side.
    InvalidRequest,
    /// Issue on the exchange side.
    OtherSide,
    /// The request timestamp was outside of the specified time window.
    OutsideTimeWindow,
    /// More specific error kind, depending on the request being made.
    Specific(K),
}

impl<K> RestErrorKind<K> {
    /// Whether this is a kind shared by all requests, not a specific one.
    pub open spec fn is_general(self) -> bool {
        !(self is Specific)
    }

    /// The same general kind, as a kind of the requests whose specific
    /// errors are of kind `L`.
    pub fn convert<L>(self) -> (kind: RestErrorKind<L>)
        requires
            self.is_general(),
        ensures
            kind.is_general(),
            self is TooManyRequests <==> kind is TooManyRequests,
            self is UnknownStatus <==> kind is UnknownStatus,
            self is InvalidRequest <==> kind is InvalidRequest,
            self is OtherSide <==> kind is OtherSide,
            self is OutsideTimeWindow <==> kind is OutsideTimeWindow,
    {
        match self {
            RestErrorKind::TooManyRequests => RestErrorKind::TooManyRequests,
            RestErrorKind::UnknownStatus => RestErrorKind::UnknownStatus,
            RestErrorKind::InvalidRequest => RestErrorKind::InvalidRequest,
            RestErrorKind::OtherSide => RestErrorKind::OtherSide,
            RestErrorKind::OutsideTimeWindow => RestErrorKind::OutsideTimeWindow,
            RestErrorKind::Specific(_) => RestErrorKind::InvalidRequest,
        }
    }
}

/// Whether `msg` starts with `prefix`.
pub open spec fn msg_starts_with(msg: Option<String>, prefix: Seq<char>) -> bool {
    match msg {
        Some(m) => prefix.is_prefix_of(m@),
        None => false,
    }
}

/// Whether the optional message starts with `prefix`.
pub fn message_starts_with(msg: &Option<String>, prefix: &str) -> (b: bool)
    ensures
        b == msg_starts_with(*msg, prefix@),
{
    match msg {
        Some(m) => starts_with(m.as_str(), prefix),
        None => false,
    }
}

} // verus!
