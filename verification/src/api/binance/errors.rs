//! Errors returned by the binance REST API, and their general kinds.

use vstd::prelude::*;
use crate::api::errors::{CancelErrorKind, OrderErrorKind, RestErrorKind as GeneralKind, msg_starts_with, message_starts_with};

verus! {

/// An error body sent by binance: an error code and a message.
#[derive(Clone, PartialEq, Eq, Hash, Debug)]
pub struct BinanceRestError {
    /// Internal binance error code.
    pub code: i32,
    /// Description of the error.
    pub msg: String,
}

/// An error returned by binance REST API.
#[derive(Clone, PartialEq, Eq, Hash, Debug)]
pub struct RestError {
    /// Error kind.
    pub kind: RestErrorKind,
    /// Internal binance error code: see API documentation.
    pub error_code: Option<i32>,
    /// Description of the error.
    pub error_msg: Option<String>,
}

/// Translate an HTTP error code to a binance error category.
#[derive(Copy, Clone, PartialEq, Eq, Hash, Debug, Structural)]
pub enum RestErrorKind {
    /// Malformed request, issue on the lib side or consumer side.
    MalformedRequest,
    /// The client broke the request rate limit set by binance.
    BrokeRateLimit,
    /// IP address was banned.
    AddressBanned,
    /// The server did not respond in time. The order may have been executed
    /// or may have not.
    Timeout,
    /// Issue on binance side.
    InternalError,
    /// Unknown error, with its HTTP status code.
    Unknown(u16),
}

/// The binance error category of HTTP status `code`.
pub open spec fn status_kind(code: u16) -> RestErrorKind {
    if (400 <= code <= 417) || (421 <= code <= 424) || code == 426 || code == 428 || code == 431 || code == 451 {
        RestErrorKind::MalformedRequest
    } else if code == 418 {
        RestErrorKind::AddressBanned
    } else if code == 429 {
        RestErrorKind::BrokeRateLimit
    } else if (500 <= code <= 503) || (505 <= code <= 508) || code == 510 || code == 511 {
        RestErrorKind::InternalError
    } else if code == 504 {
        RestErrorKind::Timeout
    } else {
        RestErrorKind::Unknown(code)
    }
}

impl RestErrorKind {
    /// Translate an HTTP status code, which is not `200 OK`.
    pub fn from_status_code(code: u16) -> (kind: Self)
        requires
            code != 200,
        ensures
            kind == status_kind(code),
    {
        if (400 <= code && code <= 417) || (421 <= code && code <= 424) || code == 426 || code == 428 || code == 431
            || code == 451 {
            RestErrorKind::MalformedRequest
        } else if code == 418 {
            RestErrorKind::AddressBanned
        } else if code == 429 {
            RestErrorKind::BrokeRateLimit
        } else if (500 <= code && code <= 503) || (505 <= code && code <= 508) || code == 510 || code == 511 {
            RestErrorKind::InternalError
        } else if code == 504 {
            RestErrorKind::Timeout
        } else {
            RestErrorKind::Unknown(code)
        }
    }
}

impl RestError {
    /// The general kind of this error, for requests without specific
    /// errors.
    pub open spec fn spec_general_kind<K>(self) -> GeneralKind<K> {
        if self.kind == RestErrorKind::BrokeRateLimit || self.kind == RestErrorKind::AddressBanned
            || self.error_code == Some(-1003i32) || self.error_code == Some(-1015i32) {
            GeneralKind::TooManyRequests
        } else if self.kind == RestErrorKind::Timeout || self.error_code == Some(-1007i32)
            || self.error_code == Some(-1006i32) {
            GeneralKind::UnknownStatus
        } else if self.error_code == Some(-1021i32) {
            GeneralKind::OutsideTimeWindow
        } else if self.kind == RestErrorKind::InternalError || self.error_code == Some(-1001i32) {
            GeneralKind::OtherSide
        } else {
            GeneralKind::InvalidRequest
        }
    }

    /// The kind of this error for a `cancel` request.
    pub open spec fn spec_cancel_kind(self) -> GeneralKind<CancelErrorKind> {
        let unknown_order = (self.error_code == Some(-1010i32) || self.error_code == Some(-2011i32))
            && msg_starts_with(self.error_msg, "Unknown order"@);
        if self.error_code == Some(-2013i32) || unknown_order {
            GeneralKind::Specific(CancelErrorKind::UnknownOrder)
        } else {
            self.spec_general_kind()
        }
    }

    /// The kind of this error for an `order` request.
    pub open spec fn spec_order_kind(self) -> GeneralKind<OrderErrorKind> {
        let order_rejected = self.error_code == Some(-1010i32) || self.error_code == Some(-2010i32);
        if order_rejected && msg_starts_with(self.error_msg, "Duplicate order"@) {
            GeneralKind::Specific(OrderErrorKind::DuplicateOrder)
        } else if order_rejected && msg_starts_with(self.error_msg, "Account has insufficient balance"@) {
            GeneralKind::Specific(OrderErrorKind::InsufficientBalance)
        } else if order_rejected && msg_starts_with(self.error_msg, "Order would immediately match and take"@) {
            GeneralKind::Specific(OrderErrorKind::WouldTakeLiquidity)
        } else {
            self.spec_general_kind()
        }
    }

    /// The general kind of this error, for requests without specific
    /// errors.
    pub fn general_kind<K>(&self) -> (kind: GeneralKind<K>)
        ensures
            kind == self.spec_general_kind::<K>(),
    {
        if self.kind == RestErrorKind::BrokeRateLimit || self.kind == RestErrorKind::AddressBanned
            || self.error_code == Some(-1003) || self.error_code == Some(-1015) {
            return GeneralKind::TooManyRequests;
        }
        if self.kind == RestErrorKind::Timeout || self.error_code == Some(-1007) || self.error_code == Some(-1006) {
            return GeneralKind::UnknownStatus;
        }
        if self.error_code == Some(-1021) {
            return GeneralKind::OutsideTimeWindow;
        }
        if self.kind == RestErrorKind::InternalError || self.error_code == Some(-1001) {
            return GeneralKind::OtherSide;
        }
        GeneralKind::InvalidRequest
    }

    /// The kind of this error for a `cancel` request.
    pub fn cancel_kind(&self) -> (kind: GeneralKind<CancelErrorKind>)
        ensures
            kind == self.spec_cancel_kind(),
    {
        let unknown_order = (self.error_code == Some(-1010) || self.error_code == Some(-2011))
            && message_starts_with(&self.error_msg, "Unknown order");
        if self.error_code == Some(-2013) || unknown_order {
            return GeneralKind::Specific(CancelErrorKind::UnknownOrder);
        }
        self.general_kind()
    }

    /// The kind of this error for an `order` request.
    pub fn order_kind(&self) -> (kind: GeneralKind<OrderErrorKind>)
        ensures
            kind == self.spec_order_kind(),
    {
        let order_rejected = self.error_code == Some(-1010) || self.error_code == Some(-2010);
        if order_rejected && message_starts_with(&self.error_msg, "Duplicate order") {
            return GeneralKind::Specific(OrderErrorKind::DuplicateOrder);
        }
        if order_rejected && message_starts_with(&self.error_msg, "Account has insufficient balance") {
            return GeneralKind::Specific(OrderErrorKind::InsufficientBalance);
        }
        if order_rejected && message_starts_with(&self.error_msg, "Order would immediately match and take") {
            return GeneralKind::Specific(OrderErrorKind::WouldTakeLiquidity);
        }
        self.general_kind()
    }

    /// The error of a response with HTTP status `status` (not `200 OK`) and
    /// the error body that binance sent, if it could be read.
    pub fn from_binance_error(status: u16, binance_error: Option<BinanceRestError>) -> (e: Self)
        requires
            status != 200,
        ensures
            e.kind == status_kind(status),
            e.error_code == (match binance_error {
                Some(b) => Some(b.code),
                None => None,
            }),
            match binance_error {
                Some(b) => e.error_msg matches Some(m) && m@ == b.msg@,
                None => e.error_msg is None,
            },
    {
        let kind = RestErrorKind::from_status_code(status);
        match binance_error {
            Some(error) => RestError { kind, error_code: Some(error.code), error_msg: Some(error.msg) },
            None => RestError { kind, error_code: None, error_msg: None },
        }
    }
}

} // verus!
