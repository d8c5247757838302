//! Errors returned by the GDAX REST API, and their general kinds.

use vstd::prelude::*;
use crate::api::errors::{CancelErrorKind, OrderErrorKind, RestErrorKind as GeneralKind, msg_starts_with, message_starts_with};

verus! {

/// An error body sent by GDAX: a message.
#[derive(Clone, PartialEq, Eq, Hash, Debug)]
pub struct GdaxRestError {
    /// Description of the error.
    pub message: String,
}

/// An error returned by GDAX REST API.
#[derive(Clone, PartialEq, Eq, Hash, Debug)]
pub struct RestError {
    /// Error kind.
    pub kind: RestErrorKind,
    /// Description of the error.
    pub error_msg: Option<String>,
}

/// Translate an HTTP error code to a GDAX error category.
#[derive(Copy, Clone, PartialEq, Eq, Hash, Debug, Structural)]
pub enum RestErrorKind {
    /// Malformed request, issue on the lib side or consumer side.
    BadRequest,
    /// The API keys were invalid or did not have the right permissions.
    Unauthorized,
    /// Forbidden.
    Forbidden,
    /// Not found, issue on the consumer side (e.g. the order id to cancel
    /// was not found by the server).
    NotFound,
    /// The client broke the request rate limit set by GDAX.
    TooManyRequests,
    /// Issue on GDAX side.
    InternalError,
    /// The server did not respond in time. The order may have been executed
    /// or may have not.
    Timeout,
    /// Unknown error, with its HTTP status code.
    Unknown(u16),
}

/// The GDAX error category of HTTP status `code`.
pub open spec fn status_kind(code: u16) -> RestErrorKind {
    if code == 400 {
        RestErrorKind::BadRequest
    } else if code == 401 {
        RestErrorKind::Unauthorized
    } else if code == 403 {
        RestErrorKind::Forbidden
    } else if code == 404 {
        RestErrorKind::NotFound
    } else if code == 429 {
        RestErrorKind::TooManyRequests
    } else if code == 500 {
        RestErrorKind::InternalError
    } else if code == 504 {
        RestErrorKind::Timeout
    } else {
        RestErrorKind::Unknown(code)
    }
}

impl RestErrorKind {
    /// Translate an HTTP status code, which is not `200 OK`.
    pub fn from_status_code(code: u16) -> (kind: Self)
        requires
            code != 200,
        ensures
            kind == status_kind(code),
    {
        match code {
            400 => RestErrorKind::BadRequest,
            401 => RestErrorKind::Unauthorized,
            403 => RestErrorKind::Forbidden,
            404 => RestErrorKind::NotFound,
            429 => RestErrorKind::TooManyRequests,
            500 => RestErrorKind::InternalError,
            504 => RestErrorKind::Timeout,
            other => RestErrorKind::Unknown(other),
        }
    }
}

impl RestError {
    /// The general kind of this error, for requests without specific
    /// errors.
    pub open spec fn spec_general_kind<K>(self) -> GeneralKind<K> {
        if self.kind == RestErrorKind::TooManyRequests {
            GeneralKind::TooManyRequests
        } else if self.kind == RestErrorKind::Timeout {
            GeneralKind::UnknownStatus
        } else if self.kind == RestErrorKind::InternalError {
            GeneralKind::OtherSide
        } else if msg_starts_with(self.error_msg, "request timestamp expired"@) {
            GeneralKind::OutsideTimeWindow
        } else {
            GeneralKind::InvalidRequest
        }
    }

    /// The kind of this error for a `cancel` request.
    pub open spec fn spec_cancel_kind(self) -> GeneralKind<CancelErrorKind> {
        if self.kind == RestErrorKind::NotFound || msg_starts_with(self.error_msg, "Order already done"@) {
            GeneralKind::Specific(CancelErrorKind::UnknownOrder)
        } else {
            self.spec_general_kind()
        }
    }

    /// The kind of this error for an `order` request.
    pub open spec fn spec_order_kind(self) -> GeneralKind<OrderErrorKind> {
        if msg_starts_with(self.error_msg, "Insufficient funds"@) {
            GeneralKind::Specific(OrderErrorKind::InsufficientBalance)
        } else {
            self.spec_general_kind()
        }
    }

    /// The general kind of this error, for requests without specific
    /// errors.
    pub fn general_kind<K>(&self) -> (kind: GeneralKind<K>)
        ensures
            kind == self.spec_general_kind::<K>(),
    {
        if self.kind == RestErrorKind::TooManyRequests {
            return GeneralKind::TooManyRequests;
        }
        if self.kind == RestErrorKind::Timeout {
            return GeneralKind::UnknownStatus;
        }
        if self.kind == RestErrorKind::InternalError {
            return GeneralKind::OtherSide;
        }
        if message_starts_with(&self.error_msg, "request timestamp expired") {
            return GeneralKind::OutsideTimeWindow;
        }
        GeneralKind::InvalidRequest
    }

    /// The kind of this error for a `cancel` request.
    pub fn cancel_kind(&self) -> (kind: GeneralKind<CancelErrorKind>)
        ensures
            kind == self.spec_cancel_kind(),
    {
        if self.kind == RestErrorKind::NotFound {
            return GeneralKind::Specific(CancelErrorKind::UnknownOrder);
        }
        if message_starts_with(&self.error_msg, "Order already done") {
            return GeneralKind::Specific(CancelErrorKind::UnknownOrder);
        }
        self.general_kind()
    }

    /// The kind of this error for an `order` request.
    pub fn order_kind(&self) -> (kind: GeneralKind<OrderErrorKind>)
        ensures
            kind == self.spec_order_kind(),
    {
        if message_starts_with(&self.error_msg, "Insufficient funds") {
            return GeneralKind::Specific(OrderErrorKind::InsufficientBalance);
        }
        self.general_kind()
    }

    /// The error of a response with HTTP status `status` (not `200 OK`) and
    /// the error body that GDAX sent, if it could be read.
    pub fn from_gdax_error(status: u16, gdax_error: Option<GdaxRestError>) -> (e: Self)
        requires
            status != 200,
        ensures
            e.kind == status_kind(status),
            match gdax_error {
                Some(g) => e.error_msg matches Some(m) && m@ == g.message@,
                None => e.error_msg is None,
            },
    {
        let kind = RestErrorKind::from_status_code(status);
        match gdax_error {
            Some(error) => RestError { kind, error_msg: Some(error.message) },
            None => RestError { kind, error_msg: None },
        }
    }
}

} // verus!
