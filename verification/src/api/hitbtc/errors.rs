//! Errors returned by the HitBTC REST API, and their general kinds.

use vstd::prelude::*;
use crate::api::errors::{CancelErrorKind, OrderErrorKind, RestErrorKind as GeneralKind};

verus! {

/// An error body sent by HitBTC: an error code, a message and an optional
/// description.
#[derive(Clone, PartialEq, Eq, Hash, Debug)]
pub struct HitBtcRestError {
    /// Internal HitBTC error code.
    pub code: i32,
    /// Error message.
    pub message: String,
    /// Optional description of the error.
    pub description: Option<String>,
}

/// An error returned by HitBTC REST API.
#[derive(Clone, PartialEq, Eq, Hash, Debug)]
pub struct RestError {
    /// Error kind.
    pub kind: RestErrorKind,
    /// Internal HitBTC error code: see API documentation.
    pub error_code: i32,
    /// Error message.
    pub error_msg: String,
    /// Optional description of the error.
    pub description: Option<String>,
}

/// Translate an HTTP error code to an HitBTC error category.
#[derive(Copy, Clone, PartialEq, Eq, Hash, Debug, Structural)]
pub enum RestErrorKind {
    /// Malformed request, issue on the lib side or consumer side.
    BadRequest,
    /// Authorisation required or failed.
    Unauthorized,
    /// Action is forbidden for API key.
    Forbidden,
    /// The client broke the request rate limit set by HitBTC.
    TooManyRequests,
    /// Issue on HitBTC side.
    InternalError,
    /// Service is down for maintenance.
    ServiceUnavailable,
    /// The server did not respond in time. The order may have been executed
    /// or may have not.
    Timeout,
    /// Unknown error, with its HTTP status code.
    Unknown(u16),
}

/// The HitBTC error category of HTTP status `code`.
pub open spec fn status_kind(code: u16) -> RestErrorKind {
    if code == 400 {
        RestErrorKind::BadRequest
    } else if code == 401 {
        RestErrorKind::Unauthorized
    } else if code == 403 {
        RestErrorKind::Forbidden
    } else if code == 429 {
        RestErrorKind::TooManyRequests
    } else if code == 500 {
        RestErrorKind::InternalError
    } else if code == 503 {
        RestErrorKind::ServiceUnavailable
    } else if code == 504 {
        RestErrorKind::Timeout
    } else {
        RestErrorKind::Unknown(code)
    }
}

impl RestErrorKind {
    /// Translate an HTTP status code, which is not `200 OK`.
    pub fn from_status_code(code: u16) -> (kind: Self)
        requires
            code != 200,
        ensures
            kind == status_kind(code),
    {
        match code {
            400 => RestErrorKind::BadRequest,
            401 => RestErrorKind::Unauthorized,
            403 => RestErrorKind::Forbidden,
            429 => RestErrorKind::TooManyRequests,
            500 => RestErrorKind::InternalError,
            503 => RestErrorKind::ServiceUnavailable,
            504 => RestErrorKind::Timeout,
            other => RestErrorKind::Unknown(other),
        }
    }
}

impl RestError {
    /// The general kind of this error, for requests without specific
    /// errors.
    pub open spec fn spec_general_kind<K>(self) -> GeneralKind<K> {
        if self.kind == RestErrorKind::TooManyRequests {
            GeneralKind::TooManyRequests
        } else if self.kind == RestErrorKind::Timeout {
            GeneralKind::UnknownStatus
        } else if self.kind == RestErrorKind::InternalError || self.kind == RestErrorKind::ServiceUnavailable {
            GeneralKind::OtherSide
        } else {
            GeneralKind::InvalidRequest
        }
    }

    /// The kind of this error for a `cancel` request.
    pub open spec fn spec_cancel_kind(self) -> GeneralKind<CancelErrorKind> {
        if self.kind == RestErrorKind::BadRequest && self.error_code == 20002 {
            GeneralKind::Specific(CancelErrorKind::UnknownOrder)
        } else {
            self.spec_general_kind()
        }
    }

    /// The kind of this error for an `order` request.
    pub open spec fn spec_order_kind(self) -> GeneralKind<OrderErrorKind> {
        if self.kind == RestErrorKind::BadRequest && self.error_code == 20001 {
            GeneralKind::Specific(OrderErrorKind::InsufficientBalance)
        } else if self.kind == RestErrorKind::BadRequest && self.error_code == 20008 {
            GeneralKind::Specific(OrderErrorKind::DuplicateOrder)
        } else {
            self.spec_general_kind()
        }
    }

    /// The general kind of this error, for requests without specific
    /// errors.
    pub fn general_kind<K>(&self) -> (kind: GeneralKind<K>)
        ensures
            kind == self.spec_general_kind::<K>(),
    {
        if self.kind == RestErrorKind::TooManyRequests {
            return GeneralKind::TooManyRequests;
        }
        if self.kind == RestErrorKind::Timeout {
            return GeneralKind::UnknownStatus;
        }
        if self.kind == RestErrorKind::InternalError || self.kind == RestErrorKind::ServiceUnavailable {
            return GeneralKind::OtherSide;
        }
        GeneralKind::InvalidRequest
    }

    /// The kind of this error for a `cancel` request.
    pub fn cancel_kind(&self) -> (kind: GeneralKind<CancelErrorKind>)
        ensures
            kind == self.spec_cancel_kind(),
    {
        if self.kind == RestErrorKind::BadRequest && self.error_code == 20002 {
            return GeneralKind::Specific(CancelErrorKind::UnknownOrder);
        }
        self.general_kind()
    }

    /// The kind of this error for an `order` request.
    pub fn order_kind(&self) -> (kind: GeneralKind<OrderErrorKind>)
        ensures
            kind == self.spec_order_kind(),
    {
        if self.kind == RestErrorKind::BadRequest && self.error_code == 20001 {
            return GeneralKind::Specific(OrderErrorKind::InsufficientBalance);
        }
        if self.kind == RestErrorKind::BadRequest && self.error_code == 20008 {
            return GeneralKind::Specific(OrderErrorKind::DuplicateOrder);
        }
        self.general_kind()
    }

    /// The error of a response with HTTP status `status` (not `200 OK`) and
    /// the error body that HitBTC sent, if it could be read: without a body,
    /// the error code is `-1` and the message `<empty>`.
    pub fn from_hit_btc_error(status: u16, hit_btc_error: Option<HitBtcRestError>) -> (e: Self)
        requires
            status != 200,
        ensures
            e.kind == status_kind(status),
            match hit_btc_error {
                Some(h) => e.error_code == h.code && e.error_msg@ == h.message@ && match h.description {
                    Some(d) => e.description matches Some(d2) && d2@ == d@,
                    None => e.description is None,
                },
                None => e.error_code == -1 && e.error_msg@ == "<empty>"@ && e.description is None,
            },
    {
        let kind = RestErrorKind::from_status_code(status);
        match hit_btc_error {
            Some(error) => RestError {
                kind,
                error_code: error.code,
                error_msg: error.message,
                description: error.description,
            },
            None => RestError {
                kind,
                error_code: -1,
                error_msg: "<empty>".to_owned(),
                description: None,
            },
        }
    }
}

} // verus!
