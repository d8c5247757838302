//! The GDAX API: keys, error kinds and the names that GDAX gives to sides
//! and times in force.

pub mod auth;
pub mod errors;
pub mod rest;
pub mod wss;

use vstd::prelude::*;
use crate::Side;
use crate::text::str_eq;

verus! {

/// A GDAX key pair: api key + secret key, along with a pass phrase.
#[derive(Clone, PartialEq, Eq, Hash, Debug)]
pub struct KeyPair {
    api_key: String,
    secret_key: String,
    pass_phrase: String,
}

impl KeyPair {
    /// The api key.
    pub closed spec fn api_key(self) -> Seq<char> {
        self.api_key@
    }

    /// The secret key.
    pub closed spec fn secret_key(self) -> Seq<char> {
        self.secret_key@
    }

    /// The pass phrase.
    pub closed spec fn pass_phrase(self) -> Seq<char> {
        self.pass_phrase@
    }

    /// Return a new key pair along with the associated pass phrase.
    pub fn new(api_key: String, secret_key: String, pass_phrase: String) -> (pair: Self)
        ensures
            pair.api_key() == api_key@,
            pair.secret_key() == secret_key@,
            pair.pass_phrase() == pass_phrase@,
    {
        KeyPair { api_key, secret_key, pass_phrase }
    }

    /// The api key, as a `String`.
    pub fn api_key_string(&self) -> (s: String)
        ensures
            s@ == self.api_key(),
    {
        self.api_key.clone()
    }

    /// The secret key, as a `&str`.
    pub fn secret_key_str(&self) -> (s: &str)
        ensures
            s@ == self.secret_key(),
    {
        self.secret_key.as_str()
    }

    /// The pass phrase, as a `String`.
    pub fn pass_phrase_string(&self) -> (s: String)
        ensures
            s@ == self.pass_phrase(),
    {
        self.pass_phrase.clone()
    }
}

/// The side that GDAX names `s`: `buy` or `sell`.
pub open spec fn gdax_side(s: Seq<char>) -> Option<Side> {
    if s == "buy"@ {
        Some(Side::Bid)
    } else if s == "sell"@ {
        Some(Side::Ask)
    } else {
        None
    }
}

/// The side that GDAX names `side`, or `Err` with the name if it is neither
/// `buy` nor `sell`.
pub fn convert_gdax_side(side: &str) -> (r: Result<Side, String>)
    ensures
        match gdax_side(side@) {
            Some(s) => r == Ok::<Side, String>(s),
            None => r matches Err(name) && name@ == side@,
        },
{
    if str_eq(side, "buy") {
        Ok(Side::Bid)
    } else if str_eq(side, "sell") {
        Ok(Side::Ask)
    } else {
        Err(side.to_owned())
    }
}

} // verus!
