//! The HitBTC API: keys, error kinds, the names that HitBTC gives to sides,
//! order types and times in force, and its WebSocket stream.

pub mod errors;
pub mod rest;
pub mod wss;

use vstd::prelude::*;

verus! {

/// An HitBTC key pair: public key + secret key.
#[derive(Clone, PartialEq, Eq, Hash, Debug)]
pub struct KeyPair {
    public_key: String,
    secret_key: String,
}

impl KeyPair {
    /// The public key.
    pub closed spec fn public_key(self) -> Seq<char> {
        self.public_key@
    }

    /// The secret key.
    pub closed spec fn secret_key(self) -> Seq<char> {
        self.secret_key@
    }

    /// A copy of the public key.
    pub fn public_key_string(&self) -> (s: String)
        ensures
            s@ == self.public_key(),
    {
        self.public_key.clone()
    }

    /// A copy of the secret key.
    pub fn secret_key_string(&self) -> (s: String)
        ensures
            s@ == self.secret_key(),
    {
        self.secret_key.clone()
    }

    /// Return a new key pair.
    pub fn new(public_key: String, secret_key: String) -> (pair: Self)
        ensures
            pair.public_key() == public_key@,
            pair.secret_key() == secret_key@,
    {
        KeyPair { public_key, secret_key }
    }
}

} // verus!
