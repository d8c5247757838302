//! The binance API: keys, account information, error kinds and the names
//! that binance gives to sides, order types and times in force.

pub mod errors;
pub mod rest;
pub mod wss;

use vstd::prelude::*;

verus! {

/// A binance key pair: api key + secret key.
#[derive(Clone, PartialEq, Eq, Hash, Debug)]
pub struct KeyPair {
    api_key: String,
    secret_key: String,
}

impl KeyPair {
    /// The api key.
    pub closed spec fn api_key(self) -> Seq<char> {
        self.api_key@
    }

    /// The secret key.
    pub closed spec fn secret_key(self) -> Seq<char> {
        self.secret_key@
    }

    /// Return a new key pair.
    pub fn new(api_key: String, secret_key: String) -> (pair: Self)
        ensures
            pair.api_key() == api_key@,
            pair.secret_key() == secret_key@,
    {
        KeyPair { api_key, secret_key }
    }

    /// The api key, as a `String`.
    pub fn api_key_string(&self) -> (s: String)
        ensures
            s@ == self.api_key(),
    {
        self.api_key.clone()
    }

    /// The secret key, as a `&str`.
    pub fn secret_key_str(&self) -> (s: &str)
        ensures
            s@ == self.secret_key(),
    {
        self.secret_key.as_str()
    }
}

/// Account balance for one asset.
#[derive(Clone, PartialEq, Eq, Hash, Debug)]
pub struct Balance {
    /// Symbol name.
    pub asset: String,
    /// Available amount, unticked.
    pub free: String,
    /// Locked amount, unticked.
    pub locked: String,
}

/// Account information for this client.
#[derive(Clone, PartialEq, Eq, Debug)]
pub struct AccountInformation {
    /// Maker commission.
    pub maker_commission: u64,
    /// Taker commission.
    pub taker_commission: u64,
    /// Buyer commission.
    pub buyer_commission: u64,
    /// Seller commission.
    pub seller_commission: u64,
    /// Whether the account can trade.
    pub can_trade: bool,
    /// Whether the account can withdraw.
    pub can_withdraw: bool,
    /// Whether the account can deposit.
    pub can_deposit: bool,
    /// Last update, in ms.
    pub update_timestamp: u64,
    /// Balance of each asset.
    pub balances: Vec<Balance>,
}

} // verus!
