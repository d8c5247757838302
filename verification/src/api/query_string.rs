//! Query strings of REST requests, optionally signed with HMAC-SHA256.

use vstd::prelude::*;
use crate::decimal::{dec_digits, push_decimal};

verus! {

/// The lowercase hexadecimal digit of `n < 16`.
pub open spec fn hex_digit(n: nat) -> char {
    if n < 10 {
        (n + 48) as char
    } else {
        (n + 87) as char
    }
}

/// The lowercase hexadecimal representation of `b`, two digits per byte.
pub open spec fn hex_lower(b: Seq<u8>) -> Seq<char>
    decreases b.len(),
{
    if b.len() == 0 {
        Seq::empty()
    } else {
        seq![hex_digit((b[0] / 16) as nat), hex_digit((b[0] % 16) as nat)] + hex_lower(b.drop_first())
    }
}

/// The HMAC-SHA256 of `data` with secret key `key`.
pub uninterp spec fn hmac_sha256(key: Seq<u8>, data: Seq<u8>) -> Seq<u8>;

/// `hex::encode`: the lowercase hexadecimal representation of `data`, two
/// digits per byte, as the crate documents it.
#[verifier::external_body]
fn hex_encode(data: &[u8]) -> (s: String)
    ensures
        s@ == hex_lower(data@),
{
    hex::encode(data)
}

/// HMAC-SHA256 with openssl: the key made by `PKey::hmac` from `key`
/// (which asserts that the key length fits in a C `int`), then a `Signer`
/// with `MessageDigest::sha256()` over `data`. `None` when openssl reports
/// an error; otherwise the signature, named `hmac_sha256(key, data)`.
#[verifier::external_body]
pub(crate) fn hmac_sha256_sign(key: &[u8], data: &[u8]) -> (r: Option<Vec<u8>>)
    requires
        key@.len() <= i32::MAX,
    ensures
        r matches Some(v) ==> v@ == hmac_sha256(key@, data@),
{
    let pkey = openssl::pkey::PKey::hmac(key).ok()?;
    let mut signer = openssl::sign::Signer::new(openssl::hash::MessageDigest::sha256(), &pkey).ok()?;
    signer.update(data).ok()?;
    signer.sign_to_vec().ok()
}

/// `query` followed by the parameter `name=arg`, separated from previous
/// parameters by `&`.
pub open spec fn with_param(query: Seq<char>, name: Seq<char>, arg: Seq<char>) -> Seq<char> {
    (if query.len() == 0 { query } else { query.push('&') }) + name + seq!['='] + arg
}

/// A query string, e.g. `symbol=BTCUSDT&side=BUY`.
pub struct QueryString {
    query: String,
}

impl View for QueryString {
    type V = Seq<char>;

    closed spec fn view(&self) -> Seq<char> {
        self.query@
    }
}

impl QueryString {
    /// An empty query string.
    pub fn new() -> (q: Self)
        ensures
            q@ == Seq::<char>::empty(),
    {
        QueryString { query: String::new() }
    }

    /// Start a new parameter named `name`.
    fn push_name(&mut self, name: &str)
        ensures
            final(self)@ == (if old(self)@.len() == 0 { old(self)@ } else { old(self)@.push('&') }) + name@ + seq!['='],
    {
        if !self.query.as_str().is_empty() {
            proof {
                reveal_strlit("&");
            }
            self.query.append("&");
        }
        self.query.append(name);
        proof {
            reveal_strlit("=");
        }
        self.query.append("=");
        assert(self@ =~= (if old(self)@.len() == 0 { old(self)@ } else { old(self)@.push('&') }) + name@ + seq!['=']);
    }

    /// Append the parameter `name=arg`.
    pub fn push_str(&mut self, name: &str, arg: &str)
        ensures
            final(self)@ == with_param(old(self)@, name@, arg@),
    {
        self.push_name(name);
        self.query.append(arg);
        assert(self@ =~= with_param(old(self)@, name@, arg@));
    }

    /// Append the parameter `name=arg`, with `arg` in decimal.
    pub fn push(&mut self, name: &str, arg: u64)
        ensures
            final(self)@ == with_param(old(self)@, name@, dec_digits(arg as nat)),
    {
        self.push_name(name);
        push_decimal(&mut self.query, arg as u128);
        assert(self@ =~= with_param(old(self)@, name@, dec_digits(arg as nat)));
    }

    /// The query string.
    pub fn into_string(self) -> (s: String)
        ensures
            s@ == self@,
    {
        self.query
    }

    /// The query string followed by the parameter `signature`: the
    /// lowercase hexadecimal HMAC-SHA256 of the query string with
    /// `secret_key`. `None` if openssl could not sign.
    pub fn into_string_with_signature(self, secret_key: &[u8]) -> (s: Option<String>)
        requires
            secret_key@.len() <= i32::MAX,
        ensures
            s matches Some(s) ==> s@ == with_param(
                self@,
                "signature"@,
                hex_lower(hmac_sha256(secret_key@, vstd::utf8::encode_utf8(self@))),
            ),
    {
        let mut q = self;
        let signature = match hmac_sha256_sign(secret_key, q.query.as_str().as_bytes()) {
            Some(signature) => signature,
            None => {
                return None;
            },
        };
        let hex = hex_encode(signature.as_slice());
        q.push_str("signature", hex.as_str());
        Some(q.query)
    }
}

} // verus!
