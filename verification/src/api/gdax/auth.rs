//! Authentication of GDAX requests: the HMAC-SHA256 of a text made of the
//! timestamp, the method, the path and the body of a request, with the
//! secret key decoded from base64, encoded in base64.

use vstd::prelude::*;
use vstd::utf8::encode_utf8;
use crate::api::query_string::{hmac_sha256, hmac_sha256_sign};
use crate::decimal::{dec_digits, push_decimal};

verus! {

/// What `base64::decode` gives of `s`: the bytes that `s` writes in
/// standard base64, or `None` if it is not standard base64.
pub uninterp spec fn base64_decoded(s: Seq<char>) -> Option<Seq<u8>>;

/// The character of the standard base64 alphabet for the sextet `n`.
pub open spec fn base64_char(n: nat) -> char {
    if n < 26 {
        (65 + n) as char
    } else if n < 52 {
        (97 + (n - 26)) as char
    } else if n < 62 {
        (48 + (n - 52)) as char
    } else if n == 62 {
        '+'
    } else {
        '/'
    }
}

/// The standard base64 encoding of `b`, padded with `=`: each group of
/// three bytes becomes four characters of six bits each, most significant
/// first; a last group of one or two bytes is padded with zero bits and
/// `=` up to four characters.
pub open spec fn base64_encoded(b: Seq<u8>) -> Seq<char>
    decreases b.len(),
{
    if b.len() == 0 {
        Seq::empty()
    } else if b.len() == 1 {
        seq![base64_char(b[0] as nat / 4), base64_char((b[0] as nat % 4) * 16), '=', '=']
    } else if b.len() == 2 {
        seq![
            base64_char(b[0] as nat / 4),
            base64_char((b[0] as nat % 4) * 16 + b[1] as nat / 16),
            base64_char((b[1] as nat % 16) * 4),
            '=',
        ]
    } else {
        seq![
            base64_char(b[0] as nat / 4),
            base64_char((b[0] as nat % 4) * 16 + b[1] as nat / 16),
            base64_char((b[1] as nat % 16) * 4 + b[2] as nat / 64),
            base64_char(b[2] as nat % 64),
        ] + base64_encoded(b.skip(3))
    }
}

/// `base64::decode` of the standard alphabet: the bytes that `s` writes,
/// `None` where the crate reports an error. The contract names what it
/// gives and states nothing more of it.
#[verifier::external_body]
fn base64_decode(s: &str) -> (r: Option<Vec<u8>>)
    ensures
        match r {
            Some(v) => base64_decoded(s@) == Some(v@),
            None => base64_decoded(s@) is None,
        },
{
    base64::decode(s).ok()
}

/// `base64::encode`: the standard base64 encoding of `b`, with padding
/// (the crate's `STANDARD` configuration), as stated by `base64_encoded`.
#[verifier::external_body]
fn base64_encode(b: &[u8]) -> (s: String)
    ensures
        s@ == base64_encoded(b@),
{
    base64::encode(b)
}

/// The text signed for a REST request: the timestamp, the method, `/`, the
/// path of the endpoint and the body.
pub open spec fn rest_prehash(timestamp: Seq<char>, method: Seq<char>, endpoint: Seq<char>, body: Seq<char>) -> Seq<char> {
    timestamp + method + "/"@ + endpoint + body
}

/// The text signed for a REST request (see `rest_prehash`).
pub fn prehash(timestamp: &str, method: &str, endpoint: &str, body: &str) -> (s: String)
    ensures
        s@ == rest_prehash(timestamp@, method@, endpoint@, body@),
{
    let mut s = String::new();
    s.append(timestamp);
    s.append(method);
    s.append("/");
    s.append(endpoint);
    s.append(body);
    s
}

/// The text signed when the stream opens, at `timestamp` seconds since the
/// epoch: the timestamp followed by `GET/users/self/verify`.
pub fn stream_prehash(timestamp: u64) -> (s: String)
    ensures
        s@ == dec_digits(timestamp as nat) + "GET/users/self/verify"@,
{
    let mut s = String::new();
    push_decimal(&mut s, timestamp as u128);
    s.append("GET/users/self/verify");
    s
}

/// The signature of `what` with `secret_key`, written in base64: the
/// HMAC-SHA256 of `what` with the decoded key, encoded in base64. `None` if
/// the key is not base64, is too long for openssl, or openssl cannot sign.
pub fn signature(secret_key: &str, what: &str) -> (r: Option<String>)
    ensures
        base64_decoded(secret_key@) is None ==> r is None,
        base64_decoded(secret_key@) matches Some(key) && key.len() > i32::MAX ==> r is None,
        r matches Some(s) ==> base64_decoded(secret_key@) matches Some(key)
            && s@ == base64_encoded(hmac_sha256(key, encode_utf8(what@))),
{
    let key = match base64_decode(secret_key) {
        Some(key) => key,
        None => return None,
    };
    if key.len() > i32::MAX as usize {
        return None;
    }
    let bytes = what.as_bytes();
    assert(bytes@ == encode_utf8(what@));
    match hmac_sha256_sign(key.as_slice(), bytes) {
        Some(signed) => Some(base64_encode(signed.as_slice())),
        None => None,
    }
}

} // verus!
