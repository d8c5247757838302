//! On electronic exchanges, prices and sizes do not take continuous real
//! values, but rather take their values on a discrete grid whose step is known
//! as a *tick*. In other words, the price tick is the smallest possible change
//! of the price of an asset, and the size tick is the smallest possible change
//! of the size of an order.
//!
//! Prices and sizes are represented in ticks and not with fractional values
//! like `100.27`: fractional values in a floating point type would be rounded,
//! and many algorithms have to round their floating outputs to the nearest
//! tick anyway.
//!
//! This module defines utilities for converting between fractional values
//! represented as strings (for exact precision) and values expressed in tick
//! units.

use std::borrow::Cow;
use vstd::prelude::*;
use vstd::utf8::{encode_utf8, is_ascii_chars, is_ascii_chars_encode_utf8};
use vstd::arithmetic::div_mod::{lemma_fundamental_div_mod, lemma_fundamental_div_mod_converse, lemma_mul_mod_noop_left};
use crate::decimal::{dec_digits, digit_char, digit_str, zero_padded, push_decimal, push_zero_padded};
use crate::powers::lemma_divides_pow10_63;

verus! {

/// Base type for tick units.
pub type TickUnit = u64;

/// `10` to the power `n`.
pub open spec fn pow10(n: nat) -> nat
    decreases n,
{
    if n == 0 {
        1
    } else {
        10 * pow10((n - 1) as nat)
    }
}

/// Whether byte `c` is an ASCII decimal digit.
pub open spec fn is_digit(c: u8) -> bool {
    48 <= c <= 57
}

/// The number written by the decimal digits `d`.
pub open spec fn digits_value(d: Seq<u8>) -> nat
    decreases d.len(),
{
    if d.len() == 0 {
        0
    } else {
        digits_value(d.drop_last()) * 10 + (d.last() - 48) as nat
    }
}

/// What parsing `b` as a `u128` gives: an optional `+` sign followed by at
/// least one decimal digit, for a value that fits in a `u128`.
pub open spec fn parse_u128(b: Seq<u8>) -> Option<nat> {
    let digits = parsed_digits(b);
    if digits.len() > 0 && (forall|i: int| 0 <= i < digits.len() ==> is_digit(#[trigger] digits[i]))
        && digits_value(digits) <= u128::MAX {
        Some(digits_value(digits))
    } else {
        None
    }
}

/// The parsed value of `b`, or `0` if `b` is not a `u128`.
pub open spec fn parse_or_zero(b: Seq<u8>) -> nat {
    match parse_u128(b) {
        Some(v) => v,
        None => 0,
    }
}

/// The position of the first `.` of `b`, or its length if there is none.
pub open spec fn dot_index(b: Seq<u8>) -> nat
    decreases b.len(),
{
    if b.len() == 0 || b[0] == 46 {
        0
    } else {
        1 + dot_index(b.drop_first())
    }
}

/// The integral part of a fractional value: the bytes before the first `.`.
pub open spec fn int_part(b: Seq<u8>) -> Seq<u8> {
    b.take(dot_index(b) as int)
}

/// The fractional part of a fractional value: the bytes between the first
/// `.` and the next one (or the end); empty if there is no `.`.
pub open spec fn fract_part(b: Seq<u8>) -> Seq<u8> {
    if dot_index(b) < b.len() {
        let rest = b.skip(dot_index(b) + 1int);
        rest.take(dot_index(rest) as int)
    } else {
        Seq::empty()
    }
}

/// `10` to the power of the length of the fractional part of `b`.
pub open spec fn ticked_denom(b: Seq<u8>) -> nat {
    pow10(fract_part(b).len())
}

/// The value written by `b` (an integral part which is zero when it is not
/// a number, and likewise a fractional part), scaled by `ticks_per_unit`
/// and by `ticked_denom(b)`.
pub open spec fn ticked_num(ticks_per_unit: nat, b: Seq<u8>) -> nat {
    (parse_or_zero(int_part(b)) * ticked_denom(b) + parse_or_zero(fract_part(b))) * ticks_per_unit
}

/// The number of ticks written by `b`, if it is a whole number of ticks.
pub open spec fn ticked_value(ticks_per_unit: nat, b: Seq<u8>) -> Option<nat> {
    if ticked_num(ticks_per_unit, b) % ticked_denom(b) == 0 {
        Some(ticked_num(ticks_per_unit, b) / ticked_denom(b))
    } else {
        None
    }
}

/// The conversion of `b` into ticks stays within the ranges of its integer
/// types: a fractional part of at most 38 digits, intermediate values that
/// fit in a `u128`, and a result that fits in a `TickUnit`.
pub open spec fn ticked_in_range(ticks_per_unit: nat, b: Seq<u8>) -> bool {
    &&& fract_part(b).len() <= 38
    &&& parse_or_zero(int_part(b)) * ticked_denom(b) + parse_or_zero(fract_part(b)) <= u128::MAX
    &&& ticked_num(ticks_per_unit, b) <= u128::MAX
    &&& ticked_value(ticks_per_unit, b) matches Some(v) ==> v <= u64::MAX
}

/// The number of ticks that the text `s` writes with `tick`, if it is a
/// whole number of ticks.
pub open spec fn ticks_of(tick: Tick, s: Seq<char>) -> Option<TickUnit> {
    match ticked_value(tick@, encode_utf8(s)) {
        Some(v) => Some(v as TickUnit),
        None => None,
    }
}

/// What converting the text `s` with `tick` gives: `None` if the conversion
/// leaves the ranges of the integer types (see `ticked_in_range`), else the
/// number of ticks, if `s` is a whole number of ticks.
pub open spec fn probe(tick: Tick, s: Seq<char>) -> Option<Option<TickUnit>> {
    if ticked_in_range(tick@, encode_utf8(s)) {
        Some(ticks_of(tick, s))
    } else {
        None
    }
}

/// `e` reports that the text `s` is not a whole number of ticks of `tick`.
pub open spec fn reports_unticked(e: ConversionError, tick: Tick, s: Seq<char>) -> bool {
    e.tick() == tick && (e.value() matches Tickable::Unticked(v) && v@ == s)
}

/// `pow10(n)` is positive and grows with `n`.
pub proof fn lemma_pow10_grows(n: nat)
    ensures
        pow10(n) >= 1,
        pow10(n + 1) == 10 * pow10(n),
        pow10(n + 1) > pow10(n),
    decreases n,
{
    if n > 0 {
        lemma_pow10_grows((n - 1) as nat);
    }
}

/// The smallest `k`, from `from` up to 64, such that `ticks_per_unit`
/// divides `10^k`, if there is one.
pub open spec fn pad_search(ticks_per_unit: nat, from: nat) -> Option<nat>
    decreases 65 - from,
{
    if from > 64 {
        None
    } else if pow10(from) % ticks_per_unit == 0 {
        Some(from)
    } else {
        pad_search(ticks_per_unit, from + 1)
    }
}

/// The number of decimals of a value in units: the smallest `k` such that
/// `ticks_per_unit` divides `10^k`, if there is one (see `lemma_pad_for`).
pub open spec fn pad_for(ticks_per_unit: nat) -> Option<nat> {
    pad_search(ticks_per_unit, 0)
}

/// The text of `ticked` ticks as a value in units: the whole units, a `.`,
/// then the remaining ticks as a fraction written with exactly
/// `pad_for(ticks_per_unit)` decimals (one `0` when that is zero), if
/// `ticks_per_unit` divides some power of ten.
pub open spec fn unticked_text(ticks_per_unit: nat, ticked: nat) -> Option<Seq<char>> {
    match pad_for(ticks_per_unit) {
        None => None,
        Some(pad) => Some(
            dec_digits(ticked / ticks_per_unit) + seq!['.']
                + zero_padded((ticked % ticks_per_unit) * (pow10(pad) / ticks_per_unit), pad),
        ),
    }
}

/// What the search for the number of decimals finds, from `from` on.
proof fn lemma_pad_search(t: nat, from: nat)
    requires
        t > 0,
    ensures
        match pad_search(t, from) {
            Some(p) => from <= p <= 64 && pow10(p) % t == 0
                && forall|k: nat| from <= k < p ==> #[trigger] pow10(k) % t != 0,
            None => forall|k: nat| from <= k <= 64 ==> #[trigger] pow10(k) % t != 0,
        },
    decreases 65 - from,
{
    if from <= 64 && pow10(from) % t != 0 {
        lemma_pad_search(t, from + 1);
        assert forall|k: nat| from <= k <= 64 && pad_search(t, from) is None implies #[trigger] pow10(k) % t != 0 by {
            if k > from {
                assert(from + 1 <= k);
            }
        }
    }
}

/// The number of decimals exists exactly when some power of ten is a
/// multiple of the number of ticks per unit, and it is the smallest such
/// exponent.
pub proof fn lemma_pad_for(ticks_per_unit: nat)
    requires
        0 < ticks_per_unit <= u64::MAX,
    ensures
        (pad_for(ticks_per_unit) is None) == (forall|k: nat| #[trigger] pow10(k) % ticks_per_unit != 0),
        pad_for(ticks_per_unit) matches Some(p) ==> {
            &&& p <= 64
            &&& pow10(p) % ticks_per_unit == 0
            &&& forall|k: nat| k < p ==> #[trigger] pow10(k) % ticks_per_unit != 0
        },
{
    let t = ticks_per_unit;
    lemma_pad_search(t, 0);
    if pad_for(t) is None {
        assert forall|k: nat| #[trigger] pow10(k) % t != 0 by {
            if pow10(k) % t == 0 {
                lemma_divides_pow10_63(t, k);
                assert(pow10(63) % t != 0);
            }
        }
    }
}

/// `pow10` grows with its exponent.
proof fn lemma_pow10_mono(a: nat, b: nat)
    requires
        a <= b,
    ensures
        pow10(a) <= pow10(b),
    decreases b - a,
{
    if a < b {
        lemma_pow10_grows((b - 1) as nat);
        lemma_pow10_mono(a, (b - 1) as nat);
    }
}

/// The largest power of ten that fits in a `u128`.
proof fn lemma_pow10_38()
    ensures
        pow10(38) == 100000000000000000000000000000000000000nat,
{
    reveal_with_fuel(pow10, 39);
}

/// The position of the first `.` is the first position that holds one.
proof fn lemma_dot_index(b: Seq<u8>, i: int)
    requires
        0 <= i <= b.len(),
        forall|k: int| 0 <= k < i ==> b[k] != 46,
        i == b.len() || b[i] == 46,
    ensures
        dot_index(b) == i,
    decreases i,
{
    if i > 0 {
        lemma_dot_index(b.drop_first(), i - 1);
    }
}

/// Reading one more digit.
proof fn lemma_digits_value_step(d: Seq<u8>, n: int)
    requires
        0 <= n < d.len(),
    ensures
        digits_value(d.take(n + 1)) == digits_value(d.take(n)) * 10 + (d[n] - 48) as nat,
{
    assert(d.take(n + 1).drop_last() =~= d.take(n));
}

/// A prefix of digits writes a number no larger than the whole.
proof fn lemma_digits_value_prefix(d: Seq<u8>, n: int)
    requires
        0 <= n <= d.len(),
        forall|i: int| 0 <= i < d.len() ==> is_digit(#[trigger] d[i]),
    ensures
        digits_value(d.take(n)) <= digits_value(d),
    decreases d.len() - n,
{
    if n < d.len() {
        lemma_digits_value_step(d, n);
        assert(is_digit(d[n]));
        lemma_digits_value_prefix(d, n + 1);
    } else {
        assert(d.take(n) =~= d);
    }
}


/// The digits that `parse_u128` reads.
pub open spec fn parsed_digits(b: Seq<u8>) -> Seq<u8> {
    if b.len() > 0 && b[0] == 43 { b.drop_first() } else { b }
}

/// Digits that are not all decimal, or too large, do not parse.
proof fn lemma_parse_none(s: Seq<u8>, j: int)
    requires
        0 <= j < parsed_digits(s).len(),
        !is_digit(parsed_digits(s)[j]) || digits_value(parsed_digits(s)) > u128::MAX,
    ensures
        parse_u128(s) is None,
{
    let digits = parsed_digits(s);
    if !is_digit(digits[j]) {
        assert(!(forall|i: int| 0 <= i < digits.len() ==> is_digit(#[trigger] digits[i])));
    }
}

/// The position, from `start`, of the first `.` of `b[start..end]`, or
/// `end` if there is none.
fn find_dot(b: &[u8], start: usize, end: usize) -> (i: usize)
    requires
        start <= end <= b@.len(),
    ensures
        start <= i <= end,
        i - start == dot_index(b@.subrange(start as int, end as int)),
{
    let ghost s = b@.subrange(start as int, end as int);
    let mut i = start;
    while i < end && b[i] != 46
        invariant
            start <= i <= end <= b@.len(),
            s == b@.subrange(start as int, end as int),
            forall|k: int| 0 <= k < i - start ==> s[k] != 46,
        decreases end - i,
    {
        i = i + 1;
    }
    proof {
        lemma_dot_index(s, i - start);
    }
    i
}

/// Parse `b[start..end]` as a `u128`.
pub(crate) fn parse_u128_exec(b: &[u8], start: usize, end: usize) -> (r: Option<u128>)
    requires
        start <= end <= b@.len(),
    ensures
        match parse_u128(b@.subrange(start as int, end as int)) {
            Some(v) => r == Some(v as u128),
            None => r is None,
        },
{
    let ghost s = b@.subrange(start as int, end as int);
    if start == end {
        return None;
    }
    let mut k = start;
    if b[k] == 43 {
        k = k + 1;
    }
    let ghost d = s.subrange(k - start, s.len() as int);
    assert(d =~= parsed_digits(s));
    if k == end {
        return None;
    }
    let mut acc: u128 = 0;
    let mut i = k;
    assert(d.take(0) =~= Seq::<u8>::empty());
    while i < end
        invariant
            start <= k <= i <= end <= b@.len(),
            k < end,
            s == b@.subrange(start as int, end as int),
            d == s.subrange(k - start, s.len() as int),
            d == parsed_digits(s),
            d.len() == end - k,
            acc == digits_value(d.take(i - k)),
            forall|j: int| 0 <= j < i - k ==> is_digit(#[trigger] d[j]),
        decreases end - i,
    {
        let c = b[i];
        assert(c == d[i - k]);
        if c < 48 || c > 57 {
            proof {
                lemma_parse_none(s, i - k);
            }
            return None;
        }
        proof {
            lemma_digits_value_step(d, i - k);
        }
        let m = acc.checked_mul(10);
        if m.is_none() {
            proof {
                assert(digits_value(d.take(i - k + 1)) > u128::MAX);
                if forall|j: int| 0 <= j < d.len() ==> is_digit(#[trigger] d[j]) {
                    lemma_digits_value_prefix(d, i - k + 1);
                    lemma_parse_none(s, 0);
                } else {
                    let j = choose|j: int| 0 <= j < d.len() && !is_digit(#[trigger] d[j]);
                    lemma_parse_none(s, j);
                }
            }
            return None;
        }
        let v = m.unwrap().checked_add((c - 48) as u128);
        if v.is_none() {
            proof {
                assert(digits_value(d.take(i - k + 1)) > u128::MAX);
                if forall|j: int| 0 <= j < d.len() ==> is_digit(#[trigger] d[j]) {
                    lemma_digits_value_prefix(d, i - k + 1);
                    lemma_parse_none(s, 0);
                } else {
                    let j = choose|j: int| 0 <= j < d.len() && !is_digit(#[trigger] d[j]);
                    lemma_parse_none(s, j);
                }
            }
            return None;
        }
        acc = v.unwrap();
        i = i + 1;
    }
    assert(d.take(i - k) =~= d);
    Some(acc)
}

/// The bounds of the integral and fractional parts of `b`: the integral part
/// is `b[..dot]`, the fractional part `b[fract_start..fract_end]`.
fn split_parts(bytes: &[u8]) -> (r: (usize, usize, usize))
    ensures
        r.0 <= r.1 <= r.2 <= bytes@.len(),
        int_part(bytes@) == bytes@.subrange(0, r.0 as int),
        fract_part(bytes@) == bytes@.subrange(r.1 as int, r.2 as int),
{
    let ghost b = bytes@;
    let len = bytes.len();
    let dot = find_dot(bytes, 0, len);
    assert(b.subrange(0, len as int) =~= b);
    let (fract_start, fract_end) = if dot < len {
        (dot + 1, find_dot(bytes, dot + 1, len))
    } else {
        (len, len)
    };
    proof {
        assert(b.take(dot as int) =~= b.subrange(0, dot as int));
        if dot < len {
            assert(b.skip(dot + 1int) =~= b.subrange(dot + 1, len as int));
            let rest = b.skip(dot + 1int);
            assert(rest.take(dot_index(rest) as int) =~= b.subrange(fract_start as int, fract_end as int));
        } else {
            assert(b.subrange(fract_start as int, fract_end as int) =~= Seq::<u8>::empty());
        }
    }
    (dot, fract_start, fract_end)
}

/// `10` to the power `n`, for `n <= 38`.
fn pow10_exec(n: usize) -> (r: u128)
    requires
        n <= 38,
    ensures
        r == pow10(n as nat),
{
    let mut r: u128 = 1;
    let mut i: usize = 0;
    proof {
        lemma_pow10_38();
    }
    while i < n
        invariant
            i <= n <= 38,
            r == pow10(i as nat),
            pow10(38) == 100000000000000000000000000000000000000nat,
        decreases n - i,
    {
        proof {
            lemma_pow10_grows(i as nat);
            lemma_pow10_mono((i + 1) as nat, 38);
        }
        r = r * 10;
        i = i + 1;
    }
    r
}

/// An object carrying the number of ticks per unit of something and
/// representative of its tick size.
///
/// Example: BTC is quoted on exchanges up to a precision of 1e-8, i.e. the
/// tick size is 1e-8, so the number of ticks per unit would be 1e8.
///
/// Used for both prices and sizes.
#[derive(Copy, Clone, PartialEq, Eq, Hash, Debug, Structural)]
pub struct Tick(TickUnit);

impl View for Tick {
    type V = nat;

    /// The number of ticks per unit.
    closed spec fn view(&self) -> nat {
        self.0 as nat
    }
}

/// A value either in ticks or as a fractional value in units.
#[derive(Clone, PartialEq, Eq, Hash, Debug)]
pub enum Tickable {
    /// A value in ticks.
    Ticked(TickUnit),
    /// A fractional value in units, e.g. `"0.001"`.
    Unticked(String),
}

/// An error which indicates that the conversion between an unticked value
/// and a value in ticks has failed.
#[derive(Clone, PartialEq, Eq, Hash, Debug)]
pub struct ConversionError {
    tick: Tick,
    value: Tickable,
}

impl ConversionError {
    /// The tick with which the conversion failed.
    pub closed spec fn tick(self) -> Tick {
        self.tick
    }

    /// The value whose conversion failed.
    pub closed spec fn value(self) -> Tickable {
        self.value
    }

    /// The failed conversion of `value` ticks.
    fn ticked(value: TickUnit, tick: Tick) -> (e: Self)
        ensures
            e.tick() == tick,
            e.value() == Tickable::Ticked(value),
    {
        ConversionError { tick, value: Tickable::Ticked(value) }
    }

    /// The failed conversion of the fractional value `value`.
    fn unticked(value: String, tick: Tick) -> (e: Self)
        ensures
            e.tick() == tick,
            e.value() == Tickable::Unticked(value),
    {
        ConversionError { tick, value: Tickable::Unticked(value) }
    }
}

impl Tick {
    /// The number of ticks per unit is never zero.
    #[verifier::type_invariant]
    spec fn nonzero(self) -> bool {
        self.0 > 0
    }

    /// Return a new `Tick` with given `ticks_per_unit`, which must not be `0`.
    pub fn new(ticks_per_unit: TickUnit) -> (tick: Self)
        requires
            ticks_per_unit != 0,
        ensures
            tick@ == ticks_per_unit,
    {
        Tick(ticks_per_unit)
    }

    /// Return the number of ticks per unit carried by `self`.
    pub fn ticks_per_unit(self) -> (r: TickUnit)
        ensures
            r == self@,
            r > 0,
    {
        proof {
            use_type_invariant(&self);
        }
        self.0
    }

    /// Convert an unticked value, e.g. `"0.001"`, into a value expressed in
    /// ticks, e.g. if `self.ticks_per_unit() == 1000` then this returns
    /// `Ok(1)`.
    ///
    /// The integral part is what precedes the first `.`, the fractional
    /// part what follows it up to the next `.`; a part that is not a number
    /// counts as zero.
    ///
    /// # Errors
    /// Return `Err` if the value is not a whole number of ticks.
    pub fn ticked(self, unticked: &str) -> (r: Result<TickUnit, ConversionError>)
        requires
            ticked_in_range(self@, encode_utf8(unticked@)),
        ensures
            match ticked_value(self@, encode_utf8(unticked@)) {
                Some(v) => r == Ok::<TickUnit, ConversionError>(v as u64),
                None => r matches Err(e) && (e.tick() == self && (e.value() matches Tickable::Unticked(s) && s@ == unticked@)),
            },
    {
        proof {
            use_type_invariant(&self);
        }
        let bytes = unticked.as_bytes();
        assert(bytes@ == encode_utf8(unticked@));
        let (dot, fract_start, fract_end) = split_parts(bytes);
        let denom = pow10_exec(fract_end - fract_start);
        proof {
            lemma_pow10_grows((fract_end - fract_start) as nat);
        }
        let whole = match parse_u128_exec(bytes, 0, dot) {
            Some(v) => v,
            None => 0,
        };
        let fract = match parse_u128_exec(bytes, fract_start, fract_end) {
            Some(v) => v,
            None => 0,
        };
        assert(whole * denom <= whole * denom + fract);
        let num = (whole * denom + fract) * (self.0 as u128);
        if num % denom != 0 {
            return Err(ConversionError::unticked(unticked.to_owned(), self));
        }
        Ok((num / denom) as u64)
    }

    /// Whether converting `unticked` with `self` stays within the ranges of
    /// the integer types (see `ticked_in_range`), so that `ticked` accepts it.
    pub fn ticked_fits(self, unticked: &str) -> (b: bool)
        ensures
            b == ticked_in_range(self@, encode_utf8(unticked@)),
    {
        proof {
            use_type_invariant(&self);
        }
        let bytes = unticked.as_bytes();
        assert(bytes@ == encode_utf8(unticked@));
        let (dot, fract_start, fract_end) = split_parts(bytes);
        if fract_end - fract_start > 38 {
            return false;
        }
        let denom = pow10_exec(fract_end - fract_start);
        proof {
            lemma_pow10_grows((fract_end - fract_start) as nat);
        }
        let whole = match parse_u128_exec(bytes, 0, dot) {
            Some(v) => v,
            None => 0,
        };
        let fract = match parse_u128_exec(bytes, fract_start, fract_end) {
            Some(v) => v,
            None => 0,
        };
        let scaled = match whole.checked_mul(denom) {
            Some(v) => v,
            None => return false,
        };
        let sum = match scaled.checked_add(fract) {
            Some(v) => v,
            None => return false,
        };
        let num = match sum.checked_mul(self.0 as u128) {
            Some(v) => v,
            None => return false,
        };
        if num % denom == 0 {
            num / denom <= u64::MAX as u128
        } else {
            true
        }
    }

    /// Convert `unticked` if the conversion stays in range: `None` if it
    /// does not, else what `ticked` gives, as an `Option`.
    pub fn probe(self, unticked: &str) -> (r: Option<Option<TickUnit>>)
        ensures
            r == probe(self, unticked@),
    {
        if !self.ticked_fits(unticked) {
            return None;
        }
        match self.ticked(unticked) {
            Ok(v) => Some(Some(v)),
            Err(_) => Some(None),
        }
    }

    /// The number of decimals of a value in units (see `pad_for`), if any:
    /// the first power of ten, up to `10^64`, whose remainder by the number
    /// of ticks per unit is zero.
    fn pad(self) -> (r: Option<usize>)
        ensures
            match r {
                Some(p) => pad_for(self@) == Some(p as nat),
                None => pad_for(self@) is None,
            },
    {
        proof {
            use_type_invariant(&self);
        }
        let q = self.0 as u128;
        let mut k: usize = 0;
        // `10^k % q`, which stays below `q`.
        let mut rem: u128 = 1 % q;
        while k <= 64
            invariant
                q == self@,
                0 < q <= u64::MAX,
                k <= 65,
                rem == pow10(k as nat) % (q as nat),
                pad_search(self@, k as nat) == pad_for(self@),
            decreases 65 - k,
        {
            if rem == 0 {
                return Some(k);
            }
            proof {
                lemma_mul_mod_noop_left(pow10(k as nat) as int, 10, q as int);
                assert(pow10((k + 1) as nat) == pow10(k as nat) * 10);
            }
            rem = (rem * 10) % q;
            k = k + 1;
        }
        None
    }

    /// Convert a value expressed in ticks back to an unticked value: the
    /// whole units, a `.`, then the remaining ticks as a fraction with as
    /// many decimals as the smallest power of ten that the number of ticks
    /// per unit divides (one `0` for one tick per unit).
    ///
    /// # Errors
    /// Return `Err` if the number of ticks per unit divides no power of 10.
    pub fn unticked(self, ticked: TickUnit) -> (r: Result<String, ConversionError>)
        ensures
            match unticked_text(self@, ticked as nat) {
                Some(text) => r matches Ok(s) && s@ == text,
                None => r matches Err(e) && (e.tick() == self && e.value() == Tickable::Ticked(ticked)),
            },
            r is Err <==> forall|k: nat| #[trigger] pow10(k) % self@ != 0,
    {
        proof {
            use_type_invariant(&self);
            lemma_pad_for(self@);
        }
        let q = self.0 as u128;
        let pad = match self.pad() {
            Some(pad) => pad,
            None => return Err(ConversionError::ticked(ticked, self)),
        };
        let n = ticked as u128;
        let ghost f: nat = ((n % q) as nat) * (pow10(pad as nat) / (q as nat));
        let mut text = String::new();
        push_decimal(&mut text, n / q);
        proof {
            reveal_strlit(".");
        }
        text.append(".");
        let ghost head = text@;
        assert(head =~= dec_digits((n / q) as nat) + seq!['.']);
        if pad == 0 {
            proof {
                assert(q == 1) by {
                    if q > 1 {
                        lemma_fundamental_div_mod_converse(1, q as int, 0, 1);
                    }
                }
                assert(n % q == 0);
                assert(f == 0) by {
                    assert(0 * (pow10(0) / 1) == 0) by (nonlinear_arith);
                }
            }
            push_zero_padded(&mut text, 0, 0);
            assert(text@ =~= head + zero_padded(f, pad as nat));
        } else {
            push_fraction(&mut text, n % q, q, pad);
            assert(text@ =~= head + zero_padded(f, pad as nat));
        }
        Ok(text)
    }
}

/// Zero-padded texts grow by one digit on the right.
proof fn lemma_zero_padded_push(v: nat, i: nat, d: nat)
    requires
        i >= 1,
        v < pow10(i),
        d < 10,
    ensures
        zero_padded(v, i).push(digit_char(d)) == zero_padded(10 * v + d, i + 1),
{
    let dv = dec_digits(v);
    lemma_dec_digits_shape(v, i);
    if v == 0 {
        assert(dec_digits(d) == seq![digit_char(d)]);
        assert(dv == seq![digit_char(0)]);
        assert(zero_padded(v, i) =~= Seq::new(i, |j: int| '0'));
        assert(zero_padded(d, i + 1) =~= Seq::new(i, |j: int| '0') + seq![digit_char(d)]);
        assert(zero_padded(v, i).push(digit_char(d)) =~= zero_padded(10 * v + d, i + 1));
    } else {
        let m = 10 * v + d;
        assert(m >= 10);
        assert(m / 10 == v && m % 10 == d) by {
            lemma_fundamental_div_mod_converse(m as int, 10, v as int, d as int);
        }
        assert(dec_digits(m) == dv.push(digit_char(d)));
        if dv.len() < i {
            let z = Seq::new((i - dv.len()) as nat, |j: int| '0');
            assert(zero_padded(v, i) == z + dv);
            assert(zero_padded(m, i + 1) == z + dv.push(digit_char(d)));
            assert((z + dv).push(digit_char(d)) =~= z + dv.push(digit_char(d)));
        }
    }
}

/// Append the fraction `r0 / q`, where `q` divides `10^pad`, written with
/// `pad` decimals, digit by digit as in a long division.
fn push_fraction(out: &mut String, r0: u128, q: u128, pad: usize)
    requires
        0 < q <= u64::MAX,
        r0 < q,
        1 <= pad <= 64,
        pow10(pad as nat) % (q as nat) == 0,
    ensures
        final(out)@ == old(out)@ + zero_padded((r0 as nat) * (pow10(pad as nat) / (q as nat)), pad as nat),
{
    let ghost start = out@;
    let ghost mut acc: nat = 0;
    let mut rem = r0;
    let mut i: usize = 0;
    assert(pow10(0) == 1);
    assert(0 * (q as nat) + r0 == r0 * 1) by (nonlinear_arith);
    while i < pad
        invariant
            0 < q <= u64::MAX,
            rem < q,
            i <= pad <= 64,
            acc * q + rem == r0 * pow10(i as nat),
            acc < pow10(i as nat),
            i == 0 ==> out@ == start && acc == 0,
            i >= 1 ==> out@ == start + zero_padded(acc, i as nat),
        decreases pad - i,
    {
        let x = rem * 10;
        let d = x / q;
        let ghost old_rem = rem;
        let ghost old_acc = acc;
        rem = x % q;
        proof {
            lemma_fundamental_div_mod(x as int, q as int);
            assert(d < 10) by (nonlinear_arith)
                requires x == q * d + rem, x == old_rem * 10, old_rem < q, rem >= 0;
            lemma_pow10_grows(i as nat);
            assert((10 * old_acc + d) * q + rem == r0 * pow10((i + 1) as nat)) by (nonlinear_arith)
                requires
                    old_acc * q + old_rem == r0 * pow10(i as nat),
                    x == q * d + rem,
                    x == old_rem * 10,
                    pow10((i + 1) as nat) == 10 * pow10(i as nat);
            assert(10 * old_acc + d < pow10((i + 1) as nat)) by (nonlinear_arith)
                requires old_acc < pow10(i as nat), d < 10, pow10((i + 1) as nat) == 10 * pow10(i as nat);
            acc = (10 * old_acc + d) as nat;
            if i >= 1 {
                lemma_zero_padded_push(old_acc, i as nat, d as nat);
            } else {
                assert(dec_digits(d as nat) == seq![digit_char(d as nat)]);
                assert(zero_padded(acc, 1) == seq![digit_char(d as nat)]);
            }
        }
        out.append(digit_str(d as u8));
        i = i + 1;
        proof {
            if i == 1 {
                assert(out@ =~= start + zero_padded(acc, i as nat));
            } else {
                assert(out@ =~= start + zero_padded(acc, i as nat));
            }
        }
    }
    proof {
        let pow = pow10(pad as nat);
        let k = pow / (q as nat);
        lemma_fundamental_div_mod(pow as int, q as int);
        assert(r0 * pow == (r0 * k) * q) by (nonlinear_arith)
            requires pow == q * k + 0;
        lemma_fundamental_div_mod_converse((r0 * pow) as int, q as int, acc as int, rem as int);
        lemma_fundamental_div_mod_converse((r0 * pow) as int, q as int, (r0 * k) as int, 0);
    }
}

impl Tickable {
    /// This value in ticks, converting it with `tick` if it is unticked.
    pub fn ticked(&self, tick: Tick) -> (r: TickUnit)
        requires
            self matches Tickable::Unticked(s) ==> ticked_in_range(tick@, encode_utf8(s@))
                && ticked_value(tick@, encode_utf8(s@)) is Some,
        ensures
            match self {
                Tickable::Ticked(v) => r == *v,
                Tickable::Unticked(s) => r == ticked_value(tick@, encode_utf8(s@))->0,
            },
    {
        match self {
            Tickable::Ticked(value) => *value,
            Tickable::Unticked(value) => {
                let r = tick.ticked(value.as_str());
                match r {
                    Ok(v) => v,
                    Err(_) => 0,
                }
            },
        }
    }

    /// This value unticked, converting it with `tick` if it is in ticks.
    pub fn unticked(&self, tick: Tick) -> (r: Cow<'_, str>)
        requires
            self matches Tickable::Ticked(v) ==> unticked_text(tick@, v as nat) is Some,
        ensures
            match self {
                Tickable::Ticked(v) => r@ == unticked_text(tick@, *v as nat)->0,
                Tickable::Unticked(s) => r@ == s@,
            },
    {
        match self {
            Tickable::Ticked(value) => {
                let r = tick.unticked(*value);
                match r {
                    Ok(s) => Cow::Owned(s),
                    Err(_) => Cow::Owned(String::new()),
                }
            },
            Tickable::Unticked(value) => Cow::Borrowed(value.as_str()),
        }
    }
}

/// The bytes of the ASCII characters `s`.
spec fn ascii_bytes(s: Seq<char>) -> Seq<u8> {
    Seq::new(s.len(), |i: int| s[i] as u8)
}

/// The characters `s` are decimal digits.
spec fn all_digit_chars(s: Seq<char>) -> bool {
    forall|i: int| 0 <= i < s.len() ==> '0' <= #[trigger] s[i] <= '9'
}

/// Decimal digits are ASCII, and are encoded as their bytes.
proof fn lemma_encode_digits(s: Seq<char>)
    requires
        all_digit_chars(s),
    ensures
        encode_utf8(s) == ascii_bytes(s),
        forall|i: int| 0 <= i < s.len() ==> is_digit(#[trigger] encode_utf8(s)[i]),
{
    assert(is_ascii_chars(s));
    is_ascii_chars_encode_utf8(s);
    assert(encode_utf8(s) =~= ascii_bytes(s));
}

/// The decimal representation of `n` is made of at least one digit, and at
/// most `k` of them when `n < 10^k` for `k >= 1`.
proof fn lemma_dec_digits_shape(n: nat, k: nat)
    ensures
        dec_digits(n).len() >= 1,
        all_digit_chars(dec_digits(n)),
        k >= 1 && n < pow10(k) ==> dec_digits(n).len() <= k,
    decreases n,
{
    if n >= 10 {
        if k >= 1 && n < pow10(k) {
            assert(k >= 2) by {
                if k == 1 {
                    reveal_with_fuel(pow10, 2);
                }
            }
            assert(pow10(k) == 10 * pow10((k - 1) as nat));
            lemma_dec_digits_shape(n / 10, (k - 1) as nat);
        } else {
            lemma_dec_digits_shape(n / 10, 0);
        }
        let d = dec_digits(n / 10);
        assert(dec_digits(n) == d.push(digit_char(n % 10)));
        assert forall|i: int| 0 <= i < dec_digits(n).len() implies '0' <= #[trigger] dec_digits(n)[i] <= '9' by {
            if i < d.len() {
                assert(dec_digits(n)[i] == d[i]);
            }
        }
    }
}

/// The bytes of the decimal representation of `n` are read back as `n`.
proof fn lemma_dec_digits_value(n: nat)
    ensures
        digits_value(ascii_bytes(dec_digits(n))) == n,
    decreases n,
{
    let b = ascii_bytes(dec_digits(n));
    lemma_dec_digits_shape(n, 0);
    let last = n % 10;
    let c = digit_char(last);
    assert(c as u8 == last + 48);
    assert(b.len() >= 1);
    assert(b.last() == c as u8);
    assert(digits_value(b) == digits_value(b.drop_last()) * 10 + (b.last() - 48) as nat);
    if n < 10 {
        assert(b.drop_last() =~= Seq::<u8>::empty());
        assert(dec_digits(n) == seq![c]);
    } else {
        lemma_dec_digits_value(n / 10);
        assert(dec_digits(n) == dec_digits(n / 10).push(c));
        assert(b.drop_last() =~= ascii_bytes(dec_digits(n / 10)));
    }
}

/// Leading zeros do not change the value of digits.
proof fn lemma_leading_zeros(m: nat, d: Seq<u8>)
    ensures
        digits_value(Seq::new(m, |i: int| 48u8) + d) == digits_value(d),
    decreases d.len() + m,
{
    let z = Seq::new(m, |i: int| 48u8);
    if d.len() == 0 {
        assert(z + d =~= z);
        if m > 0 {
            assert(z.drop_last() =~= Seq::new((m - 1) as nat, |i: int| 48u8));
            lemma_leading_zeros((m - 1) as nat, d);
            assert(Seq::new((m - 1) as nat, |i: int| 48u8) + d =~= Seq::new((m - 1) as nat, |i: int| 48u8));
        }
    } else {
        assert((z + d).drop_last() =~= z + d.drop_last());
        lemma_leading_zeros(m, d.drop_last());
    }
}

/// Digits that fit in a `u128` parse as their value.
proof fn lemma_parse_digits(d: Seq<u8>)
    requires
        d.len() > 0,
        forall|i: int| 0 <= i < d.len() ==> is_digit(#[trigger] d[i]),
        digits_value(d) <= u128::MAX,
    ensures
        parse_u128(d) == Some(digits_value(d)),
{
    assert(parsed_digits(d) == d);
}

/// A zero-padded representation of `f < 10^pad` has `pad` digits (one for
/// `pad == 0`, where `f == 0`), which read back as `f`.
proof fn lemma_zero_padded(f: nat, pad: nat)
    requires
        pad >= 1 ==> f < pow10(pad),
        pad == 0 ==> f == 0,
    ensures
        all_digit_chars(zero_padded(f, pad)),
        zero_padded(f, pad).len() == if pad == 0 { 1 } else { pad },
        digits_value(ascii_bytes(zero_padded(f, pad))) == f,
{
    let d = dec_digits(f);
    lemma_dec_digits_shape(f, pad);
    lemma_dec_digits_value(f);
    if pad == 0 {
        assert(d == seq![digit_char(0)]);
    }
    if d.len() < pad {
        let m = (pad - d.len()) as nat;
        let z = Seq::new(m, |i: int| '0');
        assert(zero_padded(f, pad) == z + d);
        assert forall|i: int| 0 <= i < (z + d).len() implies '0' <= #[trigger] (z + d)[i] <= '9' by {
            if i >= m {
                assert((z + d)[i] == d[i - m]);
            }
        }
        assert(ascii_bytes(z + d) =~= Seq::new(m, |i: int| 48u8) + ascii_bytes(d));
        lemma_leading_zeros(m, ascii_bytes(d));
    }
}

/// The text of a value in units, as bytes, splits into its integral part,
/// the `.` and its fractional part.
proof fn lemma_text_parts(a: Seq<char>, c: Seq<char>)
    requires
        all_digit_chars(a),
        all_digit_chars(c),
    ensures
        int_part(encode_utf8(a + seq!['.'] + c)) == ascii_bytes(a),
        fract_part(encode_utf8(a + seq!['.'] + c)) == ascii_bytes(c),
{
    let s = a + seq!['.'] + c;
    assert(is_ascii_chars(s)) by {
        assert forall|i: int| 0 <= i < s.len() implies '\0' <= #[trigger] s[i] <= '\u{7f}' by {
            if i < a.len() {
                assert(s[i] == a[i]);
            } else if i > a.len() {
                assert(s[i] == c[i - a.len() - 1]);
            }
        }
    }
    is_ascii_chars_encode_utf8(s);
    let b = encode_utf8(s);
    assert(b =~= ascii_bytes(a) + seq![46u8] + ascii_bytes(c)) by {
        assert forall|i: int| 0 <= i < b.len() implies b[i] == (ascii_bytes(a) + seq![46u8] + ascii_bytes(c))[i] by {
            assert(b[i] == s[i] as u8);
            if i < a.len() {
                assert(s[i] == a[i]);
            } else if i > a.len() {
                assert(s[i] == c[i - a.len() - 1]);
            }
        }
    }
    let n = a.len() as int;
    assert forall|k: int| 0 <= k < n implies b[k] != 46 by {
        assert(b[k] == a[k] as u8);
    }
    lemma_dot_index(b, n);
    assert(b.take(n) =~= ascii_bytes(a));
    let rest = b.skip(n + 1);
    assert(rest =~= ascii_bytes(c));
    assert forall|k: int| 0 <= k < rest.len() implies rest[k] != 46 by {
        assert(rest[k] == c[k] as u8);
    }
    lemma_dot_index(rest, rest.len() as int);
    assert(rest.take(rest.len() as int) =~= rest);
}

/// Converting ticks into a value in units, then that value back into
/// ticks, gives the ticks back, wherever `10^pad` times the ticks, for the
/// number of decimals `pad`, fits in a `u128` (so that the conversion back
/// stays in the ranges of its integer types).
pub proof fn lemma_unticked_then_ticked(ticks_per_unit: nat, v: nat)
    requires
        0 < ticks_per_unit <= u64::MAX,
        v <= u64::MAX,
        pad_for(ticks_per_unit) matches Some(pad) && pow10(pad) <= u128::MAX && pow10(pad) * v <= u128::MAX,
    ensures
        unticked_text(ticks_per_unit, v) is Some,
        ticked_in_range(ticks_per_unit, encode_utf8(unticked_text(ticks_per_unit, v)->0)),
        ticked_value(ticks_per_unit, encode_utf8(unticked_text(ticks_per_unit, v)->0)) == Some(v),
{
    let t = ticks_per_unit;
    lemma_pad_for(t);
    let pad = pad_for(t)->0;
    let pow = pow10(pad);
    lemma_pow10_grows(pad);
    let k = pow / t;
    let w = v / t;
    let r = v % t;
    let f = r * k;
    assert(pow == k * t) by {
        assert(pow == (pow / t) * t + pow % t) by (nonlinear_arith)
            requires t > 0;
    }
    assert(v == w * t + r && r < t) by {
        assert(v == (v / t) * t + v % t) by (nonlinear_arith)
            requires t > 0;
    }
    assert(k >= 1) by {
        if k == 0 {
            assert(pow == 0 * t);
        }
    }
    assert(f < pow) by (nonlinear_arith)
        requires f == r * k, r < t, pow == k * t, k >= 1;
    let a = dec_digits(w);
    let c = zero_padded(f, pad);
    lemma_dec_digits_shape(w, 0);
    lemma_dec_digits_value(w);
    if pad == 0 {
        assert(pow == 1);
        assert(t == 1) by {
            if t > 1 {
                lemma_fundamental_div_mod_converse(1, t as int, 0, 1);
            }
        }
        assert(f == 0);
    }
    lemma_zero_padded(f, pad);
    lemma_text_parts(a, c);
    let b = encode_utf8(a + seq!['.'] + c);
    assert(unticked_text(t, v)->0 == a + seq!['.'] + c);
    lemma_encode_digits(a);
    lemma_encode_digits(c);
    assert(w <= u64::MAX);
    lemma_parse_digits(ascii_bytes(a));
    // The fractional part has at most 38 digits, so its value fits.
    assert(pad <= 38) by {
        if pad > 38 {
            lemma_pow10_mono(39, pad);
            reveal_with_fuel(pow10, 40);
        }
    }
    assert(fract_part(b).len() <= 38);
    if pad >= 1 {
        lemma_pow10_mono(pad, 38);
    }
    lemma_pow10_38();
    lemma_parse_digits(ascii_bytes(c));
    assert(parse_or_zero(int_part(b)) == w);
    assert(parse_or_zero(fract_part(b)) == f);
    if pad == 0 {
        assert(ticked_denom(b) == 10);
        assert(w == v);
        assert(ticked_num(t, b) == (w * 10 + f) * t);
        assert(ticked_num(t, b) == 10 * v) by (nonlinear_arith)
            requires
                ticked_num(t, b) == (w * 10 + f) * t,
                t == 1,
                f == 0,
                w == v,
        ;
        assert((10 * v) % 10 == 0 && (10 * v) / 10 == v) by (nonlinear_arith);
        assert(parse_or_zero(int_part(b)) * ticked_denom(b) + parse_or_zero(fract_part(b)) == 10 * v);
    } else {
        assert(ticked_denom(b) == pow);
        assert(ticked_num(t, b) == pow * v) by (nonlinear_arith)
            requires
                ticked_num(t, b) == (w * pow + f) * t,
                f == r * k,
                pow == k * t,
                v == w * t + r,
        ;
        assert((pow * v) % pow == 0 && (pow * v) / pow == v) by {
            assert(pow * v == v * pow) by (nonlinear_arith);
            assert(pow >= 1);
            lemma_fundamental_div_mod_converse((pow * v) as int, pow as int, v as int, 0);
        }
        assert(w * pow + f <= pow * v) by (nonlinear_arith)
            requires
                f == r * k,
                pow == k * t,
                v == w * t + r,
                t >= 1,
                k >= 1,
        {
            assert(w * pow + f == k * v);
            assert(k * v <= k * t * v);
        }
    }
}

} // verus!
