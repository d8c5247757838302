//! Decimal representations of unsigned integers.

use vstd::prelude::*;

verus! {

/// The character of decimal digit `d`.
pub open spec fn digit_char(d: nat) -> char {
    (d + 48) as char
}

/// The decimal representation of `n`, without leading zeros (`"0"` for 0).
pub open spec fn dec_digits(n: nat) -> Seq<char>
    decreases n,
{
    if n < 10 {
        seq![digit_char(n)]
    } else {
        dec_digits(n / 10).push(digit_char(n % 10))
    }
}

/// The decimal representation of `n`, padded with leading zeros up to
/// `width` characters.
pub open spec fn zero_padded(n: nat, width: nat) -> Seq<char> {
    let d = dec_digits(n);
    if d.len() >= width {
        d
    } else {
        Seq::new((width - d.len()) as nat, |i: int| '0') + d
    }
}

/// A one-character string holding decimal digit `d`.
pub(crate) fn digit_str(d: u8) -> (s: &'static str)
    requires
        d < 10,
    ensures
        s@ == seq![digit_char(d as nat)],
{
    match d {
        0 => { proof { reveal_strlit("0"); } "0" },
        1 => { proof { reveal_strlit("1"); } "1" },
        2 => { proof { reveal_strlit("2"); } "2" },
        3 => { proof { reveal_strlit("3"); } "3" },
        4 => { proof { reveal_strlit("4"); } "4" },
        5 => { proof { reveal_strlit("5"); } "5" },
        6 => { proof { reveal_strlit("6"); } "6" },
        7 => { proof { reveal_strlit("7"); } "7" },
        8 => { proof { reveal_strlit("8"); } "8" },
        _ => { proof { reveal_strlit("9"); } "9" },
    }
}

/// Append the decimal representation of `n` to `out`.
pub fn push_decimal(out: &mut String, n: u128)
    ensures
        final(out)@ == old(out)@ + dec_digits(n as nat),
{
    // Digits, least significant first.
    let mut digits: Vec<u8> = Vec::new();
    let mut m = n;
    let ghost mut tail: Seq<char> = Seq::empty();
    loop
        invariant_except_break
            m > 0 || digits.len() == 0,
            dec_digits(n as nat) == dec_digits(m as nat) + tail,
        invariant
            tail.len() == digits.len(),
            forall|i: int| 0 <= i < digits.len() ==> #[trigger] digits[i] < 10,
            forall|i: int| 0 <= i < digits.len() ==> #[trigger] tail[i] == digit_char(digits[digits.len() - 1 - i] as nat),
        ensures
            dec_digits(n as nat) == tail,
        decreases m,
    {
        let d = (m % 10) as u8;
        proof {
            tail = seq![digit_char(d as nat)] + tail;
            if m >= 10 {
                assert(dec_digits(m as nat) == dec_digits((m / 10) as nat).push(digit_char((m % 10) as nat)));
                assert(dec_digits(n as nat) =~= dec_digits((m / 10) as nat) + tail);
            } else {
                assert(dec_digits(n as nat) =~= tail);
            }
        }
        let ghost old_digits = digits@;
        digits.push(d);
        proof {
            assert forall|i: int| 0 <= i < digits.len() implies #[trigger] tail[i] == digit_char(digits[digits.len() - 1 - i] as nat) by {
                if i > 0 {
                    assert(digits[digits.len() - 1 - i] == old_digits[old_digits.len() - 1 - (i - 1)]);
                }
            }
        }
        m = m / 10;
        if m == 0 {
            break;
        }
    }
    let mut i = digits.len();
    while i > 0
        invariant
            i <= digits.len(),
            tail.len() == digits.len(),
            forall|k: int| 0 <= k < digits.len() ==> #[trigger] digits[k] < 10,
            forall|k: int| 0 <= k < digits.len() ==> #[trigger] tail[k] == digit_char(digits[digits.len() - 1 - k] as nat),
            out@ == old(out)@ + tail.take(digits.len() - i),
        decreases i,
    {
        i = i - 1;
        out.append(digit_str(digits[i]));
        proof {
            assert(tail.take(digits.len() - i) =~= tail.take(digits.len() - i - 1).push(tail[digits.len() - i - 1]));
        }
    }
    assert(tail.take(digits.len() as int) =~= tail);
}

/// Append the decimal representation of `n` to `out`, padded with leading
/// zeros up to `width` characters.
pub fn push_zero_padded(out: &mut String, n: u128, width: usize)
    ensures
        final(out)@ == old(out)@ + zero_padded(n as nat, width as nat),
{
    let mut digits = String::new();
    push_decimal(&mut digits, n);
    let len = digits.as_str().unicode_len();
    if len < width {
        let mut k = len;
        while k < width
            invariant
                len <= k <= width,
                out@ == old(out)@ + Seq::new((k - len) as nat, |i: int| '0'),
            decreases width - k,
        {
            proof {
                reveal_strlit("0");
            }
            out.append("0");
            k = k + 1;
            assert(Seq::new((k - len) as nat, |i: int| '0') =~= Seq::new((k - 1 - len) as nat, |i: int| '0').push('0'));
        }
    }
    out.append(digits.as_str());
    assert(out@ =~= old(out)@ + zero_padded(n as nat, width as nat));
}

/// The decimal representation of `n`.
pub fn decimal_string(n: u128) -> (s: String)
    ensures
        s@ == dec_digits(n as nat),
{
    let mut s = String::new();
    push_decimal(&mut s, n);
    assert(s@ =~= dec_digits(n as nat));
    s
}

} // verus!
