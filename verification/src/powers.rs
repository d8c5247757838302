//! Which numbers divide a power of ten: those whose only prime factors are
//! 2 and 5. A number of ticks per unit that fits in a `u64` and divides some
//! power of ten already divides `10^63`.

use vstd::prelude::*;
use vstd::arithmetic::div_mod::{
    lemma_fundamental_div_mod, lemma_fundamental_div_mod_converse, lemma_mod_multiples_basic, lemma_mul_mod_noop,
};
use crate::tick::pow10;

verus! {

/// `b` to the power `n`.
pub open spec fn pow_of(b: nat, n: nat) -> nat
    decreases n,
{
    if n == 0 {
        1
    } else {
        b * pow_of(b, (n - 1) as nat)
    }
}

/// Powers add their exponents.
proof fn lemma_pow_of_add(b: nat, m: nat, n: nat)
    ensures
        pow_of(b, m + n) == pow_of(b, m) * pow_of(b, n),
    decreases n,
{
    if n > 0 {
        let n1 = (n - 1) as nat;
        lemma_pow_of_add(b, m, n1);
        assert(((m + n) - 1) as nat == m + n1);
        assert(pow_of(b, m + n) == b * pow_of(b, m + n1));
        assert(pow_of(b, n) == b * pow_of(b, n1));
        let x = pow_of(b, m + n);
        let y = pow_of(b, m);
        let z = pow_of(b, n1);
        let w = pow_of(b, n);
        assert(x == y * w) by (nonlinear_arith)
            requires x == b * pow_of(b, m + n1), pow_of(b, m + n1) == y * z, w == b * z;
    } else {
        assert(m + n == m);
        assert(pow_of(b, 0) == 1);
        let y = pow_of(b, m);
        assert(y == y * 1) by (nonlinear_arith);
    }
}

/// A power of ten is a power of two times the same power of five.
proof fn lemma_pow10_split(n: nat)
    ensures
        pow10(n) == pow_of(2, n) * pow_of(5, n),
    decreases n,
{
    if n > 0 {
        lemma_pow10_split((n - 1) as nat);
        let a = pow_of(2, (n - 1) as nat);
        let b = pow_of(5, (n - 1) as nat);
        assert(pow10(n) == 10 * pow10((n - 1) as nat));
        assert(pow_of(2, n) == 2 * a);
        assert(pow_of(5, n) == 5 * b);
        assert(pow10(n) == pow_of(2, n) * pow_of(5, n)) by (nonlinear_arith)
            requires
                pow10(n) == 10 * pow10((n - 1) as nat),
                pow10((n - 1) as nat) == a * b,
                pow_of(2, n) == 2 * a,
                pow_of(5, n) == 5 * b;
    } else {
        assert(pow_of(2, 0) == 1 && pow_of(5, 0) == 1);
        assert(1 == 1 * 1) by (nonlinear_arith);
    }
}

/// Powers of a positive base are positive and grow with the exponent.
proof fn lemma_pow_of_mono(b: nat, m: nat, n: nat)
    requires
        b >= 1,
        m <= n,
    ensures
        1 <= pow_of(b, m) <= pow_of(b, n),
    decreases n,
{
    if n > 0 && m < n {
        lemma_pow_of_mono(b, m, (n - 1) as nat);
        let p = pow_of(b, (n - 1) as nat);
        assert(p <= b * p) by (nonlinear_arith)
            requires b >= 1, p >= 1;
    } else if n > 0 {
        lemma_pow_of_mono(b, 0, (n - 1) as nat);
        let p = pow_of(b, (n - 1) as nat);
        assert(1 <= b * p) by (nonlinear_arith)
            requires b >= 1, p >= 1;
    }
}

/// Powers of two are at most the same powers of five.
proof fn lemma_pow2_le_pow5(n: nat)
    ensures
        pow_of(2, n) <= pow_of(5, n),
    decreases n,
{
    if n > 0 {
        lemma_pow2_le_pow5((n - 1) as nat);
        let a = pow_of(2, (n - 1) as nat);
        let b = pow_of(5, (n - 1) as nat);
        assert(2 * a <= 5 * b) by (nonlinear_arith)
            requires a <= b;
    }
}

/// `2^64`, one more than the largest `u64`.
proof fn lemma_pow2_64()
    ensures
        pow_of(2, 64) == 18446744073709551616nat,
{
    reveal_with_fuel(pow_of, 65);
}

/// The number of factors 2 of `q`.
pub open spec fn twos(q: nat) -> nat
    decreases q,
{
    if q > 0 && q % 2 == 0 {
        1 + twos(q / 2)
    } else {
        0
    }
}

/// `q` without its factors 2.
pub open spec fn without_twos(q: nat) -> nat
    decreases q,
{
    if q > 0 && q % 2 == 0 {
        without_twos(q / 2)
    } else {
        q
    }
}

/// The number of factors 5 of `q`.
pub open spec fn fives(q: nat) -> nat
    decreases q,
{
    if q > 0 && q % 5 == 0 {
        1 + fives(q / 5)
    } else {
        0
    }
}

/// `q` without its factors 5.
pub open spec fn without_fives(q: nat) -> nat
    decreases q,
{
    if q > 0 && q % 5 == 0 {
        without_fives(q / 5)
    } else {
        q
    }
}

/// A positive `q` is a power of two times an odd number.
proof fn lemma_strip_twos(q: nat)
    requires
        q > 0,
    ensures
        q == pow_of(2, twos(q)) * without_twos(q),
        without_twos(q) % 2 == 1,
    decreases q,
{
    if q % 2 == 0 {
        let h = q / 2;
        assert(q == 2 * h);
        lemma_strip_twos(h);
        let p = pow_of(2, twos(h));
        let o = without_twos(h);
        assert(twos(q) == 1 + twos(h));
        assert(((1 + twos(h)) - 1) as nat == twos(h));
        assert(pow_of(2, twos(q)) == 2 * p);
        assert(without_twos(q) == o);
        assert(q == pow_of(2, twos(q)) * without_twos(q)) by (nonlinear_arith)
            requires q == 2 * h, h == p * o, pow_of(2, twos(q)) == 2 * p, without_twos(q) == o;
    } else {
        assert(twos(q) == 0 && without_twos(q) == q);
        assert(pow_of(2, 0) == 1);
        assert(q == 1 * q) by (nonlinear_arith);
    }
}

/// A positive `q` is a power of five times a number that 5 does not
/// divide, which is odd if `q` is.
proof fn lemma_strip_fives(q: nat)
    requires
        q > 0,
    ensures
        q == pow_of(5, fives(q)) * without_fives(q),
        without_fives(q) % 5 != 0,
        q % 2 == 1 ==> without_fives(q) % 2 == 1,
    decreases q,
{
    if q % 5 == 0 {
        let h = q / 5;
        assert(q == 5 * h);
        assert(q % 2 == 1 ==> h % 2 == 1) by {
            if q % 2 == 1 && h % 2 == 0 {
                assert(q == 2 * (5 * (h / 2))) by (nonlinear_arith)
                    requires q == 5 * h, h == 2 * (h / 2);
            }
        }
        lemma_strip_fives(h);
        let p = pow_of(5, fives(h));
        let o = without_fives(h);
        assert(fives(q) == 1 + fives(h));
        assert(((1 + fives(h)) - 1) as nat == fives(h));
        assert(pow_of(5, fives(q)) == 5 * p);
        assert(without_fives(q) == o);
        assert(q == pow_of(5, fives(q)) * without_fives(q)) by (nonlinear_arith)
            requires q == 5 * h, h == p * o, pow_of(5, fives(q)) == 5 * p, without_fives(q) == o;
    } else {
        assert(fives(q) == 0 && without_fives(q) == q);
        assert(pow_of(5, 0) == 1);
        assert(q == 1 * q) by (nonlinear_arith);
    }
}

/// `x` is a multiple of `d`, a multiple of `r`: `x` is a multiple of `r`.
proof fn lemma_divides_trans(x: nat, d: nat, r: nat)
    requires
        d > 0,
        r > 0,
        x % d == 0,
        d % r == 0,
    ensures
        x % r == 0,
{
    lemma_fundamental_div_mod(x as int, d as int);
    lemma_fundamental_div_mod(d as int, r as int);
    let a = x / d;
    let b = d / r;
    assert(x == (a * b) * r) by (nonlinear_arith)
        requires x == d * a, d == r * b;
    lemma_mod_multiples_basic((a * b) as int, r as int);
}

/// An odd `r` that divides `2 * m` divides `m`.
proof fn lemma_cancel_two(r: nat, m: nat)
    requires
        r > 0,
        r % 2 == 1,
        (2 * m) % r == 0,
    ensures
        m % r == 0,
{
    lemma_fundamental_div_mod((2 * m) as int, r as int);
    let c = (2 * m) / r;
    assert(2 * m == r * c);
    lemma_mul_mod_noop(r as int, c as int, 2);
    if c % 2 == 1 {
        assert((r * c) % 2 == 1) by {
            assert((r % 2) * (c % 2) == 1);
        }
        lemma_mod_multiples_basic(m as int, 2);
        assert((2 * m) % 2 == 0) by {
            assert(m * 2 == 2 * m);
        }
    }
    lemma_fundamental_div_mod(c as int, 2);
    let h = c / 2;
    assert(c == 2 * h);
    assert(m == h * r) by (nonlinear_arith)
        requires 2 * m == r * c, c == 2 * h;
    lemma_mod_multiples_basic(h as int, r as int);
}

/// A product of a number that 5 does not divide with another is a multiple
/// of 5 only if the other is.
proof fn lemma_five_prime(x: int, y: int)
    requires
        1 <= x <= 4,
        0 <= y <= 4,
        (x * y) % 5 == 0,
    ensures
        y == 0,
{
    if y == 1 {
        assert(x * y == x);
    } else if y == 2 {
        assert(x * y == 2 * x);
    } else if y == 3 {
        assert(x * y == 3 * x);
    } else if y == 4 {
        assert(x * y == 4 * x);
    }
}

/// An `r` that 5 does not divide and that divides `5 * m` divides `m`.
proof fn lemma_cancel_five(r: nat, m: nat)
    requires
        r > 0,
        r % 5 != 0,
        (5 * m) % r == 0,
    ensures
        m % r == 0,
{
    lemma_fundamental_div_mod((5 * m) as int, r as int);
    let c = (5 * m) / r;
    assert(5 * m == r * c);
    lemma_mul_mod_noop(r as int, c as int, 5);
    lemma_mod_multiples_basic(m as int, 5);
    assert((5 * m) % 5 == 0) by {
        assert(m * 5 == 5 * m);
    }
    lemma_five_prime((r % 5) as int, (c % 5) as int);
    lemma_fundamental_div_mod(c as int, 5);
    let h = c / 5;
    assert(c == 5 * h);
    assert(m == h * r) by (nonlinear_arith)
        requires 5 * m == r * c, c == 5 * h;
    lemma_mod_multiples_basic(h as int, r as int);
}

/// The only number that is prime to both 2 and 5 and divides a power of ten
/// is 1.
proof fn lemma_coprime_divisor(r: nat, k: nat)
    requires
        r > 0,
        r % 2 == 1,
        r % 5 != 0,
        pow10(k) % r == 0,
    ensures
        r == 1,
    decreases k,
{
    if k == 0 {
        if r > 1 {
            lemma_fundamental_div_mod_converse(1, r as int, 0, 1);
        }
    } else {
        let p = pow10((k - 1) as nat);
        assert(pow10(k) == 2 * (5 * p));
        lemma_cancel_two(r, 5 * p);
        lemma_cancel_five(r, p);
        lemma_coprime_divisor(r, (k - 1) as nat);
    }
}

/// A number of ticks per unit that fits in a `u64` and divides a power of
/// ten divides `10^63`.
pub proof fn lemma_divides_pow10_63(q: nat, k: nat)
    requires
        0 < q <= u64::MAX,
        pow10(k) % q == 0,
    ensures
        pow10(63) % q == 0,
{
    lemma_strip_twos(q);
    let a = twos(q);
    let o = without_twos(q);
    assert(o > 0) by {
        if o == 0 {
            assert(pow_of(2, a) * 0 == 0);
        }
    }
    lemma_strip_fives(o);
    let b = fives(o);
    let r = without_fives(o);
    let pa = pow_of(2, a);
    let pb = pow_of(5, b);
    lemma_pow_of_mono(2, 0, a);
    lemma_pow_of_mono(5, 0, b);
    assert(q == r * (pa * pb)) by (nonlinear_arith)
        requires q == pa * o, o == pb * r;
    assert(r > 0) by {
        if r == 0 {
            assert(q == 0 * (pa * pb));
        }
    }
    lemma_mod_multiples_basic((pa * pb) as int, r as int);
    assert(q % r == 0) by {
        assert((pa * pb) * r == q) by (nonlinear_arith)
            requires q == r * (pa * pb);
    }
    lemma_divides_trans(pow10(k), q, r);
    lemma_coprime_divisor(r, k);
    assert(q == pa * pb);
    // Both exponents are below 64.
    lemma_pow2_64();
    assert(pa <= q) by (nonlinear_arith)
        requires q == pa * pb, pb >= 1, pa >= 1;
    assert(a < 64) by {
        if a >= 64 {
            lemma_pow_of_mono(2, 64, a);
        }
    }
    lemma_pow2_le_pow5(b);
    lemma_pow_of_mono(2, 0, b);
    assert(pb <= q) by (nonlinear_arith)
        requires q == pa * pb, pb >= 1, pa >= 1;
    assert(b < 64) by {
        if b >= 64 {
            lemma_pow_of_mono(2, 64, b);
        }
    }
    lemma_pow10_split(63);
    lemma_pow_of_add(2, a, (63 - a) as nat);
    lemma_pow_of_add(5, b, (63 - b) as nat);
    let ra = pow_of(2, (63 - a) as nat);
    let rb = pow_of(5, (63 - b) as nat);
    assert(pow10(63) == (ra * rb) * q) by (nonlinear_arith)
        requires
            pow10(63) == pow_of(2, 63) * pow_of(5, 63),
            pow_of(2, 63) == pa * ra,
            pow_of(5, 63) == pb * rb,
            q == pa * pb;
    lemma_mod_multiples_basic((ra * rb) as int, q as int);
}

} // verus!
