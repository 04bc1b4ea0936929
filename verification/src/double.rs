//! Quotients of whole numbers to one decimal, as binary floating point shows them: the
//! numbers are rounded to 53 significant bits, so is their quotient, and that is rounded
//! to tenths. Every rounding is to the nearest, ties to even.
use crate::text;
use crate::text::decimal_string;
use vstd::prelude::*;

verus! {

/// `2` to the power of `n`.
pub open spec fn two_to(n: nat) -> nat
    decreases n,
{
    if n == 0 {
        1
    } else {
        2 * two_to((n - 1) as nat)
    }
}

/// The least number that takes 54 bits.
pub const TWO_TO_53: u64 = 9_007_199_254_740_992;

/// The least number that takes 53 bits.
pub const TWO_TO_52: u64 = 4_503_599_627_370_496;

/// The whole number nearest to a quotient; of two as near, the even one.
pub open spec fn nearest(num: nat, den: nat) -> nat {
    let q = num / den;
    let r = num % den;
    if 2 * r > den || (2 * r == den && q % 2 == 1) {
        q + 1
    } else {
        q
    }
}

/// How many of the bits of `n` are beyond 53.
pub open spec fn excess_bits(n: nat) -> nat
    decreases n,
{
    if n < TWO_TO_53 {
        0
    } else {
        1 + excess_bits(n / 2)
    }
}

/// `n` rounded to 53 significant bits.
pub open spec fn as_double(n: nat) -> nat {
    nearest(n, two_to(excess_bits(n))) * two_to(excess_bits(n))
}

/// How often `a` has to be doubled for its quotient by `d` to have 53 significant bits
/// before the point.
pub open spec fn scale(a: nat, d: nat) -> nat
    decreases 2 * (TWO_TO_52 * d) - a,
{
    if a == 0 || a >= TWO_TO_52 * d {
        0
    } else {
        1 + scale(2 * a, d)
    }
}

/// The significant bits of the quotient of `a` by `d`, as a whole number: the quotient is
/// that number divided by `2` to the power of `scale(a, d)`.
pub open spec fn significand(a: nat, d: nat) -> nat {
    nearest(a * two_to(scale(a, d)), d)
}

/// The quotient of `n` by `d` in tenths.
pub open spec fn tenths(n: nat, d: nat) -> nat {
    let a = as_double(n);
    nearest(significand(a, d) * 10, two_to(scale(a, d)))
}

/// The quotient of `n` by `d`, to one decimal.
pub open spec fn quotient_text(n: nat, d: nat) -> Seq<char> {
    text::decimal(tenths(n, d) / 10) + "."@ + text::decimal(tenths(n, d) % 10)
}

fn nearest_whole(num: u128, den: u128) -> (r: u128)
    requires
        0 < den,
        num < u128::MAX,
    ensures
        r == nearest(num as nat, den as nat),
        num / den <= r <= num / den + 1,
{
    let q: u128 = num / den;
    let rest: u128 = num % den;
    assert(q <= num) by (nonlinear_arith)
        requires
            q == num / den,
            den > 0,
    ;
    if rest > den - rest || (rest == den - rest && q % 2 == 1) {
        q + 1
    } else {
        q
    }
}

/// The whole number nearest to a quotient; of two as near, the even one.
pub fn nearest_quotient(num: u64, den: u64) -> (r: u64)
    requires
        0 < den,
        num < u64::MAX,
    ensures
        r == nearest(num as nat, den as nat),
{
    let r: u128 = nearest_whole(num as u128, den as u128);
    assert(num / den <= num) by (nonlinear_arith)
        requires
            den > 0,
    ;
    r as u64
}

/// `n` rounded to 53 significant bits.
fn rounded(n: u64) -> (r: u128)
    ensures
        r == as_double(n as nat),
        r <= n + 4096,
        n > 0 ==> r > 0,
{
    let mut h: u64 = n;
    let mut p: u128 = 1;
    let ghost mut t: nat = 0;
    while h >= TWO_TO_53
        invariant
            excess_bits(n as nat) == t + excess_bits(h as nat),
            p == two_to(t),
            h * p <= n,
            1 <= p <= 4096,
            p == 1 || n >= TWO_TO_53,
        decreases h,
    {
        assert(p <= 2048) by (nonlinear_arith)
            requires
                h * p <= n,
                h >= 9_007_199_254_740_992,
                n <= u64::MAX,
        ;
        assert(h >= 9_007_199_254_740_992 && p >= 1 && h * p <= n ==> n
            >= 9_007_199_254_740_992) by (nonlinear_arith);
        assert((h / 2) * (p * 2) <= h * p) by (nonlinear_arith)
            requires
                p >= 1,
        ;
        proof {
            assert(two_to(t + 1) == 2 * two_to(t));
            t = t + 1;
        }
        h = h / 2;
        p = p * 2;
    }
    let q: u128 = nearest_whole(n as u128, p);
    let ghost whole: int = n as int / p as int;
    assert(whole * p <= n && (n >= p ==> whole >= 1)) by (nonlinear_arith)
        requires
            whole == n as int / p as int,
            p >= 1,
    ;
    assert(0 <= q * p <= n + p) by (nonlinear_arith)
        requires
            0 <= q <= whole + 1,
            whole * p <= n,
            p >= 1,
    ;
    assert(q >= 1 && p >= 1 ==> q * p >= 1) by (nonlinear_arith);
    q * p
}

proof fn lemma_tenths_bound(a: int, d: int, p: int, m: int, r: int)
    requires
        1 <= d,
        1 <= p,
        0 <= a <= TWO_TO_52 * d + 4096,
        m <= (a * p) / d + 1,
        r <= (m * 10) / p + 1,
    ensures
        r <= 0x0100_0000_0000_0000,
{
    let q = (a * p) / d;
    let k = (m * 10) / p;
    assert(d * q <= a * p) by (nonlinear_arith)
        requires
            q == (a * p) / d,
            d >= 1,
    ;
    assert(p * k <= m * 10) by (nonlinear_arith)
        requires
            k == (m * 10) / p,
            p >= 1,
    ;
    assert(d * (p * k) <= d * (m * 10)) by (nonlinear_arith)
        requires
            p * k <= m * 10,
            d >= 1,
    ;
    assert(d * (m * 10) <= 10 * (d * q) + 10 * d) by (nonlinear_arith)
        requires
            m <= q + 1,
            d >= 1,
    ;
    assert(p * (d * k) <= p * (10 * a + 10 * d)) by (nonlinear_arith)
        requires
            d * (p * k) <= 10 * (a * p) + 10 * d,
            p >= 1,
            d >= 1,
    ;
    assert(d * k <= 10 * a + 10 * d) by (nonlinear_arith)
        requires
            p * (d * k) <= p * (10 * a + 10 * d),
            p >= 1,
    ;
    assert(k <= 10 * (0x0010_0000_0000_0000 + 4096) + 10) by (nonlinear_arith)
        requires
            d * k <= 10 * a + 10 * d,
            a <= 0x0010_0000_0000_0000 * d + 4096,
            d >= 1,
    ;
}

/// The quotient of `n` by `d` in tenths.
pub fn tenths_of(n: u64, d: u64) -> (r: u64)
    requires
        0 < d <= u32::MAX,
        n < TWO_TO_52 * d,
    ensures
        r == tenths(n as nat, d as nat),
{
    let a: u128 = rounded(n);
    let bound: u128 = TWO_TO_52 as u128 * d as u128;
    let mut cur: u128 = a;
    let mut p: u128 = 1;
    let ghost mut s: nat = 0;
    assert(a * 1 == a);
    while cur != 0 && cur < bound
        invariant
            a == as_double(n as nat),
            bound == TWO_TO_52 * d,
            d <= u32::MAX,
            cur == a * p,
            p == two_to(s),
            cur == 0 <==> a == 0,
            1 <= p,
            p <= cur || a == 0 && p == 1,
            cur <= 2 * bound + 8192,
            scale(a as nat, d as nat) == s + scale(cur as nat, d as nat),
        decreases 2 * bound - cur,
    {
        assert(a * (p * 2) == (a * p) * 2) by (nonlinear_arith);
        proof {
            assert(two_to(s + 1) == 2 * two_to(s));
            s = s + 1;
        }
        cur = cur * 2;
        p = p * 2;
    }
    let m: u128 = nearest_whole(cur, d as u128);
    assert(m <= cur + 1) by (nonlinear_arith)
        requires
            m <= cur / (d as u128) + 1,
            d >= 1,
    ;
    proof {
        assert(scale(cur as nat, d as nat) == 0);
    }
    let r: u128 = nearest_whole(m * 10, p);
    proof {
        lemma_tenths_bound(a as int, d as int, p as int, m as int, r as int);
    }
    r as u64
}

/// The quotient of `n` by `d`, to one decimal.
pub fn quotient_string(n: u64, d: u64) -> (r: String)
    requires
        0 < d <= u32::MAX,
        n < TWO_TO_52 * d,
    ensures
        r@ == quotient_text(n as nat, d as nat),
{
    let t: u64 = tenths_of(n, d);
    let mut s = decimal_string(t / 10);
    s.append(".");
    s.append(decimal_string(t % 10).as_str());
    s
}

/// The nearest whole number is no more than a half away, and of two that are as near it is
/// the even one.
pub proof fn law_the_nearest_is_no_more_than_a_half_away(num: nat, den: nat)
    requires
        den > 0,
    ensures
        2 * (den * nearest(num, den) - num) <= den,
        2 * (num - den * nearest(num, den)) <= den,
        2 * (den * nearest(num, den) - num) == den || 2 * (num - den * nearest(num, den)) == den
            ==> nearest(num, den) % 2 == 0,
{
    let q = num / den;
    let r = num % den;
    assert(num == den * q + r && r < den) by (nonlinear_arith)
        requires
            den > 0,
            q == num / den,
            r == num % den,
    ;
    assert(den * (q + 1) == den * q + den) by (nonlinear_arith);
}

/// A whole number below two to the fifty-third is held exactly.
pub proof fn law_small_numbers_are_exact(n: nat)
    requires
        n < TWO_TO_53,
    ensures
        as_double(n) == n,
{
    assert(excess_bits(n) == 0);
    assert(two_to(0) == 1);
    assert(n / 1 == n && n % 1 == 0);
    assert(nearest(n, 1) == n);
}

} // verus!
