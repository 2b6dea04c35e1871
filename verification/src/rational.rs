//! Rational number used for time bases and frame rates.

use std::cmp::Ordering;
use vstd::arithmetic::div_mod::{
    lemma_fundamental_div_mod, lemma_fundamental_div_mod_converse,
    lemma_fundamental_div_mod_converse_div, lemma_mod_multiples_basic,
};
use crate::text::{append_decimal, decimal_chars, push_char};
use vstd::prelude::*;

verus! {

/// An exact fraction `num/den`.
///
/// The derived `==` is **structural**: `1/2` and `2/4` compare unequal
/// because their fields differ. Use [`Rational::equals_value`] or
/// [`Rational::cmp_value`] to compare the numbers two fractions denote.
#[derive(Clone, Copy, Debug, PartialEq, Eq, Hash, Structural)]
pub struct Rational {
    pub num: i64,
    pub den: i64,
}

// ───────────────────────── integer helpers (spec) ─────────────────────────

/// Sign of an integer: `-1`, `0` or `1`.
pub open spec fn sgn(x: int) -> int {
    if x > 0 {
        1
    } else if x < 0 {
        -1
    } else {
        0
    }
}

/// Magnitude of an integer.
pub open spec fn mag(x: int) -> nat {
    if x < 0 {
        (-x) as nat
    } else {
        x as nat
    }
}

/// Greatest common divisor by Euclid's rule (`gcd(a, 0) == a`).
pub open spec fn gcd(a: nat, b: nat) -> nat
    decreases b,
{
    if b == 0 {
        a
    } else {
        gcd(b, a % b)
    }
}

/// The divisor used for reduction: the gcd, but never below 1.
pub open spec fn gcd_at_least_one(a: nat, b: nat) -> nat {
    if gcd(a, b) == 0 {
        1
    } else {
        gcd(a, b)
    }
}

/// `n/d` with any sign moved onto the numerator, then divided by the
/// gcd of the two magnitudes when that gcd is above 1 and at most
/// `limit` (a larger divisor does not fit the signed working width and
/// leaves the pair unreduced).
pub open spec fn lowest_terms(n: int, d: int, limit: int) -> (int, int) {
    let n2 = if d < 0 {
        -n
    } else {
        n
    };
    let d2 = if d < 0 {
        -d
    } else {
        d
    };
    let g = gcd_at_least_one(mag(n2), mag(d2)) as int;
    if 1 < g && g <= limit {
        (n2 / g, d2 / g)
    } else {
        (n2, d2)
    }
}

// ───────────────────────── value model ─────────────────────────

/// Numerator after moving a negative denominator's sign onto it.
pub open spec fn norm_num(r: Rational) -> int {
    if r.den < 0 {
        -r.num
    } else {
        r.num as int
    }
}

/// Denominator after sign normalisation (never negative).
pub open spec fn norm_den(r: Rational) -> int {
    if r.den < 0 {
        -r.den
    } else {
        r.den as int
    }
}

/// The sign normalisation of `r` can be carried out in `i64`: a
/// negative denominator never meets an `i64::MIN` term.
pub open spec fn sign_normalizable(r: Rational) -> bool {
    !(r.den < 0 && (r.num == i64::MIN || r.den == i64::MIN))
}

/// Position of `r` on the extended line used when a denominator is
/// zero: `+n/0` is `+2`, `-n/0` is `-2`, `0/0` is `0`; a finite value
/// ranks by its sign.
pub open spec fn extended_rank(r: Rational) -> int {
    if r.den == 0 {
        2 * sgn(r.num as int)
    } else {
        sgn(norm_num(r))
    }
}

/// Value comparison of two fractions: `-1`, `0` or `1`. Two finite
/// fractions compare by cross-product; a zero denominator is a signed
/// infinity (all `+inf` tie, all `-inf` tie, `0/0` ties with zero).
pub open spec fn compare_value(a: Rational, b: Rational) -> int {
    if a.den != 0 && b.den != 0 {
        sgn(norm_num(a) * norm_den(b) - norm_num(b) * norm_den(a))
    } else {
        sgn(extended_rank(a) - extended_rank(b))
    }
}

/// `x` clamped to the `i64` range.
pub open spec fn clamp_i64(x: int) -> i64 {
    if x > i64::MAX {
        i64::MAX
    } else if x < i64::MIN {
        i64::MIN
    } else {
        x as i64
    }
}

/// Whether `x` lies in the `i64` range.
pub open spec fn fits_i64(x: int) -> bool {
    i64::MIN <= x <= i64::MAX
}

/// The terms of `r` in lowest terms, with the sign on the numerator,
/// both fit in `i64`. They always do unless a term is `i64::MIN` (whose
/// magnitude `2^63` only fits when a common factor divides it away).
pub open spec fn reduced_terms_fit(r: Rational) -> bool {
    let p = lowest_terms(r.num as int, r.den as int, i128::MAX as int);
    fits_i64(p.0) && fits_i64(p.1)
}

/// The fraction `reduced()` returns: the sign moved onto the
/// numerator, both terms divided by their gcd, and each term then
/// clamped to the `i64` range (the closest representable fraction when
/// a term of magnitude `2^63` cannot be reduced).
pub open spec fn reduced_value(r: Rational) -> Rational {
    let p = lowest_terms(r.num as int, r.den as int, i128::MAX as int);
    Rational { num: clamp_i64(p.0), den: clamp_i64(p.1) }
}

/// Narrow an exact wide fraction to `Rational`: lowest terms with the
/// sign on the numerator, each term then clamped to the `i64` range
/// (the closest representable fraction when a reduced term is still
/// too wide).
pub open spec fn narrow_reduced(n: int, d: int) -> Rational {
    let p = lowest_terms(n, d, i128::MAX as int);
    Rational { num: clamp_i64(p.0), den: clamp_i64(p.1) }
}

/// The one pair of operands whose exact sum numerator, `2^127`, does
/// not fit 128 bits: every term is `i64::MIN`.
pub open spec fn sum_overflows(a: Rational, b: Rational) -> bool {
    &&& a.num == i64::MIN
    &&& a.den == i64::MIN
    &&& b.num == i64::MIN
    &&& b.den == i64::MIN
}

/// What `a + b` returns: the reduced exact sum, and `2/1` for the
/// operands of `sum_overflows` (each of which denotes `1`).
pub open spec fn added(a: Rational, b: Rational) -> Rational {
    if sum_overflows(a, b) {
        Rational { num: 2, den: 1 }
    } else {
        narrow_reduced(sum_num(a, b), prod_den(a, b))
    }
}

/// Exact numerator of `a + b` before reduction.
pub open spec fn sum_num(a: Rational, b: Rational) -> int {
    a.num * b.den + b.num * a.den
}

/// Exact numerator of `a - b` before reduction.
pub open spec fn diff_num(a: Rational, b: Rational) -> int {
    a.num * b.den - b.num * a.den
}

/// Common denominator `a.den * b.den`.
pub open spec fn prod_den(a: Rational, b: Rational) -> int {
    a.den * b.den
}

/// Two values `a` and `b` are equal as numbers.
pub open spec fn same_value(a: Rational, b: Rational) -> bool {
    compare_value(a, b) == 0
}

// ───────────────────────── gcd lemmas ─────────────────────────

/// The gcd divides both arguments and never exceeds the larger one.
pub proof fn lemma_gcd_divides(a: nat, b: nat)
    ensures
        a > 0 || b > 0 ==> gcd(a, b) > 0,
        a > 0 || b > 0 ==> a % gcd(a, b) == 0 && b % gcd(a, b) == 0,
        gcd(a, b) <= if a > b {
            a
        } else {
            b
        },
    decreases b,
{
    if b == 0 {
        if a > 0 {
            assert(a % a == 0) by {
                lemma_mod_multiples_basic(1, a as int);
            }
            assert(0nat % a == 0);
        }
    } else {
        let r = a % b;
        assert(r < b);
        lemma_gcd_divides(b, r);
        let g = gcd(b, r);
        assert(g == gcd(a, b));
        assert(g > 0);
        assert(b % g == 0 && r % g == 0);
        lemma_fundamental_div_mod(b as int, g as int);
        lemma_fundamental_div_mod(r as int, g as int);
        lemma_fundamental_div_mod(a as int, b as int);
        let qb = b as int / g as int;
        let qr = r as int / g as int;
        let qa = a as int / b as int;
        assert(b as int == g * qb);
        assert(r as int == g * qr);
        assert(a as int == b * qa + r);
        assert(a as int == (qa * qb + qr) * g) by (nonlinear_arith)
            requires
                b as int == g * qb,
                r as int == g * qr,
                a as int == b * qa + r,
        ;
        lemma_mod_multiples_basic(qa * qb + qr, g as int);
    }
}

/// `x` is an exact multiple of `g`, so division is exact.
proof fn lemma_exact_div(x: int, g: int)
    requires
        g > 0,
        x % g == 0,
    ensures
        x == (x / g) * g,
        mag(x / g) <= mag(x),
        sgn(x / g) == sgn(x),
{
    lemma_fundamental_div_mod(x, g);
    let q = x / g;
    assert(x == g * q);
    assert(x == q * g) by (nonlinear_arith)
        requires
            x == g * q,
    ;
    assert(mag(q) <= mag(x) && sgn(q) == sgn(x)) by (nonlinear_arith)
        requires
            x == g * q,
            g > 0,
    ;
}

/// Division by a common divisor preserves the cross-product relation.
proof fn lemma_scaled_pair(n: int, d: int, g: int)
    requires
        g > 0,
        n % g == 0,
        d % g == 0,
    ensures
        (n / g) * d == n * (d / g),
{
    lemma_exact_div(n, g);
    lemma_exact_div(d, g);
    let p = n / g;
    let q = d / g;
    assert(p * d == n * q) by (nonlinear_arith)
        requires
            n == p * g,
            d == q * g,
    ;
}

/// Facts about the pair `lowest_terms` produces.
proof fn lemma_lowest_terms(n: int, d: int, limit: int)
    ensures
        ({
            let n2 = if d < 0 {
                -n
            } else {
                n
            };
            let d2 = if d < 0 {
                -d
            } else {
                d
            };
            let p = lowest_terms(n, d, limit);
            &&& p.1 >= 0
            &&& mag(p.0) <= mag(n2)
            &&& p.1 <= d2
            &&& sgn(p.0) == sgn(n2)
            &&& p.0 * d2 == n2 * p.1
            &&& (d2 == 0 ==> p.1 == 0)
            &&& (d2 > 0 ==> p.1 > 0)
        }),
{
    let n2 = if d < 0 {
        -n
    } else {
        n
    };
    let d2 = if d < 0 {
        -d
    } else {
        d
    };
    let g = gcd_at_least_one(mag(n2), mag(d2)) as int;
    lemma_gcd_divides(mag(n2), mag(d2));
    if 1 < g && g <= limit {
        assert(mag(n2) > 0 || mag(d2) > 0);
        assert(g == gcd(mag(n2), mag(d2)));
        assert(n2 % g == 0) by {
            if n2 < 0 {
                lemma_fundamental_div_mod(mag(n2) as int, g);
                let q = mag(n2) as int / g;
                assert(n2 == (-q) * g) by (nonlinear_arith)
                    requires
                        mag(n2) as int == g * q,
                        n2 == -(mag(n2) as int),
                ;
                lemma_mod_multiples_basic(-q, g);
            }
        }
        assert(d2 % g == 0);
        lemma_exact_div(n2, g);
        lemma_exact_div(d2, g);
        lemma_scaled_pair(n2, d2, g);
    }
}

/// Scaling both arguments scales the gcd: `gcd(k·a, k·b) == k·gcd(a, b)`.
proof fn lemma_gcd_scale(k: nat, a: nat, b: nat)
    requires
        k > 0,
    ensures
        gcd(k * a, k * b) == k * gcd(a, b),
    decreases b,
{
    if b == 0 {
        assert(k * b == 0) by (nonlinear_arith)
            requires
                b == 0,
        ;
    } else {
        let q = a as int / b as int;
        let r = a % b;
        lemma_fundamental_div_mod(a as int, b as int);
        assert(k * b > 0) by (nonlinear_arith)
            requires
                k > 0,
                b > 0,
        ;
        assert((k * a) as int == q * (k * b) + k * r) by (nonlinear_arith)
            requires
                a as int == b * q + r,
        ;
        assert(0 <= k * r < k * b) by (nonlinear_arith)
            requires
                0 <= r < b,
                k > 0,
        ;
        lemma_fundamental_div_mod_converse((k * a) as int, (k * b) as int, q, (k * r) as int);
        assert((k * a) % (k * b) == k * r);
        lemma_gcd_scale(k, b, r);
    }
}

/// A term divisible by `g` is `g` times the magnitude of its quotient.
proof fn lemma_mag_quotient(x: int, g: int)
    requires
        g > 0,
        x % g == 0,
    ensures
        mag(x) == g * mag(x / g),
{
    lemma_exact_div(x, g);
    let q = x / g;
    assert(mag(x) == g * mag(q)) by (nonlinear_arith)
        requires
            x == q * g,
            g > 0,
    ;
}

/// What `lowest_terms` produces is in lowest terms: when the gcd of the
/// magnitudes fits `limit`, the reduced terms have gcd 1. (A zero pair
/// has gcd 0 and stays as it is.)
pub proof fn law_lowest_terms_coprime(n: int, d: int, limit: int)
    requires
        !(n == 0 && d == 0),
        gcd(mag(n), mag(d)) <= limit,
    ensures
        gcd(mag(lowest_terms(n, d, limit).0), mag(lowest_terms(n, d, limit).1)) == 1,
{
    let n2 = if d < 0 {
        -n
    } else {
        n
    };
    let d2 = if d < 0 {
        -d
    } else {
        d
    };
    assert(mag(n2) == mag(n) && mag(d2) == mag(d));
    let a = mag(n2);
    let b = mag(d2);
    lemma_gcd_divides(a, b);
    let g = gcd(a, b);
    assert(g > 0);
    if g > 1 {
        assert(n2 % (g as int) == 0) by {
            if n2 < 0 {
                lemma_fundamental_div_mod(a as int, g as int);
                let q = a as int / g as int;
                assert(n2 == (-q) * g) by (nonlinear_arith)
                    requires
                        a as int == g * q,
                        n2 == -(a as int),
                ;
                lemma_mod_multiples_basic(-q, g as int);
            }
        }
        assert(d2 % (g as int) == 0);
        lemma_mag_quotient(n2, g as int);
        lemma_mag_quotient(d2, g as int);
        let a1 = mag(n2 / (g as int));
        let b1 = mag(d2 / (g as int));
        lemma_gcd_scale(g, a1, b1);
        assert(g * gcd(a1, b1) == g);
        assert(gcd(a1, b1) == 1) by (nonlinear_arith)
            requires
                g * gcd(a1, b1) == g,
                g > 0,
        ;
    }
}

/// A reduced fraction is in lowest terms: the magnitudes of its
/// numerator and denominator have gcd 1.
pub proof fn law_reduced_is_lowest_terms(r: Rational)
    requires
        reduced_terms_fit(r),
        !(r.num == 0 && r.den == 0),
    ensures
        gcd(mag(reduced_value(r).num as int), mag(reduced_value(r).den as int)) == 1,
{
    let n = r.num as int;
    let d = r.den as int;
    lemma_gcd_divides(mag(n), mag(d));
    law_lowest_terms_coprime(n, d, i128::MAX as int);
}

// ───────────────────────── exec helpers ─────────────────────────

/// Decimal representation of `x`, with a leading `-` when negative.
pub open spec fn signed_decimal(x: int) -> Seq<char> {
    if x < 0 {
        seq!['-'] + decimal_chars((-x) as nat)
    } else {
        decimal_chars(x as nat)
    }
}

/// Append `x` in decimal, with a leading `-` when negative.
fn append_signed_decimal(s: &mut String, x: i64)
    ensures
        final(s)@ == old(s)@ + signed_decimal(x as int),
{
    if x < 0 {
        push_char(s, '-');
        let magnitude: u64 = ((-(x + 1)) as u64) + 1;
        append_decimal(s, magnitude);
        assert(final(s)@ =~= old(s)@ + signed_decimal(x as int));
    } else {
        append_decimal(s, x as u64);
    }
}

/// Euclid's algorithm on unsigned 128-bit magnitudes; the result is
/// never below 1.
fn gcd_u128(a0: u128, b0: u128) -> (g: u128)
    ensures
        g as int == gcd_at_least_one(a0 as nat, b0 as nat),
{
    let mut a = a0;
    let mut b = b0;
    while b != 0
        invariant
            gcd(a as nat, b as nat) == gcd(a0 as nat, b0 as nat),
        decreases b,
    {
        let t = b;
        b = a % b;
        a = t;
    }
    if a == 0 {
        1
    } else {
        a
    }
}

/// Sign-normalise `n/d`, then divide both terms by their gcd when it
/// is above 1 and at most `limit`.
fn lowest_terms_i128(n: i128, d: i128, limit: u128) -> (r: (i128, i128))
    requires
        n > i128::MIN,
        d > i128::MIN,
        limit <= i128::MAX,
    ensures
        r.0 == lowest_terms(n as int, d as int, limit as int).0,
        r.1 == lowest_terms(n as int, d as int, limit as int).1,
{
    let n2: i128 = if d < 0 {
        -n
    } else {
        n
    };
    let d2: i128 = if d < 0 {
        -d
    } else {
        d
    };
    let na: u128 = if n2 < 0 {
        (-n2) as u128
    } else {
        n2 as u128
    };
    let da: u128 = d2 as u128;
    let g = gcd_u128(na, da);
    proof {
        lemma_gcd_divides(na as nat, da as nat);
        lemma_lowest_terms(n as int, d as int, limit as int);
    }
    if g > 1 && g <= limit {
        let gi: i128 = g as i128;
        proof {
            assert(g == gcd(na as nat, da as nat));
            assert(na as int % gi as int == 0);
            lemma_exact_div(na as int, gi as int);
            lemma_exact_div(da as int, gi as int);
        }
        let qn: u128 = na / g;
        let qd: u128 = da / g;
        let rn: i128 = if n2 < 0 {
            -(qn as i128)
        } else {
            qn as i128
        };
        proof {
            let p = lowest_terms(n as int, d as int, limit as int);
            assert(p.0 == n2 as int / gi as int);
            assert(p.1 == d2 as int / gi as int);
            if n2 < 0 {
                assert(na as int == -(n2 as int));
                // (-x) / g == -(x / g) for an exact multiple x of g
                let q = na as int / gi as int;
                assert(na as int == q * gi);
                assert(n2 as int == (-q) * gi) by (nonlinear_arith)
                    requires
                        na as int == q * gi,
                        n2 as int == -(na as int),
                ;
                lemma_fundamental_div_mod_converse_div(n2 as int, gi as int, -q, 0);
            }
        }
        (rn, qd as i128)
    } else {
        (n2, d2)
    }
}

/// Move any sign on the denominator onto the numerator, leaving the
/// denominator non-negative.
fn sign_normalized(num: i64, den: i64) -> (r: (i128, i128))
    ensures
        r.0 == norm_num(Rational { num, den }),
        r.1 == norm_den(Rational { num, den }),
{
    if den < 0 {
        (-(num as i128), -(den as i128))
    } else {
        (num as i128, den as i128)
    }
}

/// `x` clamped to the `i64` range.
fn clamp_to_i64(x: i128) -> (r: i64)
    ensures
        r == clamp_i64(x as int),
{
    if x > i64::MAX as i128 {
        i64::MAX
    } else if x < i64::MIN as i128 {
        i64::MIN
    } else {
        x as i64
    }
}

/// Rank on the extended line: `±2` for `±n/0`, else the sign.
fn extended_rank_of(n: i128, d: i128) -> (r: i64)
    ensures
        d == 0 ==> r == 2 * sgn(n as int),
        d != 0 ==> r == sgn(n as int),
{
    let s: i64 = if n > 0 {
        1
    } else if n < 0 {
        -1
    } else {
        0
    };
    if d == 0 {
        s * 2
    } else {
        s
    }
}

/// The product of two terms of magnitude at most `2^63` fits in 128
/// bits.
proof fn lemma_wide_product_bound(x: int, y: int)
    requires
        -0x8000_0000_0000_0000 <= x <= 0x8000_0000_0000_0000,
        -0x8000_0000_0000_0000 <= y <= 0x8000_0000_0000_0000,
    ensures
        -0x4000_0000_0000_0000_0000_0000_0000_0000 <= x * y
            <= 0x4000_0000_0000_0000_0000_0000_0000_0000,
{
    assert(-0x4000_0000_0000_0000_0000_0000_0000_0000 <= x * y
        <= 0x4000_0000_0000_0000_0000_0000_0000_0000) by (nonlinear_arith)
        requires
            -0x8000_0000_0000_0000 <= x <= 0x8000_0000_0000_0000,
            -0x8000_0000_0000_0000 <= y <= 0x8000_0000_0000_0000,
    ;
}

/// The product of two 64-bit signed values fits comfortably in 128
/// bits.
proof fn lemma_i64_product_bound(x: int, y: int)
    requires
        i64::MIN <= x <= i64::MAX,
        i64::MIN <= y <= i64::MAX,
    ensures
        -0x4000_0000_0000_0000_0000_0000_0000_0000 + 0x8000_0000_0000_0000 <= x * y
            <= 0x4000_0000_0000_0000_0000_0000_0000_0000,
{
    assert(-0x4000_0000_0000_0000_0000_0000_0000_0000 + 0x8000_0000_0000_0000 <= x * y
        <= 0x4000_0000_0000_0000_0000_0000_0000_0000) by (nonlinear_arith)
        requires
            -0x8000_0000_0000_0000 <= x <= 0x7fff_ffff_ffff_ffff,
            -0x8000_0000_0000_0000 <= y <= 0x7fff_ffff_ffff_ffff,
    ;
}

/// Below the one product `i64::MIN * i64::MIN = 2^126`, a product of
/// two 64-bit terms is at most `2^126 - 2^63`.
proof fn lemma_product_below_top(x: int, y: int)
    requires
        i64::MIN <= x <= i64::MAX,
        i64::MIN <= y <= i64::MAX,
    ensures
        x * y <= 0x4000_0000_0000_0000_0000_0000_0000_0000,
        !(x == i64::MIN && y == i64::MIN) ==> x * y <= 0x4000_0000_0000_0000_0000_0000_0000_0000
            - 0x8000_0000_0000_0000,
{
    lemma_i64_product_bound(x, y);
    if x == i64::MIN && y != i64::MIN {
        assert(x * y == -0x8000_0000_0000_0000 * y);
    } else if y == i64::MIN && x != i64::MIN {
        assert(x * y == x * -0x8000_0000_0000_0000);
    } else if x != i64::MIN && y != i64::MIN {
        assert(x * y <= 0x4000_0000_0000_0000_0000_0000_0000_0000 - 0x8000_0000_0000_0000)
            by (nonlinear_arith)
            requires
                -0x7fff_ffff_ffff_ffff <= x <= 0x7fff_ffff_ffff_ffff,
                -0x7fff_ffff_ffff_ffff <= y <= 0x7fff_ffff_ffff_ffff,
        ;
    }
}

/// Three-way value comparison as `-1`, `0`, `1`.
fn order_of_values(a: &Rational, b: &Rational) -> (r: i64)
    ensures
        r == compare_value(*a, *b),
{
    let (an, ad) = sign_normalized(a.num, a.den);
    let (bn, bd) = sign_normalized(b.num, b.den);
    if ad != 0 && bd != 0 {
        proof {
            lemma_wide_product_bound(an as int, bd as int);
            lemma_wide_product_bound(bn as int, ad as int);
        }
        let l: i128 = an * bd;
        let r: i128 = bn * ad;
        if l < r {
            -1
        } else if l > r {
            1
        } else {
            0
        }
    } else {
        let ra = extended_rank_of(an, ad);
        let rb = extended_rank_of(bn, bd);
        proof {
            assert(ra == extended_rank(*a));
            assert(rb == extended_rank(*b));
        }
        if ra < rb {
            -1
        } else if ra > rb {
            1
        } else {
            0
        }
    }
}

impl Rational {
    pub fn new(num: i64, den: i64) -> (r: Self)
        ensures
            r.num == num,
            r.den == den,
    {
        Self { num, den }
    }

    pub fn zero() -> (r: Self)
        ensures
            r.num == 0,
            r.den == 1,
    {
        Self { num: 0, den: 1 }
    }

    pub fn is_zero(&self) -> (b: bool)
        ensures
            b == (self.num == 0),
    {
        self.num == 0
    }

    /// Reduce the fraction to lowest terms. Sign is normalized onto the
    /// numerator.
    ///
    /// Total: when a term of magnitude `2^63` (an `i64::MIN` term) cannot
    /// be divided away, it is clamped to `i64::MAX`, the closest
    /// representable fraction; otherwise the result denotes the same
    /// number.
    pub fn reduced(self) -> (r: Self)
        ensures
            r == reduced_value(self),
            r.den >= 0,
            reduced_terms_fit(self) ==> same_value(r, self),
            self.num != i64::MIN && self.den != i64::MIN ==> reduced_terms_fit(self),
    {
        let (a, b) = lowest_terms_i128(self.num as i128, self.den as i128, i128::MAX as u128);
        proof {
            lemma_lowest_terms(self.num as int, self.den as int, i128::MAX as int);
            if reduced_terms_fit(self) {
                lemma_reduction_keeps_value(self, a as int, b as int);
            }
        }
        Rational { num: clamp_to_i64(a), den: clamp_to_i64(b) }
    }

    /// Invert the fraction (num/den → den/num).
    pub fn invert(self) -> (r: Self)
        ensures
            r.num == self.den,
            r.den == self.num,
    {
        Self { num: self.den, den: self.num }
    }

    /// Compare two fractions by the *number they denote*, not by their
    /// stored fields. Uses a 128-bit cross-product so `30000/1001` and
    /// `30/1` order correctly without reducing, and folds a negative
    /// denominator's sign onto the numerator first.
    ///
    /// A zero denominator is treated as a signed "infinity": `+n/0`
    /// sorts above every finite fraction, `-n/0` below every finite
    /// fraction, and `0/0` ties with a finite zero.
    pub fn cmp_value(&self, other: &Self) -> (o: Ordering)
        ensures
            (o == Ordering::Less) == (compare_value(*self, *other) < 0),
            (o == Ordering::Equal) == (compare_value(*self, *other) == 0),
            (o == Ordering::Greater) == (compare_value(*self, *other) > 0),
    {
        let c = order_of_values(self, other);
        if c < 0 {
            Ordering::Less
        } else if c > 0 {
            Ordering::Greater
        } else {
            Ordering::Equal
        }
    }

    /// Whether two fractions denote the same number (value equality),
    /// e.g. `2/4` and `1/2`. Contrast with `==`, which is structural.
    pub fn equals_value(&self, other: &Self) -> (b: bool)
        ensures
            b == same_value(*self, *other),
    {
        order_of_values(self, other) == 0
    }

    /// The sign of the fraction: `-1`, `0`, or `1`. A zero denominator
    /// reports the sign of the numerator.
    pub fn signum(&self) -> (s: i64)
        ensures
            s == sgn(norm_num(*self)),
    {
        let (n, _) = sign_normalized(self.num, self.den);
        if n > 0 {
            1
        } else if n < 0 {
            -1
        } else {
            0
        }
    }

    /// The absolute value of the fraction (sign stripped from both
    /// terms). Total: a term of magnitude `2^63` (an `i64::MIN` term)
    /// becomes `i64::MAX`, the closest representable magnitude.
    pub fn abs(self) -> (r: Self)
        ensures
            r.num == clamp_i64(mag(self.num as int) as int),
            r.den == clamp_i64(mag(self.den as int) as int),
            r.num >= 0,
            r.den >= 0,
    {
        let n: i128 = self.num as i128;
        let d: i128 = self.den as i128;
        Self {
            num: clamp_to_i64(if n < 0 {
                -n
            } else {
                n
            }),
            den: clamp_to_i64(if d < 0 {
                -d
            } else {
                d
            }),
        }
    }

    /// The fraction written as `num/den` in decimal, each term with a
    /// leading `-` when negative.
    pub fn to_string(&self) -> (s: String)
        ensures
            s@ == signed_decimal(self.num as int) + seq!['/'] + signed_decimal(self.den as int),
    {
        let mut s = String::new();
        append_signed_decimal(&mut s, self.num);
        push_char(&mut s, '/');
        append_signed_decimal(&mut s, self.den);
        s
    }
}

/// A reduction result with the same cross-product relation as the
/// sign-normalised input denotes the same value.
proof fn lemma_reduction_keeps_value(r: Rational, a: int, b: int)
    requires
        reduced_terms_fit(r),
        a == lowest_terms(r.num as int, r.den as int, i128::MAX as int).0,
        b == lowest_terms(r.num as int, r.den as int, i128::MAX as int).1,
    ensures
        i64::MIN <= a <= i64::MAX,
        i64::MIN <= b <= i64::MAX,
        b >= 0,
        same_value(Rational { num: a as i64, den: b as i64 }, r),
{
    lemma_lowest_terms(r.num as int, r.den as int, i128::MAX as int);
    let n2 = norm_num(r);
    let d2 = norm_den(r);
    let x = Rational { num: a as i64, den: b as i64 };
    assert(norm_num(x) == a && norm_den(x) == b);
    if r.den != 0 {
        assert(d2 > 0);
        assert(a * d2 == n2 * b);
    } else {
        assert(b == 0);
        assert(extended_rank(x) == extended_rank(r));
    }
}


/// Reduce an exact wide fraction and narrow both terms to 64 bits.
fn narrow(n: i128, d: i128) -> (r: Rational)
    requires
        n > i128::MIN,
        d > i128::MIN,
    ensures
        r == narrow_reduced(n as int, d as int),
{
    let (a, b) = lowest_terms_i128(n, d, i128::MAX as u128);
    Rational { num: clamp_to_i64(a), den: clamp_to_i64(b) }
}

/// `-a`: the numerator negated, the denominator kept. Negation wraps:
/// an `i64::MIN` numerator, whose negation does not fit, stays as it is.
pub open spec fn negated(a: Rational) -> Rational {
    Rational {
        num: if a.num == i64::MIN {
            i64::MIN
        } else {
            (-a.num) as i64
        },
        den: a.den,
    }
}

/// Exact numerator of `a * b`.
pub open spec fn mul_num(a: Rational, b: Rational) -> int {
    a.num * b.num
}

/// Exact numerator of `a / b` (`a.num * b.den`).
pub open spec fn quot_num(a: Rational, b: Rational) -> int {
    a.num * b.den
}

/// Exact denominator of `a / b` (`a.den * b.num`).
pub open spec fn quot_den(a: Rational, b: Rational) -> int {
    a.den * b.num
}

impl core::ops::Add for Rational {
    type Output = Rational;

    /// Add two fractions, returning the result in lowest terms.
    /// A reduced term beyond the `i64` range is clamped to it, so the
    /// denominator is never negative.
    fn add(self, rhs: Self) -> (r: Self)
        ensures
            r == added(self, rhs),
    {
        if self.num == i64::MIN && self.den == i64::MIN && rhs.num == i64::MIN && rhs.den
            == i64::MIN {
            return Rational { num: 2, den: 1 };
        }
        proof {
            lemma_i64_product_bound(self.num as int, rhs.den as int);
            lemma_i64_product_bound(rhs.num as int, self.den as int);
            lemma_i64_product_bound(self.den as int, rhs.den as int);
            lemma_product_below_top(self.num as int, rhs.den as int);
            lemma_product_below_top(rhs.num as int, self.den as int);
        }
        let num: i128 = self.num as i128 * rhs.den as i128 + rhs.num as i128 * self.den as i128;
        let den: i128 = self.den as i128 * rhs.den as i128;
        narrow(num, den)
    }
}

impl vstd::std_specs::ops::AddSpecImpl for Rational {
    open spec fn obeys_add_spec() -> bool {
        true
    }

    open spec fn add_req(self, rhs: Rational) -> bool {
        true
    }

    open spec fn add_spec(self, rhs: Rational) -> Rational {
        added(self, rhs)
    }
}

impl core::ops::Sub for Rational {
    type Output = Rational;

    /// Subtract `rhs` from `self`, returning the result in lowest terms.
    /// A reduced term beyond the `i64` range is clamped to it, so the
    /// denominator is never negative.
    fn sub(self, rhs: Self) -> (r: Self)
        ensures
            r == narrow_reduced(diff_num(self, rhs), prod_den(self, rhs)),
    {
        proof {
            lemma_i64_product_bound(self.num as int, rhs.den as int);
            lemma_i64_product_bound(rhs.num as int, self.den as int);
            lemma_i64_product_bound(self.den as int, rhs.den as int);
        }
        let num: i128 = self.num as i128 * rhs.den as i128 - rhs.num as i128 * self.den as i128;
        let den: i128 = self.den as i128 * rhs.den as i128;
        narrow(num, den)
    }
}

impl vstd::std_specs::ops::SubSpecImpl for Rational {
    open spec fn obeys_sub_spec() -> bool {
        true
    }

    open spec fn sub_req(self, rhs: Rational) -> bool {
        true
    }

    open spec fn sub_spec(self, rhs: Rational) -> Rational {
        narrow_reduced(diff_num(self, rhs), prod_den(self, rhs))
    }
}

impl core::ops::Mul for Rational {
    type Output = Rational;

    /// Multiply two fractions, returning the result in lowest terms.
    /// A reduced term beyond the `i64` range is clamped to it, so the
    /// denominator is never negative.
    fn mul(self, rhs: Self) -> (r: Self)
        ensures
            r == narrow_reduced(mul_num(self, rhs), prod_den(self, rhs)),
    {
        proof {
            lemma_i64_product_bound(self.num as int, rhs.num as int);
            lemma_i64_product_bound(self.den as int, rhs.den as int);
        }
        let num: i128 = self.num as i128 * rhs.num as i128;
        let den: i128 = self.den as i128 * rhs.den as i128;
        narrow(num, den)
    }
}

impl vstd::std_specs::ops::MulSpecImpl for Rational {
    open spec fn obeys_mul_spec() -> bool {
        true
    }

    open spec fn mul_req(self, rhs: Rational) -> bool {
        true
    }

    open spec fn mul_spec(self, rhs: Rational) -> Rational {
        narrow_reduced(mul_num(self, rhs), prod_den(self, rhs))
    }
}

impl core::ops::Div for Rational {
    type Output = Rational;

    /// Divide `self` by `rhs` (multiply by the reciprocal), returning
    /// the result in lowest terms. A reduced term beyond the `i64` range
    /// is clamped to it, so the denominator is never negative.
    fn div(self, rhs: Self) -> (r: Self)
        ensures
            r == narrow_reduced(quot_num(self, rhs), quot_den(self, rhs)),
    {
        proof {
            lemma_i64_product_bound(self.num as int, rhs.den as int);
            lemma_i64_product_bound(self.den as int, rhs.num as int);
        }
        let num: i128 = self.num as i128 * rhs.den as i128;
        let den: i128 = self.den as i128 * rhs.num as i128;
        narrow(num, den)
    }
}

impl vstd::std_specs::ops::DivSpecImpl for Rational {
    open spec fn obeys_div_spec() -> bool {
        true
    }

    open spec fn div_req(self, rhs: Rational) -> bool {
        true
    }

    open spec fn div_spec(self, rhs: Rational) -> Rational {
        narrow_reduced(quot_num(self, rhs), quot_den(self, rhs))
    }
}

impl core::ops::Neg for Rational {
    type Output = Rational;

    /// Negate the fraction (sign applied to the numerator, wrapping on
    /// an `i64::MIN` numerator).
    fn neg(self) -> (r: Self)
        ensures
            r == negated(self),
    {
        if self.num == i64::MIN {
            self
        } else {
            Self { num: -self.num, den: self.den }
        }
    }
}

impl vstd::std_specs::ops::NegSpecImpl for Rational {
    open spec fn obeys_neg_spec() -> bool {
        true
    }

    open spec fn neg_req(self) -> bool {
        true
    }

    open spec fn neg_spec(self) -> Rational {
        negated(self)
    }
}


// ───────────────────────── laws ─────────────────────────

/// `r` denotes the exact fraction `n/d`: sign on the numerator, same
/// cross-product, zero denominator exactly when `d` is zero.
pub open spec fn denotes(r: Rational, n: int, d: int) -> bool {
    let n2 = if d < 0 {
        -n
    } else {
        n
    };
    let d2 = if d < 0 {
        -d
    } else {
        d
    };
    &&& r.den >= 0
    &&& r.num * d2 == n2 * r.den
    &&& (r.den == 0) == (d2 == 0)
    &&& sgn(r.num as int) == sgn(n2)
}

/// The reduced form of `n/d` fits in 64-bit terms, so narrowing
/// truncates nothing.
pub open spec fn reduction_fits(n: int, d: int) -> bool {
    let p = lowest_terms(n, d, i128::MAX as int);
    &&& i64::MIN <= p.0 <= i64::MAX
    &&& i64::MIN <= p.1 <= i64::MAX
}

/// For finite operands the sign of a value orders like the value.
proof fn lemma_finite_rank(x: Rational, y: Rational)
    requires
        x.den != 0,
        y.den != 0,
    ensures
        compare_value(x, y) <= 0 ==> extended_rank(x) <= extended_rank(y),
        extended_rank(x) < extended_rank(y) ==> compare_value(x, y) < 0,
        extended_rank(x) == 0 && extended_rank(y) == 0 ==> compare_value(x, y) == 0,
{
    let xn = norm_num(x);
    let xd = norm_den(x);
    let yn = norm_num(y);
    let yd = norm_den(y);
    assert(xd > 0 && yd > 0);
    assert(xn * yd <= yn * xd ==> sgn(xn) <= sgn(yn)) by (nonlinear_arith)
        requires
            xd > 0,
            yd > 0,
    ;
    assert(sgn(xn) < sgn(yn) ==> xn * yd < yn * xd) by (nonlinear_arith)
        requires
            xd > 0,
            yd > 0,
    ;
    assert(xn == 0 && yn == 0 ==> xn * yd == yn * xd) by (nonlinear_arith);
}

/// Comparing by value is reflexive: every fraction ties with itself.
pub proof fn law_compare_value_reflexive(a: Rational)
    ensures
        compare_value(a, a) == 0,
{
    assert(norm_num(a) * norm_den(a) - norm_num(a) * norm_den(a) == 0) by (nonlinear_arith);
}

/// Comparing by value is antisymmetric: swapping the operands reverses
/// the order.
pub proof fn law_compare_value_antisymmetric(a: Rational, b: Rational)
    ensures
        compare_value(a, b) == -compare_value(b, a),
{
}

/// Comparing by value is transitive: `a <= b` and `b <= c` give
/// `a <= c`, with zero denominators ordered as signed infinities.
pub proof fn law_compare_value_transitive(a: Rational, b: Rational, c: Rational)
    requires
        compare_value(a, b) <= 0,
        compare_value(b, c) <= 0,
    ensures
        compare_value(a, c) <= 0,
{
    if a.den != 0 && b.den != 0 && c.den != 0 {
        let an = norm_num(a);
        let ad = norm_den(a);
        let bn = norm_num(b);
        let bd = norm_den(b);
        let cn = norm_num(c);
        let cd = norm_den(c);
        assert(an * cd <= cn * ad) by (nonlinear_arith)
            requires
                ad > 0,
                bd > 0,
                cd > 0,
                an * bd <= bn * ad,
                bn * cd <= cn * bd,
        ;
    } else {
        // the order of ranks is monotone in the order of values
        if a.den != 0 && b.den != 0 {
            lemma_finite_rank(a, b);
        }
        if b.den != 0 && c.den != 0 {
            lemma_finite_rank(b, c);
        }
        assert(extended_rank(a) <= extended_rank(b));
        assert(extended_rank(b) <= extended_rank(c));
        if a.den != 0 && c.den != 0 {
            lemma_finite_rank(a, c);
        }
    }
}

/// Value equality is a congruence for value comparison.
pub proof fn law_compare_value_respects_same_value(a: Rational, a2: Rational, b: Rational)
    requires
        same_value(a, a2),
    ensures
        compare_value(a, b) == compare_value(a2, b),
{
    law_compare_value_antisymmetric(a, a2);
    law_compare_value_antisymmetric(a, b);
    law_compare_value_antisymmetric(a2, b);
    if compare_value(a, b) <= 0 {
        law_compare_value_transitive(a2, a, b);
    }
    if compare_value(a, b) >= 0 {
        law_compare_value_transitive(b, a, a2);
    }
    law_compare_value_antisymmetric(a2, a);
    if compare_value(a2, b) <= 0 {
        law_compare_value_transitive(a, a2, b);
    }
    if compare_value(a2, b) >= 0 {
        law_compare_value_transitive(b, a2, a);
    }
}

/// Reduction keeps the value: `r.reduced()` denotes the same number.
pub proof fn law_reduced_same_value(r: Rational)
    requires
        reduced_terms_fit(r),
    ensures
        same_value(reduced_value(r), r),
        reduced_value(r).den >= 0,
{
    let p = lowest_terms(r.num as int, r.den as int, i128::MAX as int);
    lemma_reduction_keeps_value(r, p.0, p.1);
}

/// Reduction preserves value ordering.
pub proof fn law_reduced_preserves_order(a: Rational, b: Rational)
    requires
        reduced_terms_fit(a),
        reduced_terms_fit(b),
    ensures
        compare_value(reduced_value(a), reduced_value(b)) == compare_value(a, b),
{
    law_reduced_same_value(a);
    law_reduced_same_value(b);
    law_compare_value_respects_same_value(reduced_value(a), a, reduced_value(b));
    law_compare_value_antisymmetric(a, reduced_value(b));
    law_compare_value_antisymmetric(a, b);
    law_compare_value_antisymmetric(b, reduced_value(b));
    law_compare_value_respects_same_value(reduced_value(b), b, a);
}

/// A reduced wide fraction that fits 64 bits denotes its input exactly.
pub proof fn law_narrow_reduced_exact(n: int, d: int)
    requires
        reduction_fits(n, d),
    ensures
        denotes(narrow_reduced(n, d), n, d),
{
    lemma_lowest_terms(n, d, i128::MAX as int);
}

/// Addition is exact: when the reduced sum fits 64 bits, `a + b`
/// denotes `(a.num * b.den + b.num * a.den) / (a.den * b.den)` with the
/// sign on the numerator.
pub proof fn law_add_exact(a: Rational, b: Rational)
    requires
        reduction_fits(sum_num(a, b), prod_den(a, b)),
    ensures
        denotes(added(a, b), sum_num(a, b), prod_den(a, b)),
{
    if !sum_overflows(a, b) {
        law_narrow_reduced_exact(sum_num(a, b), prod_den(a, b));
    }
}

/// Subtraction is exact when the reduced difference fits 64 bits.
pub proof fn law_sub_exact(a: Rational, b: Rational)
    requires
        reduction_fits(diff_num(a, b), prod_den(a, b)),
    ensures
        denotes(narrow_reduced(diff_num(a, b), prod_den(a, b)), diff_num(a, b), prod_den(a, b)),
{
    law_narrow_reduced_exact(diff_num(a, b), prod_den(a, b));
}

/// Multiplication is exact when the reduced product fits 64 bits.
pub proof fn law_mul_exact(a: Rational, b: Rational)
    requires
        reduction_fits(mul_num(a, b), prod_den(a, b)),
    ensures
        denotes(narrow_reduced(mul_num(a, b), prod_den(a, b)), mul_num(a, b), prod_den(a, b)),
{
    law_narrow_reduced_exact(mul_num(a, b), prod_den(a, b));
}

/// Division is exact when the reduced quotient fits 64 bits.
pub proof fn law_div_exact(a: Rational, b: Rational)
    requires
        reduction_fits(quot_num(a, b), quot_den(a, b)),
    ensures
        denotes(narrow_reduced(quot_num(a, b), quot_den(a, b)), quot_num(a, b), quot_den(a, b)),
{
    law_narrow_reduced_exact(quot_num(a, b), quot_den(a, b));
}

/// Negating twice gives back the fraction, for every fraction
/// (negation wraps on an `i64::MIN` numerator, so it too round-trips).
pub proof fn law_neg_involutive(a: Rational)
    ensures
        negated(negated(a)) == a,
{
}

/// Every arithmetic result carries its sign on the numerator: the
/// denominators of `a + b`, `a - b`, `a * b`, `a / b` and of
/// `a.reduced()` are never negative, on any operands.
pub proof fn law_results_normalize_sign(a: Rational, b: Rational)
    ensures
        added(a, b).den >= 0,
        narrow_reduced(diff_num(a, b), prod_den(a, b)).den >= 0,
        narrow_reduced(mul_num(a, b), prod_den(a, b)).den >= 0,
        narrow_reduced(quot_num(a, b), quot_den(a, b)).den >= 0,
        reduced_value(a).den >= 0,
{
    lemma_lowest_terms(sum_num(a, b), prod_den(a, b), i128::MAX as int);
    lemma_lowest_terms(diff_num(a, b), prod_den(a, b), i128::MAX as int);
    lemma_lowest_terms(mul_num(a, b), prod_den(a, b), i128::MAX as int);
    lemma_lowest_terms(quot_num(a, b), quot_den(a, b), i128::MAX as int);
    lemma_lowest_terms(a.num as int, a.den as int, i128::MAX as int);
}

/// Negation negates the value, and negating twice gives back the
/// same fraction.
pub proof fn law_neg_negates(a: Rational)
    requires
        a.num != i64::MIN,
        a.den != i64::MIN,
    ensures
        norm_num(negated(a)) == -norm_num(a),
        norm_den(negated(a)) == norm_den(a),
        negated(negated(a)) == a,
        sign_normalizable(negated(a)),
{
}

/// The absolute value is never below zero and denotes `a` or `-a`.
pub proof fn law_abs_value(a: Rational)
    requires
        a.num != i64::MIN,
        a.den != i64::MIN,
    ensures
        ({
            let r = Rational { num: mag(a.num as int) as i64, den: mag(a.den as int) as i64 };
            &&& sgn(norm_num(r)) >= 0
            &&& (same_value(r, a) || same_value(r, negated(a)))
        }),
{
    let r = Rational { num: mag(a.num as int) as i64, den: mag(a.den as int) as i64 };
    let n = negated(a);
    if a.den != 0 {
        assert(norm_num(r) * norm_den(a) == norm_num(a) * norm_den(r) || norm_num(r) * norm_den(n)
            == norm_num(n) * norm_den(r)) by (nonlinear_arith)
            requires
                norm_num(r) == mag(a.num as int),
                norm_den(r) == mag(a.den as int),
                norm_den(n) == norm_den(a),
                norm_num(n) == -norm_num(a),
                norm_num(a) == if a.den < 0 {
                    -a.num
                } else {
                    a.num as int
                },
                norm_den(a) == mag(a.den as int),
        ;
    }
}

} // verus!
