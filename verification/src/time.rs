//! Time base and timestamp types.

use crate::rational::{mag, Rational};
use vstd::arithmetic::div_mod::lemma_div_is_ordered;
use vstd::prelude::*;

verus! {

/// A time base expressed as a rational number of seconds per tick.
///
/// A `TimeBase` of 1/48000 means each timestamp unit is 1/48000 second.
#[derive(Clone, Copy, Debug, PartialEq, Eq, Hash, Structural)]
pub struct TimeBase(pub Rational);

// ───────────────────────── rescale model ─────────────────────────

/// Numerator of the conversion factor `from / to`: `from.num * to.den`.
pub open spec fn factor_num(from: Rational, to: Rational) -> int {
    from.num * to.den
}

/// Denominator of the conversion factor `from / to`: `from.den * to.num`.
pub open spec fn factor_den(from: Rational, to: Rational) -> int {
    from.den * to.num
}

/// The integer nearest to `p / q` (`q != 0`), ties rounded away from
/// zero.
pub open spec fn round_half_away(p: int, q: int) -> int {
    let m: int = (mag(p) as int + mag(q) as int / 2) / (mag(q) as int);
    if (p >= 0) == (q > 0) {
        m
    } else {
        -m
    }
}

/// `x` clamped into the `i64` range.
pub open spec fn saturate_i64(x: int) -> i64 {
    if x > i64::MAX {
        i64::MAX
    } else if x < i64::MIN {
        i64::MIN
    } else {
        x as i64
    }
}

/// What `rescale(value, from, to)` returns: `value * from / to` rounded
/// half away from zero and saturated to `i64`; `0` when the factor is
/// undefined (its denominator is zero).
pub open spec fn rescaled(value: i64, from: Rational, to: Rational) -> i64 {
    let d = factor_den(from, to);
    if d == 0 {
        0
    } else {
        saturate_i64(round_half_away(value * factor_num(from, to), d))
    }
}

proof fn lemma_i64_product_bound(x: int, y: int)
    requires
        i64::MIN <= x <= i64::MAX,
        i64::MIN <= y <= i64::MAX,
    ensures
        -0x4000_0000_0000_0000_0000_0000_0000_0000 + 0x8000_0000_0000_0000 <= x * y
            <= 0x4000_0000_0000_0000_0000_0000_0000_0000,
{
    assert(-0x4000_0000_0000_0000_0000_0000_0000_0000 + 0x8000_0000_0000_0000 <= x * y
        <= 0x4000_0000_0000_0000_0000_0000_0000_0000) by (nonlinear_arith)
        requires
            -0x8000_0000_0000_0000 <= x <= 0x7fff_ffff_ffff_ffff,
            -0x8000_0000_0000_0000 <= y <= 0x7fff_ffff_ffff_ffff,
    ;
}

/// Magnitude of a 128-bit value as an unsigned number (total, also for
/// `i128::MIN`).
fn magnitude_u128(x: i128) -> (m: u128)
    ensures
        m == mag(x as int),
{
    if x < 0 {
        ((-(x + 1)) as u128) + 1
    } else {
        x as u128
    }
}

/// `a * r` divided by `b`, as quotient and remainder, for `r < b`:
/// computed bit by bit of `a` so that no intermediate exceeds `3 * b`.
fn mul_div_small(a: u128, r: u128, b: u128) -> (qr: (u128, u128))
    requires
        r < b,
        b <= 0x4000_0000_0000_0000_0000_0000_0000_0000,
        a <= 0x8000_0000_0000_0000,
    ensures
        a * r == qr.0 * b + qr.1,
        qr.1 < b,
        qr.0 <= a,
    decreases a,
{
    if a == 0 {
        assert(a * r == 0) by (nonlinear_arith)
            requires
                a == 0,
        ;
        return (0, 0);
    }
    let half = a / 2;
    let bit = a % 2;
    let (q0, r0) = mul_div_small(half, r, b);
    assert(bit * r <= r) by (nonlinear_arith)
        requires
            bit <= 1,
    ;
    assert(q0 <= half);
    let mut x: u128 = 2 * r0 + bit * r;
    let mut q: u128 = 2 * q0;
    assert(a == 2 * half + bit);
    assert(a * r == q * b + x) by (nonlinear_arith)
        requires
            a == 2 * half + bit,
            half * r == q0 * b + r0,
            q == 2 * q0,
            x == 2 * r0 + bit * r,
    ;
    if x >= b {
        assert(a * r == (q + 1) * b + (x - b)) by (nonlinear_arith)
            requires
                a * r == q * b + x,
        ;
        x = x - b;
        q = q + 1;
    }
    if x >= b {
        assert(a * r == (q + 1) * b + (x - b)) by (nonlinear_arith)
            requires
                a * r == q * b + x,
        ;
        x = x - b;
        q = q + 1;
    }
    assert(x < b);
    assert(q <= a) by (nonlinear_arith)
        requires
            a * r == q * b + x,
            r < b,
            x >= 0,
            q >= 0,
            b > 0,
    ;
    (q, x)
}

/// Rescale a value from one rational time base to another using 128-bit
/// intermediate arithmetic. Rounding is half-away-from-zero: a tie
/// rounds toward the larger magnitude (`+1.5 → +2`, `-1.5 → -2`) for
/// every sign combination of the operands. A result beyond the `i64`
/// range saturates to `i64::MAX` / `i64::MIN`; an undefined conversion
/// factor (zero denominator) gives `0`.
pub fn rescale(value: i64, from: Rational, to: Rational) -> (r: i64)
    ensures
        r == rescaled(value, from, to),
{
    proof {
        lemma_i64_product_bound(from.num as int, to.den as int);
        lemma_i64_product_bound(from.den as int, to.num as int);
    }
    let num: i128 = from.num as i128 * to.den as i128;
    let den: i128 = from.den as i128 * to.num as i128;
    if den == 0 {
        return 0;
    }
    let ghost prod: int = value * num;
    let prod_nonneg: bool = value == 0 || num == 0 || ((value > 0) == (num > 0));
    assert(prod_nonneg == (prod >= 0)) by (nonlinear_arith)
        requires
            prod == value * num,
            prod_nonneg == (value == 0 || num == 0 || ((value > 0) == (num > 0))),
    ;
    let a: u128 = magnitude_u128(value as i128);
    let n: u128 = magnitude_u128(num);
    let b: u128 = magnitude_u128(den);
    let h: u128 = b / 2;
    assert(mag(prod) == a * n) by (nonlinear_arith)
        requires
            prod == value * num,
            a == mag(value as int),
            n == mag(num as int),
    ;
    // m = (a * n + h) / b, found as a * (n / b) + (a * (n % b) + h) / b.
    let q: u128 = n / b;
    let rem: u128 = n % b;
    let ghost m: int = (a * n + h) / (b as int);
    proof {
        vstd::arithmetic::div_mod::lemma_fundamental_div_mod(n as int, b as int);
        assert(a * n + h == (a * q) * b + (a * rem + h)) by (nonlinear_arith)
            requires
                n == b * q + rem,
        ;
    }
    let big: bool;
    let small: u128;
    match a.checked_mul(q) {
        Some(t) if t < 0x8000_0000_0000_0000u128 => {
            let (qq, rr) = mul_div_small(a, rem, b);
            let f: u128 = if rr + h >= b {
                qq + 1
            } else {
                qq
            };
            proof {
                assert(a * rem + h == qq * b + (rr + h)) by (nonlinear_arith)
                    requires
                        a * rem == qq * b + rr,
                ;
                assert(a * n + h == (t + qq) * b + (rr + h)) by (nonlinear_arith)
                    requires
                        a * n + h == (a * q) * b + (a * rem + h),
                        t == a * q,
                        a * rem + h == qq * b + (rr + h),
                ;
                if rr + h >= b {
                    assert(a * n + h == (t + qq + 1) * b + (rr + h - b)) by (nonlinear_arith)
                        requires
                            a * n + h == (t + qq) * b + (rr + h),
                    ;
                    vstd::arithmetic::div_mod::lemma_fundamental_div_mod_converse(
                        a * n + h,
                        b as int,
                        t + qq + 1,
                        rr + h - b,
                    );
                } else {
                    vstd::arithmetic::div_mod::lemma_fundamental_div_mod_converse(
                        a * n + h,
                        b as int,
                        t + qq,
                        rr + h,
                    );
                }
            }
            small = t + f;
            big = small >= 0x8000_0000_0000_0000u128;
            assert(small == m);
        },
        _ => {
            proof {
                assert(a * q >= 0x8000_0000_0000_0000) by {
                    if a * q < 0x8000_0000_0000_0000 {
                        assert(a * q <= u128::MAX);
                    }
                }
                assert(m >= a * q) by (nonlinear_arith)
                    requires
                        a * n + h == (a * q) * b + (a * rem + h),
                        m == (a * n + h) / (b as int),
                        b > 0,
                        a * rem + h >= 0,
                ;
            }
            small = 0;
            big = true;
        },
    }
    assert(m == (mag(prod) as int + mag(den as int) as int / 2) / (mag(den as int) as int));
    assert(big ==> m >= 0x8000_0000_0000_0000);
    assert(!big ==> m == small && small < 0x8000_0000_0000_0000);
    if prod_nonneg == (den > 0) {
        if big {
            i64::MAX
        } else {
            small as i64
        }
    } else {
        if big {
            i64::MIN
        } else {
            -(small as i64)
        }
    }
}

/// Rounding half away from zero lands within half a step of the exact
/// quotient, and a tie goes to the larger magnitude.
pub proof fn law_round_half_away_is_nearest(p: int, q: int)
    requires
        q != 0,
    ensures
        ({
            let r = round_half_away(p, q);
            &&& 2 * mag(p - r * q) <= mag(q)
            &&& 2 * mag(p - r * q) == mag(q) ==> mag(r * q) > mag(p)
        }),
{
    let a = mag(p) as int;
    let b = mag(q) as int;
    let h = b / 2;
    let m = (a + h) / b;
    let r = round_half_away(p, q);
    assert(b > 0);
    assert(a + h == b * m + (a + h) % b) by {
        vstd::arithmetic::div_mod::lemma_fundamental_div_mod(a + h, b);
    }
    let s = (a + h) % b;
    assert(0 <= s < b);
    assert(b == 2 * h || b == 2 * h + 1);
    // |a - m*b| = |s - h| with 0 <= s < b
    assert(a - m * b == s - h) by (nonlinear_arith)
        requires
            a + h == b * m + s,
    ;
    assert(2 * mag(a - m * b) <= b);
    assert(2 * mag(a - m * b) == b ==> m * b > a);
    assert(m >= 0) by {
        vstd::arithmetic::div_mod::lemma_div_pos_is_pos(a + h, b);
    }
    if p == 0 {
        assert(h < b);
        assert(m == 0) by {
            vstd::arithmetic::div_mod::lemma_basic_div(h, b);
        }
    }
    assert(mag(p - r * q) == mag(a - m * b) && mag(r * q) == m * b) by (nonlinear_arith)
        requires
            a == mag(p) as int,
            b == mag(q) as int,
            r == (if (p >= 0) == (q > 0) {
                m
            } else {
                -m
            }),
            m >= 0,
            p == 0 ==> m == 0,
    ;
}

/// Rounding half away from zero is monotone in the dividend for a
/// positive divisor.
proof fn lemma_round_monotone(p1: int, p2: int, q: int)
    requires
        p1 <= p2,
        q > 0,
    ensures
        round_half_away(p1, q) <= round_half_away(p2, q),
{
    let h = mag(q) / 2;
    let b = q;
    if p1 >= 0 {
        lemma_div_is_ordered(p1 + h, p2 + h, b);
    } else if p2 < 0 {
        lemma_div_is_ordered(-p2 + h, -p1 + h, b);
    } else {
        vstd::arithmetic::div_mod::lemma_div_pos_is_pos(-p1 + h, b);
        vstd::arithmetic::div_mod::lemma_div_pos_is_pos(p2 + h, b);
    }
}

/// Rounding depends only on the quotient: negating both operands
/// changes nothing.
proof fn lemma_round_negate_both(p: int, q: int)
    requires
        q != 0,
    ensures
        round_half_away(p, q) == round_half_away(-p, -q),
{
    if p == 0 {
        let h = mag(q) / 2;
        assert(h < mag(q));
        vstd::arithmetic::div_mod::lemma_basic_div(h as int, mag(q) as int);
    }
}

/// Rescaling is monotone in the value whenever the conversion factor
/// is not negative: `lo <= hi` gives `rescale(lo) <= rescale(hi)`.
pub proof fn law_rescale_monotone(lo: i64, hi: i64, from: Rational, to: Rational)
    requires
        lo <= hi,
        factor_num(from, to) * factor_den(from, to) >= 0,
    ensures
        rescaled(lo, from, to) <= rescaled(hi, from, to),
{
    let n = factor_num(from, to);
    let d = factor_den(from, to);
    if d != 0 {
        let r1 = round_half_away(lo * n, d);
        let r2 = round_half_away(hi * n, d);
        if d > 0 {
            assert(n >= 0) by (nonlinear_arith)
                requires
                    n * d >= 0,
                    d > 0,
            ;
            assert(lo * n <= hi * n) by (nonlinear_arith)
                requires
                    lo <= hi,
                    n >= 0,
            ;
            lemma_round_monotone(lo * n, hi * n, d);
        } else {
            assert(n <= 0) by (nonlinear_arith)
                requires
                    n * d >= 0,
                    d < 0,
            ;
            assert(-(lo * n) <= -(hi * n)) by (nonlinear_arith)
                requires
                    lo <= hi,
                    n <= 0,
            ;
            lemma_round_negate_both(lo * n, d);
            lemma_round_negate_both(hi * n, d);
            lemma_round_monotone(-(lo * n), -(hi * n), -d);
        }
        assert(r1 <= r2);
    }
}

impl TimeBase {
    pub fn new(num: i64, den: i64) -> (tb: Self)
        ensures
            tb.0.num == num,
            tb.0.den == den,
    {
        TimeBase(Rational::new(num, den))
    }

    /// Construct a `TimeBase` representing `1/rate` seconds per tick —
    /// the canonical "sample-rate-style" base (`1/48000` for 48 kHz PCM,
    /// `1/90000` for MPEG-TS). Equivalent to `TimeBase::new(1, rate)`.
    pub fn from_rate(rate: u32) -> (tb: Self)
        ensures
            tb.0.num == 1,
            tb.0.den == rate,
    {
        TimeBase(Rational::new(1, rate as i64))
    }

    /// `num` of the underlying [`Rational`].
    pub fn num(&self) -> (n: i64)
        ensures
            n == self.0.num,
    {
        self.0.num
    }

    /// `den` of the underlying [`Rational`].
    pub fn den(&self) -> (d: i64)
        ensures
            d == self.0.den,
    {
        self.0.den
    }

    pub fn as_rational(&self) -> (r: Rational)
        ensures
            r == self.0,
    {
        self.0
    }

    /// `true` when this time base is usable for rescaling — both terms
    /// non-zero. A zero denominator denotes "no defined time base".
    pub fn is_valid(&self) -> (b: bool)
        ensures
            b == (self.0.num != 0 && self.0.den != 0),
    {
        self.0.num != 0 && self.0.den != 0
    }

    /// Rescale a timestamp from this time base to another.
    pub fn rescale(&self, ts: i64, target: TimeBase) -> (r: i64)
        ensures
            r == rescaled(ts, self.0, target.0),
    {
        rescale(ts, self.0, target.0)
    }

    /// 1/1 — one tick per second.
    pub fn seconds() -> (tb: Self)
        ensures
            tb.0.num == 1,
            tb.0.den == 1,
    {
        TimeBase(Rational { num: 1, den: 1 })
    }

    /// 1/1000 — millisecond ticks (Matroska / WebM `Timecode` default).
    pub fn millis() -> (tb: Self)
        ensures
            tb.0.num == 1,
            tb.0.den == 1000,
    {
        TimeBase(Rational { num: 1, den: 1000 })
    }

    /// 1/1_000_000 — microsecond ticks.
    pub fn micros() -> (tb: Self)
        ensures
            tb.0.num == 1,
            tb.0.den == 1000000,
    {
        TimeBase(Rational { num: 1, den: 1000000 })
    }

    /// 1/1_000_000_000 — nanosecond ticks.
    pub fn nanos() -> (tb: Self)
        ensures
            tb.0.num == 1,
            tb.0.den == 1000000000,
    {
        TimeBase(Rational { num: 1, den: 1000000000 })
    }

    /// 1/90000 — 90 kHz, the MPEG-TS / RTP video PTS clock.
    pub fn mpeg_ts() -> (tb: Self)
        ensures
            tb.0.num == 1,
            tb.0.den == 90000,
    {
        TimeBase(Rational { num: 1, den: 90000 })
    }

    /// 1/48000 — 48 kHz audio sample clock.
    pub fn audio_48k() -> (tb: Self)
        ensures
            tb.0.num == 1,
            tb.0.den == 48000,
    {
        TimeBase(Rational { num: 1, den: 48000 })
    }

    /// 1/44100 — 44.1 kHz audio sample clock.
    pub fn audio_44k1() -> (tb: Self)
        ensures
            tb.0.num == 1,
            tb.0.den == 44100,
    {
        TimeBase(Rational { num: 1, den: 44100 })
    }

    /// 1/8000 — 8 kHz audio sample clock.
    pub fn audio_8k() -> (tb: Self)
        ensures
            tb.0.num == 1,
            tb.0.den == 8000,
    {
        TimeBase(Rational { num: 1, den: 8000 })
    }
}

/// A timestamp in a particular time base.
#[derive(Clone, Copy, Debug, PartialEq, Eq, Hash, Structural)]
pub struct Timestamp {
    pub value: i64,
    pub base: TimeBase,
}

impl Timestamp {
    pub fn new(value: i64, base: TimeBase) -> (ts: Self)
        ensures
            ts.value == value,
            ts.base == base,
    {
        Self { value, base }
    }

    /// The same instant expressed in `target`.
    pub fn rescale(&self, target: TimeBase) -> (ts: Self)
        ensures
            ts.value == rescaled(self.value, self.base.0, target.0),
            ts.base == target,
    {
        Self { value: self.base.rescale(self.value, target), base: target }
    }

    /// Advance the timestamp by `ticks` units in its own base. Returns
    /// `None` on `i64` overflow rather than wrapping.
    pub fn checked_add_ticks(&self, ticks: i64) -> (r: Option<Self>)
        ensures
            (r is Some <==> i64::MIN <= self.value + ticks <= i64::MAX),
            (r matches Some(t) ==> t.value == self.value + ticks && t.base == self.base),
    {
        match self.value.checked_add(ticks) {
            Some(v) => Some(Self { value: v, base: self.base }),
            None => None,
        }
    }

    /// Move the timestamp backwards by `ticks` units in its own base.
    /// Returns `None` on `i64` overflow.
    pub fn checked_sub_ticks(&self, ticks: i64) -> (r: Option<Self>)
        ensures
            (r is Some <==> i64::MIN <= self.value - ticks <= i64::MAX),
            (r matches Some(t) ==> t.value == self.value - ticks && t.base == self.base),
    {
        match self.value.checked_sub(ticks) {
            Some(v) => Some(Self { value: v, base: self.base }),
            None => None,
        }
    }

    /// Tick-difference `self - other` after rescaling `other` onto
    /// `self`'s base. Returns `None` when the subtraction would overflow
    /// `i64`.
    pub fn checked_diff(&self, other: Timestamp) -> (r: Option<i64>)
        ensures
            ({
                let o = rescaled(other.value, other.base.0, self.base.0);
                &&& (r is Some <==> i64::MIN <= self.value - o <= i64::MAX)
                &&& (r matches Some(d) ==> d == self.value - o)
            }),
    {
        let other_in_self_base = other.rescale(self.base).value;
        self.value.checked_sub(other_in_self_base)
    }
}

/// Advancing by `ticks` and moving back by the same amount returns to
/// the starting timestamp.
pub proof fn law_add_then_sub_ticks(ts: Timestamp, ticks: i64)
    requires
        i64::MIN <= ts.value + ticks <= i64::MAX,
    ensures
        i64::MIN <= (ts.value + ticks) - ticks <= i64::MAX,
        (Timestamp { value: ((ts.value + ticks) - ticks) as i64, base: ts.base }) == ts,
{
}

} // verus!
