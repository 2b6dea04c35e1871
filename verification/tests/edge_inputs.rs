//! Deterministic edge-biased sweeps over the numeric foundations:
//! `Rational`, `rescale`, `Timestamp` and the video-frame palette.
//! A fixed-seed generator drives every case, so a failure reproduces.

use oxideav_core::frame::{VideoFrame, VideoPlane};
use oxideav_core::rational::Rational;
use oxideav_core::time::{rescale, TimeBase, Timestamp};
use std::cmp::Ordering;

/// Small deterministic generator (64-bit LCG with a mixed output).
struct Lcg(u64);

impl Lcg {
    fn new(seed: u64) -> Self {
        Self(seed.wrapping_mul(0x9E37_79B9_7F4A_7C15) | 1)
    }

    fn next_u64(&mut self) -> u64 {
        self.0 = self
            .0
            .wrapping_mul(6364136223846793005)
            .wrapping_add(1442695040888963407);
        (self.0 >> 32) ^ self.0.wrapping_mul(0x2545_F491_4F6C_DD1D) >> 16
    }

    /// An `i64` biased toward the values where overflow lurks.
    fn edge_i64(&mut self) -> i64 {
        match self.next_u64() % 8 {
            0 => i64::MIN,
            1 => i64::MAX,
            2 => 0,
            3 => 1,
            4 => -1,
            5 => (self.next_u64() % 1000) as i64 - 500,
            6 => i64::MIN + (self.next_u64() % 1000) as i64,
            _ => self.next_u64() as i64,
        }
    }

    fn small_pos(&mut self, bound: u64) -> i64 {
        (self.next_u64() % bound) as i64 + 1
    }
}

// ───────────── Rational ─────────────

#[test]
fn rational_ops_never_panic_and_normalize_sign() {
    let mut rng = Lcg::new(1);
    for _ in 0..20_000 {
        let a = Rational::new(rng.edge_i64(), rng.edge_i64());
        let b = Rational::new(rng.edge_i64(), rng.edge_i64());
        let results = [a + b, a - b, a * b, a / b, -a, a.reduced(), a.abs()];
        let _ = a.cmp_value(&b);
        let _ = a.equals_value(&b);
        let _ = a.signum();
        let _ = a.invert();
        for (i, r) in results.iter().enumerate().take(4) {
            assert!(r.den >= 0, "op {i} gave a negative den: {a:?} vs {b:?} -> {r:?}");
        }
        assert!(results[5].den >= 0, "reduced() negative den for {a:?}");
        let abs = results[6];
        assert!(abs.num >= 0 && abs.den >= 0, "abs() kept a sign: {a:?} -> {abs:?}");
    }
}

#[test]
fn rational_neg_and_abs_preserve_value() {
    let mut rng = Lcg::new(3);
    for _ in 0..20_000 {
        let a = Rational::new(rng.edge_i64(), rng.edge_i64());
        if a.den == 0 {
            continue;
        }
        assert!((-(-a)).equals_value(&a), "-(-{a:?}) = {:?}", -(-a));
        let abs = a.abs();
        assert!(abs.signum() >= 0, "abs({a:?}) = {abs:?} is negative");
        if a.num != i64::MIN && a.den != i64::MIN {
            assert!(
                abs.equals_value(&a) || abs.equals_value(&(-a)),
                "abs({a:?}) = {abs:?} matches neither sign"
            );
        }
    }
}

#[test]
fn rational_cmp_value_is_consistent_total_order() {
    let mut rng = Lcg::new(4);
    for _ in 0..10_000 {
        let a = Rational::new(rng.edge_i64(), rng.edge_i64());
        let b = Rational::new(rng.edge_i64(), rng.edge_i64());
        let c = Rational::new(rng.edge_i64(), rng.edge_i64());
        assert_eq!(a.cmp_value(&b), b.cmp_value(&a).reverse());
        assert_eq!(a.cmp_value(&a), Ordering::Equal);
        if a.cmp_value(&b) != Ordering::Greater && b.cmp_value(&c) != Ordering::Greater {
            assert_ne!(a.cmp_value(&c), Ordering::Greater, "{a:?} <= {b:?} <= {c:?}");
        }
        let has_min = [a.num, a.den, b.num, b.den].contains(&i64::MIN);
        if !has_min {
            assert_eq!(
                a.reduced().cmp_value(&b.reduced()),
                a.cmp_value(&b),
                "reduced() changed the order of {a:?} vs {b:?}"
            );
        }
    }
}

#[test]
fn rational_edge_terms_clamp_to_closest_representable() {
    // 2^63 / 1 cannot be stored: it becomes i64::MAX / 1.
    assert_eq!(Rational::new(i64::MIN, -1).reduced(), Rational::new(i64::MAX, 1));
    assert_eq!(Rational::new(i64::MIN, 3).abs(), Rational::new(i64::MAX, 3));
    // Reducible edge terms stay exact.
    assert_eq!(Rational::new(i64::MIN, -2).reduced(), Rational::new(1 << 62, 1));
    // The one sum whose exact numerator overflows 128 bits: 1 + 1.
    let m = Rational::new(i64::MIN, i64::MIN);
    assert_eq!(m + m, Rational::new(2, 1));
    // Negation wraps on an i64::MIN numerator and round-trips.
    let n = Rational::new(i64::MIN, 5);
    assert_eq!(-n, n);
    assert_eq!(-(-Rational::new(3, -4)), Rational::new(3, -4));
    // Products whose reduced terms do not fit clamp.
    let big = Rational::new(i64::MAX, 1);
    assert_eq!(big * big, Rational::new(i64::MAX, 1));
    assert_eq!(Rational::new(1, i64::MAX) * Rational::new(1, i64::MAX), Rational::new(1, i64::MAX));
    // 1 / (2 * i64::MAX) keeps a non-negative denominator: the reduced
    // denominator 2^64 - 2 does not fit and is clamped, not wrapped.
    assert_eq!(Rational::new(1, i64::MAX) * Rational::new(1, 2), Rational::new(1, i64::MAX));
}

// ───────────── rescale ─────────────

/// Exact reference for a small domain, half away from zero.
fn rescale_oracle(value: i64, from: Rational, to: Rational) -> i64 {
    let num = from.num as i128 * to.den as i128;
    let den = from.den as i128 * to.num as i128;
    assert!(den > 0);
    let p = value as i128 * num;
    let q = p / den;
    let r = (p % den).abs();
    let bump = if r * 2 >= den { p.signum() } else { 0 };
    (q + bump) as i64
}

#[test]
fn rescale_matches_small_domain_oracle() {
    let mut rng = Lcg::new(5);
    for _ in 0..20_000 {
        let value = (rng.next_u64() % (1 << 41)) as i64 - (1 << 40);
        let from = Rational::new(rng.small_pos(1 << 20), rng.small_pos(1 << 20));
        let to = Rational::new(rng.small_pos(1 << 20), rng.small_pos(1 << 20));
        assert_eq!(
            rescale(value, from, to),
            rescale_oracle(value, from, to),
            "rescale({value}, {from:?}, {to:?})"
        );
    }
}

#[test]
fn rescale_never_panics_on_edge_inputs() {
    let mut rng = Lcg::new(6);
    for _ in 0..20_000 {
        let value = rng.edge_i64();
        let from = Rational::new(rng.edge_i64(), rng.edge_i64());
        let to = Rational::new(rng.edge_i64(), rng.edge_i64());
        let r = rescale(value, from, to);
        let den = from.den as i128 * to.num as i128;
        if den == 0 {
            assert_eq!(r, 0);
        }
        if value == 0 {
            assert_eq!(r, 0);
        }
    }
}

#[test]
fn rescale_saturates_and_stays_exact_at_the_edges() {
    let huge = Rational::new(i64::MAX, i64::MAX);
    assert_eq!(rescale(-12345, huge, huge), -12345);
    assert_eq!(rescale(i64::MAX, huge, huge), i64::MAX);
    assert_eq!(rescale(i64::MIN, huge, huge), i64::MIN);
    let one = Rational::new(1, 1);
    let half = Rational::new(1, 2);
    assert_eq!(rescale(i64::MAX, one, half), i64::MAX);
    assert_eq!(rescale(i64::MIN, one, half), i64::MIN);
    assert_eq!(rescale(i64::MIN, one, one), i64::MIN);
    assert_eq!(rescale(i64::MAX, Rational::new(i64::MAX, 1), one), i64::MAX);
    assert_eq!(rescale(-2, Rational::new(i64::MAX, 1), one), i64::MIN);
    // 2^63 ticks of 1/2 s is 2^62 s.
    assert_eq!(rescale(i64::MIN, half, one), -(1i64 << 62));
}

#[test]
fn rescale_is_monotonic_in_value() {
    let mut rng = Lcg::new(8);
    let from = TimeBase::mpeg_ts();
    let to = TimeBase::millis();
    for _ in 0..20_000 {
        let v1 = rng.edge_i64();
        let v2 = rng.edge_i64();
        let (lo, hi) = if v1 <= v2 { (v1, v2) } else { (v2, v1) };
        assert!(from.rescale(lo, to) <= from.rescale(hi, to), "{lo}..{hi}");
    }
    assert_eq!(from.rescale(i64::MAX, to), i64::MAX / 90);
    assert_eq!(from.rescale(i64::MIN, to), -(i64::MAX / 90));
}

#[test]
fn timestamp_checked_ops_are_total() {
    let mut rng = Lcg::new(9);
    for _ in 0..10_000 {
        let ts = Timestamp::new(rng.edge_i64(), TimeBase::new(rng.edge_i64(), rng.edge_i64()));
        let other = Timestamp::new(rng.edge_i64(), TimeBase::new(rng.edge_i64(), rng.edge_i64()));
        let ticks = rng.edge_i64();
        match ts.checked_add_ticks(ticks) {
            Some(t) => assert_eq!(t.value as i128, ts.value as i128 + ticks as i128),
            None => assert!(!(i64::MIN as i128..=i64::MAX as i128)
                .contains(&(ts.value as i128 + ticks as i128))),
        }
        let ticks = rng.edge_i64();
        match ts.checked_sub_ticks(ticks) {
            Some(t) => assert_eq!(t.value as i128, ts.value as i128 - ticks as i128),
            None => assert!(!(i64::MIN as i128..=i64::MAX as i128)
                .contains(&(ts.value as i128 - ticks as i128))),
        }
        let _ = ts.checked_diff(other);
        let _ = ts.rescale(other.base);
    }
}

// ───────────── video-frame palette ─────────────

#[test]
fn video_frame_palette_matches_option_model() {
    let mut rng = Lcg::new(0xF3A7);
    for _ in 0..500 {
        let plane_count = (rng.next_u64() % 5) as usize;
        let planes: Vec<VideoPlane> = (0..plane_count)
            .map(|_| {
                let stride = (rng.next_u64() % 16 + 1) as usize;
                let rows = (rng.next_u64() % 8) as usize;
                VideoPlane {
                    stride,
                    data: (0..stride * rows).map(|_| rng.next_u64() as u8).collect(),
                }
            })
            .collect();
        let frozen: Vec<(usize, Vec<u8>)> =
            planes.iter().map(|p| (p.stride, p.data.clone())).collect();
        let mut frame = VideoFrame { pts: None, planes };
        let mut model: Option<Vec<u8>> = None;
        for _ in 0..40 {
            match rng.next_u64() % 3 {
                0 => {
                    let n = (rng.next_u64() % 4) as usize * 3;
                    let pal: Vec<u8> = (0..n).map(|_| rng.next_u64() as u8).collect();
                    model = if pal.is_empty() { None } else { Some(pal.clone()) };
                    frame.set_palette(pal);
                }
                1 => assert_eq!(frame.take_palette(), model.take()),
                _ => {
                    let entry = rng.next_u64() as u8;
                    let expect = model.as_deref().and_then(|p| {
                        let at = usize::from(entry) * 3;
                        p.get(at..at + 3).map(|e| [e[0], e[1], e[2]])
                    });
                    assert_eq!(frame.palette_rgb(entry), expect);
                }
            }
            assert_eq!(frame.palette(), model.as_deref());
            assert_eq!(frame.image_plane_count(), frozen.len());
            for (plane, (stride, data)) in frame.image_planes().iter().zip(&frozen) {
                assert_eq!(plane.stride, *stride);
                assert_eq!(&plane.data, data);
            }
            assert_eq!(frame.planes.len(), frozen.len() + usize::from(model.is_some()));
        }
    }
}
