//! Fixed-point arithmetic shared by the effect pipeline and the renderer.
//!
//! Quantities are held in thousandths of their unit: a factor of 1.5 is
//! 1500, an angle of pi radians is about 3142. Linear interpolation between
//! two endpoints takes the elapsed and total time directly, so no
//! intermediate quotient loses precision.

use vstd::prelude::*;

verus! {

pub open spec fn spec_clamp(x: int, lo: int, hi: int) -> int {
    if x < lo {
        lo
    } else if x > hi {
        hi
    } else {
        x
    }
}

/// Linear interpolation from `a` to `b` by the ratio `num / den`, saturating
/// at the i64 range. A zero `den` (a degenerate interval) yields `a`; a ratio
/// above one extrapolates past `b`, as the interpolation is not clamped.
pub open spec fn spec_lerp(a: int, b: int, num: int, den: int) -> int {
    if den <= 0 || num < 0 {
        a
    } else if b >= a {
        spec_clamp(a + (b - a) * num / den, i64::MIN as int, i64::MAX as int)
    } else {
        spec_clamp(a - (a - b) * num / den, i64::MIN as int, i64::MAX as int)
    }
}

/// Interpolates between two fixed-point values by `num / den`.
pub fn lerp_milli(a: i64, b: i64, num: u64, den: u64) -> (r: i64)
    ensures
        r as int == spec_lerp(a as int, b as int, num as int, den as int),
{
    if den == 0 {
        return a;
    }
    if b >= a {
        let d: u128 = (b as i128 - a as i128) as u128;
        assert(d * (num as u128) <= u128::MAX) by (nonlinear_arith)
            requires
                d < 0x1_0000_0000_0000_0000,
                num < 0x1_0000_0000_0000_0000,
        ;
        let q: u128 = d * (num as u128) / (den as u128);
        let headroom: u128 = (i64::MAX as i128 - a as i128) as u128;
        assert(q == (b - a) * (num as int) / (den as int));
        if q > headroom {
            i64::MAX
        } else {
            (a as i128 + q as i128) as i64
        }
    } else {
        let d: u128 = (a as i128 - b as i128) as u128;
        assert(d * (num as u128) <= u128::MAX) by (nonlinear_arith)
            requires
                d < 0x1_0000_0000_0000_0000,
                num < 0x1_0000_0000_0000_0000,
        ;
        let q: u128 = d * (num as u128) / (den as u128);
        let headroom: u128 = (a as i128 - i64::MIN as i128) as u128;
        assert(q == (a - b) * (num as int) / (den as int));
        if q > headroom {
            i64::MIN
        } else {
            (a as i128 - q as i128) as i64
        }
    }
}

/// An audio gain in thousandths applied to one sample in thousandths:
/// the product scaled back down, truncated toward zero, saturated at the
/// i32 range.
pub open spec fn spec_gain(s: int, g: int) -> int {
    let p = s * g;
    let q = if p >= 0 {
        p / 1000
    } else {
        -((-p) / 1000)
    };
    spec_clamp(q, i32::MIN as int, i32::MAX as int)
}

/// Applies a fixed-point gain to one audio sample.
pub fn gain_milli(s: i32, g: i32) -> (r: i32)
    ensures
        r as int == spec_gain(s as int, g as int),
{
    assert((s as int) * (g as int) <= i64::MAX && (s as int) * (g as int) >= i64::MIN)
        by (nonlinear_arith)
        requires
            i32::MIN <= s <= i32::MAX,
            i32::MIN <= g <= i32::MAX,
    ;
    let p: i64 = (s as i64) * (g as i64);
    if p >= 0 {
        let q: u64 = (p as u64) / 1000;
        if q > i32::MAX as u64 {
            i32::MAX
        } else {
            q as i32
        }
    } else {
        let m: u64 = ((-(p as i128)) as u64) / 1000;
        if m > (-(i32::MIN as i64)) as u64 {
            i32::MIN
        } else {
            -(m as i64) as i32
        }
    }
}

/// Taylor polynomial for cosine on the first quarter turn, in thousandths:
/// the argument is an angle in [0, 1571] thousandths of a radian.
pub open spec fn spec_cos_quarter(x: int) -> int {
    1000 - x * x / 2000 + x * x * x * x / 24_000_000_000 - x * x * x * x * x * x
        / 720_000_000_000_000_000
}

/// Taylor polynomial for sine on the first quarter turn, in thousandths.
pub open spec fn spec_sin_quarter(x: int) -> int {
    x - x * x * x / 6_000_000 + x * x * x * x * x / 120_000_000_000_000 - x * x * x * x * x * x * x
        / 5_040_000_000_000_000_000_000
}

/// An arbitrary milli-angle folded into [0, 6283), one full turn.
pub open spec fn spec_angle_reduced(mrad: int) -> int {
    if mrad >= 0 {
        mrad % 6283
    } else {
        let m = (-mrad) % 6283;
        if m == 0 {
            0
        } else {
            6283 - m
        }
    }
}

/// Cosine of a milli-radian angle, in thousandths, by quadrant folding.
pub open spec fn spec_cos_milli(mrad: int) -> int {
    let a = spec_angle_reduced(mrad);
    if a <= 1571 {
        spec_clamp(spec_cos_quarter(a), -1000, 1000)
    } else if a <= 4712 {
        let b = if a <= 3142 {
            3142 - a
        } else {
            a - 3142
        };
        spec_clamp(-spec_cos_quarter(b), -1000, 1000)
    } else {
        spec_clamp(spec_cos_quarter(6283 - a), -1000, 1000)
    }
}

/// Sine of a milli-radian angle, in thousandths, by quadrant folding.
pub open spec fn spec_sin_milli(mrad: int) -> int {
    let a = spec_angle_reduced(mrad);
    if a <= 1571 {
        spec_clamp(spec_sin_quarter(a), -1000, 1000)
    } else if a <= 3142 {
        spec_clamp(spec_sin_quarter(3142 - a), -1000, 1000)
    } else if a <= 4712 {
        spec_clamp(-spec_sin_quarter(a - 3142), -1000, 1000)
    } else {
        spec_clamp(-spec_sin_quarter(6283 - a), -1000, 1000)
    }
}

fn cos_quarter(x: u64) -> (r: i64)
    requires
        x <= 1571,
    ensures
        r as int == spec_cos_quarter(x as int),
        -1300 <= r <= 1300,
{
    let xi: u128 = x as u128;
    proof {
        assert(xi * xi <= 2_468_041) by (nonlinear_arith)
            requires
                xi <= 1571,
        ;
    }
    let x2: u128 = xi * xi;
    proof {
        assert(x2 * x2 <= 6_091_226_377_681u128) by (nonlinear_arith)
            requires
                x2 <= 2_468_041,
        ;
    }
    let x4: u128 = x2 * x2;
    proof {
        assert(x4 * x2 <= 20_000_000_000_000_000_000u128) by (nonlinear_arith)
            requires
                x4 <= 6_091_226_377_681u128,
                x2 <= 2_468_041,
        ;
    }
    let x6: u128 = x4 * x2;
    let t1: u128 = x2 / 2000;
    let t2: u128 = x4 / 24_000_000_000;
    let t3: u128 = x6 / 720_000_000_000_000_000;
    assert(t1 <= 1235 && t2 <= 254 && t3 <= 28);
    proof {
        let xin = x as int;
        assert(x4 == xin * xin * xin * xin && x6 == xin * xin * xin * xin * xin * xin)
            by (nonlinear_arith)
            requires
                x2 == xin * xin,
                x4 == x2 * x2,
                x6 == x4 * x2,
        ;
    }
    1000i64 + (t2 as i64) - (t1 as i64) - (t3 as i64)
}

fn sin_quarter(x: u64) -> (r: i64)
    requires
        x <= 1571,
    ensures
        r as int == spec_sin_quarter(x as int),
        -1700 <= r <= 1700,
{
    let xi: u128 = x as u128;
    proof {
        assert(xi * xi <= 2_468_041) by (nonlinear_arith)
            requires
                xi <= 1571,
        ;
    }
    let x2: u128 = xi * xi;
    proof {
        assert(x2 * xi <= 3_877_292_411u128) by (nonlinear_arith)
            requires
                x2 <= 2_468_041,
                xi <= 1571,
        ;
        assert(x2 * x2 <= 6_091_226_377_681u128) by (nonlinear_arith)
            requires
                x2 <= 2_468_041,
        ;
    }
    let x3: u128 = x2 * xi;
    let x4: u128 = x2 * x2;
    proof {
        assert(x4 * xi <= 9_569_316_639_337_851u128) by (nonlinear_arith)
            requires
                x4 <= 6_091_226_377_681u128,
                xi <= 1571,
        ;
        assert(x4 * x3 <= 24_000_000_000_000_000_000_000u128) by (nonlinear_arith)
            requires
                x4 <= 6_091_226_377_681u128,
                x3 <= 3_877_292_411u128,
        ;
    }
    let x5: u128 = x4 * xi;
    let x7: u128 = x4 * x3;
    let t1: u128 = x3 / 6_000_000;
    let t2: u128 = x5 / 120_000_000_000_000;
    let t3: u128 = x7 / 5_040_000_000_000_000_000_000;
    assert(t1 <= 647 && t2 <= 80 && t3 <= 5);
    proof {
        let xin = x as int;
        assert(x3 == xin * xin * xin && x5 == xin * xin * xin * xin * xin && x7 == xin * xin * xin
            * xin * xin * xin * xin)
            by (nonlinear_arith)
            requires
                x2 == xin * xin,
                x3 == x2 * xin,
                x4 == x2 * x2,
                x5 == x4 * xin,
                x7 == x4 * x3,
        ;
    }
    (xi as i64) + (t2 as i64) - (t1 as i64) - (t3 as i64)
}

fn clamp_milli(v: i64) -> (r: i16)
    ensures
        r as int == spec_clamp(v as int, -1000, 1000),
{
    if v < -1000 {
        -1000
    } else if v > 1000 {
        1000
    } else {
        v as i16
    }
}

/// The cosine and sine of a milli-radian angle, in thousandths, saturated to
/// [-1000, 1000]: the entries of a rotation matrix in fixed point.
pub fn cos_sin_milli(mrad: i64) -> (r: (i16, i16))
    ensures
        r.0 as int == spec_cos_milli(mrad as int),
        r.1 as int == spec_sin_milli(mrad as int),
{
    let a: u64 = if mrad >= 0 {
        (mrad as u64) % 6283
    } else {
        let m: u64 = ((-(mrad as i128)) as u64) % 6283;
        if m == 0 {
            0
        } else {
            6283 - m
        }
    };
    let c: i64 = if a <= 1571 {
        cos_quarter(a)
    } else if a <= 4712 {
        let b: u64 = if a <= 3142 {
            3142 - a
        } else {
            a - 3142
        };
        -cos_quarter(b)
    } else {
        cos_quarter(6283 - a)
    };
    let s: i64 = if a <= 1571 {
        sin_quarter(a)
    } else if a <= 3142 {
        sin_quarter(3142 - a)
    } else if a <= 4712 {
        -sin_quarter(a - 3142)
    } else {
        -sin_quarter(6283 - a)
    };
    (clamp_milli(c), clamp_milli(s))
}

/// At the endpoints of a positive interval the interpolation returns the
/// endpoint values exactly.
pub proof fn lemma_lerp_endpoints(a: i64, b: i64, den: u64)
    requires
        den > 0,
    ensures
        spec_lerp(a as int, b as int, 0, den as int) == a as int,
        spec_lerp(a as int, b as int, den as int, den as int) == b as int,
{
    if b >= a {
        assert((b - a) * 0 == 0) by (nonlinear_arith);
        assert((b - a) * (den as int) / (den as int) == b - a) by (nonlinear_arith)
            requires
                den > 0,
        ;
    } else {
        assert((a - b) * 0 == 0) by (nonlinear_arith);
        assert((a - b) * (den as int) / (den as int) == a - b) by (nonlinear_arith)
            requires
                den > 0,
        ;
    }
}

/// Interpolating from zero to a non-negative value, sampled halfway through
/// an even interval, yields exactly half the value.
pub proof fn lemma_lerp_midpoint(b: i64, den: u64)
    requires
        den > 0,
        den % 2 == 0,
        b >= 0,
    ensures
        spec_lerp(0, b as int, den as int / 2, den as int) == b as int / 2,
{
    let h = den as int / 2;
    assert(b * h / (2 * h) == b / 2) by (nonlinear_arith)
        requires
            h > 0,
            b >= 0,
    ;
    assert(2 * h == den as int);
}

/// A gain of one half sends every sample to its half, truncated toward
/// zero.
pub proof fn lemma_gain_half(s: i32)
    ensures
        spec_gain(s as int, 500) == (if s >= 0 {
            (s as int) / 2
        } else {
            -((-(s as int)) / 2)
        }),
{
    if s >= 0 {
        assert((s as int) * 500 >= 0 && (s as int) * 500 / 1000 == (s as int) / 2)
            by (nonlinear_arith)
            requires
                s >= 0,
        ;
    } else {
        assert((s as int) * 500 < 0 && (-((s as int) * 500)) / 1000 == (-(s as int)) / 2)
            by (nonlinear_arith)
            requires
                s < 0,
        ;
    }
}

/// Two successive gains of one half equal a single gain of one quarter, on
/// every sample.
pub proof fn lemma_gain_half_twice(s: i32)
    ensures
        spec_gain(spec_gain(s as int, 500), 500) == spec_gain(s as int, 250),
{
    lemma_gain_half(s);
    if s >= 0 {
        let h = (s as int) / 2;
        assert(0 <= h <= s);
        assert(h * 500 >= 0 && h * 500 / 1000 == h / 2) by (nonlinear_arith)
            requires
                h >= 0,
        ;
        assert((s as int) * 250 >= 0 && (s as int) * 250 / 1000 == (s as int) / 4)
            by (nonlinear_arith)
            requires
                s >= 0,
        ;
        assert((s as int) / 2 / 2 == (s as int) / 4) by (nonlinear_arith)
            requires
                s >= 0,
        ;
    } else {
        let m = -(s as int);
        let h = -(m / 2);
        assert(h <= 0);
        if h == 0 {
            assert(spec_gain(0, 500) == 0);
            assert(m / 2 == 0);
            assert(m == 1);
            assert((s as int) * 250 == -250) by (nonlinear_arith)
                requires
                    s as int == -1,
            ;
        } else {
            assert(h * 500 < 0) by (nonlinear_arith)
                requires
                    h < 0,
            ;
            assert((-(h * 500)) / 1000 == (m / 2) / 2) by (nonlinear_arith)
                requires
                    h == -(m / 2),
                    m / 2 > 0,
            ;
            assert((s as int) * 250 < 0) by (nonlinear_arith)
                requires
                    s < 0,
            ;
            assert((-((s as int) * 250)) / 1000 == m / 4) by (nonlinear_arith)
                requires
                    m > 0,
                    m == -(s as int),
            ;
            assert((m / 2) / 2 == m / 4) by (nonlinear_arith)
                requires
                    m >= 0,
            ;
        }
    }
}

} // verus!
