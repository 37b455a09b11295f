use vstd::prelude::*;
use vstd::std_specs::bits::{axiom_u64_leading_zeros, u64_leading_zeros};

use crate::vector::Q64Vec;

verus! {

/// Number of fractional bits of a [`Q64`].
pub const Q64_SHIFT: u32 = 32;

/// Raw value of zero.
pub const ZERO_RAW: i64 = 0;

/// Raw value of the smallest positive number, `2^-32`.
pub const EPSILON_RAW: i64 = 1;

/// Raw value of one.
pub const ONE_RAW: i64 = 0x1_0000_0000;

/// Raw value of one half.
pub const HALF_RAW: i64 = 0x8000_0000;

/// Raw value of pi / 2, rounded down.
pub const PI_OVER_TWO_RAW: i64 = 0x1_921F_B544;

/// Raw value of pi, rounded down.
pub const PI_RAW: i64 = 0x3_243F_6A88;

/// Raw value of 2 pi, rounded up.
pub const PI_TIMES_2_RAW: i64 = 0x6_487E_D511;

/// The raw value of one, `2^32`.
pub open spec fn unit() -> int {
    0x1_0000_0000
}

/// `x` is representable as an `i64`.
pub open spec fn fits_i64(x: int) -> bool {
    i64::MIN <= x <= i64::MAX
}

/// Division rounding toward zero, as Rust's `/` on integers does.
pub open spec fn trunc_div(a: int, b: int) -> int {
    if a >= 0 {
        a / b
    } else {
        -((-a) / b)
    }
}

/// Raw value of the fixed-point product of raw values `a` and `b`: the exact
/// product, rounded down to a multiple of one unit in the last place.
pub open spec fn mul_raw(a: int, b: int) -> int {
    (a * b) / unit()
}

/// Raw value of the fixed-point quotient of raw values `a` and `b`, rounded
/// toward zero.
pub open spec fn div_raw(a: int, b: int) -> int {
    trunc_div(a * unit(), b)
}

/// Raw value of 1/3!, the first sine series coefficient.
pub const RECIP_THREE_FACT_RAW: i64 = 715827883;

/// Raw value of 1/5!.
pub const RECIP_FIVE_FACT_RAW: i64 = 35791394;

/// Raw value of 1/7!.
pub const RECIP_SEVEN_FACT_RAW: i64 = 852176;

/// Raw value of the sine approximation at raw angle `v`: `v` is reduced modulo
/// `PI_TIMES_2_RAW` into `[0, 2 pi)`, folded onto `[0, pi / 2]` with the sign
/// kept aside, and there the series `x - x^3/3! + x^5/5! - x^7/7!` is summed,
/// each product rounded down as [`Q64::mul`] does.
pub open spec fn sin_raw(v: int) -> int {
    let m = v % (PI_TIMES_2_RAW as int);
    let negate = m > PI_RAW;
    let a = if negate {
        m - PI_RAW
    } else {
        m
    };
    let x = if a > PI_OVER_TWO_RAW {
        PI_RAW - a
    } else {
        a
    };
    let y = sin_series(x);
    if negate {
        -y
    } else {
        y
    }
}

/// The truncated sine series at raw `x`, with products rounded down.
pub open spec fn sin_series(x: int) -> int {
    let x2 = mul_raw(x, x);
    let x3 = mul_raw(x2, x);
    let x5 = mul_raw(x3, x2);
    let x7 = mul_raw(x5, x2);
    x - mul_raw(x3, RECIP_THREE_FACT_RAW as int) + mul_raw(x5, RECIP_FIVE_FACT_RAW as int) - mul_raw(
        x7,
        RECIP_SEVEN_FACT_RAW as int,
    )
}

/// Rounded-down products of bounded non-negative factors stay bounded.
proof fn lemma_mul_raw_bounded(a: int, b: int, ma: int, mb: int)
    requires
        0 <= a <= ma,
        0 <= b <= mb,
    ensures
        0 <= mul_raw(a, b) <= mul_raw(ma, mb),
{
    assert(0 <= a * b <= ma * mb) by (nonlinear_arith)
        requires
            0 <= a <= ma,
            0 <= b <= mb,
    ;
    vstd::arithmetic::div_mod::lemma_div_is_ordered(a * b, ma * mb, unit());
    vstd::arithmetic::div_mod::lemma_div_pos_is_pos(a * b, unit());
}

/// `r` is the truncated square root of `x`: `r^2 <= x < (r + 1)^2`.
pub open spec fn is_isqrt(r: int, x: int) -> bool {
    0 <= r && r * r <= x && x < (r + 1) * (r + 1)
}

/// How far [`Q64::sqrt`] shifts a non-negative raw value left before taking
/// the integer root: the largest even amount that keeps the sign bit clear.
pub open spec fn sqrt_shift(v: i64) -> u32 {
    let lz = u64_leading_zeros(v as u64);
    (if lz >= 1 {
        (lz - 1) / 2 * 2
    } else {
        0
    }) as u32
}

/// Brings the integer root of a raw value shifted left by `s` back to 32
/// fractional bits.
pub open spec fn rescale_root(root: i64, s: u32) -> i64 {
    if s < 32 {
        root << ((32 - s) / 2) as u32
    } else {
        root >> ((s - 32) / 2) as u32
    }
}

/// Relies on `num_integer::Roots::sqrt` for `i64`: the truncated principal
/// square root, `r^2 <= x < (r + 1)^2`. It panics on a negative argument.
#[verifier::external_body]
fn isqrt(x: i64) -> (r: i64)
    requires
        x >= 0,
    ensures
        is_isqrt(r as int, x as int),
{
    num_integer::Roots::sqrt(&x)
}

/// The truncated square root of a non-negative `x`.
pub open spec fn isqrt_of(x: int) -> int {
    choose|r: int| is_isqrt(r, x)
}

/// Raw value of [`Q64::sqrt`] at non-negative raw `v`.
pub open spec fn sqrt_raw(v: i64) -> i64 {
    let s = sqrt_shift(v);
    rescale_root(isqrt_of((v << s) as int) as i64, s)
}

/// A number has only one truncated square root.
proof fn lemma_isqrt_unique(r: int, x: int)
    requires
        is_isqrt(r, x),
    ensures
        isqrt_of(x) == r,
{
    let c = isqrt_of(x);
    assert(is_isqrt(c, x));
    if c < r {
        assert((c + 1) * (c + 1) <= r * r) by (nonlinear_arith)
            requires
                0 <= c < r,
        ;
    } else if r < c {
        assert((r + 1) * (r + 1) <= c * c) by (nonlinear_arith)
            requires
                0 <= r < c,
        ;
    }
}

/// A signed fixed-point number with 32 integer and 32 fractional bits: the raw
/// value `v` stands for `v / 2^32`.
#[derive(Debug, Default, Clone, Copy, PartialEq, Eq, Structural, PartialOrd, Ord, Hash)]
pub struct Q64(pub i64);

impl Q64 {
    /// The integer `x`.
    pub fn from_i32(x: i32) -> (r: Self)
        ensures
            r.0 == x * unit(),
    {
        proof {
            assert(i32::MIN * unit() <= x * unit() <= i32::MAX * unit()) by (nonlinear_arith)
                requires
                    i32::MIN <= x <= i32::MAX,
            ;
        }
        Q64(x as i64 * 0x1_0000_0000)
    }

    /// The integer part, rounded down.
    pub fn to_i32(self) -> (r: i32)
        ensures
            r == self.0 as int / unit(),
    {
        let v = self.0;
        assert(v >> 32u32 == v / 0x1_0000_0000) by (bit_vector);
        (v >> Q64_SHIFT) as i32
    }

    /// The absolute value; `i64::MIN` has none.
    pub fn abs(self) -> (r: Self)
        requires
            self.0 != i64::MIN,
        ensures
            r.0 == if self.0 < 0 {
                -self.0
            } else {
                self.0 as int
            },
    {
        if self.0 < 0 {
            Q64(-self.0)
        } else {
            self
        }
    }

    pub fn neg(self) -> (r: Self)
        requires
            self.0 != i64::MIN,
        ensures
            r.0 == -self.0,
    {
        Q64(-self.0)
    }

    pub fn add(self, rhs: Self) -> (r: Self)
        requires
            fits_i64(self.0 + rhs.0),
        ensures
            r.0 == self.0 + rhs.0,
    {
        Q64(self.0 + rhs.0)
    }

    pub fn sub(self, rhs: Self) -> (r: Self)
        requires
            fits_i64(self.0 - rhs.0),
        ensures
            r.0 == self.0 - rhs.0,
    {
        Q64(self.0 - rhs.0)
    }

    /// The product, rounded down.
    pub fn mul(self, rhs: Self) -> (r: Self)
        requires
            fits_i64(mul_raw(self.0 as int, rhs.0 as int)),
        ensures
            r.0 == mul_raw(self.0 as int, rhs.0 as int),
    {
        let a = self.0;
        let b = rhs.0;
        proof {
            assert(-0x4000_0000_0000_0000_0000_0000_0000_0000 <= a * b
                <= 0x4000_0000_0000_0000_0000_0000_0000_0000) by (nonlinear_arith)
                requires
                    i64::MIN <= a <= i64::MAX,
                    i64::MIN <= b <= i64::MAX,
            ;
        }
        let p = a as i128 * b as i128;
        assert(p >> 32u32 == p / 0x1_0000_0000) by (bit_vector);
        Q64((p >> Q64_SHIFT) as i64)
    }

    /// The quotient, rounded toward zero.
    pub fn div(self, rhs: Self) -> (r: Self)
        requires
            rhs.0 != 0,
            fits_i64(div_raw(self.0 as int, rhs.0 as int)),
        ensures
            r.0 == div_raw(self.0 as int, rhs.0 as int),
    {
        let a = self.0;
        proof {
            assert(i64::MIN * unit() <= a * unit() <= i64::MAX * unit()) by (nonlinear_arith)
                requires
                    i64::MIN <= a <= i64::MAX,
            ;
        }
        let wide = a as i128 * 0x1_0000_0000;
        Q64((wide / rhs.0 as i128) as i64)
    }

    /// The quotient rounded up, for a positive divisor: the raw result is
    /// `(self * 2^32 + rhs - 1) / rhs` with Rust's division, which is the
    /// ceiling of the exact quotient whenever `self` is not negative.
    pub fn ceiling_div_by_positive(self, rhs: Self) -> (r: Self)
        requires
            rhs.0 > 0,
            fits_i64(trunc_div(self.0 * unit() + rhs.0 - 1, rhs.0 as int)),
        ensures
            r.0 == trunc_div(self.0 * unit() + rhs.0 - 1, rhs.0 as int),
            self.0 >= 0 ==> r.0 * rhs.0 >= self.0 * unit() && (r.0 - 1) * rhs.0 < self.0 * unit(),
    {
        let a = self.0;
        let b = rhs.0;
        proof {
            assert(i64::MIN * unit() <= a * unit() <= i64::MAX * unit()) by (nonlinear_arith)
                requires
                    i64::MIN <= a <= i64::MAX,
            ;
        }
        let lhs = a as i128 * 0x1_0000_0000;
        let q = (lhs + b as i128 - 1) / b as i128;
        proof {
            if a >= 0 {
                let x = lhs + b - 1;
                vstd::arithmetic::div_mod::lemma_fundamental_div_mod(x, b as int);
                assert(0 <= x % (b as int) < b);
                assert(q * b >= lhs && (q - 1) * b < lhs) by (nonlinear_arith)
                    requires
                        x == b * q + x % (b as int),
                        0 <= x % (b as int) < b,
                        x == lhs + b - 1,
                ;
            }
        }
        Q64(q as i64)
    }

    pub fn add_assign(&mut self, rhs: Self)
        requires
            fits_i64(old(self).0 + rhs.0),
        ensures
            final(self).0 == old(self).0 + rhs.0,
    {
        *self = self.add(rhs);
    }

    pub fn sub_assign(&mut self, rhs: Self)
        requires
            fits_i64(old(self).0 - rhs.0),
        ensures
            final(self).0 == old(self).0 - rhs.0,
    {
        *self = self.sub(rhs);
    }

    pub fn mul_assign(&mut self, rhs: Self)
        requires
            fits_i64(mul_raw(old(self).0 as int, rhs.0 as int)),
        ensures
            final(self).0 == mul_raw(old(self).0 as int, rhs.0 as int),
    {
        *self = self.mul(rhs);
    }

    pub fn div_assign(&mut self, rhs: Self)
        requires
            rhs.0 != 0,
            fits_i64(div_raw(old(self).0 as int, rhs.0 as int)),
        ensures
            final(self).0 == div_raw(old(self).0 as int, rhs.0 as int),
    {
        *self = self.div(rhs);
    }

    /// The sine of an angle in radians, by a seventh-order series on the
    /// angle folded onto `[0, pi / 2]`; defined for every angle.
    pub fn sin(self) -> (r: Self)
        ensures
            r.0 == sin_raw(self.0 as int),
    {
        let m = match self.0.checked_rem_euclid(PI_TIMES_2_RAW) {
            Some(m) => m,
            None => 0,
        };
        let mut x = Q64(m);
        let mut negate = false;
        if x.0 > PI_RAW {
            x = x.sub(Q64(PI_RAW));
            negate = true;
        }
        if x.0 > PI_OVER_TWO_RAW {
            x = Q64(PI_RAW).sub(x);
        }
        let ghost xv = x.0 as int;
        assert(0 <= xv <= PI_OVER_TWO_RAW);
        let ghost b2 = mul_raw(PI_OVER_TWO_RAW as int, PI_OVER_TWO_RAW as int);
        let ghost b3 = mul_raw(b2, PI_OVER_TWO_RAW as int);
        let ghost b5 = mul_raw(b3, b2);
        let ghost b7 = mul_raw(b5, b2);
        proof {
            assert(b2 == 10597407030);
            assert(b3 == 16646368035);
            assert(b5 == 41073266798);
            assert(b7 == 101344223672);
            lemma_mul_raw_bounded(xv, xv, PI_OVER_TWO_RAW as int, PI_OVER_TWO_RAW as int);
        }
        let x2 = x.mul(x);
        proof {
            lemma_mul_raw_bounded(x2.0 as int, xv, b2, PI_OVER_TWO_RAW as int);
        }
        let x3 = x2.mul(x);
        proof {
            lemma_mul_raw_bounded(x3.0 as int, x2.0 as int, b3, b2);
        }
        let x5 = x3.mul(x2);
        proof {
            lemma_mul_raw_bounded(x5.0 as int, x2.0 as int, b5, b2);
        }
        let x7 = x5.mul(x2);
        proof {
            lemma_mul_raw_bounded(x3.0 as int, RECIP_THREE_FACT_RAW as int, b3, RECIP_THREE_FACT_RAW as int);
            lemma_mul_raw_bounded(x5.0 as int, RECIP_FIVE_FACT_RAW as int, b5, RECIP_FIVE_FACT_RAW as int);
            lemma_mul_raw_bounded(x7.0 as int, RECIP_SEVEN_FACT_RAW as int, b7, RECIP_SEVEN_FACT_RAW as int);
        }
        let t3 = x3.mul(Q64(RECIP_THREE_FACT_RAW));
        let t5 = x5.mul(Q64(RECIP_FIVE_FACT_RAW));
        let t7 = x7.mul(Q64(RECIP_SEVEN_FACT_RAW));
        let mut y = x.sub(t3).add(t5).sub(t7);
        if negate {
            y = y.neg();
        }
        y
    }

    /// The cosine of an angle in radians, as the sine of `pi / 2 - self`.
    pub fn cos(self) -> (r: Self)
        requires
            fits_i64(PI_OVER_TWO_RAW - self.0),
        ensures
            r.0 == sin_raw(PI_OVER_TWO_RAW - self.0),
    {
        Q64(PI_OVER_TWO_RAW).sub(self).sin()
    }

    /// The unit vector at this angle: `(cos, sin)`.
    pub fn angle_to_vec(self) -> (r: Q64Vec)
        requires
            fits_i64(PI_OVER_TWO_RAW - self.0),
        ensures
            r.x.0 == sin_raw(PI_OVER_TWO_RAW - self.0),
            r.y.0 == sin_raw(self.0 as int),
    {
        Q64Vec { x: self.cos(), y: self.sin() }
    }

    /// The square root of a non-negative number. The raw value is shifted left
    /// by the largest even amount that keeps it non-negative, its integer root
    /// taken, and the root shifted back to 32 fractional bits, which keeps as
    /// many significant bits as the raw value allows.
    pub fn sqrt(self) -> (r: Self)
        requires
            self.0 >= 0,
        ensures
            r.0 == sqrt_raw(self.0),
    {
        let v = self.0;
        let lz = (v as u64).leading_zeros();
        let s = (lz.saturating_sub(1) / 2) * 2;
        proof {
            broadcast use axiom_u64_leading_zeros;

            let u = v as u64;
            let lzw = u64_leading_zeros(u) as u64;
            let sw = s as u64;
            assert(u >> vstd::prelude::sub(64u64, lzw) == 0);
            assert(lzw >= 1) by (bit_vector)
                requires
                    v >= 0,
                    u == v as u64,
                    lzw < 64 ==> (u >> vstd::prelude::sub(63u64, lzw)) & 1u64 != 0u64,
                    lzw <= 64,
            ;
            assert(sw == (lzw - 1) / 2 * 2);
            assert(v << s >= 0) by (bit_vector)
                requires
                    v >= 0,
                    u == v as u64,
                    u >> vstd::prelude::sub(64u64, lzw) == 0,
                    1 <= lzw <= 64,
                    sw + 1 <= lzw,
                    sw == s,
            ;
        }
        let w = v << s;
        let root = isqrt(w);
        let r = if s < Q64_SHIFT {
            Q64(root << ((Q64_SHIFT - s) / 2))
        } else {
            Q64(root >> ((s - Q64_SHIFT) / 2))
        };
        assert(s == sqrt_shift(v));
        assert(r.0 == rescale_root(root, s));
        proof {
            lemma_isqrt_unique(root as int, (v << s) as int);
        }
        r
    }

    /// Shifts the raw value left; bits shifted past the top are lost.
    pub fn shl(self, shift: u32) -> (r: Self)
        requires
            shift < 64,
        ensures
            r.0 == self.0 << shift,
    {
        Q64(self.0 << shift)
    }

    /// Shifts the raw value right, copying the sign bit in.
    pub fn shr(self, shift: u32) -> (r: Self)
        requires
            shift < 64,
        ensures
            r.0 == self.0 >> shift,
    {
        Q64(self.0 >> shift)
    }

    pub fn shl_assign(&mut self, shift: u32)
        requires
            shift < 64,
        ensures
            final(self).0 == old(self).0 << shift,
    {
        *self = self.shl(shift);
    }

    pub fn shr_assign(&mut self, shift: u32)
        requires
            shift < 64,
        ensures
            final(self).0 == old(self).0 >> shift,
    {
        *self = self.shr(shift);
    }

    /// Scales both coordinates of `rhs` by this number.
    pub fn mul_vec(self, rhs: Q64Vec) -> (r: Q64Vec)
        requires
            fits_i64(mul_raw(rhs.x.0 as int, self.0 as int)),
            fits_i64(mul_raw(rhs.y.0 as int, self.0 as int)),
        ensures
            r.x.0 == mul_raw(rhs.x.0 as int, self.0 as int),
            r.y.0 == mul_raw(rhs.y.0 as int, self.0 as int),
    {
        rhs.mul(self)
    }
}

} // verus!
