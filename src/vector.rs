use vstd::prelude::*;

use crate::fixed::{
    div_raw, fits_i64, mul_raw, sqrt_raw, unit, Q64, PI_OVER_TWO_RAW, ZERO_RAW,
};

verus! {

/// Raw value of the constant of the rational arctangent approximation used by
/// [`Q64Vec::get_angle`], about 0.596227.
pub const ANGLE_B_RAW: i64 = 2560775466;

/// Beyond this many units in either coordinate, [`Q64Vec::norm`] gives up on
/// the exact root and reports [`NORM_CAP`] units.
pub const NORM_COORD_LIMIT: i32 = 30000;

/// The length, in units, reported for vectors beyond [`NORM_COORD_LIMIT`].
pub const NORM_CAP: i32 = 1000000;

/// Absolute value of an integer.
pub open spec fn abs_int(v: int) -> int {
    if v < 0 {
        -v
    } else {
        v
    }
}

/// Raw value of the squared length of the vector with raw coordinates `x`, `y`.
pub open spec fn norm_squared_raw(x: int, y: int) -> int {
    mul_raw(x, x) + mul_raw(y, y)
}

/// A coordinate lies beyond [`NORM_COORD_LIMIT`] units.
pub open spec fn norm_is_capped(x: int, y: int) -> bool {
    abs_int(x) > NORM_COORD_LIMIT * unit() || abs_int(y) > NORM_COORD_LIMIT * unit()
}

/// Raw value of [`Q64Vec::norm`].
pub open spec fn norm_raw(x: i64, y: i64) -> int {
    if norm_is_capped(x as int, y as int) {
        NORM_CAP * unit()
    } else {
        sqrt_raw(norm_squared_raw(x as int, y as int) as i64) as int
    }
}

/// The quadrant offset of [`Q64Vec::get_angle`], in quarter turns.
pub open spec fn angle_quadrant(x: int, y: int) -> int {
    if x < 0 {
        2
    } else if y < 0 {
        4
    } else {
        0
    }
}

/// `|B * x * y|`, the cross term of the arctangent approximation.
pub open spec fn angle_cross(x: int, y: int) -> int {
    abs_int(mul_raw(mul_raw(ANGLE_B_RAW as int, x), y))
}

pub open spec fn angle_num(x: int, y: int) -> int {
    angle_cross(x, y) + mul_raw(y, y)
}

pub open spec fn angle_denom(x: int, y: int) -> int {
    mul_raw(x, x) + angle_cross(x, y) + angle_num(x, y)
}

/// The approximate arctangent within the quadrant, in quarter turns.
pub open spec fn angle_fraction(x: int, y: int) -> int {
    let a = div_raw(angle_num(x, y), angle_denom(x, y));
    if (x < 0) != (y < 0) && a > 0 {
        -a
    } else {
        a
    }
}

/// Raw value of [`Q64Vec::get_angle`] at raw coordinates `x`, `y`.
pub open spec fn angle_raw(x: int, y: int) -> int {
    if angle_denom(x, y) == 0 {
        0
    } else {
        mul_raw(angle_quadrant(x, y) * unit() + angle_fraction(x, y), PI_OVER_TWO_RAW as int)
    }
}

/// Every intermediate value of [`Q64Vec::get_angle`] is an `i64`.
pub open spec fn angle_in_range(x: int, y: int) -> bool {
    let bx = mul_raw(ANGLE_B_RAW as int, x);
    let bxy = mul_raw(bx, y);
    &&& fits_i64(bx)
    &&& fits_i64(bxy) && bxy != i64::MIN
    &&& fits_i64(mul_raw(y, y))
    &&& fits_i64(angle_num(x, y))
    &&& fits_i64(mul_raw(x, x))
    &&& fits_i64(mul_raw(x, x) + angle_cross(x, y))
    &&& fits_i64(angle_denom(x, y))
    &&& (angle_denom(x, y) != 0 ==> {
        &&& fits_i64(div_raw(angle_num(x, y), angle_denom(x, y)))
        &&& fits_i64(angle_quadrant(x, y) * unit() + angle_fraction(x, y))
        &&& fits_i64(angle_raw(x, y))
    })
}

/// A two-dimensional vector of [`Q64`] coordinates.
#[derive(Debug, Default, Clone, Copy, PartialEq, Eq, Structural, PartialOrd, Ord, Hash)]
pub struct Q64Vec {
    pub x: Q64,
    pub y: Q64,
}

impl Q64Vec {
    pub fn new(x: Q64, y: Q64) -> (r: Self)
        ensures
            r.x == x,
            r.y == y,
    {
        Q64Vec { x, y }
    }

    /// The vector with integer coordinates `x`, `y`.
    pub fn from_i32(x: i32, y: i32) -> (r: Self)
        ensures
            r.x.0 == x * unit(),
            r.y.0 == y * unit(),
    {
        Q64Vec { x: Q64::from_i32(x), y: Q64::from_i32(y) }
    }

    /// `x^2 + y^2`, each square rounded down.
    pub fn norm_squared(self) -> (r: Q64)
        requires
            fits_i64(mul_raw(self.x.0 as int, self.x.0 as int)),
            fits_i64(mul_raw(self.y.0 as int, self.y.0 as int)),
            fits_i64(norm_squared_raw(self.x.0 as int, self.y.0 as int)),
        ensures
            r.0 == norm_squared_raw(self.x.0 as int, self.y.0 as int),
    {
        self.x.mul(self.x).add(self.y.mul(self.y))
    }

    /// The length. Where a coordinate exceeds [`NORM_COORD_LIMIT`] units the
    /// squares could overflow, and the length is reported as [`NORM_CAP`]
    /// units instead.
    pub fn norm(self) -> (r: Q64)
        requires
            self.x.0 != i64::MIN,
            self.y.0 != i64::MIN,
        ensures
            r.0 == norm_raw(self.x.0, self.y.0),
    {
        let limit = Q64::from_i32(NORM_COORD_LIMIT);
        if self.x.abs().0 > limit.0 || self.y.abs().0 > limit.0 {
            return Q64::from_i32(NORM_CAP);
        }
        let ghost ax = abs_int(self.x.0 as int);
        let ghost ay = abs_int(self.y.0 as int);
        let ghost bound = NORM_COORD_LIMIT * unit();
        proof {
            assert(self.x.0 * self.x.0 == ax * ax) by (nonlinear_arith)
                requires
                    ax == abs_int(self.x.0 as int),
            ;
            assert(self.y.0 * self.y.0 == ay * ay) by (nonlinear_arith)
                requires
                    ay == abs_int(self.y.0 as int),
            ;
            assert(0 <= ax * ax <= bound * bound) by (nonlinear_arith)
                requires
                    0 <= ax <= bound,
            ;
            assert(0 <= ay * ay <= bound * bound) by (nonlinear_arith)
                requires
                    0 <= ay <= bound,
            ;
            vstd::arithmetic::div_mod::lemma_div_is_ordered(ax * ax, bound * bound, unit());
            vstd::arithmetic::div_mod::lemma_div_is_ordered(ay * ay, bound * bound, unit());
            vstd::arithmetic::div_mod::lemma_div_pos_is_pos(ax * ax, unit());
            vstd::arithmetic::div_mod::lemma_div_pos_is_pos(ay * ay, unit());
            assert(bound == 128849018880000);
            assert(mul_raw(bound, bound) == 3865470566400000000);
        }
        self.x.mul(self.x).add(self.y.mul(self.y)).sqrt()
    }

    /// The unit vector in the same direction; the zero vector where the
    /// length is zero.
    pub fn normalized(self) -> (r: Self)
        requires
            self.x.0 != i64::MIN,
            self.y.0 != i64::MIN,
            norm_raw(self.x.0, self.y.0) != 0 ==> fits_i64(
                div_raw(self.x.0 as int, norm_raw(self.x.0, self.y.0)),
            ) && fits_i64(div_raw(self.y.0 as int, norm_raw(self.x.0, self.y.0))),
        ensures
            norm_raw(self.x.0, self.y.0) == 0 ==> r.x.0 == 0 && r.y.0 == 0,
            norm_raw(self.x.0, self.y.0) != 0 ==> r.x.0 == div_raw(
                self.x.0 as int,
                norm_raw(self.x.0, self.y.0),
            ) && r.y.0 == div_raw(self.y.0 as int, norm_raw(self.x.0, self.y.0)),
    {
        let norm = self.norm();
        if norm.0 == ZERO_RAW {
            Q64Vec { x: Q64(ZERO_RAW), y: Q64(ZERO_RAW) }
        } else {
            self.div(norm)
        }
    }

    pub fn neg(self) -> (r: Self)
        requires
            self.x.0 != i64::MIN,
            self.y.0 != i64::MIN,
        ensures
            r.x.0 == -self.x.0,
            r.y.0 == -self.y.0,
    {
        Q64Vec { x: self.x.neg(), y: self.y.neg() }
    }

    pub fn add(self, rhs: Self) -> (r: Self)
        requires
            fits_i64(self.x.0 + rhs.x.0),
            fits_i64(self.y.0 + rhs.y.0),
        ensures
            r.x.0 == self.x.0 + rhs.x.0,
            r.y.0 == self.y.0 + rhs.y.0,
    {
        Q64Vec { x: self.x.add(rhs.x), y: self.y.add(rhs.y) }
    }

    pub fn sub(self, rhs: Self) -> (r: Self)
        requires
            fits_i64(self.x.0 - rhs.x.0),
            fits_i64(self.y.0 - rhs.y.0),
        ensures
            r.x.0 == self.x.0 - rhs.x.0,
            r.y.0 == self.y.0 - rhs.y.0,
    {
        Q64Vec { x: self.x.sub(rhs.x), y: self.y.sub(rhs.y) }
    }

    /// Scales both coordinates by `rhs`, each product rounded down.
    pub fn mul(self, rhs: Q64) -> (r: Self)
        requires
            fits_i64(mul_raw(self.x.0 as int, rhs.0 as int)),
            fits_i64(mul_raw(self.y.0 as int, rhs.0 as int)),
        ensures
            r.x.0 == mul_raw(self.x.0 as int, rhs.0 as int),
            r.y.0 == mul_raw(self.y.0 as int, rhs.0 as int),
    {
        Q64Vec { x: self.x.mul(rhs), y: self.y.mul(rhs) }
    }

    /// Divides both coordinates by `rhs`, each quotient rounded toward zero.
    pub fn div(self, rhs: Q64) -> (r: Self)
        requires
            rhs.0 != 0,
            fits_i64(div_raw(self.x.0 as int, rhs.0 as int)),
            fits_i64(div_raw(self.y.0 as int, rhs.0 as int)),
        ensures
            r.x.0 == div_raw(self.x.0 as int, rhs.0 as int),
            r.y.0 == div_raw(self.y.0 as int, rhs.0 as int),
    {
        Q64Vec { x: self.x.div(rhs), y: self.y.div(rhs) }
    }

    pub fn add_assign(&mut self, rhs: Self)
        requires
            fits_i64(old(self).x.0 + rhs.x.0),
            fits_i64(old(self).y.0 + rhs.y.0),
        ensures
            final(self).x.0 == old(self).x.0 + rhs.x.0,
            final(self).y.0 == old(self).y.0 + rhs.y.0,
    {
        *self = self.add(rhs);
    }

    pub fn sub_assign(&mut self, rhs: Self)
        requires
            fits_i64(old(self).x.0 - rhs.x.0),
            fits_i64(old(self).y.0 - rhs.y.0),
        ensures
            final(self).x.0 == old(self).x.0 - rhs.x.0,
            final(self).y.0 == old(self).y.0 - rhs.y.0,
    {
        *self = self.sub(rhs);
    }

    pub fn mul_assign(&mut self, rhs: Q64)
        requires
            fits_i64(mul_raw(old(self).x.0 as int, rhs.0 as int)),
            fits_i64(mul_raw(old(self).y.0 as int, rhs.0 as int)),
        ensures
            final(self).x.0 == mul_raw(old(self).x.0 as int, rhs.0 as int),
            final(self).y.0 == mul_raw(old(self).y.0 as int, rhs.0 as int),
    {
        *self = self.mul(rhs);
    }

    pub fn div_assign(&mut self, rhs: Q64)
        requires
            rhs.0 != 0,
            fits_i64(div_raw(old(self).x.0 as int, rhs.0 as int)),
            fits_i64(div_raw(old(self).y.0 as int, rhs.0 as int)),
        ensures
            final(self).x.0 == div_raw(old(self).x.0 as int, rhs.0 as int),
            final(self).y.0 == div_raw(old(self).y.0 as int, rhs.0 as int),
    {
        *self = self.div(rhs);
    }

    /// The direction of the vector, in radians in `[0, 2 pi)` up to the error
    /// of a rational arctangent approximation; zero for the zero vector.
    pub fn get_angle(self) -> (r: Q64)
        requires
            angle_in_range(self.x.0 as int, self.y.0 as int),
        ensures
            r.0 == angle_raw(self.x.0 as int, self.y.0 as int),
    {
        let x_sign = self.x.0 < 0;
        let y_sign = self.y.0 < 0;
        let q: i32 = if x_sign {
            2
        } else if y_sign {
            4
        } else {
            0
        };
        let bxy_a = Q64(ANGLE_B_RAW).mul(self.x).mul(self.y).abs();
        let num = bxy_a.add(self.y.mul(self.y));
        let denom = self.x.mul(self.x).add(bxy_a).add(num);
        if denom.0 == ZERO_RAW {
            return Q64(ZERO_RAW);
        }
        let mut atan_1q = num.div(denom);
        if x_sign != y_sign && atan_1q.0 > ZERO_RAW {
            atan_1q = atan_1q.neg();
        }
        Q64::from_i32(q).add(atan_1q).mul(Q64(PI_OVER_TWO_RAW))
    }
}

} // verus!
