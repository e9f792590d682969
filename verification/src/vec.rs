//! Three-component fixed-point vectors and the two-component UV pair.

use vstd::prelude::*;
use crate::math::{Fixed, FX_MAX, MUL_MAX, PROD_MAX, SCALE, fx_ok, fx_mul, iabs, fmul};

verus! {

/// A point or direction in space, in fixed-point coordinates.
#[derive(Clone, Copy, PartialEq, Eq, Structural, Debug)]
pub struct Vec3 {
    pub x: Fixed,
    pub y: Fixed,
    pub z: Fixed,
}

/// A surface parameter pair, in fixed-point coordinates.
#[derive(Clone, Copy, PartialEq, Eq, Structural, Debug)]
pub struct Vec2 {
    pub x: Fixed,
    pub y: Fixed,
}

/// All components within the scene coordinate bound.
pub open spec fn vec_ok(v: Vec3) -> bool {
    fx_ok(v.x as int) && fx_ok(v.y as int) && fx_ok(v.z as int)
}

/// All components small enough to be multiplication operands.
pub open spec fn vec_mulok(v: Vec3) -> bool {
    iabs(v.x as int) <= MUL_MAX && iabs(v.y as int) <= MUL_MAX && iabs(v.z as int) <= MUL_MAX
}

pub open spec fn spec_add(a: Vec3, b: Vec3) -> Vec3 {
    Vec3 { x: (a.x + b.x) as i128, y: (a.y + b.y) as i128, z: (a.z + b.z) as i128 }
}

pub open spec fn spec_sub(a: Vec3, b: Vec3) -> Vec3 {
    Vec3 { x: (a.x - b.x) as i128, y: (a.y - b.y) as i128, z: (a.z - b.z) as i128 }
}

/// Componentwise fixed-point scaling by `k`.
pub open spec fn spec_scale(v: Vec3, k: int) -> Vec3 {
    Vec3 {
        x: fx_mul(v.x as int, k) as i128,
        y: fx_mul(v.y as int, k) as i128,
        z: fx_mul(v.z as int, k) as i128,
    }
}

/// The fixed-point dot product.
pub open spec fn spec_dot(a: Vec3, b: Vec3) -> int {
    fx_mul(a.x as int, b.x as int) + fx_mul(a.y as int, b.y as int) + fx_mul(
        a.z as int,
        b.z as int,
    )
}

/// The fixed-point cross product.
pub open spec fn spec_cross(a: Vec3, b: Vec3) -> Vec3 {
    Vec3 {
        x: (fx_mul(a.y as int, b.z as int) - fx_mul(a.z as int, b.y as int)) as i128,
        y: (fx_mul(a.z as int, b.x as int) - fx_mul(a.x as int, b.z as int)) as i128,
        z: (fx_mul(a.x as int, b.y as int) - fx_mul(a.y as int, b.x as int)) as i128,
    }
}

pub open spec fn spec_min_by_component(a: Vec3, b: Vec3) -> Vec3 {
    Vec3 {
        x: if a.x <= b.x {
            a.x
        } else {
            b.x
        },
        y: if a.y <= b.y {
            a.y
        } else {
            b.y
        },
        z: if a.z <= b.z {
            a.z
        } else {
            b.z
        },
    }
}

pub open spec fn spec_max_by_component(a: Vec3, b: Vec3) -> Vec3 {
    Vec3 {
        x: if a.x >= b.x {
            a.x
        } else {
            b.x
        },
        y: if a.y >= b.y {
            a.y
        } else {
            b.y
        },
        z: if a.z >= b.z {
            a.z
        } else {
            b.z
        },
    }
}

impl Vec3 {
    pub fn new(x: Fixed, y: Fixed, z: Fixed) -> (r: Vec3)
        ensures
            r == (Vec3 { x, y, z }),
    {
        Vec3 { x, y, z }
    }

    /// The zero vector.
    pub fn zero() -> (r: Vec3)
        ensures
            r == (Vec3 { x: 0i128, y: 0i128, z: 0i128 }),
    {
        Vec3 { x: 0, y: 0, z: 0 }
    }

    /// The all-ones vector (one in fixed-point units).
    pub fn one() -> (r: Vec3)
        ensures
            r == (Vec3 { x: SCALE, y: SCALE, z: SCALE }),
    {
        Vec3 { x: SCALE, y: SCALE, z: SCALE }
    }

    pub fn add(&self, o: &Vec3) -> (r: Vec3)
        requires
            iabs(self.x + o.x) <= i128::MAX,
            iabs(self.y + o.y) <= i128::MAX,
            iabs(self.z + o.z) <= i128::MAX,
        ensures
            r == spec_add(*self, *o),
    {
        Vec3 { x: self.x + o.x, y: self.y + o.y, z: self.z + o.z }
    }

    pub fn sub(&self, o: &Vec3) -> (r: Vec3)
        requires
            iabs(self.x - o.x) <= i128::MAX,
            iabs(self.y - o.y) <= i128::MAX,
            iabs(self.z - o.z) <= i128::MAX,
        ensures
            r == spec_sub(*self, *o),
    {
        Vec3 { x: self.x - o.x, y: self.y - o.y, z: self.z - o.z }
    }

    /// Scale every component by the fixed-point factor `k`.
    pub fn scale(&self, k: Fixed) -> (r: Vec3)
        requires
            vec_mulok(*self),
            iabs(k as int) <= MUL_MAX,
        ensures
            r == spec_scale(*self, k as int),
            iabs(r.x as int) <= PROD_MAX,
            iabs(r.y as int) <= PROD_MAX,
            iabs(r.z as int) <= PROD_MAX,
    {
        Vec3 { x: fmul(self.x, k), y: fmul(self.y, k), z: fmul(self.z, k) }
    }

    pub fn dot(&self, o: &Vec3) -> (r: Fixed)
        requires
            vec_mulok(*self),
            vec_mulok(*o),
        ensures
            r == spec_dot(*self, *o),
            iabs(r as int) <= 3 * PROD_MAX,
    {
        fmul(self.x, o.x) + fmul(self.y, o.y) + fmul(self.z, o.z)
    }

    pub fn cross(&self, o: &Vec3) -> (r: Vec3)
        requires
            vec_mulok(*self),
            vec_mulok(*o),
        ensures
            r == spec_cross(*self, *o),
    {
        Vec3 {
            x: fmul(self.y, o.z) - fmul(self.z, o.y),
            y: fmul(self.z, o.x) - fmul(self.x, o.z),
            z: fmul(self.x, o.y) - fmul(self.y, o.x),
        }
    }

    /// The squared length, in fixed-point units.
    pub fn mag_sq(&self) -> (r: Fixed)
        requires
            vec_mulok(*self),
        ensures
            r == spec_dot(*self, *self),
            r >= 0,
    {
        proof {
            lemma_self_dot_nonneg(*self);
        }
        self.dot(self)
    }

    /// Whether every component is inside the scene coordinate bound.
    pub fn check_ok(&self) -> (r: bool)
        ensures
            r == vec_ok(*self),
    {
        -FX_MAX <= self.x && self.x <= FX_MAX && -FX_MAX <= self.y && self.y <= FX_MAX && -FX_MAX
            <= self.z && self.z <= FX_MAX
    }

    pub fn min_by_component(&self, o: &Vec3) -> (r: Vec3)
        ensures
            r == spec_min_by_component(*self, *o),
    {
        Vec3 {
            x: if self.x <= o.x {
                self.x
            } else {
                o.x
            },
            y: if self.y <= o.y {
                self.y
            } else {
                o.y
            },
            z: if self.z <= o.z {
                self.z
            } else {
                o.z
            },
        }
    }

    pub fn max_by_component(&self, o: &Vec3) -> (r: Vec3)
        ensures
            r == spec_max_by_component(*self, *o),
    {
        Vec3 {
            x: if self.x >= o.x {
                self.x
            } else {
                o.x
            },
            y: if self.y >= o.y {
                self.y
            } else {
                o.y
            },
            z: if self.z >= o.z {
                self.z
            } else {
                o.z
            },
        }
    }
}

/// A fixed-point product of a value with itself is never negative.
pub proof fn lemma_fx_mul_self_nonneg(a: int)
    ensures
        fx_mul(a, a) >= 0,
{
    assert(a * a >= 0) by (nonlinear_arith);
}

/// A dot product of a vector with itself is never negative.
pub proof fn lemma_self_dot_nonneg(v: Vec3)
    ensures
        spec_dot(v, v) >= 0,
{
    lemma_fx_mul_self_nonneg(v.x as int);
    lemma_fx_mul_self_nonneg(v.y as int);
    lemma_fx_mul_self_nonneg(v.z as int);
}

/// True when every component is smaller in magnitude than the fixed
/// self-intersection threshold used across the engine.
pub fn near_zero(vec: Vec3) -> (r: bool)
    ensures
        r == spec_near_zero(vec),
{
    let s: i128 = NEAR_ZERO;
    -s < vec.x && vec.x < s && -s < vec.y && vec.y < s && -s < vec.z && vec.z < s
}

/// A thousandth of one, rounded down to fixed-point units: the
/// threshold under which a vector counts as vanishing.
pub const NEAR_ZERO: i128 = 65;

pub open spec fn spec_near_zero(v: Vec3) -> bool {
    iabs(v.x as int) < NEAR_ZERO && iabs(v.y as int) < NEAR_ZERO && iabs(v.z as int) < NEAR_ZERO
}

} // verus!

verus! {

/// Magnitude bound on normalized vectors: twice one in fixed-point units,
/// leaving room for rounding.
pub const UNIT_MAX: i128 = 131072;

/// What normalization returns: the vector divided by its rounded length,
/// or nothing when the length degenerates or a component rounds outside
/// the unit neighbourhood.
pub open spec fn spec_normalised(v: Vec3) -> Option<Vec3> {
    if iabs(v.x as int) > MUL_MAX || iabs(v.y as int) > MUL_MAX || iabs(v.z as int) > MUL_MAX {
        Option::None
    } else {
    let d = spec_dot(v, v);
    if d <= 0 {
        Option::None
    } else {
        let m = crate::math::fx_sqrt(d);
        if m <= 0 {
            Option::None
        } else {
            let n = Vec3 {
                x: crate::math::fx_div(v.x as int, m) as i128,
                y: crate::math::fx_div(v.y as int, m) as i128,
                z: crate::math::fx_div(v.z as int, m) as i128,
            };
            if iabs(n.x as int) > UNIT_MAX || iabs(n.y as int) > UNIT_MAX || iabs(n.z as int)
                > UNIT_MAX {
                Option::None
            } else {
                Option::Some(n)
            }
        }
    }
    }
}

impl Vec3 {
    /// The unit-length vector in this direction, if the length does not
    /// degenerate under fixed-point rounding.
    pub fn normalised(&self) -> (r: Option<Vec3>)
        ensures
            r == spec_normalised(*self),
            r matches Option::Some(n) ==> iabs(n.x as int) <= UNIT_MAX && iabs(n.y as int)
                <= UNIT_MAX && iabs(n.z as int) <= UNIT_MAX,
    {
        if self.x > MUL_MAX || self.x < -MUL_MAX || self.y > MUL_MAX || self.y < -MUL_MAX
            || self.z > MUL_MAX || self.z < -MUL_MAX {
            return Option::None;
        }
        let d: Fixed = self.dot(self);
        if d <= 0 {
            return Option::None;
        }
        let m: Fixed = crate::math::fsqrt(d);
        if m <= 0 {
            return Option::None;
        }
        let n: Vec3 = Vec3 {
            x: crate::math::fdiv(self.x, m),
            y: crate::math::fdiv(self.y, m),
            z: crate::math::fdiv(self.z, m),
        };
        if n.x > UNIT_MAX || n.x < -UNIT_MAX || n.y > UNIT_MAX || n.y < -UNIT_MAX || n.z > UNIT_MAX
            || n.z < -UNIT_MAX {
            Option::None
        } else {
            Option::Some(n)
        }
    }
}

} // verus!
