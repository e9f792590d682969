//! Axis-aligned bounding boxes: box–box union and the exact ray–box slab
//! test that bounding-volume traversal prunes with.
//!
//! The slab test is decided purely by sign-normalized rational comparisons
//! (`en_i / d_i <= ex_j / d_j` checked as `en_i * d_j <= ex_j * d_i`), so it
//! is exact: it answers whether some parameter `t >= 0` keeps the ray inside
//! every slab, with no rounding anywhere.

use vstd::prelude::*;
use crate::math::{Fixed, FX_MAX, MUL_MAX, iabs};
use crate::vec::{Vec3, spec_min_by_component, spec_max_by_component};
use crate::ray::{Ray, ray_ok};
use vstd::arithmetic::mul::lemma_mul_inequality;

verus! {

/// An axis-aligned box; `min` is componentwise at most `max`.
#[derive(Clone, Copy, PartialEq, Eq, Structural, Debug)]
pub struct AABB {
    pub min: Vec3,
    pub max: Vec3,
}

/// Well-formed box: ordered corners, components bounded so that the slab
/// products below stay exact.
pub open spec fn box_ok(b: AABB) -> bool {
    &&& iabs(b.min.x as int) <= MUL_MAX
    &&& iabs(b.min.y as int) <= MUL_MAX
    &&& iabs(b.min.z as int) <= MUL_MAX
    &&& iabs(b.max.x as int) <= MUL_MAX
    &&& iabs(b.max.y as int) <= MUL_MAX
    &&& iabs(b.max.z as int) <= MUL_MAX
    &&& b.min.x <= b.max.x
    &&& b.min.y <= b.max.y
    &&& b.min.z <= b.max.z
}

/// `outer` contains `inner`, componentwise.
pub open spec fn spec_contains(outer: AABB, inner: AABB) -> bool {
    &&& outer.min.x <= inner.min.x
    &&& outer.min.y <= inner.min.y
    &&& outer.min.z <= inner.min.z
    &&& inner.max.x <= outer.max.x
    &&& inner.max.y <= outer.max.y
    &&& inner.max.z <= outer.max.z
}

/// The smallest box holding both arguments.
pub open spec fn spec_union(a: AABB, b: AABB) -> AABB {
    AABB {
        min: spec_min_by_component(a.min, b.min),
        max: spec_max_by_component(a.max, b.max),
    }
}

/// Component `i` (0, 1, 2 for x, y, z) of a vector.
pub open spec fn axis_val(v: Vec3, i: int) -> int {
    if i == 0 {
        v.x as int
    } else if i == 1 {
        v.y as int
    } else {
        v.z as int
    }
}

/// The ray direction's component along axis `i`: the slab denominator.
pub open spec fn den(r: Ray, i: int) -> int {
    axis_val(r.direction, i)
}

/// The magnitude of the slab denominator.
pub open spec fn dpos(r: Ray, i: int) -> int {
    iabs(den(r, i))
}

/// Numerator of the slab entry parameter along axis `i`, sign-normalized so
/// the denominator is `dpos`; meaningful only when `den(r, i) != 0`.
pub open spec fn en(r: Ray, b: AABB, i: int) -> int {
    if den(r, i) > 0 {
        axis_val(b.min, i) - axis_val(r.origin, i)
    } else {
        axis_val(r.origin, i) - axis_val(b.max, i)
    }
}

/// Numerator of the slab exit parameter along axis `i`, sign-normalized.
pub open spec fn ex(r: Ray, b: AABB, i: int) -> int {
    if den(r, i) > 0 {
        axis_val(b.max, i) - axis_val(r.origin, i)
    } else {
        axis_val(r.origin, i) - axis_val(b.min, i)
    }
}

/// A ray parallel to axis `i`'s slab must start inside it.
pub open spec fn axis_inside(r: Ray, b: AABB, i: int) -> bool {
    den(r, i) != 0 || (axis_val(b.min, i) <= axis_val(r.origin, i) && axis_val(r.origin, i)
        <= axis_val(b.max, i))
}

/// The exit parameter of axis `i` must not lie behind the ray origin.
pub open spec fn axis_exit_ok(r: Ray, b: AABB, i: int) -> bool {
    den(r, i) == 0 || ex(r, b, i) >= 0
}

/// Axis `i`'s entry must not come after axis `j`'s exit:
/// `en_i / d_i <= ex_j / d_j`, cross-multiplied.
pub open spec fn pair_ok(r: Ray, b: AABB, i: int, j: int) -> bool {
    den(r, i) == 0 || den(r, j) == 0 || en(r, b, i) * dpos(r, j) <= ex(r, b, j) * dpos(r, i)
}

/// The exact slab test: some parameter `t >= 0` places the ray inside all
/// three slabs at once (closed intervals, so grazing the boundary counts).
pub open spec fn slab_hit(r: Ray, b: AABB) -> bool {
    &&& axis_inside(r, b, 0)
    &&& axis_inside(r, b, 1)
    &&& axis_inside(r, b, 2)
    &&& axis_exit_ok(r, b, 0)
    &&& axis_exit_ok(r, b, 1)
    &&& axis_exit_ok(r, b, 2)
    &&& pair_ok(r, b, 0, 0)
    &&& pair_ok(r, b, 0, 1)
    &&& pair_ok(r, b, 0, 2)
    &&& pair_ok(r, b, 1, 0)
    &&& pair_ok(r, b, 1, 1)
    &&& pair_ok(r, b, 1, 2)
    &&& pair_ok(r, b, 2, 0)
    &&& pair_ok(r, b, 2, 1)
    &&& pair_ok(r, b, 2, 2)
}

impl AABB {
    /// A box from ordered corners; inverted corners are a caller defect and
    /// are excluded here rather than detected at traversal time.
    pub fn new(min: Vec3, max: Vec3) -> (b: AABB)
        requires
            min.x <= max.x,
            min.y <= max.y,
            min.z <= max.z,
        ensures
            b == (AABB { min, max }),
    {
        AABB { min, max }
    }

    /// The smallest box holding `self` and `other`.
    pub fn union(&self, other: &AABB) -> (r: AABB)
        ensures
            r == spec_union(*self, *other),
            spec_contains(r, *self),
            spec_contains(r, *other),
    {
        AABB {
            min: self.min.min_by_component(&other.min),
            max: self.max.max_by_component(&other.max),
        }
    }

    /// The exact slab test against this box.
    pub fn hits(&self, r: &Ray) -> (res: bool)
        requires
            ray_ok(*r),
            box_ok(*self),
        ensures
            res == slab_hit(*r, *self),
    {
        let a0 = axis_inside_e(r, self, 0);
        let a1 = axis_inside_e(r, self, 1);
        let a2 = axis_inside_e(r, self, 2);
        let e0 = axis_exit_e(r, self, 0);
        let e1 = axis_exit_e(r, self, 1);
        let e2 = axis_exit_e(r, self, 2);
        let p00 = pair_e(r, self, 0, 0);
        let p01 = pair_e(r, self, 0, 1);
        let p02 = pair_e(r, self, 0, 2);
        let p10 = pair_e(r, self, 1, 0);
        let p11 = pair_e(r, self, 1, 1);
        let p12 = pair_e(r, self, 1, 2);
        let p20 = pair_e(r, self, 2, 0);
        let p21 = pair_e(r, self, 2, 1);
        let p22 = pair_e(r, self, 2, 2);
        a0 && a1 && a2 && e0 && e1 && e2 && p00 && p01 && p02 && p10 && p11 && p12 && p20 && p21
            && p22
    }
}

/// Component `i` of a vector.
pub(crate) fn axv(v: &Vec3, i: usize) -> (x: Fixed)
    requires
        i < 3,
    ensures
        x as int == axis_val(*v, i as int),
{
    if i == 0 {
        v.x
    } else if i == 1 {
        v.y
    } else {
        v.z
    }
}

fn axis_inside_e(r: &Ray, b: &AABB, i: usize) -> (res: bool)
    requires
        i < 3,
    ensures
        res == axis_inside(*r, *b, i as int),
{
    let d: i128 = axv(&r.direction, i);
    if d != 0 {
        true
    } else {
        let o: i128 = axv(&r.origin, i);
        axv(&b.min, i) <= o && o <= axv(&b.max, i)
    }
}

fn axis_exit_e(r: &Ray, b: &AABB, i: usize) -> (res: bool)
    requires
        i < 3,
    ensures
        res == axis_exit_ok(*r, *b, i as int),
{
    let d: i128 = axv(&r.direction, i);
    if d == 0 {
        true
    } else {
        let o: i128 = axv(&r.origin, i);
        if d > 0 {
            axv(&b.max, i) >= o
        } else {
            o >= axv(&b.min, i)
        }
    }
}

fn pair_e(r: &Ray, b: &AABB, i: usize, j: usize) -> (res: bool)
    requires
        i < 3,
        j < 3,
        ray_ok(*r),
        box_ok(*b),
    ensures
        res == pair_ok(*r, *b, i as int, j as int),
{
    let di: i128 = axv(&r.direction, i);
    let dj: i128 = axv(&r.direction, j);
    if di == 0 || dj == 0 {
        true
    } else {
        let oi: i128 = axv(&r.origin, i);
        let oj: i128 = axv(&r.origin, j);
        let eni: i128 = if di > 0 {
            axv(&b.min, i) - oi
        } else {
            oi - axv(&b.max, i)
        };
        let exj: i128 = if dj > 0 {
            axv(&b.max, j) - oj
        } else {
            oj - axv(&b.min, j)
        };
        let mi: i128 = if di < 0 {
            -di
        } else {
            di
        };
        let mj: i128 = if dj < 0 {
            -dj
        } else {
            dj
        };
        proof {
            assert(-(i128::MAX as int) <= (eni as int) * (mj as int) <= i128::MAX as int && -(
            i128::MAX as int) <= (exj as int) * (mi as int) <= i128::MAX as int)
                by (nonlinear_arith)
                requires
                    iabs(eni as int) <= MUL_MAX + FX_MAX,
                    iabs(exj as int) <= MUL_MAX + FX_MAX,
                    iabs(mi as int) <= FX_MAX,
                    iabs(mj as int) <= FX_MAX,
            ;
        }
        eni * mj <= exj * mi
    }
}

/// Enlarging the box keeps the slab test true: the heart of bounding-volume
/// pruning soundness.
pub proof fn lemma_slab_monotone(r: Ray, inner: AABB, outer: AABB)
    requires
        box_ok(inner),
        box_ok(outer),
        spec_contains(outer, inner),
        slab_hit(r, inner),
    ensures
        slab_hit(r, outer),
{
    lemma_pair_monotone(r, inner, outer, 0, 0);
    lemma_pair_monotone(r, inner, outer, 0, 1);
    lemma_pair_monotone(r, inner, outer, 0, 2);
    lemma_pair_monotone(r, inner, outer, 1, 0);
    lemma_pair_monotone(r, inner, outer, 1, 1);
    lemma_pair_monotone(r, inner, outer, 1, 2);
    lemma_pair_monotone(r, inner, outer, 2, 0);
    lemma_pair_monotone(r, inner, outer, 2, 1);
    lemma_pair_monotone(r, inner, outer, 2, 2);
}

/// One cross-multiplied entry/exit constraint survives box enlargement.
proof fn lemma_pair_monotone(r: Ray, inner: AABB, outer: AABB, i: int, j: int)
    requires
        0 <= i < 3,
        0 <= j < 3,
        spec_contains(outer, inner),
        pair_ok(r, inner, i, j),
    ensures
        pair_ok(r, outer, i, j),
{
    if den(r, i) != 0 && den(r, j) != 0 {
        assert(en(r, outer, i) <= en(r, inner, i));
        assert(ex(r, inner, j) <= ex(r, outer, j));
        lemma_mul_inequality(en(r, outer, i), en(r, inner, i), dpos(r, j));
        lemma_mul_inequality(ex(r, inner, j), ex(r, outer, j), dpos(r, i));
    }
}

/// Containment chains: a box inside a box inside a third is inside the third.
pub proof fn lemma_contains_trans(a: AABB, b: AABB, c: AABB)
    requires
        spec_contains(a, b),
        spec_contains(b, c),
    ensures
        spec_contains(a, c),
{
}

/// The union of two boxes bounds both from below on `min` and from above on
/// `max`, componentwise.
pub proof fn lemma_union_bounds(a: AABB, b: AABB)
    ensures
        spec_union(a, b).min.x <= a.min.x && spec_union(a, b).min.x <= b.min.x,
        spec_union(a, b).min.y <= a.min.y && spec_union(a, b).min.y <= b.min.y,
        spec_union(a, b).min.z <= a.min.z && spec_union(a, b).min.z <= b.min.z,
        spec_union(a, b).max.x >= a.max.x && spec_union(a, b).max.x >= b.max.x,
        spec_union(a, b).max.y >= a.max.y && spec_union(a, b).max.y >= b.max.y,
        spec_union(a, b).max.z >= a.max.z && spec_union(a, b).max.z >= b.max.z,
{
}

} // verus!
