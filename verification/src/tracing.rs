//! The intersection protocol: the `Hit` record, the shared capability set
//! of all primitives, and its implementation for every variant.
//!
//! Every intersection routine begins with the exact slab test against the
//! primitive's own bounding box, and every arithmetic step that could leave
//! the safe fixed-point range is guarded and falls back to "no hit" — the
//! treatment this engine gives all degenerate numerics.  A reported hit
//! therefore always passes its own box's slab test, which is what makes
//! bounding-volume pruning lossless: a subtree whose box the ray misses can
//! hold no hit at all.
//!
//! Edge convention: triangle hits require `u > 0`, `v > 0` and
//! `u + v < 1` strictly, and rectangle hits lie strictly inside the
//! rectangle; boundary points never hit.

use vstd::prelude::*;
use vstd::pervasive::unreached;
use crate::math::{Fixed, MUL_MAX, DIV_MAX, SCALE, iabs, fx_mul, fx_div, fx_sqrt, fmul, fdiv,
    fsqrt};
use crate::vec::{Vec3, Vec2, vec_ok, spec_add, spec_sub, spec_dot, spec_cross, spec_scale};
use crate::ray::{Ray, ray_ok, spec_at};
use crate::aabb::{AABB, box_ok, slab_hit};
use crate::material::{Material, material_ok, spec_requires_uv};
use crate::primitives::{Axis, Sphere, AARect, AABox, Triangle, TriangleMesh, Primitive,
    sphere_wf, rect_wf, aabox_wf, triangle_wf, mesh_wf, prim_wf, spec_sphere_aabb, spec_rect_aabb,
    spec_aabox_aabb, spec_triangle_aabb, spec_mesh_aabb, spec_prim_aabb, spec_axis_value,
    spec_point_without_axis, spec_point_with_axis};

verus! {

/// The numerical epsilon: hits closer than this count as
/// self-intersections and are rejected (one ten-thousandth of one,
/// rounded up to fixed-point units).
pub const EPSILON: i128 = 7;

/// Magnitude bound on hit normals: twice one, in fixed-point units.
pub const NORMAL_MAX: i128 = 131072;

/// The record of a successful intersection.
#[derive(Clone, Copy, PartialEq, Eq, Structural, Debug)]
pub struct Hit {
    /// Distance parameter along the ray, strictly above `EPSILON`.
    pub t: Fixed,
    /// World point of the hit, nudged to avoid shadow acne.
    pub point: Vec3,
    /// Surface normal, oriented against the incoming ray.
    pub normal: Vec3,
    /// Surface parameters, present only when the material wants them.
    pub uv: Option<Vec2>,
    /// Whether the outward-facing side was struck.
    pub out: bool,
    /// The material at the hit.
    pub material: Material,
}

/// Every hit the engine hands out satisfies this.
pub open spec fn hit_ok(h: Hit) -> bool {
    &&& EPSILON < h.t
    &&& iabs(h.t as int) <= MUL_MAX
    &&& vec_ok(h.point)
    &&& iabs(h.normal.x as int) <= NORMAL_MAX
    &&& iabs(h.normal.y as int) <= NORMAL_MAX
    &&& iabs(h.normal.z as int) <= NORMAL_MAX
    &&& material_ok(h.material)
}

/// Keep the nearer of two optional hits; on an exact tie the first stays.
pub open spec fn closer(acc: Option<Hit>, nxt: Option<Hit>) -> Option<Hit> {
    match nxt {
        Option::None => acc,
        Option::Some(h) => match acc {
            Option::None => Option::Some(h),
            Option::Some(g) => if h.t < g.t {
                Option::Some(h)
            } else {
                Option::Some(g)
            },
        },
    }
}

/// Keep the nearer of two optional hits.
pub fn pick_closer(acc: Option<Hit>, nxt: Option<Hit>) -> (r: Option<Hit>)
    ensures
        r == closer(acc, nxt),
{
    match nxt {
        Option::None => acc,
        Option::Some(h) => match acc {
            Option::None => Option::Some(h),
            Option::Some(g) => if h.t < g.t {
                Option::Some(h)
            } else {
                Option::Some(g)
            },
        },
    }
}

/// What a sphere intersection returns, step for step.
#[verifier::opaque]
pub open spec fn spec_sphere_int(s: Sphere, r: Ray) -> Option<Hit> {
    if s.radius <= 0 || !slab_hit(r, spec_sphere_aabb(s)) {
        Option::None
    } else {
        let oc = spec_sub(r.origin, s.center);
        let a = spec_dot(r.direction, r.direction);
        let h = spec_dot(r.direction, oc);
        let c = spec_dot(oc, oc) - fx_mul(s.radius as int, s.radius as int);
        if a <= 0 || iabs(a) > MUL_MAX || iabs(h) > MUL_MAX || iabs(c) > MUL_MAX {
            Option::None
        } else {
            let disc = fx_mul(h, h) - fx_mul(a, c);
            if disc <= 0 {
                Option::None
            } else {
                let sq = fx_sqrt(disc);
                if sq > MUL_MAX {
                    Option::None
                } else {
                    let t0 = fx_div(-h - sq, a);
                    let t = if t0 < 0 {
                        fx_div(-h + sq, a)
                    } else {
                        t0
                    };
                    if t <= EPSILON || t > MUL_MAX {
                        Option::None
                    } else {
                        let point = spec_at(r, t);
                        if !vec_ok(point) {
                            Option::None
                        } else {
                            let n = Vec3 {
                                x: fx_div(point.x - s.center.x, s.radius as int) as i128,
                                y: fx_div(point.y - s.center.y, s.radius as int) as i128,
                                z: fx_div(point.z - s.center.z, s.radius as int) as i128,
                            };
                            if iabs(n.x as int) > NORMAL_MAX || iabs(n.y as int) > NORMAL_MAX
                                || iabs(n.z as int) > NORMAL_MAX {
                                Option::None
                            } else {
                                let flip = spec_dot(n, r.direction) > 0;
                                let n2 = if flip {
                                    Vec3 { x: (-n.x) as i128, y: (-n.y) as i128, z: (-n.z) as i128 }
                                } else {
                                    n
                                };
                                let nudged = spec_add(point, spec_scale(n2, EPSILON as int));
                                if !vec_ok(nudged) {
                                    Option::None
                                } else {
                                    Option::Some(
                                        Hit {
                                            t: t as i128,
                                            point: nudged,
                                            normal: n2,
                                            uv: Option::None,
                                            out: !flip,
                                            material: s.material,
                                        },
                                    )
                                }
                            }
                        }
                    }
                }
            }
        }
    }
}

/// The surface parameters a rectangle reports at a point, when its
/// material wants them; the spans are measured from the lower corner and
/// divided by the upper corner's coordinates.
pub open spec fn spec_rect_uv(rc: AARect, point: Vec3) -> Option<Vec2> {
    if !spec_requires_uv(rc.material) {
        Option::None
    } else if rc.max.x == 0 || rc.max.y == 0 {
        Option::None
    } else {
        let pwa = spec_point_without_axis(rc.axis, point);
        Option::Some(
            Vec2 {
                x: fx_div(pwa.x - rc.min.x, rc.max.x as int) as i128,
                y: fx_div(pwa.y - rc.min.y, rc.max.y as int) as i128,
            },
        )
    }
}

/// What a rectangle intersection returns, step for step.
#[verifier::opaque]
pub open spec fn spec_rect_int(rc: AARect, r: Ray) -> Option<Hit> {
    if !slab_hit(r, spec_rect_aabb(rc)) {
        Option::None
    } else {
        let d = spec_axis_value(rc.axis, r.direction);
        if d == 0 {
            Option::None
        } else {
            let t = fx_div(rc.k - spec_axis_value(rc.axis, r.origin), d);
            if t <= EPSILON || t > MUL_MAX {
                Option::None
            } else {
                let point = spec_at(r, t);
                if !vec_ok(point) {
                    Option::None
                } else {
                    let p2 = spec_point_without_axis(rc.axis, point);
                    if !(rc.min.x < p2.x && p2.x < rc.max.x && rc.min.y < p2.y && p2.y
                        < rc.max.y) {
                        Option::None
                    } else {
                        let sign: i128 = if d > 0 {
                            (-SCALE) as i128
                        } else {
                            SCALE
                        };
                        let normal = spec_point_with_axis(
                            rc.axis,
                            Vec3 { x: sign, y: sign, z: sign },
                        );
                        let nudge = spec_point_with_axis(
                            rc.axis,
                            Vec3 { x: EPSILON, y: EPSILON, z: EPSILON },
                        );
                        let nudged = spec_add(point, nudge);
                        if !vec_ok(nudged) {
                            Option::None
                        } else {
                            Option::Some(
                                Hit {
                                    t: t as i128,
                                    point: nudged,
                                    normal,
                                    uv: spec_rect_uv(rc, point),
                                    out: true,
                                    material: rc.material,
                                },
                            )
                        }
                    }
                }
            }
        }
    }
}

/// What a triangle intersection returns, step for step.
#[verifier::opaque]
pub open spec fn spec_triangle_int(tr: Triangle, r: Ray) -> Option<Hit> {
    if !slab_hit(r, spec_triangle_aabb(tr)) {
        Option::None
    } else {
        let e1 = spec_sub(tr.p1, tr.p0);
        let e2 = spec_sub(tr.p2, tr.p0);
        let n = spec_cross(e1, e2);
        if iabs(n.x as int) > MUL_MAX || iabs(n.y as int) > MUL_MAX || iabs(n.z as int)
            > MUL_MAX {
            Option::None
        } else {
            let denom = spec_dot(r.direction, n);
            let num = spec_dot(spec_sub(tr.p0, r.origin), n);
            if denom == 0 || iabs(num) > DIV_MAX {
                Option::None
            } else {
                let t = fx_div(num, denom);
                if t <= EPSILON || t > MUL_MAX {
                    Option::None
                } else {
                    let point = spec_at(r, t);
                    if !vec_ok(point) {
                        Option::None
                    } else {
                        let p0v = spec_sub(point, tr.p0);
                        let b0 = spec_dot(p0v, e1);
                        let b1 = spec_dot(p0v, e2);
                        let a00 = spec_dot(e2, e2);
                        let a01 = -spec_dot(e1, e2);
                        let a11 = spec_dot(e1, e1);
                        if iabs(b0) > MUL_MAX || iabs(b1) > MUL_MAX || iabs(a00) > MUL_MAX
                            || iabs(a01) > MUL_MAX || iabs(a11) > MUL_MAX {
                            Option::None
                        } else {
                            let det = fx_mul(a00, a11) - fx_mul(a01, a01);
                            let ux = fx_mul(a00, b0) + fx_mul(a01, b1);
                            let uy = fx_mul(a01, b0) + fx_mul(a11, b1);
                            if det == 0 || iabs(ux) > DIV_MAX || iabs(uy) > DIV_MAX {
                                Option::None
                            } else {
                                let u = fx_div(ux, det);
                                let v = fx_div(uy, det);
                                if !(u > 0 && v > 0 && u + v < SCALE) {
                                    Option::None
                                } else {
                                    let flip = spec_dot(tr.normal, r.direction) > 0;
                                    let n2 = if flip {
                                        Vec3 {
                                            x: (-tr.normal.x) as i128,
                                            y: (-tr.normal.y) as i128,
                                            z: (-tr.normal.z) as i128,
                                        }
                                    } else {
                                        tr.normal
                                    };
                                    let nudged = spec_add(point, spec_scale(n2, EPSILON as int));
                                    if !vec_ok(nudged) {
                                        Option::None
                                    } else {
                                        Option::Some(
                                            Hit {
                                                t: t as i128,
                                                point: nudged,
                                                normal: n2,
                                                uv: Option::Some(
                                                    Vec2 { x: u as i128, y: v as i128 },
                                                ),
                                                out: !flip,
                                                material: tr.material,
                                            },
                                        )
                                    }
                                }
                            }
                        }
                    }
                }
            }
        }
    }
}

/// The linear scan a box makes over its first `n` rectangles.
pub open spec fn scan_rects(s: Seq<AARect>, r: Ray, n: int) -> Option<Hit>
    decreases n,
{
    if n <= 0 {
        Option::None
    } else {
        closer(scan_rects(s, r, n - 1), spec_rect_int(s[n - 1], r))
    }
}

/// The linear scan a mesh makes over its first `n` triangles.
pub open spec fn scan_tris(s: Seq<Triangle>, r: Ray, n: int) -> Option<Hit>
    decreases n,
{
    if n <= 0 {
        Option::None
    } else {
        closer(scan_tris(s, r, n - 1), spec_triangle_int(s[n - 1], r))
    }
}

/// What a box intersection returns: its own slab test, then the nearest
/// hit among its six faces.
pub open spec fn spec_aabox_int(b: AABox, r: Ray) -> Option<Hit> {
    if !slab_hit(r, spec_aabox_aabb(b)) {
        Option::None
    } else {
        scan_rects(b.rects@, r, b.rects@.len() as int)
    }
}

/// What a mesh intersection returns: its own slab test, then the nearest
/// hit among its triangles.
pub open spec fn spec_mesh_int(m: TriangleMesh, r: Ray) -> Option<Hit> {
    if !slab_hit(r, spec_mesh_aabb(m)) {
        Option::None
    } else {
        scan_tris(m.mesh@, r, m.mesh@.len() as int)
    }
}

/// What a primitive intersection returns, by variant.
pub open spec fn spec_prim_int(p: Primitive, r: Ray) -> Option<Hit> {
    match p {
        Primitive::Sphere(s) => spec_sphere_int(s, r),
        Primitive::AARect(rc) => spec_rect_int(rc, r),
        Primitive::AABox(b) => spec_aabox_int(b, r),
        Primitive::Triangle(t) => spec_triangle_int(t, r),
        Primitive::TriangleMesh(m) => spec_mesh_int(m, r),
        Primitive::Nothing => Option::None,
    }
}

/// The material a primitive carries.
pub open spec fn spec_prim_material(p: Primitive) -> Material {
    match p {
        Primitive::Sphere(s) => s.material,
        Primitive::AARect(rc) => rc.material,
        Primitive::AABox(b) => b.material,
        Primitive::Triangle(t) => t.material,
        Primitive::TriangleMesh(m) => m.material,
        Primitive::Nothing => Material::Emit { colour: Vec3 { x: 0, y: 0, z: 0 } },
    }
}

/// A sphere hit is well-formed and passes the sphere's own box test.
pub proof fn lemma_sphere_int_ok(s: Sphere, r: Ray)
    requires
        sphere_wf(s),
    ensures
        spec_sphere_int(s, r) matches Option::Some(h) ==> hit_ok(h) && slab_hit(
            r,
            spec_sphere_aabb(s),
        ),
{
    reveal(spec_sphere_int);
}

/// A rectangle hit is well-formed and passes the rectangle's box test.
pub proof fn lemma_rect_int_ok(rc: AARect, r: Ray)
    requires
        rect_wf(rc),
    ensures
        spec_rect_int(rc, r) matches Option::Some(h) ==> hit_ok(h) && slab_hit(
            r,
            spec_rect_aabb(rc),
        ),
{
    reveal(spec_rect_int);
}

/// A triangle hit is well-formed and passes the triangle's box test.
pub proof fn lemma_triangle_int_ok(tr: Triangle, r: Ray)
    requires
        triangle_wf(tr),
    ensures
        spec_triangle_int(tr, r) matches Option::Some(h) ==> hit_ok(h) && slab_hit(
            r,
            spec_triangle_aabb(tr),
        ),
{
    reveal(spec_triangle_int);
}

/// A scan over well-formed rectangles yields a well-formed hit.
pub proof fn lemma_scan_rects_ok(s: Seq<AARect>, r: Ray, n: int)
    requires
        forall|i: int| 0 <= i < n ==> rect_wf(#[trigger] s[i]),
        n <= s.len(),
    ensures
        scan_rects(s, r, n) matches Option::Some(h) ==> hit_ok(h),
    decreases n,
{
    if n > 0 {
        lemma_scan_rects_ok(s, r, n - 1);
        lemma_rect_int_ok(s[n - 1], r);
    }
}

/// A scan over well-formed triangles yields a well-formed hit.
pub proof fn lemma_scan_tris_ok(s: Seq<Triangle>, r: Ray, n: int)
    requires
        forall|i: int| 0 <= i < n ==> triangle_wf(#[trigger] s[i]),
        n <= s.len(),
    ensures
        scan_tris(s, r, n) matches Option::Some(h) ==> hit_ok(h),
    decreases n,
{
    if n > 0 {
        lemma_scan_tris_ok(s, r, n - 1);
        lemma_triangle_int_ok(s[n - 1], r);
    }
}

/// Any well-formed primitive's hit is well-formed and passes the
/// primitive's own box test — the soundness fact pruning rests on.
pub proof fn lemma_prim_int_ok(p: Primitive, r: Ray)
    requires
        prim_wf(p),
    ensures
        spec_prim_int(p, r) matches Option::Some(h) ==> hit_ok(h) && slab_hit(
            r,
            spec_prim_aabb(p),
        ),
{
    match p {
        Primitive::Sphere(s) => lemma_sphere_int_ok(s, r),
        Primitive::AARect(rc) => lemma_rect_int_ok(rc, r),
        Primitive::AABox(b) => {
            if slab_hit(r, spec_aabox_aabb(b)) {
                assert forall|i: int| 0 <= i < 6 implies rect_wf(#[trigger] b.rects@[i]) by {}
                lemma_scan_rects_ok(b.rects@, r, b.rects@.len() as int);
            }
        },
        Primitive::Triangle(t) => lemma_triangle_int_ok(t, r),
        Primitive::TriangleMesh(m) => {
            if slab_hit(r, spec_mesh_aabb(m)) {
                lemma_scan_tris_ok(m.mesh@, r, m.mesh@.len() as int);
            }
        },
        Primitive::Nothing => {},
    }
}

/// The shared capability set of all primitives.
pub trait PrimitiveTrait: Sized {
    /// The variant's well-formedness condition.
    spec fn wf(&self) -> bool;

    /// The exact intersection result for any ray.
    spec fn int_spec(&self, r: Ray) -> Option<Hit>;

    /// The variant's bounding box.
    spec fn aabb_spec(&self) -> AABB;

    /// The parts this primitive flattens into for acceleration.
    spec fn internal_spec(&self) -> Seq<Primitive>;

    /// The surface parameters reported at a point.
    spec fn uv_spec(&self, point: Vec3) -> Option<Vec2>;

    /// The material carried.
    spec fn material_spec(&self) -> Material;

    /// Intersect for a full hit record.
    fn get_int(&self, r: &Ray) -> (res: Option<Hit>)
        requires
            self.wf(),
            ray_ok(*r),
        ensures
            res == self.int_spec(*r),
            res matches Option::Some(h) ==> hit_ok(h) && slab_hit(*r, self.aabb_spec()),
    ;

    /// Intersect for occlusion only: true exactly when `get_int` hits.
    fn does_int(&self, r: &Ray) -> (res: bool)
        requires
            self.wf(),
            ray_ok(*r),
        ensures
            res == self.int_spec(*r).is_some(),
    ;

    /// Flatten into the primitives the acceleration structure indexes.
    fn get_internal(self) -> (v: Vec<Primitive>)
        requires
            self.wf(),
        ensures
            v@ == self.internal_spec(),
            forall|i: int| 0 <= i < v@.len() ==> prim_wf(#[trigger] v@[i]),
    ;

    /// The bounding box, if the primitive can be finitely bounded (every
    /// current variant can).
    fn get_aabb(&self) -> (res: Option<AABB>)
        requires
            self.wf(),
        ensures
            res == Option::Some(self.aabb_spec()),
            box_ok(self.aabb_spec()),
    ;

    /// Whether the material wants surface parameters.
    fn requires_uv(&self) -> (res: bool)
        requires
            self.wf(),
        ensures
            res == spec_requires_uv(self.material_spec()),
    ;

    /// The surface parameters at a point.
    fn get_uv(&self, point: Vec3) -> (res: Option<Vec2>)
        requires
            self.wf(),
            vec_ok(point),
        ensures
            res == self.uv_spec(point),
    ;
}

} // verus!

verus! {

/// The parts each variant flattens into.
pub open spec fn spec_prim_internal(p: Primitive) -> Seq<Primitive> {
    match p {
        Primitive::Sphere(s) => seq![Primitive::Sphere(s)],
        Primitive::AARect(rc) => seq![Primitive::AARect(rc)],
        Primitive::AABox(b) => b.rects@.map_values(|rc: AARect| Primitive::AARect(rc)),
        Primitive::Triangle(t) => seq![Primitive::Triangle(t)],
        Primitive::TriangleMesh(m) => m.mesh@.map_values(|t: Triangle| Primitive::Triangle(t)),
        Primitive::Nothing => Seq::empty(),
    }
}

/// The surface parameters each variant reports.
pub open spec fn spec_prim_uv(p: Primitive, point: Vec3) -> Option<Vec2> {
    match p {
        Primitive::AARect(rc) => spec_rect_uv(rc, point),
        _ => Option::None,
    }
}

/// The bounding box of a sphere, built from its centre and radius.
fn sphere_box(s: &Sphere) -> (b: AABB)
    requires
        sphere_wf(*s),
    ensures
        b == spec_sphere_aabb(*s),
        box_ok(b),
{
    AABB {
        min: Vec3 {
            x: s.center.x - s.radius,
            y: s.center.y - s.radius,
            z: s.center.z - s.radius,
        },
        max: Vec3 {
            x: s.center.x + s.radius,
            y: s.center.y + s.radius,
            z: s.center.z + s.radius,
        },
    }
}

/// The flat bounding box of a rectangle.
fn rect_box(rc: &AARect) -> (b: AABB)
    requires
        rect_wf(*rc),
    ensures
        b == spec_rect_aabb(*rc),
        box_ok(b),
{
    match rc.axis {
        Axis::X => AABB {
            min: Vec3 { x: rc.k, y: rc.min.x, z: rc.min.y },
            max: Vec3 { x: rc.k, y: rc.max.x, z: rc.max.y },
        },
        Axis::Y => AABB {
            min: Vec3 { x: rc.min.x, y: rc.k, z: rc.min.y },
            max: Vec3 { x: rc.max.x, y: rc.k, z: rc.max.y },
        },
        Axis::Z => AABB {
            min: Vec3 { x: rc.min.x, y: rc.min.y, z: rc.k },
            max: Vec3 { x: rc.max.x, y: rc.max.y, z: rc.k },
        },
    }
}

/// The surface parameters a rectangle reports at a point.
fn rect_uv(rc: &AARect, point: Vec3) -> (res: Option<Vec2>)
    requires
        rect_wf(*rc),
        vec_ok(point),
    ensures
        res == spec_rect_uv(*rc, point),
{
    if !rc.material.requires_uv() {
        Option::None
    } else if rc.max.x == 0 || rc.max.y == 0 {
        Option::None
    } else {
        let pwa: Vec2 = rc.axis.point_without_axis(point);
        Option::Some(
            Vec2 { x: fdiv(pwa.x - rc.min.x, rc.max.x), y: fdiv(pwa.y - rc.min.y, rc.max.y) },
        )
    }
}

impl PrimitiveTrait for Sphere {
    open spec fn wf(&self) -> bool {
        sphere_wf(*self)
    }

    open spec fn int_spec(&self, r: Ray) -> Option<Hit> {
        spec_sphere_int(*self, r)
    }

    open spec fn aabb_spec(&self) -> AABB {
        spec_sphere_aabb(*self)
    }

    open spec fn internal_spec(&self) -> Seq<Primitive> {
        spec_prim_internal(Primitive::Sphere(*self))
    }

    open spec fn uv_spec(&self, point: Vec3) -> Option<Vec2> {
        spec_prim_uv(Primitive::Sphere(*self), point)
    }

    open spec fn material_spec(&self) -> Material {
        self.material
    }

    /// Quadratic solve: the smaller positive root, falling back to the
    /// larger; degenerate or out-of-range arithmetic reports no hit.
    fn get_int(&self, r: &Ray) -> (res: Option<Hit>) {
        proof {
            reveal(spec_sphere_int);
            lemma_sphere_int_ok(*self, *r);
        }
        if self.radius <= 0 {
            return Option::None;
        }
        let bx: AABB = sphere_box(self);
        if !bx.hits(r) {
            return Option::None;
        }
        let oc: Vec3 = r.origin.sub(&self.center);
        let a: Fixed = r.direction.dot(&r.direction);
        let h: Fixed = r.direction.dot(&oc);
        let c: Fixed = oc.dot(&oc) - fmul(self.radius, self.radius);
        if a <= 0 || a > MUL_MAX || h > MUL_MAX || h < -MUL_MAX || c > MUL_MAX || c < -MUL_MAX {
            return Option::None;
        }
        let disc: Fixed = fmul(h, h) - fmul(a, c);
        if disc <= 0 {
            return Option::None;
        }
        let sq: Fixed = fsqrt(disc);
        if sq > MUL_MAX {
            return Option::None;
        }
        let t0: Fixed = fdiv(-h - sq, a);
        let t: Fixed = if t0 < 0 {
            fdiv(-h + sq, a)
        } else {
            t0
        };
        if t <= EPSILON || t > MUL_MAX {
            return Option::None;
        }
        let point: Vec3 = r.at(t);
        if !point.check_ok() {
            return Option::None;
        }
        let n: Vec3 = Vec3 {
            x: fdiv(point.x - self.center.x, self.radius),
            y: fdiv(point.y - self.center.y, self.radius),
            z: fdiv(point.z - self.center.z, self.radius),
        };
        if n.x > NORMAL_MAX || n.x < -NORMAL_MAX || n.y > NORMAL_MAX || n.y < -NORMAL_MAX || n.z
            > NORMAL_MAX || n.z < -NORMAL_MAX {
            return Option::None;
        }
        let flip: bool = n.dot(&r.direction) > 0;
        let n2: Vec3 = if flip {
            Vec3 { x: -n.x, y: -n.y, z: -n.z }
        } else {
            n
        };
        let nudged: Vec3 = point.add(&n2.scale(EPSILON));
        if !nudged.check_ok() {
            return Option::None;
        }
        Option::Some(
            Hit { t, point: nudged, normal: n2, uv: Option::None, out: !flip, material: self.material },
        )
    }

    /// Occlusion test: shares the full intersection routine.
    fn does_int(&self, r: &Ray) -> (res: bool) {
        self.get_int(r).is_some()
    }

    fn get_internal(self) -> (v: Vec<Primitive>) {
        let mut v: Vec<Primitive> = Vec::new();
        v.push(Primitive::Sphere(self));
        proof {
            assert(v@ =~= self.internal_spec());
        }
        v
    }

    fn get_aabb(&self) -> (res: Option<AABB>) {
        Option::Some(sphere_box(self))
    }

    fn requires_uv(&self) -> (res: bool) {
        self.material.requires_uv()
    }

    /// Spherical surface parameters would need trigonometry, which the
    /// fixed-point scalar cannot express; none are reported.
    fn get_uv(&self, point: Vec3) -> (res: Option<Vec2>) {
        Option::None
    }
}

impl PrimitiveTrait for AARect {
    open spec fn wf(&self) -> bool {
        rect_wf(*self)
    }

    open spec fn int_spec(&self, r: Ray) -> Option<Hit> {
        spec_rect_int(*self, r)
    }

    open spec fn aabb_spec(&self) -> AABB {
        spec_rect_aabb(*self)
    }

    open spec fn internal_spec(&self) -> Seq<Primitive> {
        spec_prim_internal(Primitive::AARect(*self))
    }

    open spec fn uv_spec(&self, point: Vec3) -> Option<Vec2> {
        spec_prim_uv(Primitive::AARect(*self), point)
    }

    open spec fn material_spec(&self) -> Material {
        self.material
    }

    /// Plane solve on the fixed axis; the projected point must lie
    /// strictly inside the rectangle.
    fn get_int(&self, r: &Ray) -> (res: Option<Hit>) {
        proof {
            reveal(spec_rect_int);
            lemma_rect_int_ok(*self, *r);
        }
        let bx: AABB = rect_box(self);
        if !bx.hits(r) {
            return Option::None;
        }
        let d: Fixed = self.axis.get_axis_value(r.direction);
        if d == 0 {
            return Option::None;
        }
        let t: Fixed = fdiv(self.k - self.axis.get_axis_value(r.origin), d);
        if t <= EPSILON || t > MUL_MAX {
            return Option::None;
        }
        let point: Vec3 = r.at(t);
        if !point.check_ok() {
            return Option::None;
        }
        let p2: Vec2 = self.axis.point_without_axis(point);
        if !(self.min.x < p2.x && p2.x < self.max.x && self.min.y < p2.y && p2.y < self.max.y) {
            return Option::None;
        }
        let sign: Fixed = if d > 0 {
            -SCALE
        } else {
            SCALE
        };
        let normal: Vec3 = self.axis.return_point_with_axis(Vec3 { x: sign, y: sign, z: sign });
        let nudge: Vec3 = self.axis.return_point_with_axis(
            Vec3 { x: EPSILON, y: EPSILON, z: EPSILON },
        );
        let nudged: Vec3 = point.add(&nudge);
        if !nudged.check_ok() {
            return Option::None;
        }
        let uv: Option<Vec2> = rect_uv(self, point);
        Option::Some(Hit { t, point: nudged, normal, uv, out: true, material: self.material })
    }

    /// Occlusion test: shares the full intersection routine.
    fn does_int(&self, r: &Ray) -> (res: bool) {
        self.get_int(r).is_some()
    }

    fn get_internal(self) -> (v: Vec<Primitive>) {
        let mut v: Vec<Primitive> = Vec::new();
        v.push(Primitive::AARect(self));
        proof {
            assert(v@ =~= self.internal_spec());
        }
        v
    }

    fn get_aabb(&self) -> (res: Option<AABB>) {
        Option::Some(rect_box(self))
    }

    fn requires_uv(&self) -> (res: bool) {
        self.material.requires_uv()
    }

    fn get_uv(&self, point: Vec3) -> (res: Option<Vec2>) {
        rect_uv(self, point)
    }
}

} // verus!

verus! {

/// The bounding box of a triangle: the componentwise extremes of its
/// corners.
fn tri_box(t: &Triangle) -> (b: AABB)
    requires
        triangle_wf(*t),
    ensures
        b == spec_triangle_aabb(*t),
        box_ok(b),
{
    AABB {
        min: t.p0.min_by_component(&t.p1.min_by_component(&t.p2)),
        max: t.p0.max_by_component(&t.p1.max_by_component(&t.p2)),
    }
}

impl PrimitiveTrait for Triangle {
    open spec fn wf(&self) -> bool {
        triangle_wf(*self)
    }

    open spec fn int_spec(&self, r: Ray) -> Option<Hit> {
        spec_triangle_int(*self, r)
    }

    open spec fn aabb_spec(&self) -> AABB {
        spec_triangle_aabb(*self)
    }

    open spec fn internal_spec(&self) -> Seq<Primitive> {
        spec_prim_internal(Primitive::Triangle(*self))
    }

    open spec fn uv_spec(&self, point: Vec3) -> Option<Vec2> {
        spec_prim_uv(Primitive::Triangle(*self), point)
    }

    open spec fn material_spec(&self) -> Material {
        self.material
    }

    /// Edge-vector solve with a two-by-two system for the barycentric
    /// parameters; accepts only strict interior parameters.
    fn get_int(&self, r: &Ray) -> (res: Option<Hit>) {
        proof {
            reveal(spec_triangle_int);
            lemma_triangle_int_ok(*self, *r);
        }
        let bx: AABB = tri_box(self);
        if !bx.hits(r) {
            return Option::None;
        }
        let e1: Vec3 = self.p1.sub(&self.p0);
        let e2: Vec3 = self.p2.sub(&self.p0);
        let n: Vec3 = e1.cross(&e2);
        if n.x > MUL_MAX || n.x < -MUL_MAX || n.y > MUL_MAX || n.y < -MUL_MAX || n.z > MUL_MAX
            || n.z < -MUL_MAX {
            return Option::None;
        }
        let denom: Fixed = r.direction.dot(&n);
        let num: Fixed = self.p0.sub(&r.origin).dot(&n);
        if denom == 0 || num > DIV_MAX || num < -DIV_MAX {
            return Option::None;
        }
        let t: Fixed = fdiv(num, denom);
        if t <= EPSILON || t > MUL_MAX {
            return Option::None;
        }
        let point: Vec3 = r.at(t);
        if !point.check_ok() {
            return Option::None;
        }
        let p0v: Vec3 = point.sub(&self.p0);
        let b0: Fixed = p0v.dot(&e1);
        let b1: Fixed = p0v.dot(&e2);
        let a00: Fixed = e2.dot(&e2);
        let a01: Fixed = -e1.dot(&e2);
        let a11: Fixed = e1.dot(&e1);
        if b0 > MUL_MAX || b0 < -MUL_MAX || b1 > MUL_MAX || b1 < -MUL_MAX || a00 > MUL_MAX || a00
            < -MUL_MAX || a01 > MUL_MAX || a01 < -MUL_MAX || a11 > MUL_MAX || a11 < -MUL_MAX {
            return Option::None;
        }
        let det: Fixed = fmul(a00, a11) - fmul(a01, a01);
        let ux: Fixed = fmul(a00, b0) + fmul(a01, b1);
        let uy: Fixed = fmul(a01, b0) + fmul(a11, b1);
        if det == 0 || ux > DIV_MAX || ux < -DIV_MAX || uy > DIV_MAX || uy < -DIV_MAX {
            return Option::None;
        }
        let u: Fixed = fdiv(ux, det);
        let v: Fixed = fdiv(uy, det);
        if !(u > 0 && v > 0 && u + v < SCALE) {
            return Option::None;
        }
        let flip: bool = self.normal.dot(&r.direction) > 0;
        let n2: Vec3 = if flip {
            Vec3 { x: -self.normal.x, y: -self.normal.y, z: -self.normal.z }
        } else {
            self.normal
        };
        let nudged: Vec3 = point.add(&n2.scale(EPSILON));
        if !nudged.check_ok() {
            return Option::None;
        }
        Option::Some(
            Hit {
                t,
                point: nudged,
                normal: n2,
                uv: Option::Some(Vec2 { x: u, y: v }),
                out: !flip,
                material: self.material,
            },
        )
    }

    /// Occlusion test: shares the full intersection routine.
    fn does_int(&self, r: &Ray) -> (res: bool) {
        self.get_int(r).is_some()
    }

    fn get_internal(self) -> (v: Vec<Primitive>) {
        let mut v: Vec<Primitive> = Vec::new();
        v.push(Primitive::Triangle(self));
        proof {
            assert(v@ =~= self.internal_spec());
        }
        v
    }

    fn get_aabb(&self) -> (res: Option<AABB>) {
        Option::Some(tri_box(self))
    }

    fn requires_uv(&self) -> (res: bool) {
        self.material.requires_uv()
    }

    /// The barycentric parameters are produced by the intersection itself;
    /// no standalone parameterization is reported.
    fn get_uv(&self, point: Vec3) -> (res: Option<Vec2>) {
        Option::None
    }
}

impl PrimitiveTrait for AABox {
    open spec fn wf(&self) -> bool {
        aabox_wf(*self)
    }

    open spec fn int_spec(&self, r: Ray) -> Option<Hit> {
        spec_aabox_int(*self, r)
    }

    open spec fn aabb_spec(&self) -> AABB {
        spec_aabox_aabb(*self)
    }

    open spec fn internal_spec(&self) -> Seq<Primitive> {
        spec_prim_internal(Primitive::AABox(*self))
    }

    open spec fn uv_spec(&self, point: Vec3) -> Option<Vec2> {
        Option::None
    }

    open spec fn material_spec(&self) -> Material {
        self.material
    }

    /// Dispatch to the six faces, keeping the nearest hit.
    fn get_int(&self, r: &Ray) -> (res: Option<Hit>) {
        let bx: AABB = AABB { min: self.min, max: self.max };
        if !bx.hits(r) {
            return Option::None;
        }
        let mut best: Option<Hit> = Option::None;
        let mut i: usize = 0;
        while i < self.rects.len()
            invariant
                aabox_wf(*self),
                ray_ok(*r),
                0 <= i <= self.rects@.len(),
                best == scan_rects(self.rects@, *r, i as int),
            decreases self.rects@.len() - i,
        {
            let cur: Option<Hit> = self.rects[i].get_int(r);
            best = pick_closer(best, cur);
            i = i + 1;
        }
        proof {
            assert forall|k: int| 0 <= k < self.rects@.len() implies rect_wf(
                #[trigger] self.rects@[k],
            ) by {}
            lemma_scan_rects_ok(self.rects@, *r, self.rects@.len() as int);
        }
        best
    }

    /// Occlusion test: shares the full intersection routine.
    fn does_int(&self, r: &Ray) -> (res: bool) {
        self.get_int(r).is_some()
    }

    /// A box flattens into its six faces.
    fn get_internal(self) -> (v: Vec<Primitive>) {
        let mut v: Vec<Primitive> = Vec::new();
        let mut i: usize = 0;
        while i < self.rects.len()
            invariant
                aabox_wf(self),
                0 <= i <= self.rects@.len(),
                v@.len() == i,
                forall|k: int| 0 <= k < i ==> v@[k] == Primitive::AARect(#[trigger] self.rects@[k]),
            decreases self.rects@.len() - i,
        {
            v.push(Primitive::AARect(self.rects[i]));
            i = i + 1;
        }
        proof {
            assert(v@ =~= self.internal_spec());
            assert forall|k: int| 0 <= k < v@.len() implies prim_wf(#[trigger] v@[k]) by {}
        }
        v
    }

    fn get_aabb(&self) -> (res: Option<AABB>) {
        Option::Some(AABB { min: self.min, max: self.max })
    }

    fn requires_uv(&self) -> (res: bool) {
        self.material.requires_uv()
    }

    /// Faces report their own parameters during intersection; the box as a
    /// whole reports none.
    fn get_uv(&self, point: Vec3) -> (res: Option<Vec2>) {
        Option::None
    }
}

impl PrimitiveTrait for TriangleMesh {
    open spec fn wf(&self) -> bool {
        mesh_wf(*self)
    }

    open spec fn int_spec(&self, r: Ray) -> Option<Hit> {
        spec_mesh_int(*self, r)
    }

    open spec fn aabb_spec(&self) -> AABB {
        spec_mesh_aabb(*self)
    }

    open spec fn internal_spec(&self) -> Seq<Primitive> {
        spec_prim_internal(Primitive::TriangleMesh(*self))
    }

    open spec fn uv_spec(&self, point: Vec3) -> Option<Vec2> {
        Option::None
    }

    open spec fn material_spec(&self) -> Material {
        self.material
    }

    /// Linear scan over the triangle list, keeping the nearest hit.
    fn get_int(&self, r: &Ray) -> (res: Option<Hit>) {
        let bx: AABB = AABB { min: self.min, max: self.max };
        if !bx.hits(r) {
            return Option::None;
        }
        let mut best: Option<Hit> = Option::None;
        let mut i: usize = 0;
        while i < self.mesh.len()
            invariant
                mesh_wf(*self),
                ray_ok(*r),
                0 <= i <= self.mesh@.len(),
                best == scan_tris(self.mesh@, *r, i as int),
            decreases self.mesh@.len() - i,
        {
            let cur: Option<Hit> = self.mesh[i].get_int(r);
            best = pick_closer(best, cur);
            i = i + 1;
        }
        proof {
            lemma_scan_tris_ok(self.mesh@, *r, self.mesh@.len() as int);
        }
        best
    }

    /// Occlusion test: shares the full intersection routine.
    fn does_int(&self, r: &Ray) -> (res: bool) {
        self.get_int(r).is_some()
    }

    /// A mesh flattens into its triangles.
    fn get_internal(self) -> (v: Vec<Primitive>) {
        let mut v: Vec<Primitive> = Vec::new();
        let mut i: usize = 0;
        while i < self.mesh.len()
            invariant
                mesh_wf(self),
                0 <= i <= self.mesh@.len(),
                v@.len() == i,
                forall|k: int| 0 <= k < i ==> v@[k] == Primitive::Triangle(#[trigger] self.mesh@[k]),
            decreases self.mesh@.len() - i,
        {
            v.push(Primitive::Triangle(self.mesh[i]));
            i = i + 1;
        }
        proof {
            assert(v@ =~= self.internal_spec());
            assert forall|k: int| 0 <= k < v@.len() implies prim_wf(#[trigger] v@[k]) by {}
        }
        v
    }

    fn get_aabb(&self) -> (res: Option<AABB>) {
        Option::Some(AABB { min: self.min, max: self.max })
    }

    fn requires_uv(&self) -> (res: bool) {
        self.material.requires_uv()
    }

    /// Triangles report parameters during intersection; the mesh as a
    /// whole reports none.
    fn get_uv(&self, point: Vec3) -> (res: Option<Vec2>) {
        Option::None
    }
}

impl PrimitiveTrait for Primitive {
    open spec fn wf(&self) -> bool {
        prim_wf(*self)
    }

    open spec fn int_spec(&self, r: Ray) -> Option<Hit> {
        spec_prim_int(*self, r)
    }

    open spec fn aabb_spec(&self) -> AABB {
        spec_prim_aabb(*self)
    }

    open spec fn internal_spec(&self) -> Seq<Primitive> {
        spec_prim_internal(*self)
    }

    open spec fn uv_spec(&self, point: Vec3) -> Option<Vec2> {
        spec_prim_uv(*self, point)
    }

    open spec fn material_spec(&self) -> Material {
        spec_prim_material(*self)
    }

    /// Exhaustive dispatch; the uninitialized sentinel is a scene-build
    /// defect and is excluded by well-formedness.
    fn get_int(&self, r: &Ray) -> (res: Option<Hit>) {
        match self {
            Primitive::Sphere(s) => s.get_int(r),
            Primitive::AARect(rc) => rc.get_int(r),
            Primitive::AABox(b) => b.get_int(r),
            Primitive::Triangle(t) => t.get_int(r),
            Primitive::TriangleMesh(m) => m.get_int(r),
            Primitive::Nothing => unreached(),
        }
    }

    fn does_int(&self, r: &Ray) -> (res: bool) {
        match self {
            Primitive::Sphere(s) => s.does_int(r),
            Primitive::AARect(rc) => rc.does_int(r),
            Primitive::AABox(b) => b.does_int(r),
            Primitive::Triangle(t) => t.does_int(r),
            Primitive::TriangleMesh(m) => m.does_int(r),
            Primitive::Nothing => unreached(),
        }
    }

    fn get_internal(self) -> (v: Vec<Primitive>) {
        match self {
            Primitive::Sphere(s) => s.get_internal(),
            Primitive::AARect(rc) => rc.get_internal(),
            Primitive::AABox(b) => b.get_internal(),
            Primitive::Triangle(t) => t.get_internal(),
            Primitive::TriangleMesh(m) => m.get_internal(),
            Primitive::Nothing => unreached(),
        }
    }

    fn get_aabb(&self) -> (res: Option<AABB>) {
        match self {
            Primitive::Sphere(s) => s.get_aabb(),
            Primitive::AARect(rc) => rc.get_aabb(),
            Primitive::AABox(b) => b.get_aabb(),
            Primitive::Triangle(t) => t.get_aabb(),
            Primitive::TriangleMesh(m) => m.get_aabb(),
            Primitive::Nothing => unreached(),
        }
    }

    fn requires_uv(&self) -> (res: bool) {
        match self {
            Primitive::Sphere(s) => s.requires_uv(),
            Primitive::AARect(rc) => rc.requires_uv(),
            Primitive::AABox(b) => b.requires_uv(),
            Primitive::Triangle(t) => t.requires_uv(),
            Primitive::TriangleMesh(m) => m.requires_uv(),
            Primitive::Nothing => unreached(),
        }
    }

    fn get_uv(&self, point: Vec3) -> (res: Option<Vec2>) {
        match self {
            Primitive::Sphere(s) => s.get_uv(point),
            Primitive::AARect(rc) => rc.get_uv(point),
            Primitive::AABox(b) => b.get_uv(point),
            Primitive::Triangle(t) => t.get_uv(point),
            Primitive::TriangleMesh(m) => m.get_uv(point),
            Primitive::Nothing => unreached(),
        }
    }
}

} // verus!
