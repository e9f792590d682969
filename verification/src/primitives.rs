//! The closed set of geometric primitives and their bounding boxes.

use vstd::prelude::*;
use crate::math::{Fixed, FX_MAX, MUL_MAX, iabs, fdiv, fsqrt};
use crate::vec::{Vec3, Vec2, vec_ok, spec_min_by_component, spec_max_by_component};
use crate::aabb::{AABB, box_ok, spec_contains};
use crate::material::{Material, material_ok};

use crate::tracing::NORMAL_MAX;

verus! {

/// The three coordinate axes; an axis-aligned rectangle is normal to one.
#[derive(Clone, Copy, PartialEq, Eq, Structural, Debug)]
pub enum Axis {
    X,
    Y,
    Z,
}

/// The component of `v` along `a`.
pub open spec fn spec_axis_value(a: Axis, v: Vec3) -> int {
    match a {
        Axis::X => v.x as int,
        Axis::Y => v.y as int,
        Axis::Z => v.z as int,
    }
}

/// The two components of `v` on the axes other than `a`, in axis order.
pub open spec fn spec_point_without_axis(a: Axis, v: Vec3) -> Vec2 {
    match a {
        Axis::X => Vec2 { x: v.y, y: v.z },
        Axis::Y => Vec2 { x: v.x, y: v.z },
        Axis::Z => Vec2 { x: v.x, y: v.y },
    }
}

/// `v` with every component but the one along `a` zeroed.
pub open spec fn spec_point_with_axis(a: Axis, v: Vec3) -> Vec3 {
    match a {
        Axis::X => Vec3 { x: v.x, y: 0, z: 0 },
        Axis::Y => Vec3 { x: 0, y: v.y, z: 0 },
        Axis::Z => Vec3 { x: 0, y: 0, z: v.z },
    }
}

impl Axis {
    pub fn get_axis_value(&self, v: Vec3) -> (r: Fixed)
        ensures
            r as int == spec_axis_value(*self, v),
    {
        match self {
            Axis::X => v.x,
            Axis::Y => v.y,
            Axis::Z => v.z,
        }
    }

    pub fn point_without_axis(&self, v: Vec3) -> (r: Vec2)
        ensures
            r == spec_point_without_axis(*self, v),
    {
        match self {
            Axis::X => Vec2 { x: v.y, y: v.z },
            Axis::Y => Vec2 { x: v.x, y: v.z },
            Axis::Z => Vec2 { x: v.x, y: v.y },
        }
    }

    pub fn return_point_with_axis(&self, v: Vec3) -> (r: Vec3)
        ensures
            r == spec_point_with_axis(*self, v),
    {
        match self {
            Axis::X => Vec3 { x: v.x, y: 0, z: 0 },
            Axis::Y => Vec3 { x: 0, y: v.y, z: 0 },
            Axis::Z => Vec3 { x: 0, y: 0, z: v.z },
        }
    }
}

/// A sphere, with its centre and fixed-point radius.
#[derive(Clone, Copy, PartialEq, Eq, Structural, Debug)]
pub struct Sphere {
    pub center: Vec3,
    pub radius: Fixed,
    pub material: Material,
}

pub open spec fn sphere_wf(s: Sphere) -> bool {
    vec_ok(s.center) && 0 <= s.radius <= FX_MAX && material_ok(s.material)
}

pub open spec fn spec_sphere_aabb(s: Sphere) -> AABB {
    AABB {
        min: Vec3 {
            x: (s.center.x - s.radius) as i128,
            y: (s.center.y - s.radius) as i128,
            z: (s.center.z - s.radius) as i128,
        },
        max: Vec3 {
            x: (s.center.x + s.radius) as i128,
            y: (s.center.y + s.radius) as i128,
            z: (s.center.z + s.radius) as i128,
        },
    }
}

impl Sphere {
    pub fn new(center: Vec3, radius: Fixed, material: Material) -> (s: Sphere)
        requires
            vec_ok(center),
            0 <= radius <= FX_MAX,
            material_ok(material),
        ensures
            s == (Sphere { center, radius, material }),
            sphere_wf(s),
    {
        Sphere { center, radius, material }
    }
}

/// An axis-aligned rectangle on the plane `axis == k`, spanning `min..max`
/// on the two remaining axes.
#[derive(Clone, Copy, PartialEq, Eq, Structural, Debug)]
pub struct AARect {
    pub axis: Axis,
    pub k: Fixed,
    pub min: Vec2,
    pub max: Vec2,
    pub material: Material,
}

pub open spec fn rect_wf(r: AARect) -> bool {
    &&& -FX_MAX <= r.k <= FX_MAX
    &&& -FX_MAX <= r.min.x <= FX_MAX
    &&& -FX_MAX <= r.min.y <= FX_MAX
    &&& -FX_MAX <= r.max.x <= FX_MAX
    &&& -FX_MAX <= r.max.y <= FX_MAX
    &&& r.min.x <= r.max.x
    &&& r.min.y <= r.max.y
    &&& material_ok(r.material)
}

/// A rectangle's box is flat: it spans only the plane it lies in.
pub open spec fn spec_rect_aabb(r: AARect) -> AABB {
    match r.axis {
        Axis::X => AABB {
            min: Vec3 { x: r.k, y: r.min.x, z: r.min.y },
            max: Vec3 { x: r.k, y: r.max.x, z: r.max.y },
        },
        Axis::Y => AABB {
            min: Vec3 { x: r.min.x, y: r.k, z: r.min.y },
            max: Vec3 { x: r.max.x, y: r.k, z: r.max.y },
        },
        Axis::Z => AABB {
            min: Vec3 { x: r.min.x, y: r.min.y, z: r.k },
            max: Vec3 { x: r.max.x, y: r.max.y, z: r.k },
        },
    }
}

impl AARect {
    pub fn new(axis: Axis, k: Fixed, min: Vec2, max: Vec2, material: Material) -> (r: AARect)
        requires
            -FX_MAX <= k <= FX_MAX,
            -FX_MAX <= min.x <= FX_MAX,
            -FX_MAX <= min.y <= FX_MAX,
            -FX_MAX <= max.x <= FX_MAX,
            -FX_MAX <= max.y <= FX_MAX,
            min.x <= max.x,
            min.y <= max.y,
            material_ok(material),
        ensures
            r == (AARect { axis, k, min, max, material }),
            rect_wf(r),
    {
        AARect { axis, k, min, max, material }
    }
}

/// An axis-aligned box: six rectangles between two corners.
#[derive(Clone, PartialEq, Eq, Debug)]
pub struct AABox {
    pub min: Vec3,
    pub max: Vec3,
    pub rects: Vec<AARect>,
    pub material: Material,
}

pub open spec fn spec_aabox_aabb(b: AABox) -> AABB {
    AABB { min: b.min, max: b.max }
}

pub open spec fn aabox_wf(b: AABox) -> bool {
    &&& vec_ok(b.min)
    &&& vec_ok(b.max)
    &&& b.min.x <= b.max.x
    &&& b.min.y <= b.max.y
    &&& b.min.z <= b.max.z
    &&& material_ok(b.material)
    &&& b.rects@.len() == 6
    &&& rect_wf(b.rects@[0]) && spec_contains(spec_aabox_aabb(b), spec_rect_aabb(b.rects@[0]))
    &&& rect_wf(b.rects@[1]) && spec_contains(spec_aabox_aabb(b), spec_rect_aabb(b.rects@[1]))
    &&& rect_wf(b.rects@[2]) && spec_contains(spec_aabox_aabb(b), spec_rect_aabb(b.rects@[2]))
    &&& rect_wf(b.rects@[3]) && spec_contains(spec_aabox_aabb(b), spec_rect_aabb(b.rects@[3]))
    &&& rect_wf(b.rects@[4]) && spec_contains(spec_aabox_aabb(b), spec_rect_aabb(b.rects@[4]))
    &&& rect_wf(b.rects@[5]) && spec_contains(spec_aabox_aabb(b), spec_rect_aabb(b.rects@[5]))
}

impl AABox {
    /// Build the six faces of the box spanned by `min` and `max`.
    pub fn new(min: Vec3, max: Vec3, material: Material) -> (b: AABox)
        requires
            vec_ok(min),
            vec_ok(max),
            min.x <= max.x,
            min.y <= max.y,
            min.z <= max.z,
            material_ok(material),
        ensures
            aabox_wf(b),
            b.min == min,
            b.max == max,
            b.material == material,
    {
        let mut rects: Vec<AARect> = Vec::new();
        rects.push(
            AARect::new(
                Axis::X,
                min.x,
                Vec2 { x: min.y, y: min.z },
                Vec2 { x: max.y, y: max.z },
                material,
            ),
        );
        rects.push(
            AARect::new(
                Axis::X,
                max.x,
                Vec2 { x: min.y, y: min.z },
                Vec2 { x: max.y, y: max.z },
                material,
            ),
        );
        rects.push(
            AARect::new(
                Axis::Y,
                min.y,
                Vec2 { x: min.x, y: min.z },
                Vec2 { x: max.x, y: max.z },
                material,
            ),
        );
        rects.push(
            AARect::new(
                Axis::Y,
                max.y,
                Vec2 { x: min.x, y: min.z },
                Vec2 { x: max.x, y: max.z },
                material,
            ),
        );
        rects.push(
            AARect::new(
                Axis::Z,
                min.z,
                Vec2 { x: min.x, y: min.y },
                Vec2 { x: max.x, y: max.y },
                material,
            ),
        );
        rects.push(
            AARect::new(
                Axis::Z,
                max.z,
                Vec2 { x: min.x, y: min.y },
                Vec2 { x: max.x, y: max.y },
                material,
            ),
        );
        AABox { min, max, rects, material }
    }
}

/// A triangle with a precomputed unit-ish normal.
#[derive(Clone, Copy, PartialEq, Eq, Structural, Debug)]
pub struct Triangle {
    pub p0: Vec3,
    pub p1: Vec3,
    pub p2: Vec3,
    pub normal: Vec3,
    pub material: Material,
}

pub open spec fn triangle_wf(t: Triangle) -> bool {
    &&& vec_ok(t.p0)
    &&& vec_ok(t.p1)
    &&& vec_ok(t.p2)
    &&& iabs(t.normal.x as int) <= NORMAL_MAX
    &&& iabs(t.normal.y as int) <= NORMAL_MAX
    &&& iabs(t.normal.z as int) <= NORMAL_MAX
    &&& material_ok(t.material)
}

pub open spec fn spec_triangle_aabb(t: Triangle) -> AABB {
    AABB {
        min: spec_min_by_component(t.p0, spec_min_by_component(t.p1, t.p2)),
        max: spec_max_by_component(t.p0, spec_max_by_component(t.p1, t.p2)),
    }
}

impl Triangle {
    /// Build a triangle, computing its normal from the edge cross product;
    /// degenerate triangles (zero or overflowing cross product) are refused.
    pub fn new(p0: Vec3, p1: Vec3, p2: Vec3, material: Material) -> (r: Option<Triangle>)
        requires
            vec_ok(p0),
            vec_ok(p1),
            vec_ok(p2),
            material_ok(material),
        ensures
            match r {
                Option::Some(t) => triangle_wf(t) && t.p0 == p0 && t.p1 == p1 && t.p2 == p2
                    && t.material == material,
                Option::None => true,
            },
    {
        let e1: Vec3 = p1.sub(&p0);
        let e2: Vec3 = p2.sub(&p0);
        let n: Vec3 = e1.cross(&e2);
        if !(-MUL_MAX <= n.x && n.x <= MUL_MAX && -MUL_MAX <= n.y && n.y <= MUL_MAX && -MUL_MAX
            <= n.z && n.z <= MUL_MAX) {
            return Option::None;
        }
        let d: Fixed = n.dot(&n);
        if d <= 0 {
            return Option::None;
        }
        let m: Fixed = fsqrt(d);
        if m <= 0 {
            return Option::None;
        }
        let nx: Fixed = fdiv(n.x, m);
        let ny: Fixed = fdiv(n.y, m);
        let nz: Fixed = fdiv(n.z, m);
        if -NORMAL_MAX <= nx && nx <= NORMAL_MAX && -NORMAL_MAX <= ny && ny <= NORMAL_MAX
            && -NORMAL_MAX <= nz && nz <= NORMAL_MAX {
            Option::Some(
                Triangle { p0, p1, p2, normal: Vec3 { x: nx, y: ny, z: nz }, material },
            )
        } else {
            Option::None
        }
    }
}

/// A triangle soup sharing one material, with a precomputed bound.
#[derive(Clone, PartialEq, Eq, Debug)]
pub struct TriangleMesh {
    pub mesh: Vec<Triangle>,
    pub min: Vec3,
    pub max: Vec3,
    pub material: Material,
}

pub open spec fn spec_mesh_aabb(m: TriangleMesh) -> AABB {
    AABB { min: m.min, max: m.max }
}

pub open spec fn mesh_wf(m: TriangleMesh) -> bool {
    &&& box_ok(spec_mesh_aabb(m))
    &&& vec_ok(m.min)
    &&& vec_ok(m.max)
    &&& material_ok(m.material)
    &&& forall|i: int|
        0 <= i < m.mesh@.len() ==> triangle_wf(#[trigger] m.mesh@[i]) && spec_contains(
            spec_mesh_aabb(m),
            spec_triangle_aabb(m.mesh@[i]),
        )
}

impl TriangleMesh {
    /// Bundle triangles into a mesh, computing the shared bound; an empty
    /// list is refused, since it has no bound.
    pub fn new(triangles: Vec<Triangle>, material: Material) -> (r: Option<TriangleMesh>)
        requires
            material_ok(material),
            forall|i: int| 0 <= i < triangles@.len() ==> triangle_wf(#[trigger] triangles@[i]),
        ensures
            match r {
                Option::Some(m) => mesh_wf(m) && m.mesh == triangles && m.material == material,
                Option::None => triangles@.len() == 0,
            },
    {
        if triangles.len() == 0 {
            return Option::None;
        }
        let first: AABB = triangle_box(&triangles[0]);
        let mut bound: AABB = first;
        let mut i: usize = 1;
        proof {
            crate::aabb::lemma_contains_trans(bound, bound, spec_triangle_aabb(triangles@[0]));
        }
        while i < triangles.len()
            invariant
                1 <= i <= triangles@.len(),
                forall|k: int| 0 <= k < triangles@.len() ==> triangle_wf(#[trigger] triangles@[k]),
                box_ok(bound),
                vec_ok(bound.min),
                vec_ok(bound.max),
                forall|k: int|
                    0 <= k < i ==> spec_contains(
                        bound,
                        spec_triangle_aabb(#[trigger] triangles@[k]),
                    ),
            decreases triangles@.len() - i,
        {
            let tb: AABB = triangle_box(&triangles[i]);
            let ghost old_bound = bound;
            bound = bound.union(&tb);
            proof {
                assert forall|k: int| 0 <= k < i + 1 implies spec_contains(
                    bound,
                    spec_triangle_aabb(#[trigger] triangles@[k]),
                ) by {
                    if k < i {
                        crate::aabb::lemma_contains_trans(
                            bound,
                            old_bound,
                            spec_triangle_aabb(triangles@[k]),
                        );
                    }
                }
            }
            i = i + 1;
        }
        Option::Some(TriangleMesh { mesh: triangles, min: bound.min, max: bound.max, material })
    }
}

/// The bounding box of one triangle.
pub fn triangle_box(t: &Triangle) -> (b: AABB)
    requires
        triangle_wf(*t),
    ensures
        b == spec_triangle_aabb(*t),
        box_ok(b),
        vec_ok(b.min),
        vec_ok(b.max),
{
    AABB {
        min: t.p0.min_by_component(&t.p1.min_by_component(&t.p2)),
        max: t.p0.max_by_component(&t.p1.max_by_component(&t.p2)),
    }
}

/// The closed, tagged set of primitives; `Nothing` is the uninitialized
/// sentinel, excluded from every well-formed scene.
#[derive(Clone, PartialEq, Eq, Debug)]
pub enum Primitive {
    Sphere(Sphere),
    AARect(AARect),
    AABox(AABox),
    Triangle(Triangle),
    TriangleMesh(TriangleMesh),
    Nothing,
}

pub open spec fn prim_wf(p: Primitive) -> bool {
    match p {
        Primitive::Sphere(s) => sphere_wf(s),
        Primitive::AARect(r) => rect_wf(r),
        Primitive::AABox(b) => aabox_wf(b),
        Primitive::Triangle(t) => triangle_wf(t),
        Primitive::TriangleMesh(m) => mesh_wf(m),
        Primitive::Nothing => false,
    }
}

/// The bounding box of a primitive; meaningful only for well-formed ones.
pub open spec fn spec_prim_aabb(p: Primitive) -> AABB {
    match p {
        Primitive::Sphere(s) => spec_sphere_aabb(s),
        Primitive::AARect(r) => spec_rect_aabb(r),
        Primitive::AABox(b) => spec_aabox_aabb(b),
        Primitive::Triangle(t) => spec_triangle_aabb(t),
        Primitive::TriangleMesh(m) => spec_mesh_aabb(m),
        Primitive::Nothing => AABB {
            min: Vec3 { x: 0, y: 0, z: 0 },
            max: Vec3 { x: 0, y: 0, z: 0 },
        },
    }
}

} // verus!
