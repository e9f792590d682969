//! Materials: the closed set of surface responses a hit can trigger.
//!
//! A scatter either absorbs the ray (returning an emitted colour) or
//! bounces it (returning an attenuation and a continuation ray).  Colour
//! channels always stay inside `[0, SCALE]`, which keeps every radiance
//! estimate of the sampler inside `[0, 1]` in real units.

use vstd::prelude::*;
use crate::math::{SCALE, random_unit_vector};
use crate::vec::{Vec3, near_zero};
use crate::ray::{Ray, ray_ok};
use crate::tracing::{Hit, hit_ok};

verus! {

/// Half of one, in fixed-point units: the checker tile boundary.
pub const HALF_SCALE: i128 = 32768;

/// A colour with every channel inside `[0, 1]` in fixed-point units.
pub open spec fn colour_ok(c: Vec3) -> bool {
    &&& 0 <= c.x <= SCALE
    &&& 0 <= c.y <= SCALE
    &&& 0 <= c.z <= SCALE
}

/// The closed set of materials.
#[derive(Clone, Copy, PartialEq, Eq, Structural, Debug)]
pub enum Material {
    /// Matte surface: bounces about the normal with a fixed attenuation.
    Diffuse { colour: Vec3 },
    /// Light source: absorbs the ray and emits a constant colour.
    Emit { colour: Vec3 },
    /// Matte surface whose attenuation alternates by surface parameter;
    /// the one material that asks primitives for UV coordinates.
    Checker { colour_a: Vec3, colour_b: Vec3 },
}

pub open spec fn material_ok(m: Material) -> bool {
    match m {
        Material::Diffuse { colour } => colour_ok(colour),
        Material::Emit { colour } => colour_ok(colour),
        Material::Checker { colour_a, colour_b } => colour_ok(colour_a) && colour_ok(colour_b),
    }
}

/// Whether the material reads surface parameters at a hit.
pub open spec fn spec_requires_uv(m: Material) -> bool {
    match m {
        Material::Checker { .. } => true,
        _ => false,
    }
}

/// A material's response to a hit.
#[derive(Clone, Copy, PartialEq, Eq, Structural, Debug)]
pub enum ScatterResult {
    /// The ray ends here; `emission` is the radiance carried back.
    Absorb { emission: Vec3 },
    /// The ray continues along `ray`; the estimate along it is scaled by
    /// `attenuation`.
    Bounce { attenuation: Vec3, ray: Ray },
}

/// The attenuation a checker material picks for a surface parameter.
pub open spec fn spec_checker_colour(a: Vec3, b: Vec3, uv: Option<crate::vec::Vec2>) -> Vec3 {
    match uv {
        Option::Some(p) => if (p.x >= HALF_SCALE) == (p.y >= HALF_SCALE) {
            a
        } else {
            b
        },
        Option::None => a,
    }
}

impl Material {
    pub fn requires_uv(&self) -> (r: bool)
        ensures
            r == spec_requires_uv(*self),
    {
        match self {
            Material::Checker { .. } => true,
            _ => false,
        }
    }

    /// Respond to a hit: absorb with an emission, or bounce with an
    /// attenuation and a continuation ray starting at the nudged hit point
    /// with the incoming ray's time stamp.
    pub fn scatter(&self, ray: &Ray, hit: &Hit) -> (s: ScatterResult)
        requires
            material_ok(*self),
            hit_ok(*hit),
        ensures
            match s {
                ScatterResult::Absorb { emission } => colour_ok(emission),
                ScatterResult::Bounce { attenuation, ray: out } => colour_ok(attenuation)
                    && ray_ok(out) && out.origin == hit.point && out.time == ray.time,
            },
    {
        match self {
            Material::Emit { colour } => ScatterResult::Absorb { emission: *colour },
            Material::Diffuse { colour } => ScatterResult::Bounce {
                attenuation: *colour,
                ray: diffuse_bounce(ray, hit),
            },
            Material::Checker { colour_a, colour_b } => {
                let att: Vec3 = match hit.uv {
                    Option::Some(p) => if (p.x >= HALF_SCALE) == (p.y >= HALF_SCALE) {
                        *colour_a
                    } else {
                        *colour_b
                    },
                    Option::None => *colour_a,
                };
                ScatterResult::Bounce { attenuation: att, ray: diffuse_bounce(ray, hit) }
            },
        }
    }
}

/// A matte continuation ray: the hit normal jittered by a random unit
/// direction, degenerating to the bare normal when the two cancel.
fn diffuse_bounce(ray: &Ray, hit: &Hit) -> (out: Ray)
    requires
        hit_ok(*hit),
    ensures
        ray_ok(out),
        out.origin == hit.point,
        out.time == ray.time,
{
    let jitter: Vec3 = random_unit_vector();
    let dir: Vec3 = hit.normal.add(&jitter);
    let dir: Vec3 = if near_zero(dir) {
        hit.normal
    } else {
        dir
    };
    Ray { origin: hit.point, direction: dir, time: ray.time }
}

} // verus!
