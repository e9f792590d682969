//! The sky, the thin-lens camera, the radiance estimator and the
//! progressive double-buffered sampler.

use vstd::prelude::*;
use crate::math::{Fixed, MUL_MAX, SCALE, iabs, fx_mul, fx_div, fx_sqrt, div_tz, fmul, fdiv,
    fsqrt, div_trunc, random_float, lemma_fx_mul_mag_le, lemma_fx_mul_unit, lemma_div_tz_between,
    lemma_sqrt_floor_bounds, lemma_sqrt_floor_monotone};
use crate::vec::{Vec3, vec_ok, spec_add, spec_sub, spec_dot, spec_scale};
use crate::ray::{Ray, ray_ok};
use crate::material::{colour_ok, ScatterResult};
use crate::bvh::{Bvh, bvh_wf, spec_nearest};

verus! {

/// Bounce budget of the radiance estimator.
pub const MAX_DEPTH: u32 = 8;

/// Clamp a scalar into `[lo, hi]`.
pub open spec fn spec_clamp(x: int, lo: int, hi: int) -> int {
    if x < lo {
        lo
    } else if x > hi {
        hi
    } else {
        x
    }
}

fn clamp_fx(x: Fixed, lo: Fixed, hi: Fixed) -> (r: Fixed)
    requires
        lo <= hi,
    ensures
        r == spec_clamp(x as int, lo as int, hi as int),
        lo <= r <= hi,
{
    if x < lo {
        lo
    } else if x > hi {
        hi
    } else {
        x
    }
}

/// The background: a vertical gradient between two colours, solid when
/// they agree.
#[derive(Clone, Copy, PartialEq, Eq, Structural, Debug)]
pub struct Sky {
    pub top: Vec3,
    pub bottom: Vec3,
}

pub open spec fn sky_wf(s: Sky) -> bool {
    colour_ok(s.top) && colour_ok(s.bottom)
}

/// The gradient parameter for a ray: its direction's normalized vertical
/// component mapped into `[0, 1]`; degenerate directions read zero.
pub open spec fn spec_sky_t(r: Ray) -> int {
    let m2 = spec_dot(r.direction, r.direction);
    if m2 <= 0 {
        0
    } else {
        let mag = fx_sqrt(m2);
        if mag <= 0 {
            0
        } else {
            spec_clamp(div_tz(fx_div(r.direction.y as int, mag) + SCALE, 2), 0, SCALE as int)
        }
    }
}

/// The sky colour of a ray: the gradient evaluated at its parameter, each
/// channel clamped into the unit interval.
pub open spec fn spec_sky_colour(s: Sky, r: Ray) -> Vec3 {
    let t = spec_sky_t(r);
    Vec3 {
        x: spec_clamp(s.bottom.x + fx_mul(t, s.top.x - s.bottom.x), 0, SCALE as int) as i128,
        y: spec_clamp(s.bottom.y + fx_mul(t, s.top.y - s.bottom.y), 0, SCALE as int) as i128,
        z: spec_clamp(s.bottom.z + fx_mul(t, s.top.z - s.bottom.z), 0, SCALE as int) as i128,
    }
}

/// A solid sky reads the same colour whatever the ray.
pub proof fn lemma_solid_sky(s: Sky, r: Ray)
    requires
        sky_wf(s),
        s.top == s.bottom,
    ensures
        spec_sky_colour(s, r) == s.bottom,
{
    let t = spec_sky_t(r);
    assert(fx_mul(t, 0) == 0);
}

impl Sky {
    pub fn new(top: Vec3, bottom: Vec3) -> (s: Sky)
        requires
            colour_ok(top),
            colour_ok(bottom),
        ensures
            s == (Sky { top, bottom }),
            sky_wf(s),
    {
        Sky { top, bottom }
    }

    /// A constant-colour sky.
    pub fn new_solid(colour: Vec3) -> (s: Sky)
        requires
            colour_ok(colour),
        ensures
            s == (Sky { top: colour, bottom: colour }),
            sky_wf(s),
    {
        Sky { top: colour, bottom: colour }
    }

    /// The background colour a missing ray reads.
    pub fn get_colour(&self, r: &Ray) -> (c: Vec3)
        requires
            sky_wf(*self),
            ray_ok(*r),
        ensures
            c == spec_sky_colour(*self, *r),
            colour_ok(c),
    {
        let m2: Fixed = r.direction.dot(&r.direction);
        let t: Fixed = if m2 <= 0 {
            0
        } else {
            let mag: Fixed = fsqrt(m2);
            if mag <= 0 {
                0
            } else {
                let yn: Fixed = fdiv(r.direction.y, mag);
                clamp_fx(div_trunc(yn + SCALE, 2), 0, SCALE)
            }
        };
        proof {
            assert(t == spec_sky_t(*r));
        }
        Vec3 {
            x: clamp_fx(self.bottom.x + fmul(t, self.top.x - self.bottom.x), 0, SCALE),
            y: clamp_fx(self.bottom.y + fmul(t, self.top.y - self.bottom.y), 0, SCALE),
            z: clamp_fx(self.bottom.z + fmul(t, self.top.z - self.bottom.z), 0, SCALE),
        }
    }
}

impl Ray {
    /// The radiance estimate for a ray, with the number of rays the trace
    /// consumed: sky on a miss, the material's response on a hit, with at
    /// most `MAX_DEPTH` bounces (an exhausted budget absorbs to black).
    pub fn get_colour(ray: &Ray, sky: &Sky, bvh: &Bvh) -> (res: (Vec3, u64))
        requires
            ray_ok(*ray),
            sky_wf(*sky),
            bvh_wf(*bvh),
        ensures
            colour_ok(res.0),
            1 <= res.1 <= MAX_DEPTH + 1,
            spec_nearest(*bvh, *ray) is None ==> res.0 == spec_sky_colour(*sky, *ray),
    {
        Self::trace(ray, sky, bvh, MAX_DEPTH)
    }

    /// The bounded-depth estimator behind `get_colour`.
    fn trace(ray: &Ray, sky: &Sky, bvh: &Bvh, depth: u32) -> (res: (Vec3, u64))
        requires
            ray_ok(*ray),
            sky_wf(*sky),
            bvh_wf(*bvh),
        ensures
            colour_ok(res.0),
            1 <= res.1 <= depth + 1,
            depth >= 1 && spec_nearest(*bvh, *ray) is None ==> res.0 == spec_sky_colour(
                *sky,
                *ray,
            ),
        decreases depth,
    {
        if depth == 0 {
            return (Vec3 { x: 0, y: 0, z: 0 }, 1);
        }
        match bvh.nearest_hit(ray) {
            Option::None => (sky.get_colour(ray), 1),
            Option::Some(hit) => {
                match hit.material.scatter(ray, &hit) {
                    ScatterResult::Absorb { emission } => (emission, 1),
                    ScatterResult::Bounce { attenuation, ray: next } => {
                        let rec: (Vec3, u64) = Self::trace(&next, sky, bvh, depth - 1);
                        proof {
                            lemma_fx_mul_unit(attenuation.x as int, rec.0.x as int);
                            lemma_fx_mul_unit(attenuation.y as int, rec.0.y as int);
                            lemma_fx_mul_unit(attenuation.z as int, rec.0.z as int);
                        }
                        let c: Vec3 = Vec3 {
                            x: fmul(attenuation.x, rec.0.x),
                            y: fmul(attenuation.y, rec.0.y),
                            z: fmul(attenuation.z, rec.0.z),
                        };
                        (c, 1 + rec.1)
                    },
                }
            },
        }
    }
}

} // verus!

verus! {

/// Magnitude bound on camera geometry, chosen so that a generated ray
/// direction (a sum of four such vectors) stays inside the scene bound.
pub const CAM_MAX: i128 = 4398046511104;

/// A thin-lens camera mapping normalized image coordinates to rays.
#[derive(Clone, Copy, PartialEq, Eq, Structural, Debug)]
pub struct Camera {
    pub viewport_width: Fixed,
    pub viewport_height: Fixed,
    pub aspect_ratio: Fixed,
    pub origin: Vec3,
    pub vertical: Vec3,
    pub horizontal: Vec3,
    pub u: Vec3,
    pub v: Vec3,
    pub lower_left: Vec3,
    pub lens_radius: Fixed,
}

pub open spec fn cam_vec_ok(v: Vec3) -> bool {
    iabs(v.x as int) <= CAM_MAX && iabs(v.y as int) <= CAM_MAX && iabs(v.z as int) <= CAM_MAX
}

pub open spec fn camera_wf(c: Camera) -> bool {
    &&& cam_vec_ok(c.origin)
    &&& cam_vec_ok(c.horizontal)
    &&& cam_vec_ok(c.vertical)
    &&& cam_vec_ok(c.lower_left)
    &&& iabs(c.viewport_width as int) <= MUL_MAX
    &&& iabs(c.viewport_height as int) <= MUL_MAX
    &&& iabs(c.lens_radius as int) <= MUL_MAX
}

/// Each component halved, rounding toward zero.
pub open spec fn spec_half(v: Vec3) -> Vec3 {
    Vec3 {
        x: div_tz(v.x as int, 2) as i128,
        y: div_tz(v.y as int, 2) as i128,
        z: div_tz(v.z as int, 2) as i128,
    }
}

/// What camera construction computes, step for step: an orthonormal-ish
/// basis from the view direction and up vector, the focal-plane spans,
/// and the lower-left image corner; any degenerate or out-of-range step
/// refuses the camera.
#[verifier::opaque]
pub open spec fn spec_camera_new(
    origin: Vec3,
    lookat: Vec3,
    vup: Vec3,
    viewport_width: int,
    aspect_ratio: int,
    aperture: int,
    focus_dist: int,
) -> Option<Camera> {
    if aspect_ratio == 0 || !cam_vec_ok(origin) {
        Option::None
    } else {
        let vh = fx_div(viewport_width, aspect_ratio);
        if iabs(vh) > MUL_MAX {
            Option::None
        } else {
            match crate::vec::spec_normalised(spec_sub(origin, lookat)) {
                Option::None => Option::None,
                Option::Some(w) => match crate::vec::spec_normalised(
                    crate::vec::spec_cross(w, vup),
                ) {
                    Option::None => Option::None,
                    Option::Some(u) => {
                        let v = crate::vec::spec_cross(u, w);
                        let h1 = spec_scale(u, focus_dist);
                        let v1 = spec_scale(v, focus_dist);
                        if iabs(v.x as int) > MUL_MAX || iabs(v.y as int) > MUL_MAX || iabs(
                            v.z as int,
                        ) > MUL_MAX || iabs(h1.x as int) > MUL_MAX || iabs(h1.y as int) > MUL_MAX
                            || iabs(h1.z as int) > MUL_MAX || iabs(v1.x as int) > MUL_MAX || iabs(
                            v1.y as int,
                        ) > MUL_MAX || iabs(v1.z as int) > MUL_MAX {
                            Option::None
                        } else {
                            let horizontal = spec_scale(h1, viewport_width);
                            let vertical = spec_scale(v1, vh);
                            let wf = spec_scale(w, focus_dist);
                            let lower_left = spec_sub(
                                spec_sub(spec_sub(origin, spec_half(horizontal)), spec_half(vertical)),
                                wf,
                            );
                            if !cam_vec_ok(horizontal) || !cam_vec_ok(vertical) || !cam_vec_ok(
                                lower_left,
                            ) {
                                Option::None
                            } else {
                                Option::Some(
                                    Camera {
                                        viewport_width: viewport_width as i128,
                                        viewport_height: vh as i128,
                                        aspect_ratio: aspect_ratio as i128,
                                        origin,
                                        vertical,
                                        horizontal,
                                        u,
                                        v,
                                        lower_left,
                                        lens_radius: div_tz(aperture, 2) as i128,
                                    },
                                )
                            }
                        }
                    },
                },
            }
        }
    }
}

/// The direction a camera assigns to image coordinates `(u, v)`.
pub open spec fn spec_ray_dir(c: Camera, u: int, v: int) -> Vec3 {
    spec_sub(
        spec_add(spec_add(c.lower_left, spec_scale(c.horizontal, u)), spec_scale(c.vertical, v)),
        c.origin,
    )
}

impl Camera {
    /// Build a camera from its viewing geometry.  The viewport width
    /// stands in for a field-of-view angle: it equals twice the tangent
    /// of half that angle, a value the integer scalar cannot derive
    /// itself, so callers convert before construction.  Degenerate
    /// geometry refuses the camera.
    pub fn new(
        origin: Vec3,
        lookat: Vec3,
        vup: Vec3,
        viewport_width: Fixed,
        aspect_ratio: Fixed,
        aperture: Fixed,
        focus_dist: Fixed,
    ) -> (res: Option<Camera>)
        requires
            vec_ok(origin),
            vec_ok(lookat),
            vec_ok(vup),
            iabs(viewport_width as int) <= MUL_MAX,
            iabs(aspect_ratio as int) <= MUL_MAX,
            iabs(aperture as int) <= MUL_MAX,
            iabs(focus_dist as int) <= MUL_MAX,
        ensures
            res == spec_camera_new(
                origin,
                lookat,
                vup,
                viewport_width as int,
                aspect_ratio as int,
                aperture as int,
                focus_dist as int,
            ),
            res matches Option::Some(c) ==> camera_wf(c) && c.origin == origin,
    {
        proof {
            reveal(spec_camera_new);
        }
        if aspect_ratio == 0 || !(-CAM_MAX <= origin.x && origin.x <= CAM_MAX && -CAM_MAX
            <= origin.y && origin.y <= CAM_MAX && -CAM_MAX <= origin.z && origin.z <= CAM_MAX) {
            return Option::None;
        }
        let vh: Fixed = fdiv(viewport_width, aspect_ratio);
        if vh > MUL_MAX || vh < -MUL_MAX {
            return Option::None;
        }
        let w: Vec3 = match origin.sub(&lookat).normalised() {
            Option::Some(x) => x,
            Option::None => {
                return Option::None;
            },
        };
        let u: Vec3 = match w.cross(&vup).normalised() {
            Option::Some(x) => x,
            Option::None => {
                return Option::None;
            },
        };
        let v: Vec3 = u.cross(&w);
        if v.x > MUL_MAX || v.x < -MUL_MAX || v.y > MUL_MAX || v.y < -MUL_MAX || v.z > MUL_MAX
            || v.z < -MUL_MAX {
            return Option::None;
        }
        let h1: Vec3 = u.scale(focus_dist);
        let v1: Vec3 = v.scale(focus_dist);
        if h1.x > MUL_MAX || h1.x < -MUL_MAX || h1.y > MUL_MAX || h1.y < -MUL_MAX || h1.z
            > MUL_MAX || h1.z < -MUL_MAX || v1.x > MUL_MAX || v1.x < -MUL_MAX || v1.y > MUL_MAX
            || v1.y < -MUL_MAX || v1.z > MUL_MAX || v1.z < -MUL_MAX {
            return Option::None;
        }
        let horizontal: Vec3 = h1.scale(viewport_width);
        let vertical: Vec3 = v1.scale(vh);
        let wf: Vec3 = w.scale(focus_dist);
        let half_h: Vec3 = Vec3 {
            x: div_trunc(horizontal.x, 2),
            y: div_trunc(horizontal.y, 2),
            z: div_trunc(horizontal.z, 2),
        };
        let half_v: Vec3 = Vec3 {
            x: div_trunc(vertical.x, 2),
            y: div_trunc(vertical.y, 2),
            z: div_trunc(vertical.z, 2),
        };
        let lower_left: Vec3 = origin.sub(&half_h).sub(&half_v).sub(&wf);
        if !(-CAM_MAX <= horizontal.x && horizontal.x <= CAM_MAX && -CAM_MAX <= horizontal.y
            && horizontal.y <= CAM_MAX && -CAM_MAX <= horizontal.z && horizontal.z <= CAM_MAX)
            || !(-CAM_MAX <= vertical.x && vertical.x <= CAM_MAX && -CAM_MAX <= vertical.y
            && vertical.y <= CAM_MAX && -CAM_MAX <= vertical.z && vertical.z <= CAM_MAX) || !(
        -CAM_MAX <= lower_left.x && lower_left.x <= CAM_MAX && -CAM_MAX <= lower_left.y
            && lower_left.y <= CAM_MAX && -CAM_MAX <= lower_left.z && lower_left.z <= CAM_MAX) {
            return Option::None;
        }
        Option::Some(
            Camera {
                viewport_width,
                viewport_height: vh,
                aspect_ratio,
                origin,
                vertical,
                horizontal,
                u,
                v,
                lower_left,
                lens_radius: div_trunc(aperture, 2),
            },
        )
    }

    /// The ray through normalized image coordinates `(u, v)`, stamped
    /// with a fresh random time sample.
    pub fn get_ray(&self, u: Fixed, v: Fixed) -> (r: Ray)
        requires
            camera_wf(*self),
            0 <= u <= SCALE,
            0 <= v <= SCALE,
        ensures
            ray_ok(r),
            r.origin == self.origin,
            r.direction == spec_ray_dir(*self, u as int, v as int),
            0 <= r.time < SCALE,
    {
        proof {
            lemma_fx_mul_mag_le(self.horizontal.x as int, u as int);
            lemma_fx_mul_mag_le(self.horizontal.y as int, u as int);
            lemma_fx_mul_mag_le(self.horizontal.z as int, u as int);
            lemma_fx_mul_mag_le(self.vertical.x as int, v as int);
            lemma_fx_mul_mag_le(self.vertical.y as int, v as int);
            lemma_fx_mul_mag_le(self.vertical.z as int, v as int);
        }
        let dir: Vec3 = self.lower_left.add(&self.horizontal.scale(u)).add(
            &self.vertical.scale(v),
        ).sub(&self.origin);
        Ray { origin: self.origin, direction: dir, time: random_float() }
    }
}

} // verus!

verus! {

/// Channel `r` (0, 1, 2) of a colour.
pub open spec fn spec_channel(c: Vec3, r: int) -> int {
    if r == 0 {
        c.x as int
    } else if r == 1 {
        c.y as int
    } else {
        c.z as int
    }
}

/// One accumulation buffer with its progress counters.
pub struct SamplerProgress {
    pub samples_completed: u64,
    pub rays_shot: u64,
    pub current_image: Vec<Fixed>,
}

impl SamplerProgress {
    /// A zeroed buffer of `pixel_num * channels` scalar channel values.
    pub fn new(pixel_num: u64, channels: u64) -> (s: SamplerProgress)
        requires
            pixel_num * channels <= usize::MAX,
        ensures
            s.samples_completed == 0,
            s.rays_shot == 0,
            s.current_image@.len() == pixel_num * channels,
            forall|k: int| 0 <= k < s.current_image@.len() ==> s.current_image@[k] == 0,
    {
        proof {
            assert(pixel_num as int * channels as int >= pixel_num as int * 0) by (nonlinear_arith);
            assert(pixel_num as int * channels as int >= 0) by (nonlinear_arith);
        }
        let n: u64 = pixel_num * channels;
        let total: usize = n as usize;
        let mut image: Vec<Fixed> = Vec::new();
        let mut k: usize = 0;
        while k < total
            invariant
                0 <= k <= total,
                image@.len() == k,
                forall|j: int| 0 <= j < k ==> image@[j] == 0,
            decreases total - k,
        {
            image.push(0);
            k = k + 1;
        }
        SamplerProgress { samples_completed: 0, rays_shot: 0, current_image: image }
    }
}

/// The running mean after one more sample: `prev + (sample - prev) / n`,
/// rounding toward zero.  A repeated value is a fixed point, and the
/// first sample replaces the empty mean outright.
pub fn mean_step(prev: Fixed, sample: Fixed, n: i128) -> (r: Fixed)
    requires
        1 <= n < 2147483648,
        0 <= prev <= SCALE,
        0 <= sample <= SCALE,
    ensures
        r == prev + div_tz(sample - prev, n as int),
        0 <= r <= SCALE,
        prev == sample ==> r == prev,
        n == 1 ==> r == sample,
{
    proof {
        lemma_div_tz_between(sample - prev, n as int);
        assert(iabs(sample - prev) / 1 == iabs(sample - prev)) by (nonlinear_arith);
    }
    prev + div_trunc(sample - prev, n)
}

/// Evaluate one pixel: a stratified sample within the pixel's footprint,
/// traced through the camera against the scene and sky.
pub fn render_pixel(
    camera: &Camera,
    sky: &Sky,
    bvh: &Bvh,
    x: u64,
    y: u64,
    width: u64,
    height: u64,
) -> (res: (Vec3, u64))
    requires
        camera_wf(*camera),
        sky_wf(*sky),
        bvh_wf(*bvh),
        x < width,
        y < height,
        width <= 65536,
        height <= 65536,
    ensures
        colour_ok(res.0),
        1 <= res.1 <= MAX_DEPTH + 1,
        bvh.primitives@.len() == 0 && sky.top == sky.bottom ==> res.0 == sky.bottom,
{
    let rx: Fixed = random_float();
    let ry: Fixed = random_float();
    let w: i128 = width as i128;
    let h: i128 = height as i128;
    let nu: i128 = rx + (x as i128) * SCALE;
    let nv: i128 = ry + (y as i128) * SCALE;
    proof {
        lemma_pixel_coord_bound(rx as int, x as int, w as int);
        lemma_pixel_coord_bound(ry as int, y as int, h as int);
    }
    let u: Fixed = div_trunc(nu, w);
    let qv: Fixed = div_trunc(nv, h);
    let v: Fixed = SCALE - qv;
    let ray: Ray = camera.get_ray(u, v);
    let out: (Vec3, u64) = Ray::get_colour(&ray, sky, bvh);
    proof {
        if bvh.primitives@.len() == 0 && sky.top == sky.bottom {
            assert(bvh.indices@.len() == 0);
            assert(crate::bvh::scan_idx(bvh.primitives@, bvh.indices@, ray, 0, 0) is None);
            lemma_solid_sky(*sky, ray);
        }
    }
    out
}

/// A stratified offset inside a pixel maps into `[0, 1)` after division
/// by the image dimension.
proof fn lemma_pixel_coord_bound(r: int, x: int, w: int)
    requires
        0 <= r < SCALE,
        0 <= x < w,
        1 <= w,
    ensures
        0 <= div_tz(r + x * SCALE, w) < SCALE,
{
    let a = r + x * SCALE;
    assert(0 <= a && a <= w * SCALE - 1) by (nonlinear_arith)
        requires
            a == r + x * SCALE,
            0 <= r < SCALE,
            0 <= x <= w - 1,
            1 <= w,
    ;
    assert(div_tz(a, w) == a / w);
    vstd::arithmetic::div_mod::lemma_div_is_ordered(a, w * SCALE - 1, w);
    vstd::arithmetic::div_mod::lemma_div_multiples_vanish_fancy(SCALE - 1, w - 1, w);
    assert(w * (SCALE - 1) + (w - 1) == w * SCALE - 1) by (nonlinear_arith);
    assert(a / w >= 0) by (nonlinear_arith)
        requires
            a >= 0,
            w >= 1,
    ;
}

} // verus!

verus! {

/// All channel values of a buffer prefix sit in the unit interval.
pub open spec fn buffer_bounded(s: Seq<Fixed>, n: int) -> bool {
    forall|k: int| 0 <= k < n ==> 0 <= #[trigger] s[k] <= SCALE
}

/// Every pixel triple of the prefix reads exactly the colour `c`.
pub open spec fn buffer_constant(s: Seq<Fixed>, c: Vec3, pixels: int) -> bool {
    forall|p: int|
        0 <= p < pixels ==> #[trigger] s[3 * p] == c.x && s[3 * p + 1] == c.y && s[3 * p + 2]
            == c.z
}

/// Evaluate one full sample pass: every pixel of `current` becomes the
/// running mean of `previous` and a fresh estimate, so `previous` is
/// only ever read.  `i` is the zero-based index of this pass.
#[verifier::rlimit(100)]
pub fn run_sample(
    current: &mut SamplerProgress,
    previous: &SamplerProgress,
    i: u64,
    width: u64,
    height: u64,
    camera: &Camera,
    sky: &Sky,
    bvh: &Bvh,
)
    requires
        camera_wf(*camera),
        sky_wf(*sky),
        bvh_wf(*bvh),
        1 <= width <= 65536,
        1 <= height <= 65536,
        width * height * 3 <= usize::MAX,
        i < 1048576,
        old(current).current_image@.len() == width * height * 3,
        previous.current_image@.len() == width * height * 3,
        buffer_bounded(previous.current_image@, width * height * 3),
        i == 0 ==> forall|k: int|
            0 <= k < previous.current_image@.len() ==> previous.current_image@[k] == 0,
        previous.rays_shot <= i * (width * height * 16),
    ensures
        final(current).current_image@.len() == width * height * 3,
        buffer_bounded(final(current).current_image@, width * height * 3),
        final(current).samples_completed == i + 1,
        final(current).rays_shot <= (i + 1) * (width * height * 16),
        bvh.primitives@.len() == 0 && sky.top == sky.bottom && (i == 0 || buffer_constant(
            previous.current_image@,
            sky.bottom,
            width * height,
        )) ==> buffer_constant(final(current).current_image@, sky.bottom, width * height),
{
    let pixels: u64 = width * height;
    let n: i128 = (i + 1) as i128;
    let mut local_rays: u64 = 0;
    let mut pi: u64 = 0;
    while pi < pixels
        invariant
            camera_wf(*camera),
            sky_wf(*sky),
            bvh_wf(*bvh),
            1 <= width <= 65536,
            1 <= height <= 65536,
            pixels == width * height,
            width * height * 3 <= usize::MAX,
            i < 1048576,
            n == i + 1,
            0 <= pi <= pixels,
            current.current_image@.len() == 3 * pixels,
            previous.current_image@.len() == 3 * pixels,
            buffer_bounded(previous.current_image@, 3 * pixels),
            i == 0 ==> forall|k: int|
                0 <= k < previous.current_image@.len() ==> previous.current_image@[k] == 0,
            forall|k: int| 0 <= k < 3 * pi ==> 0 <= #[trigger] current.current_image@[k] <= SCALE,
            bvh.primitives@.len() == 0 && sky.top == sky.bottom && (i == 0 || buffer_constant(
                previous.current_image@,
                sky.bottom,
                pixels as int,
            )) ==> buffer_constant(current.current_image@, sky.bottom, pi as int),
            local_rays <= pi * 16,
        decreases pixels - pi,
    {
        let x: u64 = pi % width;
        let y: u64 = pi / width;
        proof {
            assert(y < height) by (nonlinear_arith)
                requires
                    y == pi as int / width as int,
                    pi < width * height,
                    1 <= width,
                    1 <= height,
            ;
        }
        let (colour, cnt): (Vec3, u64) = render_pixel(camera, sky, bvh, x, y, width, height);
        let base: usize = (3 * pi) as usize;
        let px: Fixed = previous.current_image[base];
        let py: Fixed = previous.current_image[base + 1];
        let pz: Fixed = previous.current_image[base + 2];
        let mx: Fixed = mean_step(px, colour.x, n);
        let my: Fixed = mean_step(py, colour.y, n);
        let mz: Fixed = mean_step(pz, colour.z, n);
        let ghost img0 = current.current_image@;
        current.current_image[base] = mx;
        current.current_image[base + 1] = my;
        current.current_image[base + 2] = mz;
        proof {
            assert(local_rays + cnt <= 0xffff_ffff_ffff_ffff) by (nonlinear_arith)
                requires
                    local_rays <= pi * 16,
                    pi < pixels,
                    pixels == width * height,
                    width <= 65536,
                    height <= 65536,
                    cnt <= 16,
            ;
        }
        local_rays = local_rays + cnt;
        proof {
            assert(cnt <= 16);
            if bvh.primitives@.len() == 0 && sky.top == sky.bottom && (i == 0 || buffer_constant(
                previous.current_image@,
                sky.bottom,
                pixels as int,
            )) {
                assert(colour == sky.bottom);
                assert(base as int == 3 * pi);
                if i == 0 {
                    assert(px == 0 && py == 0 && pz == 0);
                    assert(mx == colour.x && my == colour.y && mz == colour.z);
                } else {
                    assert(previous.current_image@[3 * (pi as int)] == sky.bottom.x);
                    assert(px == sky.bottom.x && py == sky.bottom.y && pz == sky.bottom.z);
                    assert(mx == sky.bottom.x && my == sky.bottom.y && mz == sky.bottom.z);
                }
                assert forall|p: int| 0 <= p < pi + 1 implies #[trigger] current.current_image@[3
                    * p] == sky.bottom.x && current.current_image@[3 * p + 1] == sky.bottom.y
                    && current.current_image@[3 * p + 2] == sky.bottom.z by {
                    if p < pi {
                        assert(3 * p + 2 < 3 * pi);
                        assert(buffer_constant(img0, sky.bottom, pi as int));
                        assert(img0[3 * p] == sky.bottom.x);
                        assert(img0[3 * p + 1] == sky.bottom.y);
                        assert(img0[3 * p + 2] == sky.bottom.z);
                        assert(current.current_image@[3 * p] == img0[3 * p]);
                        assert(current.current_image@[3 * p + 1] == img0[3 * p + 1]);
                        assert(current.current_image@[3 * p + 2] == img0[3 * p + 2]);
                    } else {
                        assert(p == pi);
                        assert(current.current_image@[3 * p] == mx);
                        assert(current.current_image@[3 * p + 1] == my);
                        assert(current.current_image@[3 * p + 2] == mz);
                    }
                }
            }
        }
        pi = pi + 1;
    }
    current.samples_completed = i + 1;
    proof {
        assert(previous.rays_shot + local_rays <= (i + 1) * (width * height * 16))
            by (nonlinear_arith)
            requires
                previous.rays_shot <= i * (width * height * 16),
                local_rays <= pixels * 16,
                pixels == width * height,
                i < 1048576,
                width <= 65536,
                height <= 65536,
        ;
        assert((i + 1) * (width * height * 16) <= 0xffff_ffff_ffff_ffff) by (nonlinear_arith)
            requires
                i < 1048576,
                1 <= width <= 65536,
                1 <= height <= 65536,
        ;
    }
    current.rays_shot = previous.rays_shot + local_rays;
}

} // verus!

verus! {

/// Which of the two physical buffers is read (handed to presentation) at
/// iteration `i`: the one completed at iteration `i - 1`.
pub open spec fn previous_slot(i: u64) -> int {
    if i % 2 == 0 {
        0
    } else {
        1
    }
}

/// Which of the two physical buffers is written at iteration `i`.
pub open spec fn current_slot(i: u64) -> int {
    if i % 2 == 0 {
        1
    } else {
        0
    }
}

/// The buffer handed out at iteration `i` is never the one written at
/// iteration `i`: alternation alone keeps the presentation snapshot
/// unmutated during its whole use, with no locking.
pub proof fn lemma_buffer_roles_disjoint(i: u64)
    requires
        i < 0xffff_ffff_ffff_ffff,
    ensures
        previous_slot(i) != current_slot(i),
        previous_slot(i) == current_slot((i + 1) as u64),
{
    assert(i % 2 == 0 ==> (i + 1) % 2 == 1) by (nonlinear_arith);
    assert(i % 2 != 0 ==> i % 2 == 1 && (i + 1) % 2 == 0) by (nonlinear_arith);
}

/// The progressive Monte Carlo sampler protocol.
pub trait Sampler {
    /// Render `samples_per_pixel` passes at `width * height` and return
    /// the final accumulation buffer: per-channel running means in the
    /// unit interval.  Over an empty scene under a solid sky, every pixel
    /// reads exactly the sky colour, whatever the sample count.
    fn sample_image(
        &self,
        samples_per_pixel: u64,
        width: u64,
        height: u64,
        camera: &Camera,
        sky: &Sky,
        bvh: &Bvh,
    ) -> (res: SamplerProgress)
        requires
            camera_wf(*camera),
            sky_wf(*sky),
            bvh_wf(*bvh),
            1 <= samples_per_pixel < 1048576,
            1 <= width <= 65536,
            1 <= height <= 65536,
            width * height * 3 <= usize::MAX,
        ensures
            res.samples_completed == samples_per_pixel,
            res.current_image@.len() == width * height * 3,
            buffer_bounded(res.current_image@, width * height * 3),
            bvh.primitives@.len() == 0 && sky.top == sky.bottom ==> buffer_constant(
                res.current_image@,
                sky.bottom,
                width * height,
            ),
    ;
}

/// The default sampler: uniform pixel-footprint sampling, one estimate
/// per pixel per pass, double-buffered accumulation by pass parity.
pub struct RandomSampler;

impl Sampler for RandomSampler {
    fn sample_image(
        &self,
        samples_per_pixel: u64,
        width: u64,
        height: u64,
        camera: &Camera,
        sky: &Sky,
        bvh: &Bvh,
    ) -> (res: SamplerProgress) {
        let pixels: u64 = width * height;
        proof {
            assert(pixels * 3 == width * height * 3) by (nonlinear_arith)
                requires
                    pixels == width * height,
            ;
        }
        let mut buf_a: SamplerProgress = SamplerProgress::new(pixels, 3);
        let mut buf_b: SamplerProgress = SamplerProgress::new(pixels, 3);
        let mut i: u64 = 0;
        while i < samples_per_pixel
            invariant
                camera_wf(*camera),
                sky_wf(*sky),
                bvh_wf(*bvh),
                1 <= samples_per_pixel < 1048576,
                1 <= width <= 65536,
                1 <= height <= 65536,
                width * height * 3 <= usize::MAX,
                pixels == width * height,
                0 <= i <= samples_per_pixel,
                buf_a.current_image@.len() == width * height * 3,
                buf_b.current_image@.len() == width * height * 3,
                i == 0 ==> buf_a.rays_shot == 0,
                i == 0 ==> forall|k: int|
                    0 <= k < buf_a.current_image@.len() ==> buf_a.current_image@[k] == 0,
                i >= 1 ==> buffer_bounded(
                    if i % 2 == 0 {
                        buf_a.current_image@
                    } else {
                        buf_b.current_image@
                    },
                    width * height * 3,
                ),
                i >= 1 ==> (if i % 2 == 0 {
                    buf_a.samples_completed
                } else {
                    buf_b.samples_completed
                }) == i,
                i >= 1 ==> (if i % 2 == 0 {
                    buf_a.rays_shot
                } else {
                    buf_b.rays_shot
                }) <= i * (width * height * 16),
                i >= 1 && bvh.primitives@.len() == 0 && sky.top == sky.bottom ==> buffer_constant(
                    if i % 2 == 0 {
                        buf_a.current_image@
                    } else {
                        buf_b.current_image@
                    },
                    sky.bottom,
                    width * height,
                ),
            decreases samples_per_pixel - i,
        {
            if i % 2 == 0 {
                proof {
                    assert(previous_slot(i) == 0 && current_slot(i) == 1);
                }
                run_sample(&mut buf_b, &buf_a, i, width, height, camera, sky, bvh);
            } else {
                proof {
                    assert(previous_slot(i) == 1 && current_slot(i) == 0);
                }
                run_sample(&mut buf_a, &buf_b, i, width, height, camera, sky, bvh);
            }
            i = i + 1;
        }
        if samples_per_pixel % 2 == 0 {
            buf_a
        } else {
            buf_b
        }
    }
}

/// The 8-bit value a channel maps to: the square root of the clamped
/// value, scaled to 255, truncated — an exact gamma-two approximation.
pub open spec fn spec_byte_of(v: int) -> int {
    if v <= 0 {
        0
    } else if v >= SCALE {
        255
    } else {
        (255 * fx_sqrt(v)) / (SCALE as int)
    }
}

/// Map an accumulation buffer to output bytes.
pub fn buffer_to_bytes(buf: &Vec<Fixed>) -> (out: Vec<u8>)
    ensures
        out@.len() == buf@.len(),
        forall|k: int| 0 <= k < buf@.len() ==> #[trigger] out@[k] == spec_byte_of(buf@[k] as int),
{
    let mut out: Vec<u8> = Vec::new();
    let mut k: usize = 0;
    while k < buf.len()
        invariant
            0 <= k <= buf@.len(),
            out@.len() == k,
            forall|j: int| 0 <= j < k ==> #[trigger] out@[j] == spec_byte_of(buf@[j] as int),
        decreases buf@.len() - k,
    {
        out.push(byte_of(buf[k]));
        k = k + 1;
    }
    out
}

/// The byte for one channel value.
pub fn byte_of(v: Fixed) -> (b: u8)
    ensures
        b == spec_byte_of(v as int),
{
    if v <= 0 {
        0
    } else if v >= SCALE {
        255
    } else {
        let s: Fixed = fsqrt(v);
        proof {
            lemma_sqrt_floor_bounds((v * SCALE) as nat);
            assert(s < SCALE) by (nonlinear_arith)
                requires
                    s as int * s as int <= v * SCALE,
                    0 < v < SCALE,
                    s >= 0,
            ;
            assert(0 <= (255 * (s as int)) / (SCALE as int) < 256) by (nonlinear_arith)
                requires
                    0 <= s < SCALE,
            ;
        }
        let scaled: i128 = 255 * s;
        let q: i128 = scaled / 65536;
        proof {
            assert(q == (255 * (s as int)) / (SCALE as int));
        }
        q as u8
    }
}

/// Channel value one maps to byte 255 and channel value zero to byte 0;
/// everything outside the unit interval is clamped, and the mapping never
/// decreases as the channel brightens.
pub proof fn lemma_byte_mapping(v1: int, v2: int)
    requires
        v1 <= v2,
    ensures
        spec_byte_of(0) == 0,
        spec_byte_of(SCALE as int) == 255,
        spec_byte_of(v1) <= spec_byte_of(v2),
        0 <= spec_byte_of(v1) <= 255,
{
    lemma_byte_in_range(v1);
    lemma_byte_in_range(v2);
    if 0 < v1 && v1 < SCALE && 0 < v2 && v2 < SCALE {
        lemma_sqrt_floor_monotone((v1 * SCALE) as nat, (v2 * SCALE) as nat);
        vstd::arithmetic::div_mod::lemma_div_is_ordered(
            255 * fx_sqrt(v1),
            255 * fx_sqrt(v2),
            SCALE as int,
        );
        vstd::arithmetic::mul::lemma_mul_inequality(fx_sqrt(v1), fx_sqrt(v2), 255);
        assert(255 * fx_sqrt(v1) == fx_sqrt(v1) * 255 && 255 * fx_sqrt(v2) == fx_sqrt(v2) * 255)
            by (nonlinear_arith);
    }
}

/// The byte of any channel value lies in range, and interior values stay
/// below the white point.
proof fn lemma_byte_in_range(v: int)
    ensures
        0 <= spec_byte_of(v) <= 255,
        spec_byte_of(0) == 0,
        spec_byte_of(SCALE as int) == 255,
{
    if 0 < v && v < SCALE {
        lemma_sqrt_floor_bounds((v * SCALE) as nat);
        let s = fx_sqrt(v);
        assert(s < SCALE) by (nonlinear_arith)
            requires
                s * s <= v * SCALE,
                0 < v < SCALE,
                s >= 0,
        ;
        assert(0 <= (255 * s) / (SCALE as int) < 256) by (nonlinear_arith)
            requires
                0 <= s < SCALE,
        ;
    }
}

} // verus!
