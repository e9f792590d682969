use pathtracer::aabb::AABB;
use pathtracer::bvh::{Bvh, SplitType};
use pathtracer::camera::{byte_of, Camera, RandomSampler, Sampler, Sky};
use pathtracer::material::Material;
use pathtracer::math::SCALE;
use pathtracer::primitives::{AABox, AARect, Axis, Primitive, Sphere, Triangle, TriangleMesh};
use pathtracer::ray::Ray;
use pathtracer::material::ScatterResult;
use pathtracer::tracing::PrimitiveTrait;
use pathtracer::vec::{Vec2, Vec3};

fn v(x: i128, y: i128, z: i128) -> Vec3 {
    Vec3 { x, y, z }
}

fn grey() -> Material {
    Material::Diffuse {
        colour: v(SCALE / 2, SCALE / 2, SCALE / 2),
    }
}

fn unit_sphere() -> Sphere {
    Sphere::new(v(0, 0, 0), SCALE, grey())
}

fn z_ray() -> Ray {
    Ray::new(v(0, 0, 5 * SCALE), v(0, 0, -SCALE), 0)
}

#[test]
fn sphere_head_on_hit() {
    let hit = unit_sphere().get_int(&z_ray()).expect("must hit");
    assert_eq!(hit.t, 4 * SCALE);
    assert_eq!(hit.normal, v(0, 0, SCALE));
    assert!(hit.out);
    // the hit point is nudged along the normal by the epsilon
    assert_eq!(hit.point, v(0, 0, SCALE + 7));
}

#[test]
fn sphere_miss() {
    let ray = Ray::new(v(5 * SCALE, 0, 5 * SCALE), v(0, 0, -SCALE), 0);
    assert!(unit_sphere().get_int(&ray).is_none());
    assert!(!unit_sphere().does_int(&ray));
}

#[test]
fn triangle_interior_hit_and_edges_miss() {
    let t = Triangle::new(
        v(0, 0, 0),
        v(SCALE, 0, 0),
        v(0, SCALE, 0),
        grey(),
    )
    .expect("non-degenerate");
    // strictly inside: barycentric parameters 0.2, 0.2
    let fifth = 13107;
    let inside = Ray::new(v(fifth, fifth, SCALE), v(0, 0, -SCALE), 0);
    let hit = t.get_int(&inside).expect("interior point must hit");
    assert_eq!(hit.t, SCALE);
    assert_eq!(hit.uv, Some(Vec2 { x: fifth, y: fifth }));
    assert!(hit.out);
    assert_eq!(hit.normal, v(0, 0, SCALE));
    // a vertex (u = 0, v = 0) misses: the edge convention is exclusive
    let vertex = Ray::new(v(0, 0, SCALE), v(0, 0, -SCALE), 0);
    assert!(t.get_int(&vertex).is_none());
    // a point on the diagonal edge (u + v = 1) misses as well
    let edge = Ray::new(v(SCALE / 2, SCALE / 2, SCALE), v(0, 0, -SCALE), 0);
    assert!(t.get_int(&edge).is_none());
}

#[test]
fn aabox_face_hit() {
    let b = AABox::new(v(-SCALE, -SCALE, -SCALE), v(SCALE, SCALE, SCALE), grey());
    let hit = b.get_int(&z_ray()).expect("must hit the near face");
    assert_eq!(hit.t, 4 * SCALE);
    assert_eq!(hit.normal, v(0, 0, SCALE));
}

#[test]
fn mesh_closest_triangle_wins() {
    let near = Triangle::new(
        v(-SCALE, -SCALE, SCALE / 2),
        v(3 * SCALE, -SCALE, SCALE / 2),
        v(-SCALE, 3 * SCALE, SCALE / 2),
        grey(),
    )
    .unwrap();
    let far = Triangle::new(
        v(-SCALE, -SCALE, -SCALE),
        v(3 * SCALE, -SCALE, -SCALE),
        v(-SCALE, 3 * SCALE, -SCALE),
        grey(),
    )
    .unwrap();
    let mesh = TriangleMesh::new(vec![far, near], grey()).unwrap();
    let hit = mesh.get_int(&z_ray()).expect("must hit");
    // the nearer plane sits at z = 1/2, so t = 4.5 in fixed units
    assert_eq!(hit.t, 4 * SCALE + SCALE / 2);
}

#[test]
fn aabb_union_bounds() {
    let a = AABB::new(v(-SCALE, 0, 0), v(SCALE, SCALE, SCALE));
    let b = AABB::new(v(0, -2 * SCALE, 0), v(3 * SCALE, 0, SCALE / 2));
    let u = a.union(&b);
    assert_eq!(u.min, v(-SCALE, -2 * SCALE, 0));
    assert_eq!(u.max, v(3 * SCALE, SCALE, SCALE));
    assert!(u.min.x <= a.min.x && u.min.x <= b.min.x);
    assert!(u.min.y <= a.min.y && u.min.y <= b.min.y);
    assert!(u.min.z <= a.min.z && u.min.z <= b.min.z);
    assert!(u.max.x >= a.max.x && u.max.x >= b.max.x);
    assert!(u.max.y >= a.max.y && u.max.y >= b.max.y);
    assert!(u.max.z >= a.max.z && u.max.z >= b.max.z);
}

fn test_scene() -> Vec<Primitive> {
    let mut prims: Vec<Primitive> = Vec::new();
    prims.push(Primitive::Sphere(Sphere::new(v(0, 0, 0), SCALE, grey())));
    prims.push(Primitive::Sphere(Sphere::new(
        v(3 * SCALE, 0, 0),
        SCALE,
        grey(),
    )));
    prims.push(Primitive::Sphere(Sphere::new(
        v(-3 * SCALE, 0, 0),
        SCALE / 2,
        grey(),
    )));
    prims.push(Primitive::Triangle(
        Triangle::new(
            v(-SCALE, -SCALE, -3 * SCALE),
            v(5 * SCALE, -SCALE, -3 * SCALE),
            v(-SCALE, 5 * SCALE, -3 * SCALE),
            grey(),
        )
        .unwrap(),
    ));
    prims.push(Primitive::AABox(AABox::new(
        v(5 * SCALE, -SCALE, -SCALE),
        v(7 * SCALE, SCALE, SCALE),
        grey(),
    )));
    prims
}

fn test_rays() -> Vec<Ray> {
    vec![
        z_ray(),
        Ray::new(v(3 * SCALE, 0, 5 * SCALE), v(0, 0, -SCALE), 0),
        Ray::new(v(-3 * SCALE, 0, 5 * SCALE), v(0, 0, -SCALE), 0),
        Ray::new(v(0, 0, 5 * SCALE), v(SCALE / 4, 0, -SCALE), 0),
        Ray::new(v(6 * SCALE, 0, 5 * SCALE), v(0, 0, -SCALE), 0),
        Ray::new(v(0, 10 * SCALE, 0), v(0, SCALE, 0), 0),
        Ray::new(v(20 * SCALE, 0, 0), v(0, 0, -SCALE), 0),
    ]
}

fn brute_force(prims: &[Primitive], ray: &Ray) -> Option<i128> {
    let mut best: Option<i128> = None;
    for p in prims {
        if let Some(h) = p.get_int(ray) {
            best = match best {
                None => Some(h.t),
                Some(t) => Some(if h.t < t { h.t } else { t }),
            };
        }
    }
    best
}

#[test]
fn bvh_matches_brute_force_for_all_split_types() {
    for split in [SplitType::Middle, SplitType::EqualCounts, SplitType::Sah] {
        let bvh = Bvh::new(test_scene(), split);
        assert!(bvh.node_count() >= 1);
        for ray in test_rays() {
            let reference = brute_force(&bvh.primitives, &ray);
            let got = bvh.nearest_hit(&ray).map(|h| h.t);
            assert_eq!(got, reference);
        }
    }
}

#[test]
fn any_hit_iff_nearest_hit() {
    for split in [SplitType::Middle, SplitType::EqualCounts, SplitType::Sah] {
        let bvh = Bvh::new(test_scene(), split);
        for ray in test_rays() {
            assert_eq!(bvh.any_hit(&ray), bvh.nearest_hit(&ray).is_some());
        }
    }
}

#[test]
fn empty_scene_reports_no_hits() {
    let bvh = Bvh::new(Vec::new(), SplitType::Middle);
    for ray in test_rays() {
        assert!(bvh.nearest_hit(&ray).is_none());
        assert!(!bvh.any_hit(&ray));
    }
}

fn simple_camera() -> Camera {
    Camera::new(
        v(0, 0, 0),
        v(0, 0, -SCALE),
        v(0, SCALE, 0),
        2 * SCALE,
        SCALE,
        0,
        SCALE,
    )
    .expect("well-posed camera")
}

#[test]
fn camera_center_ray_points_forward() {
    let cam = simple_camera();
    let ray = cam.get_ray(SCALE / 2, SCALE / 2);
    assert_eq!(ray.origin, v(0, 0, 0));
    assert_eq!(ray.direction, v(0, 0, -SCALE));
    assert!(ray.time >= 0 && ray.time < SCALE);
}

#[test]
fn sampler_converges_to_solid_sky() {
    let sky_colour = v(SCALE / 4, SCALE / 2, SCALE);
    let sky = Sky::new_solid(sky_colour);
    let bvh = Bvh::new(Vec::new(), SplitType::Middle);
    let cam = simple_camera();
    for samples in [1u64, 2, 5] {
        let progress = RandomSampler.sample_image(samples, 4, 3, &cam, &sky, &bvh);
        assert_eq!(progress.samples_completed, samples);
        assert_eq!(progress.current_image.len(), 4 * 3 * 3);
        for p in 0..(4 * 3) {
            assert_eq!(progress.current_image[3 * p], sky_colour.x);
            assert_eq!(progress.current_image[3 * p + 1], sky_colour.y);
            assert_eq!(progress.current_image[3 * p + 2], sky_colour.z);
        }
    }
}

#[test]
fn byte_mapping_boundaries() {
    assert_eq!(byte_of(0), 0);
    assert_eq!(byte_of(SCALE), 255);
    assert_eq!(byte_of(-5), 0);
    assert_eq!(byte_of(10 * SCALE), 255);
    // one quarter maps through the square root to one half of the range
    assert_eq!(byte_of(SCALE / 4), 127);
    // monotone on a few interior points
    assert!(byte_of(SCALE / 8) <= byte_of(SCALE / 4));
    assert!(byte_of(SCALE / 4) <= byte_of(SCALE / 2));
    assert!(byte_of(SCALE / 2) <= byte_of(SCALE - 1));
}

#[test]
fn emissive_material_absorbs() {
    let m = Material::Emit {
        colour: v(SCALE, SCALE / 2, 0),
    };
    let sphere = Sphere::new(v(0, 0, 0), SCALE, m);
    let hit = sphere.get_int(&z_ray()).unwrap();
    match hit.material.scatter(&z_ray(), &hit) {
        ScatterResult::Absorb { emission } => assert_eq!(emission, v(SCALE, SCALE / 2, 0)),
        ScatterResult::Bounce { .. } => panic!("an emitter must absorb"),
    }
}

#[test]
fn degenerate_builders_are_refused() {
    // a flat triangle has no normal
    let t = Triangle::new(v(0, 0, 0), v(SCALE, 0, 0), v(2 * SCALE, 0, 0), grey());
    assert!(t.is_none());
    // an empty mesh has no bound
    assert!(TriangleMesh::new(Vec::new(), grey()).is_none());
    // a camera looking at its own origin has no view direction
    let c = Camera::new(
        v(0, 0, 0),
        v(0, 0, 0),
        v(0, SCALE, 0),
        2 * SCALE,
        SCALE,
        0,
        SCALE,
    );
    assert!(c.is_none());
}

#[test]
fn zero_radius_sphere_reports_no_hit() {
    let s = Sphere::new(v(0, 0, 0), 0, grey());
    assert!(s.get_int(&z_ray()).is_none());
}

#[test]
fn sky_gradient_reads_top_and_bottom() {
    let sky = Sky::new(v(0, 0, 0), v(SCALE, SCALE, SCALE));
    let up = Ray::new(v(0, 0, 0), v(0, SCALE, 0), 0);
    let down = Ray::new(v(0, 0, 0), v(0, -SCALE, 0), 0);
    assert_eq!(sky.get_colour(&up), v(0, 0, 0));
    assert_eq!(sky.get_colour(&down), v(SCALE, SCALE, SCALE));
}

#[test]
fn rect_surface_parameters() {
    let checker = Material::Checker {
        colour_a: v(SCALE, SCALE, SCALE),
        colour_b: v(0, 0, 0),
    };
    let rect = AARect::new(
        Axis::Z,
        0,
        Vec2 { x: 0, y: 0 },
        Vec2 { x: 2 * SCALE, y: 2 * SCALE },
        checker,
    );
    let uv = rect.get_uv(v(SCALE / 2, SCALE / 2, 0));
    assert_eq!(uv, Some(Vec2 { x: SCALE / 4, y: SCALE / 4 }));
    // a material without texturing asks for no parameters
    let plain = AARect::new(
        Axis::Z,
        0,
        Vec2 { x: 0, y: 0 },
        Vec2 { x: 2 * SCALE, y: 2 * SCALE },
        grey(),
    );
    assert_eq!(plain.get_uv(v(SCALE / 2, SCALE / 2, 0)), None);
}
