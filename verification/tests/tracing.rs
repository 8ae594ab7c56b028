//! Tests for intersection, the scene scan, material scattering, the
//! recursive tracer and the full render.

use path_tracer::camera::{ray_color, Camera};
use path_tracer::hittable::{HitRecord, HittableList};
use path_tracer::interval::Interval;
use path_tracer::material::{Dielectric, Lambertian, Material, MaterialZST, Metal};
use path_tracer::ray::Ray;
use path_tracer::sphere::Sphere;
use path_tracer::utils::seed_random;
use path_tracer::vec3::Vec3;

const S: i128 = 65536;

fn gray() -> Material {
    Material::Diffuse(Lambertian::new(Vec3::new(S / 2, S / 2, S / 2)))
}

#[test]
fn sphere_hit_from_outside_selects_near_root() {
    // unit ray down -z, sphere of radius 1 centered at (0,0,-3): hits at 2 and 4
    let ray = Ray::new(Vec3::new(0, 0, 0), Vec3::new(0, 0, -S));
    let sphere = Sphere::new(Vec3::new(0, 0, -3 * S), S, gray());
    let rec = sphere.hit(&ray, Interval::new(65, i128::MAX)).unwrap();
    assert_eq!(rec.t, 2 * S);
    assert!(rec.front_face);
    assert_eq!(rec.normal, Vec3::new(0, 0, S));
    assert_eq!(rec.p, Vec3::new(0, 0, -2 * S));
}

#[test]
fn sphere_hit_from_inside_selects_far_root() {
    // origin at the center of a sphere of radius 2: the only positive root
    // is t = 2, and the normal is flipped against the ray
    let ray = Ray::new(Vec3::new(0, 0, 0), Vec3::new(0, 0, -S));
    let sphere = Sphere::new(Vec3::new(0, 0, 0), 2 * S, gray());
    let rec = sphere.hit(&ray, Interval::new(65, i128::MAX)).unwrap();
    assert_eq!(rec.t, 2 * S);
    assert!(!rec.front_face);
    assert_eq!(rec.normal, Vec3::new(0, 0, S));
}

#[test]
fn sphere_miss_reports_nothing() {
    let ray = Ray::new(Vec3::new(0, 0, 0), Vec3::new(0, 0, S));
    let sphere = Sphere::new(Vec3::new(0, 0, -3 * S), S, gray());
    assert!(sphere.hit(&ray, Interval::new(65, i128::MAX)).is_none());
}

#[test]
fn oriented_normal_opposes_the_ray() {
    let ray = Ray::new(Vec3::new(0, 0, 0), Vec3::new(0, 0, -S));
    let sphere = Sphere::new(Vec3::new(0, 0, -3 * S), S, gray());
    let rec = sphere.hit(&ray, Interval::new(65, i128::MAX)).unwrap();
    assert!(ray.dir.dot(rec.normal) <= 0);
    // and the normal is unit length within fixed-point tolerance
    let ls = rec.normal.length_squared();
    assert!(ls > S - 400 && ls <= S + 400, "normal length off: {}", ls);
}

#[test]
fn set_face_normal_orients_against_the_ray() {
    let ray = Ray::new(Vec3::new(0, 0, 0), Vec3::new(0, 0, -S));
    let outward = Vec3::new(0, 0, S);
    // ray opposes the outward normal: front face, normal kept
    let mut rec = HitRecord::default();
    rec.set_face_normal(&ray, &outward);
    assert!(rec.front_face);
    assert_eq!(rec.normal, outward);
    // ray along the outward normal: back face, normal flipped
    let mut rec2 = HitRecord::default();
    let inward_ray = Ray::new(Vec3::new(0, 0, 0), Vec3::new(0, 0, S));
    rec2.set_face_normal(&inward_ray, &outward);
    assert!(!rec2.front_face);
    assert_eq!(rec2.normal, Vec3::new(0, 0, -S));
    assert!(inward_ray.dir.dot(rec2.normal) <= 0);
}

#[test]
fn negative_radius_clamps_to_zero() {
    let sphere = Sphere::new(Vec3::new(0, 0, 0), -5 * S, gray());
    assert_eq!(sphere.radius, 0);
}

#[test]
fn scene_of_one_matches_the_primitive() {
    let ray = Ray::new(Vec3::new(0, 0, 0), Vec3::new(0, 0, -S));
    let sphere = Sphere::new(Vec3::new(0, 0, -3 * S), S, gray());
    let mut world = HittableList::new();
    world.add(sphere);
    let iv = Interval::new(65, i128::MAX);
    assert_eq!(world.hit(&ray, iv), sphere.hit(&ray, iv));
    let miss_ray = Ray::new(Vec3::new(0, 0, 0), Vec3::new(0, S, 0));
    assert_eq!(world.hit(&miss_ray, iv), sphere.hit(&miss_ray, iv));
}

#[test]
fn scene_keeps_the_closest_hit() {
    // A hits at t=2, B at t=5; either insertion order returns A's record
    let ray = Ray::new(Vec3::new(0, 0, 0), Vec3::new(0, 0, -S));
    let mat_a = Material::Specular(Metal::new(Vec3::new(S, 0, 0), 0));
    let mat_b = Material::Specular(Metal::new(Vec3::new(0, S, 0), 0));
    let a = Sphere::new(Vec3::new(0, 0, -3 * S), S, mat_a);
    let b = Sphere::new(Vec3::new(0, 0, -6 * S), S, mat_b);
    let iv = Interval::new(65, i128::MAX);

    let mut world = HittableList::new();
    world.add(a);
    world.add(b);
    let rec = world.hit(&ray, iv).unwrap();
    assert_eq!(rec.t, 2 * S);
    assert_eq!(rec.mat, mat_a);

    let mut world2 = HittableList::new();
    world2.add(b);
    world2.add(a);
    let rec2 = world2.hit(&ray, iv).unwrap();
    assert_eq!(rec2.t, 2 * S);
    assert_eq!(rec2.mat, mat_a);
}

#[test]
fn empty_scene_never_hits() {
    let world = HittableList::new();
    let ray = Ray::new(Vec3::new(0, 0, 0), Vec3::new(0, 0, -S));
    assert!(world.hit(&ray, Interval::new(65, i128::MAX)).is_none());
}

fn record_at_origin(mat: Material) -> HitRecord {
    HitRecord {
        p: Vec3::new(0, 0, 0),
        normal: Vec3::new(0, 0, S),
        mat,
        t: S,
        front_face: true,
    }
}

#[test]
fn lambertian_scatter_never_degenerates() {
    seed_random(11);
    let albedo = Vec3::new(S / 2, S / 4, S / 8);
    let lam = Lambertian::new(albedo);
    let ray = Ray::new(Vec3::new(0, 0, S), Vec3::new(0, 0, -S));
    let rec = record_at_origin(Material::Diffuse(lam));
    for _ in 0..200 {
        let (attenuation, scattered) = lam.scatter(&ray, &rec).unwrap();
        assert_eq!(attenuation, albedo);
        assert_eq!(scattered.origin, rec.p);
        assert!(!scattered.dir.near_zero());
    }
}

#[test]
fn metal_attenuation_is_albedo_and_grazing_ray_is_absorbed() {
    let albedo = Vec3::new(9 * S / 10, 8 * S / 10, 7 * S / 10);
    let metal = Metal::new(albedo, 0);
    let rec = record_at_origin(Material::Specular(metal));
    // incoming straight along the normal's opposite: reflects cleanly
    let head_on = Ray::new(Vec3::new(0, 0, S), Vec3::new(0, 0, -S));
    let (attenuation, scattered) = metal.scatter(&head_on, &rec).unwrap();
    assert_eq!(attenuation, albedo);
    assert_eq!(scattered.dir, Vec3::new(0, 0, S));
    // incoming parallel to the surface: the zero-fuzz reflection stays in
    // the surface plane, so the ray is absorbed
    let grazing = Ray::new(Vec3::new(-S, 0, 0), Vec3::new(S, 0, 0));
    assert!(metal.scatter(&grazing, &rec).is_none());
}

#[test]
fn metal_fuzz_is_capped_at_one() {
    let metal = Metal::new(Vec3::new(S, S, S), 5 * S);
    assert_eq!(metal.fuzz, S);
}

#[test]
fn dielectric_perpendicular_ray_passes_straight_through() {
    seed_random(5);
    let glass = Dielectric::new(98304); // index 1.5, entering: ratio 2/3 < 1
    let rec = record_at_origin(Material::Refractive(glass));
    let head_on = Ray::new(Vec3::new(0, 0, S), Vec3::new(0, 0, -S));
    let mut refracted: u32 = 0;
    for _ in 0..200 {
        let (attenuation, scattered) = glass.scatter(&head_on, &rec).unwrap();
        assert_eq!(attenuation, Vec3::new(S, S, S));
        // never total internal reflection: the ray either refracts straight
        // through, or the Fresnel draw (about 4%) mirrors it back
        assert_eq!(scattered.dir.x, 0);
        assert_eq!(scattered.dir.y, 0);
        assert!(scattered.dir.z == -S || scattered.dir.z == S);
        if scattered.dir.z == -S {
            refracted += 1;
        }
    }
    assert!(refracted > 150, "refraction should dominate: {}", refracted);
}

#[test]
fn inert_material_absorbs() {
    let rec = record_at_origin(Material::Blank(MaterialZST));
    let ray = Ray::new(Vec3::new(0, 0, S), Vec3::new(0, 0, -S));
    assert!(Material::Blank(MaterialZST).scatter(&ray, &rec).is_none());
}

#[test]
fn depth_exhaustion_returns_black() {
    seed_random(3);
    let mut world = HittableList::new();
    world.add(Sphere::new(Vec3::new(0, 0, -S), 32768, gray()));
    let ray = Ray::new(Vec3::new(0, 0, 0), Vec3::new(0, 0, -S));
    assert_eq!(ray_color(&ray, &world, 0), Vec3::new(0, 0, 0));
    let empty = HittableList::new();
    assert_eq!(ray_color(&ray, &empty, 0), Vec3::new(0, 0, 0));
}

#[test]
fn miss_returns_the_sky_gradient() {
    let empty = HittableList::new();
    let ray = Ray::new(Vec3::new(0, 0, 0), Vec3::new(0, 0, -S));
    // horizontal ray: halfway blend of white and (0.5, 0.7, 1.0)
    assert_eq!(ray_color(&ray, &empty, 5), Vec3::new(49152, 55705, S));
}

#[test]
fn camera_derives_image_height_from_aspect_ratio() {
    let cam = Camera::new(
        2 * S,
        100,
        1,
        1,
        90 * S,
        Vec3::new(0, 0, 0),
        Vec3::new(0, 0, -S),
        Vec3::new(0, S, 0),
        0,
        S,
    );
    assert_eq!(cam.image_height, 50);
    // a very tall aspect ratio still yields at least one row
    let thin = Camera::new(
        200 * S,
        100,
        1,
        1,
        90 * S,
        Vec3::new(0, 0, 0),
        Vec3::new(0, 0, -S),
        Vec3::new(0, S, 0),
        0,
        S,
    );
    assert_eq!(thin.image_height, 1);
}

fn tiny_scene() -> HittableList {
    let mut world = HittableList::new();
    world.add(Sphere::new(
        Vec3::new(0, 0, -S),
        32768,
        Material::Diffuse(Lambertian::new(Vec3::new(S / 2, S / 2, S / 2))),
    ));
    world.add(Sphere::new(
        Vec3::new(0, -6586368, -S),
        6553600,
        Material::Diffuse(Lambertian::new(Vec3::new(S / 2, S / 2, 0))),
    ));
    world
}

fn tiny_camera() -> Camera {
    Camera::new(
        S,
        2,
        1,
        1,
        90 * S,
        Vec3::new(0, 0, 0),
        Vec3::new(0, 0, -S),
        Vec3::new(0, S, 0),
        0,
        S,
    )
}

#[test]
fn render_emits_a_well_formed_ppm() {
    seed_random(42);
    let out = tiny_camera().render(&tiny_scene());
    assert!(out.starts_with("P3\n2 2\n255\n"), "bad header: {:?}", out);
    let lines: Vec<&str> = out.trim_end().split('\n').collect();
    assert_eq!(lines.len(), 3 + 4);
    for line in &lines[3..] {
        let parts: Vec<&str> = line.split(' ').collect();
        assert_eq!(parts.len(), 3);
        for p in parts {
            let v: i64 = p.parse().unwrap();
            assert!((0..=255).contains(&v));
        }
    }
}

#[test]
fn unit_sphere_samples_are_nonzero_and_inside() {
    seed_random(17);
    for _ in 0..200 {
        let p = Vec3::random_in_unit_sphere();
        let ls = p.length_squared();
        assert!(ls >= 1 && ls < S);
    }
}

#[test]
fn random_unit_vectors_are_roughly_unit() {
    seed_random(17);
    for _ in 0..200 {
        let v = Vec3::random_unit_vector();
        let ls = v.length_squared();
        assert!(ls > S / 2 && ls < 2 * S, "unit sample length off: {}", ls);
    }
}

#[test]
fn hemisphere_samples_point_along_the_normal() {
    seed_random(23);
    let normal = Vec3::new(0, 0, S);
    for _ in 0..200 {
        let v = Vec3::random_on_hemisphere(normal);
        assert!(v.dot(normal) >= 0);
    }
}

#[test]
fn render_with_defocus_samples_the_lens() {
    seed_random(8);
    let cam = Camera::new(
        S,
        1,
        2,
        2,
        90 * S,
        Vec3::new(0, 0, 0),
        Vec3::new(0, 0, -S),
        Vec3::new(0, S, 0),
        S / 2,
        S,
    );
    let out = cam.render(&tiny_scene());
    assert!(out.starts_with("P3\n1 1\n255\n"));
    assert_eq!(out.trim_end().split('\n').count(), 4);
}

#[test]
fn render_is_deterministic_under_a_fixed_seed() {
    seed_random(42);
    let first = tiny_camera().render(&tiny_scene());
    seed_random(42);
    let second = tiny_camera().render(&tiny_scene());
    assert_eq!(first, second);
}
