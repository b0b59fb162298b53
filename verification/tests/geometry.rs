//! Intersection behaviour: root selection, range discipline and the
//! closest-hit reduction of the composite list.

use raytrace::fixed::Fx;
use raytrace::hittable::{hit_world, Dummy, Hittables, InfPlane, Sphere};
use raytrace::material::{Lambertian, Metal, Void};
use raytrace::ray::Ray;
use raytrace::vec3::Vec3;

fn vec_i(x: i64, y: i64, z: i64) -> Vec3 {
    Vec3::new(Fx::from_int(x), Fx::from_int(y), Fx::from_int(z))
}

fn gray() -> raytrace::material::Material {
    Lambertian::new_material(Vec3::new(
        Fx::from_thousandths(500),
        Fx::from_thousandths(500),
        Fx::from_thousandths(500),
    ))
}

/// A ray starting on the sphere's surface and aimed at the center hits at
/// `t = 0` when the range admits it, with the normal pointing from the
/// center to the hit point.
#[test]
fn surface_origin_hit_is_at_t_zero() {
    let sphere = Sphere {
        center: vec_i(0, 0, 0),
        radius: Fx::from_int(1),
        material: gray(),
    };
    let ray = Ray::new(vec_i(1, 0, 0), vec_i(-1, 0, 0));
    let rec = sphere.hit(&ray, Fx::from_int(-1), Fx::from_int(10)).unwrap();
    assert_eq!(rec.t, Fx::zero());
    assert_eq!(rec.p, vec_i(1, 0, 0));
    assert_eq!(rec.normal, vec_i(1, 0, 0));
}

#[test]
fn sphere_prefers_the_smaller_root_in_range() {
    let sphere = Sphere {
        center: vec_i(0, 0, 0),
        radius: Fx::from_int(1),
        material: gray(),
    };
    let ray = Ray::new(vec_i(-3, 0, 0), vec_i(1, 0, 0));
    let rec = sphere.hit(&ray, Fx::zero(), Fx::from_int(10)).unwrap();
    assert_eq!(rec.t, Fx::from_int(2));
    assert_eq!(rec.p, vec_i(-1, 0, 0));
    assert_eq!(rec.normal, vec_i(-1, 0, 0));
}

#[test]
fn sphere_falls_back_to_the_larger_root() {
    let sphere = Sphere {
        center: vec_i(0, 0, 0),
        radius: Fx::from_int(1),
        material: gray(),
    };
    let ray = Ray::new(vec_i(-3, 0, 0), vec_i(1, 0, 0));
    let rec = sphere.hit(&ray, Fx::from_int(3), Fx::from_int(10)).unwrap();
    assert_eq!(rec.t, Fx::from_int(4));
    assert_eq!(rec.normal, vec_i(1, 0, 0));
}

/// No returned hit has `t` outside the half-open query range.
#[test]
fn hits_respect_the_half_open_range() {
    let sphere = Sphere {
        center: vec_i(0, 0, 0),
        radius: Fx::from_int(1),
        material: gray(),
    };
    let ray = Ray::new(vec_i(-3, 0, 0), vec_i(1, 0, 0));
    // the upper bound is exclusive: a root exactly at it is rejected
    assert!(sphere.hit(&ray, Fx::zero(), Fx::from_int(2)).is_none());
    // both roots below the lower bound: no hit
    assert!(sphere.hit(&ray, Fx::from_int(5), Fx::from_int(10)).is_none());
    // a ray that misses entirely
    let miss = Ray::new(vec_i(-3, 5, 0), vec_i(1, 0, 0));
    assert!(miss.direction() == vec_i(1, 0, 0));
    assert!(sphere.hit(&miss, Fx::zero(), Fx::from_int(10)).is_none());
}

#[test]
fn plane_hits_where_the_ray_crosses_it() {
    let plane = InfPlane {
        center: vec_i(0, 0, 0),
        normal: vec_i(0, 1, 0),
        material: gray(),
    };
    let ray = Ray::new(vec_i(0, 3, 0), vec_i(0, -1, 0));
    let rec = plane.hit(&ray, Fx::zero(), Fx::from_int(10)).unwrap();
    assert_eq!(rec.t, Fx::from_int(3));
    assert_eq!(rec.p, vec_i(0, 0, 0));
    assert_eq!(rec.normal, vec_i(0, 1, 0));
}

#[test]
fn parallel_rays_never_hit_the_plane() {
    let plane = InfPlane {
        center: vec_i(0, 0, 0),
        normal: vec_i(0, 1, 0),
        material: gray(),
    };
    let above = Ray::new(vec_i(0, 1, 0), vec_i(1, 0, 0));
    assert!(plane.hit(&above, Fx::zero(), Fx::from_int(10)).is_none());
    // even a ray lying inside the plane reports nothing
    let inside = Ray::new(vec_i(0, 0, 0), vec_i(1, 0, 0));
    assert!(plane.hit(&inside, Fx::zero(), Fx::from_int(10)).is_none());
}

#[test]
fn dummy_is_never_hit() {
    let ray = Ray::new(vec_i(0, 0, 0), vec_i(0, 0, -1));
    assert!(Dummy.hit(&ray, Fx::zero(), Fx::from_int(10)).is_none());
}

/// The composite list returns strictly the closest child hit, whatever the
/// insertion order; a farther child never overrides a closer one.
#[test]
fn world_hit_returns_the_minimum_parameter() {
    let near = Sphere::new_hittable(vec_i(0, 0, -5), Fx::from_int(1), gray());
    let far = Sphere::new_hittable(vec_i(0, 0, -10), Fx::from_int(1), gray());
    let ray = Ray::new(vec_i(0, 0, 0), vec_i(0, 0, -1));
    for world in [vec![near, far], vec![far, near]] {
        let rec = hit_world(&world, &ray, Fx::zero(), Fx::from_int(100)).unwrap();
        assert_eq!(rec.t, Fx::from_int(4));
    }
}

#[test]
fn world_hit_breaks_ties_in_favor_of_the_earlier_child() {
    // both spheres touch t = 4 on this ray; the first in the list wins
    let lam = Sphere::new_hittable(vec_i(0, 0, -5), Fx::from_int(1), gray());
    let met = Sphere::new_hittable(
        vec_i(0, 0, -6),
        Fx::from_int(2),
        Metal::new_material(vec_i(1, 1, 1), Fx::zero()),
    );
    let ray = Ray::new(vec_i(0, 0, 0), vec_i(0, 0, -1));
    let rec = hit_world(&vec![lam, met], &ray, Fx::zero(), Fx::from_int(100)).unwrap();
    assert_eq!(rec.t, Fx::from_int(4));
    assert_eq!(rec.material, gray());
    let rec2 = hit_world(&vec![met, lam], &ray, Fx::zero(), Fx::from_int(100)).unwrap();
    assert_eq!(rec2.t, Fx::from_int(4));
    assert_eq!(rec2.material, Metal::new_material(vec_i(1, 1, 1), Fx::zero()));
}

#[test]
fn empty_world_never_hits() {
    let ray = Ray::new(vec_i(0, 0, 0), vec_i(0, 0, -1));
    let world: Vec<Hittables> = Vec::new();
    assert!(hit_world(&world, &ray, Fx::zero(), Fx::from_int(100)).is_none());
}

#[test]
fn hollow_sphere_normal_points_inward() {
    let hollow = Sphere {
        center: vec_i(0, 0, 0),
        radius: Fx::from_int(-1),
        material: Void::new_material(),
    };
    let ray = Ray::new(vec_i(-3, 0, 0), vec_i(1, 0, 0));
    let rec = hollow.hit(&ray, Fx::zero(), Fx::from_int(10)).unwrap();
    assert_eq!(rec.t, Fx::from_int(2));
    // the negative radius flips the normal toward the center
    assert_eq!(rec.normal, vec_i(1, 0, 0));
}
