//! Ready-made scenes: a camera bundled with a world of geometry.
//!
//! Scene construction is a convenience around the core; the renderer only
//! needs the camera and the world.  The animation hook takes the oscillation
//! offset as a plain value, computed by the embedding loop between frames.

use vstd::prelude::*;

use crate::camera::{s_camera_new, Camera, CameraOpts};
use crate::fixed::{fx, iabs, s_mul, tdiv, Fx, SCALE};
use crate::hittable::{world_mats_wf, world_wf, Hittables, InfPlane, Sphere};
use crate::material::{Dielectric, Lambertian, Material, Metal};
use crate::rng::Rand64;
use crate::vec3::{s_len, s_normalize, s_vsub, Vec3};

verus! {

/// The fixed-point reading of `n / 1000`, for pinning scene constants.
pub open spec fn milli(n: int) -> Fx {
    fx(tdiv(n * SCALE, 1000))
}

/// The fixed-point reading of the whole number `n`.
pub open spec fn whole(n: int) -> Fx {
    fx(n * SCALE)
}

/// Thousandths between 0 and 1000 land in the unit interval.
proof fn lemma_milli_unit(n: int)
    requires
        0 <= n <= 1000,
    ensures
        0 <= milli(n).v() <= SCALE as int,
{
    assert(iabs(n * SCALE) == n * SCALE && iabs(1000) == 1000);
    assert(0 <= (n * SCALE) / 1000 <= 65536) by (nonlinear_arith)
        requires
            0 <= n <= 1000,
            SCALE == 65536,
    ;
}

/// The refractive index written as 1.5 is positive.
proof fn lemma_glass_index_positive()
    ensures
        milli(1500).v() == 98304,
{
    assert(iabs(1500 * SCALE) == 98304000 && iabs(1000) == 1000);
    assert(98304000int / 1000int == 98304);
}

/// Halving keeps a value of at most two inside the unit interval.
proof fn lemma_half_scale(h: Fx, b: Fx)
    requires
        h.v() == 32768,
        0 <= b.v() <= 2 * SCALE as int,
    ensures
        0 <= s_mul(h, b).v() <= SCALE as int,
{
    let p = h.v() * b.v();
    assert(0 <= p && p / 65536 <= 65536) by (nonlinear_arith)
        requires
            p == h.v() * b.v(),
            h.v() == 32768,
            0 <= b.v() <= 131072,
    ;
    assert(tdiv(p, SCALE as int) == p / 65536);
}


/// The staged scene's six shapes, exactly as `Chapter::new` builds them:
/// three diffuse spheres (one the huge ground), a fuzzy metal sphere, and a
/// hollow-glass pair sharing a center, the inner shell carried by a negative
/// radius.
pub open spec fn s_chapter_world() -> Seq<Hittables> {
    seq![
        Hittables::Sphere(
            Sphere {
                center: Vec3 { x: whole(0), y: whole(0), z: whole(-2) },
                radius: milli(250),
                material: Material::Lambertian(
                    Lambertian { albedo: Vec3 { x: whole(1), y: whole(0), z: whole(0) } },
                ),
            },
        ),
        Hittables::Sphere(
            Sphere {
                center: Vec3 { x: whole(0), y: whole(0), z: whole(-1) },
                radius: milli(500),
                material: Material::Lambertian(
                    Lambertian { albedo: Vec3 { x: milli(100), y: milli(200), z: milli(500) } },
                ),
            },
        ),
        Hittables::Sphere(
            Sphere {
                center: Vec3 { x: whole(0), y: milli(-100500), z: whole(-1) },
                radius: whole(100),
                material: Material::Lambertian(
                    Lambertian { albedo: Vec3 { x: milli(800), y: milli(800), z: whole(0) } },
                ),
            },
        ),
        Hittables::Sphere(
            Sphere {
                center: Vec3 { x: whole(1), y: whole(0), z: whole(-1) },
                radius: milli(500),
                material: Material::Metal(
                    Metal {
                        albedo: Vec3 { x: milli(800), y: milli(600), z: milli(200) },
                        fuzz: milli(250),
                    },
                ),
            },
        ),
        Hittables::Sphere(
            Sphere {
                center: Vec3 { x: whole(-1), y: whole(0), z: whole(-1) },
                radius: milli(500),
                material: Material::Dielectric(Dielectric { ref_idx: milli(1500) }),
            },
        ),
        Hittables::Sphere(
            Sphere {
                center: Vec3 { x: whole(-1), y: whole(0), z: whole(-1) },
                radius: milli(-450),
                material: Material::Dielectric(Dielectric { ref_idx: milli(1500) }),
            },
        ),
    ]
}

/// The camera configuration `Chapter::new` derives its camera from.
pub open spec fn s_chapter_camera_opts() -> CameraOpts {
    let look_from = Vec3 { x: whole(3), y: whole(3), z: whole(2) };
    let look_at = Vec3 { x: whole(0), y: whole(0), z: whole(-1) };
    CameraOpts {
        origin: look_from,
        direction: s_normalize(s_vsub(look_from, look_at)),
        vup: Vec3 { x: whole(0), y: whole(1), z: whole(0) },
        half_width: milli(414),
        aspect: whole(2),
        aperture: whole(2),
        focus_dist: s_len(s_vsub(look_from, look_at)),
    }
}

/// A staged demonstration scene: diffuse, metal and glass spheres (one of
/// them a hollow shell) over a large ground sphere.
pub struct Chapter {
    pub camera: Camera,
    pub spheres: Vec<Hittables>,
}

impl Chapter {
    /// Create a new Chapter scene: exactly the shapes of
    /// [`s_chapter_world`] under the camera of [`s_chapter_camera_opts`].
    pub fn new() -> (r: Chapter)
        ensures
            world_wf(r.spheres@),
            world_mats_wf(r.spheres@),
            r.spheres@.len() == 6,
            r.spheres@ == s_chapter_world(),
            r.camera == s_camera_new(s_chapter_camera_opts()),
    {
        let mut spheres: Vec<Hittables> = Vec::new();
        spheres.push(
            Sphere::new_hittable(
                Vec3::new(Fx::from_int(0), Fx::from_int(0), Fx::from_int(-2)),
                Fx::from_thousandths(250),
                Lambertian::new_material(
                    Vec3::new(Fx::from_int(1), Fx::from_int(0), Fx::from_int(0)),
                ),
            ),
        );
        spheres.push(
            Sphere::new_hittable(
                Vec3::new(Fx::from_int(0), Fx::from_int(0), Fx::from_int(-1)),
                Fx::from_thousandths(500),
                Lambertian::new_material(
                    Vec3::new(
                        Fx::from_thousandths(100),
                        Fx::from_thousandths(200),
                        Fx::from_thousandths(500),
                    ),
                ),
            ),
        );
        spheres.push(
            Sphere::new_hittable(
                Vec3::new(Fx::from_int(0), Fx::from_thousandths(-100500), Fx::from_int(-1)),
                Fx::from_int(100),
                Lambertian::new_material(
                    Vec3::new(
                        Fx::from_thousandths(800),
                        Fx::from_thousandths(800),
                        Fx::from_int(0),
                    ),
                ),
            ),
        );
        spheres.push(
            Sphere::new_hittable(
                Vec3::new(Fx::from_int(1), Fx::from_int(0), Fx::from_int(-1)),
                Fx::from_thousandths(500),
                Metal::new_material(
                    Vec3::new(
                        Fx::from_thousandths(800),
                        Fx::from_thousandths(600),
                        Fx::from_thousandths(200),
                    ),
                    Fx::from_thousandths(250),
                ),
            ),
        );
        spheres.push(
            Sphere::new_hittable(
                Vec3::new(Fx::from_int(-1), Fx::from_int(0), Fx::from_int(-1)),
                Fx::from_thousandths(500),
                Dielectric::new_material(Fx::from_thousandths(1500)),
            ),
        );
        spheres.push(
            Sphere::new_hittable(
                Vec3::new(Fx::from_int(-1), Fx::from_int(0), Fx::from_int(-1)),
                Fx::from_thousandths(-450),
                Dielectric::new_material(Fx::from_thousandths(1500)),
            ),
        );
        let look_from = Vec3::new(Fx::from_int(3), Fx::from_int(3), Fx::from_int(2));
        let look_at = Vec3::new(Fx::from_int(0), Fx::from_int(0), Fx::from_int(-1));
        let opts = CameraOpts {
            origin: look_from,
            direction: look_from.vsub(look_at).normalize(),
            vup: Vec3::new(Fx::from_int(0), Fx::from_int(1), Fx::from_int(0)),
            // tangent of half of a 45-degree horizontal field of view
            half_width: Fx::from_thousandths(414),
            aspect: Fx::from_int(2),
            aperture: Fx::from_int(2),
            focus_dist: look_from.vsub(look_at).length(),
        };
        let camera = Camera::new(opts);
        proof {
            assert(opts == s_chapter_camera_opts());
            assert(spheres@ =~= s_chapter_world());
            lemma_milli_unit(100);
            lemma_milli_unit(200);
            lemma_milli_unit(250);
            lemma_milli_unit(500);
            lemma_milli_unit(600);
            lemma_milli_unit(800);
            lemma_glass_index_positive();
            assert forall|i: int| 0 <= i < spheres@.len() implies (
            #[trigger] spheres@[i]).material().wf() by {
                assert(spheres@[i] == s_chapter_world()[i]);
            }
        }
        Chapter { camera, spheres }
    }

    pub fn get_world(&self) -> (r: &Vec<Hittables>)
        ensures
            r@ == self.spheres@,
    {
        &self.spheres
    }

    pub fn get_camera(&self) -> (r: &Camera)
        ensures
            *r == self.camera,
    {
        &self.camera
    }

    /// Enables freecam, with the specified camera.
    pub fn enable_freecam(&mut self, cam: Camera)
        ensures
            final(self).camera == cam,
            final(self).spheres@ == old(self).spheres@,
    {
        self.camera = cam;
    }

    pub fn disable_freecam(&mut self)
        ensures
            final(self).camera == old(self).camera,
            final(self).spheres@ == old(self).spheres@,
    {
    }

    /// Oscillate the first sphere horizontally: `x` is the offset for this
    /// frame, computed by the embedding loop from the elapsed time.  Only
    /// the first shape's horizontal center moves, and only when that shape
    /// is a sphere; everything else is untouched.
    pub fn animate(&mut self, x: Fx)
        requires
            x.ok(),
        ensures
            world_wf(old(self).spheres@) ==> world_wf(final(self).spheres@),
            final(self).spheres@.len() == old(self).spheres@.len(),
            final(self).camera == old(self).camera,
            forall|i: int|
                1 <= i < old(self).spheres@.len() ==> final(self).spheres@[i] == old(
                    self,
                ).spheres@[i],
            old(self).spheres@.len() > 0 ==> final(self).spheres@[0] == (match old(
                self,
            ).spheres@[0] {
                Hittables::Sphere(s) => Hittables::Sphere(
                    Sphere {
                        center: Vec3 { x, y: s.center.y, z: s.center.z },
                        radius: s.radius,
                        material: s.material,
                    },
                ),
                Hittables::InfPlane(pl) => Hittables::InfPlane(pl),
            }),
    {
        if self.spheres.len() > 0 {
            let first = self.spheres[0];
            match first {
                Hittables::Sphere(s) => {
                    let moved = Sphere {
                        center: Vec3::new(x, s.center.y, s.center.z),
                        radius: s.radius,
                        material: s.material,
                    };
                    self.spheres[0] = Hittables::Sphere(moved);
                },
                Hittables::InfPlane(_) => {},
            }
        }
    }
}


/// The ground plane of the random scene, exactly as built.
pub open spec fn s_random_ground() -> Hittables {
    Hittables::InfPlane(
        InfPlane {
            center: Vec3 { x: whole(0), y: whole(0), z: whole(0) },
            normal: Vec3 { x: whole(0), y: whole(1), z: whole(0) },
            material: Material::Lambertian(
                Lambertian { albedo: Vec3 { x: milli(500), y: milli(500), z: milli(500) } },
            ),
        },
    )
}

/// The three large feature spheres of the random scene, in push order:
/// glass at the origin column, diffuse to the left, polished metal to the
/// right.
pub open spec fn s_random_features() -> Seq<Hittables> {
    seq![
        Hittables::Sphere(
            Sphere {
                center: Vec3 { x: whole(0), y: whole(1), z: whole(0) },
                radius: whole(1),
                material: Material::Dielectric(Dielectric { ref_idx: milli(1500) }),
            },
        ),
        Hittables::Sphere(
            Sphere {
                center: Vec3 { x: whole(-4), y: whole(1), z: whole(0) },
                radius: whole(1),
                material: Material::Lambertian(
                    Lambertian { albedo: Vec3 { x: milli(400), y: milli(200), z: milli(100) } },
                ),
            },
        ),
        Hittables::Sphere(
            Sphere {
                center: Vec3 { x: whole(4), y: whole(1), z: whole(0) },
                radius: whole(1),
                material: Material::Metal(
                    Metal {
                        albedo: Vec3 { x: milli(700), y: milli(600), z: milli(500) },
                        fuzz: whole(0),
                    },
                ),
            },
        ),
    ]
}

/// The camera configuration `Random::new` derives its camera from.
pub open spec fn s_random_camera_opts() -> CameraOpts {
    let look_from = Vec3 { x: whole(13), y: milli(1500), z: whole(3) };
    let look_at = Vec3 { x: whole(0), y: whole(0), z: whole(0) };
    CameraOpts {
        origin: look_from,
        direction: s_normalize(s_vsub(look_from, look_at)),
        vup: Vec3 { x: whole(0), y: whole(1), z: whole(0) },
        half_width: milli(364),
        aspect: whole(2),
        aperture: milli(250),
        focus_dist: whole(10),
    }
}

/// The random-sphere scene: an infinite ground plane, a grid of small
/// randomized spheres, and three large feature spheres.
pub struct Random {
    pub camera: Camera,
    pub scene: Vec<Hittables>,
}

impl Random {
    /// Create a new Random scene from the given sampler: the ground plane,
    /// a 22-by-22 grid of small spheres with randomized materials and
    /// jittered positions, and the three feature spheres, under the camera
    /// of [`s_random_camera_opts`].
    pub fn new(rng: &mut Rand64) -> (r: Random)
        ensures
            world_wf(r.scene@),
            world_mats_wf(r.scene@),
            r.scene@.len() == 488,
            r.scene@[0] == s_random_ground(),
            forall|i: int|
                1 <= i < 485 ==> ((#[trigger] r.scene@[i]) matches Hittables::Sphere(s)
                    && s.radius == milli(200) && s.center.y == milli(200)),
            forall|k: int| 0 <= k < 3 ==> r.scene@[485 + k] == s_random_features()[k],
            r.camera == s_camera_new(s_random_camera_opts()),
    {
        proof {
            lemma_milli_unit(500);
        }
        let mut scene: Vec<Hittables> = Vec::new();
        scene.push(
            InfPlane::new_hittable(
                Vec3::new(Fx::from_int(0), Fx::from_int(0), Fx::from_int(0)),
                Vec3::new(Fx::from_int(0), Fx::from_int(1), Fx::from_int(0)),
                Lambertian::new_material(
                    Vec3::new(
                        Fx::from_thousandths(500),
                        Fx::from_thousandths(500),
                        Fx::from_thousandths(500),
                    ),
                ),
            ),
        );
        let point_two = Fx::from_thousandths(200);
        let point_nine = Fx::from_thousandths(900);
        let half = Fx::from_thousandths(500);
        let one = Fx::one();
        proof {
            assert(half.v() == 32768) by {
                assert(iabs(500 * SCALE) == 32768000 && iabs(1000) == 1000);
                assert(32768000int / 1000int == 32768);
            }
        }
        let mut a: i64 = -11;
        while a < 11
            invariant
                -11 <= a <= 11,
                point_two == milli(200),
                point_two.ok(),
                half.v() == 32768,
                one == crate::fixed::s_one(),
                world_wf(scene@),
                world_mats_wf(scene@),
                scene@.len() == 1 + 22 * (a + 11),
                scene@[0] == s_random_ground(),
                forall|i: int|
                    1 <= i < scene@.len() ==> ((#[trigger] scene@[i]) matches Hittables::Sphere(s)
                        && s.radius == milli(200) && s.center.y == milli(200)),
            decreases 11 - a,
        {
            let mut b: i64 = -11;
            while b < 11
                invariant
                    -11 <= a < 11,
                    -11 <= b <= 11,
                    point_two == milli(200),
                    point_two.ok(),
                    half.v() == 32768,
                    one == crate::fixed::s_one(),
                    world_wf(scene@),
                    world_mats_wf(scene@),
                    scene@.len() == 1 + 22 * (a + 11) + (b + 11),
                    scene@[0] == s_random_ground(),
                    forall|i: int|
                        1 <= i < scene@.len() ==> ((#[trigger] scene@[i]) matches Hittables::Sphere(
                            s,
                        ) && s.radius == milli(200) && s.center.y == milli(200)),
                decreases 11 - b,
            {
                let pick = rng.next_unit();
                let material = if pick.bits < 52429 {
                    // under 0.8: diffuse, with a squared random albedo
                    let u1 = rng.next_unit();
                    let u2 = rng.next_unit();
                    let u3 = rng.next_unit();
                    let u4 = rng.next_unit();
                    let u5 = rng.next_unit();
                    let u6 = rng.next_unit();
                    proof {
                        crate::fixed::lemma_mul_unit_bound(u1, u2, SCALE as int);
                        crate::fixed::lemma_mul_unit_bound(u3, u4, SCALE as int);
                        crate::fixed::lemma_mul_unit_bound(u5, u6, SCALE as int);
                    }
                    Lambertian::new_material(
                        Vec3::new(u1.mul(u2), u3.mul(u4), u5.mul(u6)),
                    )
                } else if pick.bits < 62259 {
                    // under 0.95: metal, with a bright albedo and mild fuzz
                    let b1 = rng.next_unit().add(one);
                    let b2 = rng.next_unit().add(one);
                    let b3 = rng.next_unit().add(one);
                    let fz = rng.next_unit();
                    proof {
                        lemma_half_scale(half, b1);
                        lemma_half_scale(half, b2);
                        lemma_half_scale(half, b3);
                        lemma_half_scale(half, fz);
                    }
                    Metal::new_material(
                        Vec3::new(half.mul(b1), half.mul(b2), half.mul(b3)),
                        half.mul(fz),
                    )
                } else {
                    proof {
                        lemma_glass_index_positive();
                    }
                    Dielectric::new_material(Fx::from_thousandths(1500))
                };
                let center = Vec3::new(
                    Fx::from_int(a).add(point_nine.mul(rng.next_unit())),
                    point_two,
                    Fx::from_int(b).add(point_nine.mul(rng.next_unit())),
                );
                let ghost pre = scene@;
                scene.push(Sphere::new_hittable(center, point_two, material));
                proof {
                    assert forall|i: int| 0 <= i < scene@.len() implies (
                    #[trigger] scene@[i]).wf() by {
                        if i < pre.len() {
                            assert(scene@[i] == pre[i]);
                        } else {
                            assert(scene@[i] == Hittables::Sphere(
                                Sphere { center, radius: point_two, material },
                            ));
                            assert(center.ok());
                            assert(point_two.ok());
                        }
                    }
                    assert forall|i: int| 0 <= i < scene@.len() implies (
                    #[trigger] scene@[i]).material().wf() by {
                        if i < pre.len() {
                            assert(scene@[i] == pre[i]);
                        } else {
                            assert(scene@[i] == Hittables::Sphere(
                                Sphere { center, radius: point_two, material },
                            ));
                        }
                    }
                    assert forall|i: int|
                        1 <= i < scene@.len() implies ((#[trigger] scene@[i]) matches
                        Hittables::Sphere(s) && s.radius == milli(200) && s.center.y == milli(
                        200,
                    )) by {
                        if i < pre.len() {
                            assert(scene@[i] == pre[i]);
                        } else {
                            assert(scene@[i] == Hittables::Sphere(
                                Sphere { center, radius: point_two, material },
                            ));
                        }
                    }
                }
                b = b + 1;
            }
            a = a + 1;
        }
        let ghost grid = scene@;
        scene.push(
            Sphere::new_hittable(
                Vec3::new(Fx::from_int(0), Fx::from_int(1), Fx::from_int(0)),
                one,
                Dielectric::new_material(Fx::from_thousandths(1500)),
            ),
        );
        scene.push(
            Sphere::new_hittable(
                Vec3::new(Fx::from_int(-4), Fx::from_int(1), Fx::from_int(0)),
                one,
                Lambertian::new_material(
                    Vec3::new(
                        Fx::from_thousandths(400),
                        Fx::from_thousandths(200),
                        Fx::from_thousandths(100),
                    ),
                ),
            ),
        );
        scene.push(
            Sphere::new_hittable(
                Vec3::new(Fx::from_int(4), Fx::from_int(1), Fx::from_int(0)),
                one,
                Metal::new_material(
                    Vec3::new(
                        Fx::from_thousandths(700),
                        Fx::from_thousandths(600),
                        Fx::from_thousandths(500),
                    ),
                    Fx::from_int(0),
                ),
            ),
        );
        proof {
            lemma_milli_unit(100);
            lemma_milli_unit(200);
            lemma_milli_unit(400);
            lemma_milli_unit(500);
            lemma_milli_unit(600);
            lemma_milli_unit(700);
            lemma_glass_index_positive();
            assert(forall|k: int| 0 <= k < 3 ==> scene@[485 + k] == s_random_features()[k]);
            assert forall|i: int| 0 <= i < scene@.len() implies (#[trigger] scene@[i]).wf()
                && scene@[i].material().wf() by {
                if i < grid.len() {
                    assert(scene@[i] == grid[i]);
                } else {
                    assert(scene@[i] == s_random_features()[i - 485]);
                }
            }
        }
        let look_from = Vec3::new(Fx::from_int(13), Fx::from_thousandths(1500), Fx::from_int(3));
        let look_at = Vec3::new(Fx::from_int(0), Fx::from_int(0), Fx::from_int(0));
        let opts = CameraOpts {
            origin: look_from,
            direction: look_from.vsub(look_at).normalize(),
            vup: Vec3::new(Fx::from_int(0), Fx::from_int(1), Fx::from_int(0)),
            // tangent of half of a 40-degree horizontal field of view
            half_width: Fx::from_thousandths(364),
            aspect: Fx::from_int(2),
            aperture: Fx::from_thousandths(250),
            focus_dist: Fx::from_int(10),
        };
        let camera = Camera::new(opts);
        proof {
            assert(opts == s_random_camera_opts());
        }
        Random { camera, scene }
    }

    pub fn get_world(&self) -> (r: &Vec<Hittables>)
        ensures
            r@ == self.scene@,
    {
        &self.scene
    }

    pub fn get_camera(&self) -> (r: &Camera)
        ensures
            *r == self.camera,
    {
        &self.camera
    }

    pub fn enable_freecam(&mut self, cam: Camera)
        ensures
            final(self).camera == cam,
            final(self).scene@ == old(self).scene@,
    {
        self.camera = cam;
    }

    pub fn disable_freecam(&mut self)
        ensures
            final(self).camera == old(self).camera,
            final(self).scene@ == old(self).scene@,
    {
    }
}

} // verus!
