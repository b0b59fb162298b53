//! Deterministic pseudo-random sampling.
//!
//! The tracer needs a stream of jitter values, lens samples and scatter
//! directions.  [`Rand64`] is a xorshift generator whose whole evolution is a
//! spec-level function of its seed, so every "random" computation in the
//! library is pinned down exactly by its contract; the production entry point
//! seeds it from the `rand` crate's entropy.

use vstd::prelude::*;

use crate::fixed::{fx, Fx, SCALE};
use crate::vec3::{s_sqlen, s_vnew, s_vsub, s_vzero, Vec3};

verus! {

/// Seed used in place of zero, which the xorshift step would leave stuck.
pub const SEED_FALLBACK: u64 = 0x9E3779B97F4A7C15;

/// How many rejected draws the unit-ball samplers tolerate before settling on
/// the origin, which lies in every unit ball.
pub const REJECT_TRIES: u64 = 32;

/// A 64-bit xorshift pseudo-random generator with a fully specified step.
#[derive(Clone, Copy, Debug, PartialEq, Eq, Structural)]
pub struct Rand64 {
    pub state: u64,
}

/// The state a seed starts a generator in.
pub open spec fn s_seed(seed: u64) -> u64 {
    if seed == 0 {
        SEED_FALLBACK
    } else {
        seed
    }
}

/// One xorshift step.
pub open spec fn s_next(s: u64) -> u64 {
    let a = s ^ (s << 13);
    let b = a ^ (a >> 7);
    b ^ (b << 17)
}

/// The fixed-point sample in `[0, 1)` carried by a generator state.
pub open spec fn s_unit_of(x: u64) -> Fx {
    Fx { bits: ((x >> 24) & 0xFFFF) as i64 }
}

/// One draw of a point in the cube `[-1, 1)^3` together with the state that
/// follows it: three unit samples, scaled and re-centred.
pub open spec fn s_cube_draw(s: u64) -> (Vec3, u64) {
    let s1 = s_next(s);
    let s2 = s_next(s1);
    let s3 = s_next(s2);
    let p = s_vsub(
        crate::vec3::s_scale(s_vnew(s_unit_of(s1), s_unit_of(s2), s_unit_of(s3)), fx(2 * SCALE)),
        s_vnew(fx(SCALE as int), fx(SCALE as int), fx(SCALE as int)),
    );
    (p, s3)
}

/// As `s_cube_draw`, restricted to the `z = 0` square.
pub open spec fn s_square_draw(s: u64) -> (Vec3, u64) {
    let s1 = s_next(s);
    let s2 = s_next(s1);
    let p = s_vsub(
        crate::vec3::s_scale(s_vnew(s_unit_of(s1), s_unit_of(s2), Fx { bits: 0 }), fx(2 * SCALE)),
        s_vnew(fx(SCALE as int), fx(SCALE as int), Fx { bits: 0 }),
    );
    (p, s2)
}

/// Rejection sampling of the open unit ball: draw from the cube until the
/// squared length falls below one, giving up on the origin after `fuel`
/// tries.
pub open spec fn s_rand_in_unit_sphere(s: u64, fuel: nat) -> (Vec3, u64)
    decreases fuel,
{
    if fuel == 0 {
        (s_vzero(), s)
    } else {
        let (p, s2) = s_cube_draw(s);
        if s_sqlen(p).v() < SCALE as int {
            (p, s2)
        } else {
            s_rand_in_unit_sphere(s2, (fuel - 1) as nat)
        }
    }
}

/// Rejection sampling of the open unit disc in the `z = 0` plane.
pub open spec fn s_rand_in_unit_circle(s: u64, fuel: nat) -> (Vec3, u64)
    decreases fuel,
{
    if fuel == 0 {
        (s_vzero(), s)
    } else {
        let (p, s2) = s_square_draw(s);
        if s_sqlen(p).v() < SCALE as int {
            (p, s2)
        } else {
            s_rand_in_unit_circle(s2, (fuel - 1) as nat)
        }
    }
}

impl Rand64 {
    /// Start a generator from a caller-chosen seed; renders repeat exactly
    /// when the seed repeats.
    pub fn from_seed(seed: u64) -> (r: Rand64)
        ensures
            r.state == s_seed(seed),
            r.state != 0,
    {
        if seed == 0 {
            Rand64 { state: SEED_FALLBACK }
        } else {
            Rand64 { state: seed }
        }
    }

    /// Start a generator from the process entropy source.
    pub fn from_entropy() -> (r: Rand64)
        ensures
            r.state != 0,
    {
        let seed = entropy_seed();
        Rand64::from_seed(seed)
    }

    /// Advance the generator and return its new state.
    pub fn next_raw(&mut self) -> (r: u64)
        ensures
            final(self).state == s_next(old(self).state),
            r == final(self).state,
    {
        let s = self.state;
        let a = s ^ (s << 13);
        let b = a ^ (a >> 7);
        let c = b ^ (b << 17);
        self.state = c;
        c
    }

    /// A fixed-point sample in `[0, 1)`.
    pub fn next_unit(&mut self) -> (r: Fx)
        ensures
            final(self).state == s_next(old(self).state),
            r == s_unit_of(final(self).state),
            0 <= r.v() < SCALE as int,
    {
        let x = self.next_raw();
        let bits = (x >> 24) & 0xFFFF;
        proof {
            lemma_unit_sample_in_range(x);
        }
        Fx { bits: bits as i64 }
    }
}

pub proof fn lemma_unit_sample_in_range(x: u64)
    ensures
        ((x >> 24) & 0xFFFF) < 65536,
{
    assert(((x >> 24) & 0xFFFF) < 65536) by (bit_vector);
}

/// Relies on `rand::random`: an arbitrary value drawn from the thread-local
/// entropy source; nothing is promised of it.
#[verifier::external_body]
fn entropy_seed() -> (r: u64) {
    rand::random::<u64>()
}

/// Return a random point within the unit sphere.
pub fn rand_in_unit_sphere(rng: &mut Rand64) -> (r: Vec3)
    ensures
        r == s_rand_in_unit_sphere(old(rng).state, REJECT_TRIES as nat).0,
        final(rng).state == s_rand_in_unit_sphere(old(rng).state, REJECT_TRIES as nat).1,
        s_sqlen(r).v() < SCALE as int,
{
    let two = Fx::from_bits(2 * SCALE);
    let ones = Vec3::new(Fx::one(), Fx::one(), Fx::one());
    let mut i: u64 = 0;
    while i < REJECT_TRIES
        invariant
            0 <= i <= REJECT_TRIES,
            s_rand_in_unit_sphere(old(rng).state, REJECT_TRIES as nat) == s_rand_in_unit_sphere(
                rng.state,
                (REJECT_TRIES - i) as nat,
            ),
            two == fx(2 * SCALE),
            ones == s_vnew(fx(SCALE as int), fx(SCALE as int), fx(SCALE as int)),
        decreases REJECT_TRIES - i,
    {
        let ghost s_head = rng.state;
        let ghost fuel = (REJECT_TRIES - i) as nat;
        let x = rng.next_unit();
        let y = rng.next_unit();
        let z = rng.next_unit();
        let p = Vec3::new(x, y, z).scale(two).vsub(ones);
        proof {
            assert(s_cube_draw(s_head) == (p, rng.state));
        }
        if p.squared_length().bits < SCALE {
            proof {
                assert(s_rand_in_unit_sphere(s_head, fuel) == (p, rng.state));
            }
            return p;
        }
        proof {
            assert(s_rand_in_unit_sphere(s_head, fuel) == s_rand_in_unit_sphere(
                rng.state,
                (fuel - 1) as nat,
            ));
        }
        i = i + 1;
    }
    proof {
        lemma_sqlen_zero();
    }
    Vec3::zero()
}

/// Return a random point within the unit circle.
pub fn rand_in_unit_circle(rng: &mut Rand64) -> (r: Vec3)
    ensures
        r == s_rand_in_unit_circle(old(rng).state, REJECT_TRIES as nat).0,
        final(rng).state == s_rand_in_unit_circle(old(rng).state, REJECT_TRIES as nat).1,
        s_sqlen(r).v() < SCALE as int,
{
    let two = Fx::from_bits(2 * SCALE);
    let ones = Vec3::new(Fx::one(), Fx::one(), Fx::zero());
    let mut i: u64 = 0;
    while i < REJECT_TRIES
        invariant
            0 <= i <= REJECT_TRIES,
            s_rand_in_unit_circle(old(rng).state, REJECT_TRIES as nat) == s_rand_in_unit_circle(
                rng.state,
                (REJECT_TRIES - i) as nat,
            ),
            two == fx(2 * SCALE),
            ones == s_vnew(fx(SCALE as int), fx(SCALE as int), Fx { bits: 0 }),
        decreases REJECT_TRIES - i,
    {
        let ghost s_head = rng.state;
        let ghost fuel = (REJECT_TRIES - i) as nat;
        let x = rng.next_unit();
        let y = rng.next_unit();
        let p = Vec3::new(x, y, Fx::zero()).scale(two).vsub(ones);
        proof {
            assert(s_square_draw(s_head) == (p, rng.state));
        }
        if p.squared_length().bits < SCALE {
            proof {
                assert(s_rand_in_unit_circle(s_head, fuel) == (p, rng.state));
            }
            return p;
        }
        proof {
            assert(s_rand_in_unit_circle(s_head, fuel) == s_rand_in_unit_circle(
                rng.state,
                (fuel - 1) as nat,
            ));
        }
        i = i + 1;
    }
    proof {
        lemma_sqlen_zero();
    }
    Vec3::zero()
}

/// The origin has squared length zero.
pub proof fn lemma_sqlen_zero()
    ensures
        s_sqlen(s_vzero()).v() == 0,
{
}

} // verus!
