//! Fixed-point scalars.
//!
//! A [`Fx`] holds a signed number in units of `1 / SCALE` (sixteen fractional
//! bits).  All operations are total: results are clipped to the representable
//! band `[-LIM, LIM]`, so every operation has an exact, unconditional
//! postcondition and the callers never owe overflow side conditions.  Values
//! inside the band behave like exact rationals with truncating division.

use vstd::prelude::*;

verus! {

/// Number of fixed-point units per whole unit (2^16).
pub const SCALE: i64 = 65536;

/// Largest representable magnitude, in fixed-point units (2^28, i.e. a
/// world-space magnitude of 4096).  Saturating at a finite band is this
/// library's stand-in for the floating-point overflow-to-infinity behaviour:
/// out-of-band results pin to the band's edge and later range checks reject
/// them.
pub const LIM: i64 = 268435456;

/// A fixed-point scalar: `bits / SCALE` is the number it stands for.
#[derive(Clone, Copy, Debug, PartialEq, Eq, Structural)]
pub struct Fx {
    pub bits: i64,
}

/// Clip an unbounded integer to the representable band.
pub open spec fn clip(x: int) -> int {
    if x > LIM as int {
        LIM as int
    } else if x < -(LIM as int) {
        -(LIM as int)
    } else {
        x
    }
}

/// Integer absolute value.
pub open spec fn iabs(a: int) -> int {
    if a >= 0 {
        a
    } else {
        -a
    }
}

/// Truncating division (round toward zero), the rounding rule of every
/// fixed-point operation here.  Meaningful for `b != 0`.
pub open spec fn tdiv(a: int, b: int) -> int {
    if (a >= 0) == (b >= 0) {
        iabs(a) / iabs(b)
    } else {
        -(iabs(a) / iabs(b))
    }
}

/// Build the fixed-point value whose ideal magnitude is `x` units.
pub open spec fn fx(x: int) -> Fx {
    Fx { bits: clip(x) as i64 }
}

impl Fx {
    /// The integer this scalar holds, in fixed-point units.
    pub open spec fn v(self) -> int {
        self.bits as int
    }

    /// The scalar lies inside the representable band.
    pub open spec fn ok(self) -> bool {
        -(LIM as int) <= self.v() <= LIM as int
    }

    pub fn zero() -> (r: Fx)
        ensures
            r == s_zero(),
    {
        Fx { bits: 0 }
    }

    pub fn one() -> (r: Fx)
        ensures
            r == s_one(),
    {
        Fx { bits: SCALE }
    }

    /// The raw fixed-point unit count, as given.
    pub fn from_bits(bits: i64) -> (r: Fx)
        ensures
            r.bits == bits,
    {
        Fx { bits }
    }

    /// The whole number `n`, clipped to the band.
    pub fn from_int(n: i64) -> (r: Fx)
        ensures
            r == fx(n * SCALE),
    {
        proof {
            lemma_mul_i64_range(n as int, SCALE as int);
        }
        let w: i128 = (n as i128) * (SCALE as i128);
        Fx { bits: clip128(w) }
    }

    /// The number `n / 1000`, clipped to the band; a convenient way to write
    /// decimal constants such as albedo components.
    pub fn from_thousandths(n: i64) -> (r: Fx)
        ensures
            r == fx(tdiv(n * SCALE, 1000)),
    {
        proof {
            lemma_mul_i64_range(n as int, SCALE as int);
        }
        let w: i128 = (n as i128) * (SCALE as i128);
        let q = tdiv128(w, 1000);
        Fx { bits: clip128(q) }
    }

    pub fn add(self, o: Fx) -> (r: Fx)
        ensures
            r == s_add(self, o),
    {
        let w: i128 = (self.bits as i128) + (o.bits as i128);
        Fx { bits: clip128(w) }
    }

    pub fn sub(self, o: Fx) -> (r: Fx)
        ensures
            r == s_sub(self, o),
    {
        let w: i128 = (self.bits as i128) - (o.bits as i128);
        Fx { bits: clip128(w) }
    }

    pub fn neg(self) -> (r: Fx)
        ensures
            r == s_neg(self),
    {
        let w: i128 = -(self.bits as i128);
        Fx { bits: clip128(w) }
    }

    pub fn mul(self, o: Fx) -> (r: Fx)
        ensures
            r == s_mul(self, o),
    {
        proof {
            lemma_mul_i64_range(self.bits as int, o.bits as int);
        }
        let w: i128 = (self.bits as i128) * (o.bits as i128);
        let q = tdiv128(w, SCALE as i128);
        Fx { bits: clip128(q) }
    }

    pub fn div(self, o: Fx) -> (r: Fx)
        ensures
            r == s_div(self, o),
    {
        if o.bits == 0 {
            if self.bits > 0 {
                Fx { bits: LIM }
            } else if self.bits < 0 {
                Fx { bits: -LIM }
            } else {
                Fx { bits: 0 }
            }
        } else {
            proof {
                lemma_mul_i64_range(self.bits as int, SCALE as int);
            }
            let w: i128 = (self.bits as i128) * (SCALE as i128);
            let q = tdiv128(w, o.bits as i128);
            Fx { bits: clip128(q) }
        }
    }

    /// Fixed-point square root; non-positive inputs give zero.
    pub fn sqrt(self) -> (r: Fx)
        ensures
            r == s_sqrt(self),
    {
        if self.bits <= 0 {
            return Fx { bits: 0 };
        }
        proof {
            lemma_mul_i64_range(self.bits as int, SCALE as int);
        }
        let n: u128 = (self.bits as u128) * (SCALE as u128);
        let root = isqrt_u128(n);
        proof {
            lemma_isqrt_exists(n as int);
            lemma_isqrt_unique(root as int, isqrt_spec(n as int), n as int);
            assert((root as int) < 0x100_0000_0000) by (nonlinear_arith)
                requires
                    0 <= root as int,
                    (root as int) * (root as int) <= n as int,
                    (n as int) < 0x1_0000_0000_0000_0000_0000,
            ;
        }
        Fx { bits: clip128(root as i128) }
    }

    /// Absolute value, clipped to the band.
    pub fn abs(self) -> (r: Fx)
        ensures
            r == fx(iabs(self.v())),
    {
        if self.bits < 0 {
            let w: i128 = -(self.bits as i128);
            Fx { bits: clip128(w) }
        } else {
            Fx { bits: clip128(self.bits as i128) }
        }
    }
}

pub open spec fn s_zero() -> Fx {
    Fx { bits: 0 }
}

pub open spec fn s_one() -> Fx {
    Fx { bits: SCALE }
}

pub open spec fn s_add(a: Fx, b: Fx) -> Fx {
    fx(a.v() + b.v())
}

pub open spec fn s_sub(a: Fx, b: Fx) -> Fx {
    fx(a.v() - b.v())
}

pub open spec fn s_neg(a: Fx) -> Fx {
    fx(-a.v())
}

pub open spec fn s_mul(a: Fx, b: Fx) -> Fx {
    fx(tdiv(a.v() * b.v(), SCALE as int))
}

/// Division saturates on a zero divisor, mirroring the overflow-to-infinity
/// convention of the band.
pub open spec fn s_div(a: Fx, b: Fx) -> Fx {
    if b.v() == 0 {
        if a.v() > 0 {
            Fx { bits: LIM }
        } else if a.v() < 0 {
            Fx { bits: (-LIM) as i64 }
        } else {
            Fx { bits: 0 }
        }
    } else {
        fx(tdiv(a.v() * SCALE, b.v()))
    }
}

pub open spec fn s_sqrt(a: Fx) -> Fx {
    if a.v() <= 0 {
        Fx { bits: 0 }
    } else {
        fx(isqrt_spec(a.v() * SCALE))
    }
}

/// `r` is the integer square root of `n`.
pub open spec fn is_isqrt(r: int, n: int) -> bool {
    &&& 0 <= r
    &&& r * r <= n
    &&& n < (r + 1) * (r + 1)
}

/// The integer square root of a non-negative `n`.
pub open spec fn isqrt_spec(n: int) -> int {
    choose|r: int| is_isqrt(r, n)
}

pub proof fn lemma_isqrt_exists(n: int)
    requires
        n >= 0,
    ensures
        is_isqrt(isqrt_spec(n), n),
    decreases n,
{
    if n == 0 {
        assert(is_isqrt(0, 0));
    } else {
        lemma_isqrt_exists(n - 1);
        let p = isqrt_spec(n - 1);
        if n < (p + 1) * (p + 1) {
            assert(is_isqrt(p, n));
        } else {
            assert((p + 1) * (p + 1) == n) by {
                assert(n - 1 < (p + 1) * (p + 1));
            }
            assert((p + 2) * (p + 2) > n) by (nonlinear_arith)
                requires
                    (p + 1) * (p + 1) == n && p >= 0,
            ;
            assert(is_isqrt(p + 1, n));
        }
    }
}

pub proof fn lemma_isqrt_unique(r1: int, r2: int, n: int)
    requires
        is_isqrt(r1, n),
        is_isqrt(r2, n),
    ensures
        r1 == r2,
{
    assert(r1 == r2) by (nonlinear_arith)
        requires
            0 <= r1 && r1 * r1 <= n && n < (r1 + 1) * (r1 + 1) && 0 <= r2 && r2 * r2 <= n && n < (
            r2 + 1) * (r2 + 1),
    ;
}

/// The product of two values of `i64` magnitude stays well inside `i128`.
pub proof fn lemma_mul_i64_range(a: int, b: int)
    requires
        -0x8000_0000_0000_0000 <= a <= 0x8000_0000_0000_0000,
        -0x8000_0000_0000_0000 <= b <= 0x8000_0000_0000_0000,
    ensures
        -0x4000_0000_0000_0000_0000_0000_0000_0000 <= a * b
            <= 0x4000_0000_0000_0000_0000_0000_0000_0000,
{
    assert(-0x4000_0000_0000_0000_0000_0000_0000_0000 <= a * b
        <= 0x4000_0000_0000_0000_0000_0000_0000_0000) by (nonlinear_arith)
        requires
            -0x8000_0000_0000_0000 <= a <= 0x8000_0000_0000_0000,
            -0x8000_0000_0000_0000 <= b <= 0x8000_0000_0000_0000,
    ;
}

/// Every clipped value lies in the band.
pub proof fn lemma_fx_ok(x: int)
    ensures
        fx(x).ok(),
{
}

/// Division always lands in the band, whichever branch is taken.
pub proof fn lemma_s_div_ok(a: Fx, b: Fx)
    ensures
        s_div(a, b).ok(),
{
    if b.v() != 0 {
        lemma_fx_ok(tdiv(a.v() * SCALE, b.v()));
    }
}

/// Clip a wide intermediate back into the band.
fn clip128(x: i128) -> (r: i64)
    ensures
        r as int == clip(x as int),
{
    if x > LIM as i128 {
        LIM
    } else if x < -(LIM as i128) {
        -LIM
    } else {
        x as i64
    }
}

/// Truncating division on wide intermediates; `b` must be non-zero and `a`
/// must not be the smallest `i128`, so its negation stays in range.
fn tdiv128(a: i128, b: i128) -> (q: i128)
    requires
        b != 0,
        a != i128::MIN,
        b != i128::MIN,
    ensures
        q == tdiv(a as int, b as int),
        iabs(q as int) <= iabs(a as int),
{
    let am: u128 = if a >= 0 {
        a as u128
    } else {
        (-a) as u128
    };
    let bm: u128 = if b >= 0 {
        b as u128
    } else {
        (-b) as u128
    };
    let qm: u128 = am / bm;
    proof {
        assert(qm <= am) by (nonlinear_arith)
            requires
                bm >= 1 && qm == am / bm,
        ;
    }
    if (a >= 0) == (b >= 0) {
        qm as i128
    } else {
        -(qm as i128)
    }
}

/// Integer square root by bisection.
fn isqrt_u128(n: u128) -> (r: u128)
    requires
        n < 0x400_0000_0000_0000_0000_0000_0000_0000,
    ensures
        is_isqrt(r as int, n as int),
{
    let mut lo: u128 = 0;
    let mut hi: u128 = 0x2000_0000_0000_0000;
    proof {
        assert((0x2000_0000_0000_0000 as int) * (0x2000_0000_0000_0000 as int)
            == 0x400_0000_0000_0000_0000_0000_0000_0000);
    }
    while hi - lo > 1
        invariant
            lo < hi,
            hi <= 0x2000_0000_0000_0000,
            (lo as int) * (lo as int) <= n as int,
            (n as int) < (hi as int) * (hi as int),
        decreases hi - lo,
    {
        let mid = lo + (hi - lo) / 2;
        proof {
            assert((mid as int) * (mid as int) < 0x400_0000_0000_0000_0000_0000_0000_0000)
                by (nonlinear_arith)
                requires
                    mid < 0x2000_0000_0000_0000,
            ;
        }
        if mid * mid <= n {
            lo = mid;
        } else {
            hi = mid;
        }
    }
    lo
}

/// Integer square root of a non-negative wide intermediate, pinned to
/// `isqrt_spec`.
pub fn isqrt_i128(n: i128) -> (r: i128)
    requires
        0 <= n < 0x400_0000_0000_0000_0000_0000_0000_0000,
    ensures
        r as int == isqrt_spec(n as int),
        is_isqrt(r as int, n as int),
{
    let u = isqrt_u128(n as u128);
    proof {
        lemma_isqrt_exists(n as int);
        lemma_isqrt_unique(u as int, isqrt_spec(n as int), n as int);
        assert((u as int) < 0x2000_0000_0000_0000) by (nonlinear_arith)
            requires
                0 <= u as int,
                (u as int) * (u as int) <= n as int,
                (n as int) < 0x400_0000_0000_0000_0000_0000_0000_0000,
        ;
    }
    u as i128
}

/// The fixed-point value of the ratio `num / den`, truncated and clipped.
pub fn ratio_to_fx(num: i128, den: i128) -> (r: Fx)
    requires
        den > 0,
        -0x1_0000_0000_0000_0000_0000_0000 < num < 0x1_0000_0000_0000_0000_0000_0000,
    ensures
        r == fx(tdiv(num * SCALE, den as int)),
{
    let w: i128 = num * (SCALE as i128);
    let q = tdiv128(w, den);
    Fx { bits: clip128(q) }
}

/// Truncating division is monotone in the numerator for a positive
/// denominator.
pub proof fn lemma_tdiv_ordered(x: int, y: int, d: int)
    requires
        x <= y,
        d > 0,
    ensures
        tdiv(x, d) <= tdiv(y, d),
{
    if x >= 0 {
        assert(x / d <= y / d) by (nonlinear_arith)
            requires
                0 <= x <= y,
                d > 0,
        ;
    } else if y >= 0 {
        assert((-x) / d >= 0) by (nonlinear_arith)
            requires
                -x >= 0,
                d > 0,
        ;
        assert(y / d >= 0) by (nonlinear_arith)
            requires
                y >= 0,
                d > 0,
        ;
    } else {
        assert((-y) / d <= (-x) / d) by (nonlinear_arith)
            requires
                0 <= -y <= -x,
                d > 0,
        ;
    }
}

/// Clipping preserves order.
pub proof fn lemma_clip_ordered(x: int, y: int)
    requires
        x <= y,
    ensures
        clip(x) <= clip(y),
{
}

/// Scaling by a factor in `[0, 1]` keeps a non-negative value inside its
/// bound: for `0 <= a <= 1` and `0 <= b <= n` the product lies in `[0, n]`.
pub proof fn lemma_mul_unit_bound(a: Fx, b: Fx, n: int)
    requires
        0 <= a.v() <= SCALE as int,
        0 <= b.v() <= n,
        n <= LIM as int,
    ensures
        0 <= s_mul(a, b).v() <= n,
{
    let p = a.v() * b.v();
    assert(0 <= p && p / 65536 <= n) by (nonlinear_arith)
        requires
            p == a.v() * b.v(),
            0 <= a.v() <= 65536,
            0 <= b.v() <= n,
            0 <= n,
    ;
    assert(p / 65536 >= 0) by (nonlinear_arith)
        requires
            p >= 0,
    ;
    assert(tdiv(p, SCALE as int) == p / 65536);
}

/// A product of values bounded in magnitude is bounded by the product of the
/// bounds.
pub proof fn lemma_prod_bound(x: int, y: int, m: int, n: int)
    requires
        -m <= x <= m,
        -n <= y <= n,
        0 <= m,
        0 <= n,
    ensures
        -(m * n) <= x * y <= m * n,
{
    assert(-(m * n) <= x * y <= m * n) by (nonlinear_arith)
        requires
            -m <= x <= m,
            -n <= y <= n,
            0 <= m,
            0 <= n,
    ;
}

} // verus!
