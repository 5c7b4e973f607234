//! Three-component fixed-point vectors: arithmetic, dot and cross products,
//! normalization, reflection, tone mapping, and random direction sampling.
//!
//! A component `c` stands for the real number `c / 65536`. The same type is
//! used for positions (`Point3`) and for linear RGB colors (`Color`).

use vstd::prelude::*;
use vstd::arithmetic::div_mod::lemma_div_by_self;
use vstd::arithmetic::div_mod::lemma_div_is_ordered;
use vstd::arithmetic::div_mod::lemma_div_multiples_vanish;
use vstd::arithmetic::div_mod::lemma_div_pos_is_pos;
use vstd::arithmetic::div_mod::lemma_div_of0;
use crate::fixed::div_floor_i64;
use crate::fixed::fmul;
use crate::fixed::fmul_spec;
use crate::fixed::is_isqrt;
use crate::fixed::isqrt_u128;
use crate::fixed::sqrt_floor;
use crate::fixed::lemma_sqrt_floor_is;
use crate::fixed::lemma_sqrt_floor_monotonic;
use crate::fixed::lemma_sqrt_floor_pos;
use crate::rng::Rng;
use crate::random::random_fixed;
use crate::random::random_fixed_range;

verus! {

#[derive(Clone, Copy, Debug, PartialEq, Eq, Structural)]
pub struct Vec3 {
    pub x: i64,
    pub y: i64,
    pub z: i64,
}

/// A position in the scene.
pub type Point3 = Vec3;

/// A linear RGB color; `65536` stands for full intensity 1.0.
pub type Color = Vec3;

/// Every component lies in `[-b, b]`.
pub open spec fn vec_in(v: Vec3, b: int) -> bool {
    &&& -b <= v.x <= b
    &&& -b <= v.y <= b
    &&& -b <= v.z <= b
}

/// The (unscaled) dot product of the raw components.
pub open spec fn v_dot(a: Vec3, b: Vec3) -> int {
    a.x * b.x + a.y * b.y + a.z * b.z
}

pub open spec fn v_is_zero(v: Vec3) -> bool {
    v.x == 0 && v.y == 0 && v.z == 0
}

/// One component of the reflection `v - 2 (v . n) n` of `v` about the
/// unit-length normal `n`, where `d` is the raw dot product `v . n`.
pub open spec fn reflect_comp(c: int, d: int, nc: int) -> int {
    c - (2 * d * nc) / (65536int * 65536int)
}

/// The unit-length rescaling of `v`, as computed by `Vec3::unit_vector`.
pub open spec fn unit_of(v: Vec3) -> Vec3 {
    let len = sqrt_floor(v_dot(v, v));
    Vec3 {
        x: (v.x * 65536 / len) as i64,
        y: (v.y * 65536 / len) as i64,
        z: (v.z * 65536 / len) as i64,
    }
}

/// The reflection of `v` about the unit normal `n`, as computed by
/// `Vec3::reflect`.
pub open spec fn reflect_of(v: Vec3, n: Vec3) -> Vec3 {
    Vec3 {
        x: reflect_comp(v.x as int, v_dot(v, n), n.x as int) as i64,
        y: reflect_comp(v.y as int, v_dot(v, n), n.y as int) as i64,
        z: reflect_comp(v.z as int, v_dot(v, n), n.z as int) as i64,
    }
}

/// The componentwise sum as a vector value, meaningful while the sums stay in
/// range.
pub open spec fn v_add(a: Vec3, b: Vec3) -> Vec3 {
    Vec3 { x: (a.x + b.x) as i64, y: (a.y + b.y) as i64, z: (a.z + b.z) as i64 }
}

/// The square of a vector is nonnegative, and zero only for the zero vector.
pub proof fn lemma_dot_self(v: Vec3)
    ensures
        v_dot(v, v) >= 0,
        v_is_zero(v) <==> v_dot(v, v) == 0,
        !v_is_zero(v) ==> v_dot(v, v) >= 1,
{
    assert(v.x * v.x >= 0 && v.y * v.y >= 0 && v.z * v.z >= 0) by (nonlinear_arith);
    if !v_is_zero(v) {
        assert(v.x != 0 ==> v.x * v.x >= 1) by (nonlinear_arith);
        assert(v.y != 0 ==> v.y * v.y >= 1) by (nonlinear_arith);
        assert(v.z != 0 ==> v.z * v.z >= 1) by (nonlinear_arith);
    }
}

/// A component of a vector is no longer than the vector's length.
proof fn lemma_comp_le_len(c: int, d: int, len: int)
    requires
        c * c <= d,
        is_isqrt(d, len),
    ensures
        -len <= c <= len,
{
    if c > len {
        assert((len + 1) * (len + 1) <= c * c) by (nonlinear_arith)
            requires 0 <= len + 1 <= c;
    }
    if c < -len {
        assert((len + 1) * (len + 1) <= c * c) by (nonlinear_arith)
            requires 0 <= len + 1 <= -c;
    }
}

impl Vec3 {
    pub fn new(x: i64, y: i64, z: i64) -> (v: Vec3)
        ensures
            v == (Vec3 { x, y, z }),
    {
        Vec3 { x, y, z }
    }

    pub fn diagonal(value: i64) -> (v: Vec3)
        ensures
            v == (Vec3 { x: value, y: value, z: value }),
    {
        Vec3 { x: value, y: value, z: value }
    }

    pub fn x(&self) -> (r: i64)
        ensures
            r == self.x,
    {
        self.x
    }

    pub fn y(&self) -> (r: i64)
        ensures
            r == self.y,
    {
        self.y
    }

    pub fn z(&self) -> (r: i64)
        ensures
            r == self.z,
    {
        self.z
    }

    /// Componentwise sum of the raw values.
    pub fn add(self, rhs: Vec3) -> (r: Vec3)
        requires
            vec_in(self, 0x2000_0000_0000_0000),
            vec_in(rhs, 0x2000_0000_0000_0000),
        ensures
            r.x == self.x + rhs.x,
            r.y == self.y + rhs.y,
            r.z == self.z + rhs.z,
    {
        Vec3 { x: self.x + rhs.x, y: self.y + rhs.y, z: self.z + rhs.z }
    }

    /// Componentwise difference of the raw values.
    pub fn sub(self, rhs: Vec3) -> (r: Vec3)
        requires
            vec_in(self, 0x2000_0000_0000_0000),
            vec_in(rhs, 0x2000_0000_0000_0000),
        ensures
            r.x == self.x - rhs.x,
            r.y == self.y - rhs.y,
            r.z == self.z - rhs.z,
    {
        Vec3 { x: self.x - rhs.x, y: self.y - rhs.y, z: self.z - rhs.z }
    }

    /// Componentwise negation.
    pub fn neg(self) -> (r: Vec3)
        requires
            vec_in(self, 0x7FFF_FFFF_FFFF_FFFF),
        ensures
            r.x == -self.x,
            r.y == -self.y,
            r.z == -self.z,
    {
        Vec3 { x: -self.x, y: -self.y, z: -self.z }
    }

    /// Componentwise fixed-point product, used to attenuate a color.
    pub fn mul_fixed(self, rhs: Vec3) -> (r: Vec3)
        requires
            vec_in(self, 0x8000_0000),
            vec_in(rhs, 0x8000_0000),
        ensures
            r.x == fmul_spec(self.x as int, rhs.x as int),
            r.y == fmul_spec(self.y as int, rhs.y as int),
            r.z == fmul_spec(self.z as int, rhs.z as int),
    {
        Vec3 { x: fmul(self.x, rhs.x), y: fmul(self.y, rhs.y), z: fmul(self.z, rhs.z) }
    }

    /// Fixed-point product with the scalar `k`.
    pub fn scale_fixed(self, k: i64) -> (r: Vec3)
        requires
            vec_in(self, 0x8000_0000),
            -0x8000_0000 <= k <= 0x8000_0000,
        ensures
            r.x == fmul_spec(self.x as int, k as int),
            r.y == fmul_spec(self.y as int, k as int),
            r.z == fmul_spec(self.z as int, k as int),
    {
        Vec3 { x: fmul(self.x, k), y: fmul(self.y, k), z: fmul(self.z, k) }
    }

    /// The raw dot product with `v`.
    pub fn dot(&self, v: Vec3) -> (r: i64)
        requires
            vec_in(*self, 0x4000_0000),
            vec_in(v, 0x4000_0000),
        ensures
            r == v_dot(*self, v),
            -0x3000_0000_0000_0000 <= r <= 0x3000_0000_0000_0000,
    {
        proof {
            assert(
                -0x1000_0000_0000_0000 <= self.x * v.x <= 0x1000_0000_0000_0000
                && -0x1000_0000_0000_0000 <= self.y * v.y <= 0x1000_0000_0000_0000
                && -0x1000_0000_0000_0000 <= self.z * v.z <= 0x1000_0000_0000_0000)
                by (nonlinear_arith)
                requires vec_in(*self, 0x4000_0000), vec_in(v, 0x4000_0000);
        }
        self.x * v.x + self.y * v.y + self.z * v.z
    }

    /// The raw dot product with `v`, computed with wide intermediates.
    pub fn dot_wide(&self, v: Vec3) -> (r: i128)
        requires
            vec_in(*self, 0x4000_0000_0000_0000),
            vec_in(v, 0x4000_0000_0000_0000),
        ensures
            r == v_dot(*self, v),
    {
        proof {
            assert(
                -0x1000_0000_0000_0000_0000_0000_0000_0000 <= self.x * v.x
                    <= 0x1000_0000_0000_0000_0000_0000_0000_0000
                && -0x1000_0000_0000_0000_0000_0000_0000_0000 <= self.y * v.y
                    <= 0x1000_0000_0000_0000_0000_0000_0000_0000
                && -0x1000_0000_0000_0000_0000_0000_0000_0000 <= self.z * v.z
                    <= 0x1000_0000_0000_0000_0000_0000_0000_0000)
                by (nonlinear_arith)
                requires
                    vec_in(*self, 0x4000_0000_0000_0000),
                    vec_in(v, 0x4000_0000_0000_0000);
        }
        (self.x as i128) * (v.x as i128) + (self.y as i128) * (v.y as i128)
            + (self.z as i128) * (v.z as i128)
    }

    /// The raw squared length.
    pub fn length_squared(&self) -> (r: i64)
        requires
            vec_in(*self, 0x4000_0000),
        ensures
            r == v_dot(*self, *self),
            0 <= r <= 0x3000_0000_0000_0000,
    {
        proof {
            lemma_dot_self(*self);
        }
        self.dot(*self)
    }

    /// The raw length: the integer square root of the squared length.
    pub fn length(&self) -> (r: i64)
        requires
            vec_in(*self, 0x4000_0000),
        ensures
            r == sqrt_floor(v_dot(*self, *self)),
            is_isqrt(v_dot(*self, *self), r as int),
            0 <= r <= 0x8000_0000,
    {
        let d = self.length_squared();
        let s = isqrt_u128(d as u128);
        proof {
            assert(s <= 0x8000_0000) by (nonlinear_arith)
                requires s * s <= 0x3000_0000_0000_0000, s >= 0;
        }
        s as i64
    }

    pub fn cross(&self, v: Vec3) -> (r: Vec3)
        requires
            vec_in(*self, 0x4000_0000),
            vec_in(v, 0x4000_0000),
        ensures
            r.x == self.y * v.z - self.z * v.y,
            r.y == self.z * v.x - self.x * v.z,
            r.z == self.x * v.y - self.y * v.x,
    {
        proof {
            assert(
                -0x1000_0000_0000_0000 <= self.y * v.z <= 0x1000_0000_0000_0000
                && -0x1000_0000_0000_0000 <= self.z * v.y <= 0x1000_0000_0000_0000
                && -0x1000_0000_0000_0000 <= self.z * v.x <= 0x1000_0000_0000_0000
                && -0x1000_0000_0000_0000 <= self.x * v.z <= 0x1000_0000_0000_0000
                && -0x1000_0000_0000_0000 <= self.x * v.y <= 0x1000_0000_0000_0000
                && -0x1000_0000_0000_0000 <= self.y * v.x <= 0x1000_0000_0000_0000)
                by (nonlinear_arith)
                requires vec_in(*self, 0x4000_0000), vec_in(v, 0x4000_0000);
        }
        Vec3 {
            x: self.y * v.z - self.z * v.y,
            y: self.z * v.x - self.x * v.z,
            z: self.x * v.y - self.y * v.x,
        }
    }

    /// The vector rescaled to length one: each component becomes
    /// `c * 65536 / length`.
    pub fn unit_vector(self) -> (r: Vec3)
        requires
            vec_in(self, 0x4000_0000),
            !v_is_zero(self),
        ensures
            ({
                let len = sqrt_floor(v_dot(self, self));
                r.x == self.x * 65536 / len
                && r.y == self.y * 65536 / len
                && r.z == self.z * 65536 / len
            }),
            r == unit_of(self),
            vec_in(r, 65536),
            v_dot(self, self) < 0x1_0000_0000 ==> !v_is_zero(r),
    {
        proof {
            lemma_dot_self(self);
        }
        let len = self.length();
        proof {
            lemma_sqrt_floor_pos(v_dot(self, self));
            let d = v_dot(self, self);
            assert(self.x * self.x <= d && self.y * self.y <= d && self.z * self.z <= d)
                by (nonlinear_arith)
                requires d == self.x * self.x + self.y * self.y + self.z * self.z;
            lemma_comp_le_len(self.x as int, d, len as int);
            lemma_comp_le_len(self.y as int, d, len as int);
            lemma_comp_le_len(self.z as int, d, len as int);
            assert(self.x * 65536 <= len * 65536 && -(len * 65536) <= self.x * 65536
                && self.y * 65536 <= len * 65536 && -(len * 65536) <= self.y * 65536
                && self.z * 65536 <= len * 65536 && -(len * 65536) <= self.z * 65536)
                by (nonlinear_arith)
                requires
                    -len <= self.x <= len,
                    -len <= self.y <= len,
                    -len <= self.z <= len,
                    len >= 1;
            lemma_div_bounds_by_multiple(self.x as int * 65536, len as int, 65536);
            lemma_div_bounds_by_multiple(self.y as int * 65536, len as int, 65536);
            lemma_div_bounds_by_multiple(self.z as int * 65536, len as int, 65536);
        }
        let rx = div_floor_i64(self.x * 65536, len);
        let ry = div_floor_i64(self.y * 65536, len);
        let rz = div_floor_i64(self.z * 65536, len);
        proof {
            // Below squared length 2^32 the length stays under one unit, so
            // any nonzero component survives the rescaling.
            if v_dot(self, self) < 0x1_0000_0000 {
                assert(len <= 65535) by (nonlinear_arith)
                    requires
                        len * len <= v_dot(self, self) < 0x1_0000_0000,
                        0 <= len;
                lemma_div_by_self(len as int);
                lemma_div_multiples_vanish(-1, len as int);
                if self.x >= 1 {
                    lemma_div_is_ordered(len as int, self.x as int * 65536, len as int);
                } else if self.x <= -1 {
                    lemma_div_is_ordered(self.x as int * 65536, len as int * -1, len as int);
                }
                if self.y >= 1 {
                    lemma_div_is_ordered(len as int, self.y as int * 65536, len as int);
                } else if self.y <= -1 {
                    lemma_div_is_ordered(self.y as int * 65536, len as int * -1, len as int);
                }
                if self.z >= 1 {
                    lemma_div_is_ordered(len as int, self.z as int * 65536, len as int);
                } else if self.z <= -1 {
                    lemma_div_is_ordered(self.z as int * 65536, len as int * -1, len as int);
                }
            }
            let u = unit_of(self);
            assert(u.x == rx && u.y == ry && u.z == rz);
        }
        Vec3 { x: rx, y: ry, z: rz }
    }

    /// True exactly when the vector is zero: below one fixed-point unit, the
    /// smallest representable magnitude, in every component.
    pub fn near_zero(self) -> (r: bool)
        ensures
            r == v_is_zero(self),
    {
        self.x == 0 && self.y == 0 && self.z == 0
    }

    /// Reflection about the unit-length normal `n`:
    /// `v - 2 (v . n) n`, rescaled by the two fixed-point factors of `n`.
    pub fn reflect(self, n: Vec3) -> (r: Vec3)
        requires
            vec_in(self, 0x40000),
            vec_in(n, 0x40000),
        ensures
            r.x == reflect_comp(self.x as int, v_dot(self, n), n.x as int),
            r.y == reflect_comp(self.y as int, v_dot(self, n), n.y as int),
            r.z == reflect_comp(self.z as int, v_dot(self, n), n.z as int),
            vec_in(r, 0x640_0000),
    {
        let d = self.dot(n);
        proof {
            assert(-0xC0_0000_0000 <= v_dot(self, n) <= 0xC0_0000_0000) by (nonlinear_arith)
                requires vec_in(self, 0x40000), vec_in(n, 0x40000);
            assert(
                -0x600_0000_0000_0000 <= 2 * v_dot(self, n) * n.x <= 0x600_0000_0000_0000
                && -0x600_0000_0000_0000 <= 2 * v_dot(self, n) * n.y <= 0x600_0000_0000_0000
                && -0x600_0000_0000_0000 <= 2 * v_dot(self, n) * n.z <= 0x600_0000_0000_0000)
                by (nonlinear_arith)
                requires
                    -0xC0_0000_0000 <= v_dot(self, n) <= 0xC0_0000_0000,
                    vec_in(n, 0x40000);
            lemma_div_bounds_by_multiple(2 * v_dot(self, n) * n.x as int, 0x1_0000_0000, 0x600_0000);
            lemma_div_bounds_by_multiple(2 * v_dot(self, n) * n.y as int, 0x1_0000_0000, 0x600_0000);
            lemma_div_bounds_by_multiple(2 * v_dot(self, n) * n.z as int, 0x1_0000_0000, 0x600_0000);
        }
        let s2: i64 = 65536 * 65536;
        Vec3 {
            x: self.x - div_floor_i64(2 * d * n.x, s2),
            y: self.y - div_floor_i64(2 * d * n.y, s2),
            z: self.z - div_floor_i64(2 * d * n.z, s2),
        }
    }

    /// Averages an accumulated color over `samples`, applies the square-root
    /// tone curve, clamps, and quantizes each channel to a byte.
    pub fn color(self, samples: i64) -> (rgb: (u8, u8, u8))
        requires
            1 <= samples,
            0 <= self.x <= 0x1_0000_0000_0000,
            0 <= self.y <= 0x1_0000_0000_0000,
            0 <= self.z <= 0x1_0000_0000_0000,
        ensures
            rgb.0 == quantize_spec(self.x as int, samples as int),
            rgb.1 == quantize_spec(self.y as int, samples as int),
            rgb.2 == quantize_spec(self.z as int, samples as int),
    {
        (quantize(self.x, samples), quantize(self.y, samples), quantize(self.z, samples))
    }
}

impl Default for Vec3 {
    /// The zero vector.
    fn default() -> (v: Vec3)
        ensures
            v == (Vec3 { x: 0, y: 0, z: 0 }),
    {
        Vec3::diagonal(0)
    }
}

/// If `-m*b <= p <= m*b` and `b > 0` then the quotient `p / b` lies in
/// `[-m, m]`.
pub proof fn lemma_div_bounds_by_multiple(p: int, b: int, m: int)
    requires
        0 < b,
        -(m * b) <= p <= m * b,
    ensures
        -m <= p / b <= m,
{
    assert(m * b == b * m && -(m * b) == b * -m) by (nonlinear_arith);
    lemma_div_is_ordered(p, b * m, b);
    lemma_div_is_ordered(b * -m, p, b);
    lemma_div_multiples_vanish(m, b);
    lemma_div_multiples_vanish(-m, b);
}

/// The tone-mapped byte for an accumulated channel value `x` over `samples`
/// samples: average, take the fixed-point square root, and clamp to `[0, 255]`
/// while scaling down by 256 (the fixed-point analogue of
/// `floor(256 * clamp(sqrt(x / samples), 0, 0.999...))`).
pub open spec fn quantize_spec(x: int, samples: int) -> int {
    let s = sqrt_floor((x / samples) * 65536);
    if s / 256 < 255 {
        s / 256
    } else {
        255
    }
}

/// Tone-map one accumulated channel value to a byte.
pub fn quantize(x: i64, samples: i64) -> (r: u8)
    requires
        0 <= x <= 0x1_0000_0000_0000,
        1 <= samples,
    ensures
        r == quantize_spec(x as int, samples as int),
{
    let avg = (x as u64) / (samples as u64);
    proof {
        lemma_div_pos_is_pos(x as int, samples as int);
        assert(avg <= x) by (nonlinear_arith)
            requires avg == x as int / samples as int, 0 <= x, 1 <= samples;
    }
    let s = isqrt_u128((avg as u128) * 65536);
    proof {
        assert(s <= 0x1_0000_0000) by (nonlinear_arith)
            requires s * s <= 0x1_0000_0000_0000 * 65536, s >= 0;
    }
    let q = s / 256;
    if q < 255 {
        q as u8
    } else {
        255u8
    }
}

/// Tone mapping is monotone: a dimmer accumulated channel never maps to a
/// brighter byte, and every byte lies in `[0, 255]`.
pub proof fn lemma_quantize_monotonic(a: int, b: int, samples: int)
    requires
        0 <= a <= b,
        1 <= samples,
    ensures
        0 <= quantize_spec(a, samples) <= quantize_spec(b, samples) <= 255,
{
    lemma_div_is_ordered(a, b, samples);
    lemma_div_pos_is_pos(a, samples);
    lemma_sqrt_floor_monotonic((a / samples) * 65536, (b / samples) * 65536);
    lemma_div_is_ordered(
        sqrt_floor((a / samples) * 65536),
        sqrt_floor((b / samples) * 65536),
        256,
    );
    lemma_div_pos_is_pos(sqrt_floor((a / samples) * 65536), 256);
}

/// An accumulated channel of exactly 0.0 maps to byte 0, and one of exactly
/// 1.0 after averaging (`samples * 65536`) maps to byte 255.
pub proof fn lemma_quantize_endpoints(samples: int)
    requires
        1 <= samples,
    ensures
        quantize_spec(0, samples) == 0,
        quantize_spec(samples * 65536, samples) == 255,
{
    lemma_div_of0(samples);
    lemma_sqrt_floor_is(0, 0);
    lemma_div_of0(256);
    lemma_div_multiples_vanish(65536, samples);
    assert(65536int * 65536int < (65536int + 1) * (65536int + 1)) by (nonlinear_arith);
    lemma_sqrt_floor_is(65536int * 65536int, 65536);
}

/// A vector with each component sampled uniformly from `[0, 1)`.
pub fn random(rng: &mut Rng) -> (v: Vec3)
    ensures
        0 <= v.x < 65536,
        0 <= v.y < 65536,
        0 <= v.z < 65536,
{
    let x = random_fixed(rng);
    let y = random_fixed(rng);
    let z = random_fixed(rng);
    Vec3::new(x, y, z)
}

/// A vector with each component sampled uniformly from `[min, max]`.
pub fn random_range(rng: &mut Rng, min: i64, max: i64) -> (v: Vec3)
    requires
        -0x2000_0000_0000_0000 <= min <= max <= 0x2000_0000_0000_0000,
    ensures
        min <= v.x <= max,
        min <= v.y <= max,
        min <= v.z <= max,
{
    let x = random_fixed_range(rng, min, max);
    let y = random_fixed_range(rng, min, max);
    let z = random_fixed_range(rng, min, max);
    Vec3::new(x, y, z)
}

/// A nonzero vector strictly inside the unit sphere, found by rejection
/// sampling. The attempt budget is far beyond what rejection ever needs; if
/// it were exhausted, a fixed interior vector is returned.
pub fn random_in_unit_sphere(rng: &mut Rng) -> (p: Vec3)
    ensures
        1 <= v_dot(p, p) < 0x1_0000_0000,
        vec_in(p, 65535),
{
    let mut i: u64 = 0;
    while i < 64
        invariant
            i <= 64,
        decreases 64 - i,
    {
        let p = random_range(rng, -65535, 65535);
        let d = p.dot(p);
        if 1 <= d && d < 0x1_0000_0000 {
            return p;
        }
        i = i + 1;
    }
    let fallback = Vec3::new(32768, 0, 0);
    proof {
        assert(v_dot(fallback, fallback) == 32768 * 32768);
    }
    fallback
}

/// A random direction of fixed-point length one: the exact unit rescaling of
/// some nonzero point strictly inside the unit sphere, and so never the zero
/// vector.
pub fn random_unit_vector(rng: &mut Rng) -> (r: Vec3)
    ensures
        vec_in(r, 65536),
        !v_is_zero(r),
        exists|p: Vec3| {
            &&& 1 <= v_dot(p, p) < 0x1_0000_0000
            &&& r == #[trigger] unit_of(p)
        },
{
    let p = random_in_unit_sphere(rng);
    proof {
        lemma_dot_self(p);
    }
    p.unit_vector()
}

} // verus!
