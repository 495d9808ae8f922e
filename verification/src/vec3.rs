//! Three-component fixed-point vectors, used as displacements (`Vec3`),
//! positions (`Point3`) and linear-light radiance (`Color`). Every exec
//! operation is specified against `V3`, the ghost triple of raw components.
use vstd::prelude::*;

use crate::fx::{Fx, FX_DIV_NUM_MAX, fclamp, fdiv, fmul, fsqrt, lemma_fmul_mag, lemma_fmul_sq, sabs};
use crate::utils::random_double;

verus! {

/// Mathematical model of a vector: the three raw fixed-point components.
pub ghost struct V3 {
    pub x: int,
    pub y: int,
    pub z: int,
}

/// Component magnitude below which a vector counts as near zero
/// (about 0.004 in real units, the smallest scale at which a fixed-point
/// square is still nonzero).
pub const NEAR_EPS: i64 = 256;

/// Magnitude cap on the raw components of unit vectors (3.0 in real units);
/// normalization clamps to it, though rounding keeps real results far under.
pub const UNIT_MAG: i64 = 196608;

pub open spec fn vplus(a: V3, b: V3) -> V3 {
    V3 { x: a.x + b.x, y: a.y + b.y, z: a.z + b.z }
}

pub open spec fn vminus(a: V3, b: V3) -> V3 {
    V3 { x: a.x - b.x, y: a.y - b.y, z: a.z - b.z }
}

pub open spec fn vneg(a: V3) -> V3 {
    V3 { x: -a.x, y: -a.y, z: -a.z }
}

pub open spec fn vscale(a: V3, s: int) -> V3 {
    V3 { x: fmul(a.x, s), y: fmul(a.y, s), z: fmul(a.z, s) }
}

pub open spec fn vdivs(a: V3, s: int) -> V3 {
    V3 { x: fdiv(a.x, s), y: fdiv(a.y, s), z: fdiv(a.z, s) }
}

pub open spec fn vdot(a: V3, b: V3) -> int {
    fmul(a.x, b.x) + fmul(a.y, b.y) + fmul(a.z, b.z)
}

pub open spec fn vcross(a: V3, b: V3) -> V3 {
    V3 {
        x: fmul(a.y, b.z) - fmul(a.z, b.y),
        y: fmul(a.z, b.x) - fmul(a.x, b.z),
        z: fmul(a.x, b.y) - fmul(a.y, b.x),
    }
}

pub open spec fn vlen_sq(a: V3) -> int {
    vdot(a, a)
}

pub open spec fn vbounded(a: V3, b: int) -> bool {
    sabs(a.x) <= b && sabs(a.y) <= b && sabs(a.z) <= b
}

/// Normalization: divide by the floor square root of the squared length,
/// clamping each component to the unit magnitude cap.
pub open spec fn vunit(a: V3) -> V3 {
    let d = vdivs(a, fsqrt(vlen_sq(a)));
    V3 {
        x: fclamp(d.x, -(UNIT_MAG as int), UNIT_MAG as int),
        y: fclamp(d.y, -(UNIT_MAG as int), UNIT_MAG as int),
        z: fclamp(d.z, -(UNIT_MAG as int), UNIT_MAG as int),
    }
}

/// Mirror reflection of `v` about the normal `n`.
pub open spec fn vreflect(v: V3, n: V3) -> V3 {
    vminus(v, vscale(n, 2 * vdot(v, n)))
}

/// Snell refraction of the unit direction `uv` at the normal `n` with the
/// given ratio of refraction indices.
pub open spec fn vrefract(uv: V3, n: V3, ratio: int) -> V3 {
    let cos_theta = if vdot(vneg(uv), n) <= 65536 {
        vdot(vneg(uv), n)
    } else {
        65536
    };
    let perp = vscale(vplus(uv, vscale(n, cos_theta)), ratio);
    let par = vscale(n, -fsqrt(sabs(65536 - vlen_sq(perp))));
    vplus(perp, par)
}

pub open spec fn vnear_zero(a: V3) -> bool {
    sabs(a.x) < NEAR_EPS && sabs(a.y) < NEAR_EPS && sabs(a.z) < NEAR_EPS
}

/// A 3-component fixed-point vector.
#[derive(Clone, Copy, Debug, PartialEq, Eq, Structural)]
pub struct Vec3 {
    pub x: Fx,
    pub y: Fx,
    pub z: Fx,
}

/// A position in space; the same representation as `Vec3`.
pub type Point3 = Vec3;

/// A linear-light radiance triple; the same representation as `Vec3`.
pub type Color = Vec3;

impl View for Vec3 {
    type V = V3;

    open spec fn view(&self) -> V3 {
        V3 { x: self.x.0 as int, y: self.y.0 as int, z: self.z.0 as int }
    }
}

impl Vec3 {
    /// The zero vector.
    pub fn new() -> (r: Vec3)
        ensures
            r@ == (V3 { x: 0, y: 0, z: 0 }),
    {
        Vec3 { x: Fx(0), y: Fx(0), z: Fx(0) }
    }

    pub fn from(x: Fx, y: Fx, z: Fx) -> (r: Vec3)
        ensures
            r@ == (V3 { x: x.0 as int, y: y.0 as int, z: z.0 as int }),
    {
        Vec3 { x, y, z }
    }

    pub fn x(&self) -> (r: Fx)
        ensures
            r.0 == self@.x,
    {
        self.x
    }

    pub fn y(&self) -> (r: Fx)
        ensures
            r.0 == self@.y,
    {
        self.y
    }

    pub fn z(&self) -> (r: Fx)
        ensures
            r.0 == self@.z,
    {
        self.z
    }

    /// The component on the given axis, in x, y, z order.
    pub fn axis(&self, i: usize) -> (r: Fx)
        requires
            i < 3,
        ensures
            r.0 == if i == 0 {
                self@.x
            } else if i == 1 {
                self@.y
            } else {
                self@.z
            },
    {
        if i == 0 {
            self.x
        } else if i == 1 {
            self.y
        } else {
            self.z
        }
    }

    pub fn plus(self, o: Vec3) -> (r: Vec3)
        requires
            vbounded(self@, 0x3fff_ffff_ffff_ffff),
            vbounded(o@, 0x3fff_ffff_ffff_ffff),
        ensures
            r@ == vplus(self@, o@),
    {
        Vec3 { x: self.x.add(o.x), y: self.y.add(o.y), z: self.z.add(o.z) }
    }

    pub fn minus(self, o: Vec3) -> (r: Vec3)
        requires
            vbounded(self@, 0x3fff_ffff_ffff_ffff),
            vbounded(o@, 0x3fff_ffff_ffff_ffff),
        ensures
            r@ == vminus(self@, o@),
    {
        Vec3 { x: self.x.sub(o.x), y: self.y.sub(o.y), z: self.z.sub(o.z) }
    }

    /// Componentwise negation.
    pub fn inv(self) -> (r: Vec3)
        requires
            vbounded(self@, 0x7fff_ffff_ffff_ffff),
        ensures
            r@ == vneg(self@),
    {
        Vec3 { x: self.x.neg(), y: self.y.neg(), z: self.z.neg() }
    }

    /// In-place accumulation, used by the sampling driver.
    pub fn add(&mut self, o: Vec3)
        requires
            vbounded(old(self)@, 0x3fff_ffff_ffff_ffff),
            vbounded(o@, 0x3fff_ffff_ffff_ffff),
        ensures
            final(self)@ == vplus(old(self)@, o@),
    {
        self.x = self.x.add(o.x);
        self.y = self.y.add(o.y);
        self.z = self.z.add(o.z);
    }

    /// Scalar multiplication.
    pub fn scale(self, s: Fx) -> (r: Vec3)
        requires
            vbounded(self@, 0x4000_0000),
            sabs(s.0 as int) <= 0x4000_0000,
        ensures
            r@ == vscale(self@, s.0 as int),
            vbounded(r@, 0x1000_0000_0000),
    {
        proof {
            lemma_fmul_mag(self@.x, s.0 as int, 0x4000_0000, 0x4000_0000);
            lemma_fmul_mag(self@.y, s.0 as int, 0x4000_0000, 0x4000_0000);
            lemma_fmul_mag(self@.z, s.0 as int, 0x4000_0000, 0x4000_0000);
        }
        Vec3 { x: self.x.mul(s), y: self.y.mul(s), z: self.z.mul(s) }
    }

    /// Scalar division.
    pub fn div_s(self, s: Fx) -> (r: Vec3)
        requires
            s.0 != 0,
            vbounded(self@, FX_DIV_NUM_MAX as int),
        ensures
            r@ == vdivs(self@, s.0 as int),
    {
        Vec3 { x: self.x.div(s), y: self.y.div(s), z: self.z.div(s) }
    }

    pub fn len_squared(&self) -> (r: Fx)
        requires
            vbounded(self@, 0x4000_0000),
        ensures
            r.0 == vlen_sq(self@),
            0 <= r.0 <= 0x3000_0000_0000,
    {
        proof {
            lemma_fmul_mag(self@.x, self@.x, 0x4000_0000, 0x4000_0000);
            lemma_fmul_mag(self@.y, self@.y, 0x4000_0000, 0x4000_0000);
            lemma_fmul_mag(self@.z, self@.z, 0x4000_0000, 0x4000_0000);
            lemma_fmul_sq(self@.x);
            lemma_fmul_sq(self@.y);
            lemma_fmul_sq(self@.z);
        }
        self.x.mul(self.x).add(self.y.mul(self.y)).add(self.z.mul(self.z))
    }

    pub fn length(&self) -> (r: Fx)
        requires
            vbounded(self@, 0x4000_0000),
        ensures
            r.0 == fsqrt(vlen_sq(self@)),
            r.0 >= 0,
    {
        self.len_squared().sqrt()
    }

    /// Whether every component is below the degeneracy threshold.
    pub fn near_zero(&self) -> (r: bool)
        ensures
            r == vnear_zero(self@),
    {
        let e: i64 = NEAR_EPS;
        self.x.0 < e && self.x.0 > -e && self.y.0 < e && self.y.0 > -e && self.z.0 < e
            && self.z.0 > -e
    }
}

pub fn dot(a: Vec3, b: Vec3) -> (r: Fx)
    requires
        vbounded(a@, 0x4000_0000),
        vbounded(b@, 0x4000_0000),
    ensures
        r.0 == vdot(a@, b@),
        sabs(r.0 as int) <= 0x3000_0000_0000,
{
    proof {
        lemma_fmul_mag(a@.x, b@.x, 0x4000_0000, 0x4000_0000);
        lemma_fmul_mag(a@.y, b@.y, 0x4000_0000, 0x4000_0000);
        lemma_fmul_mag(a@.z, b@.z, 0x4000_0000, 0x4000_0000);
    }
    a.x.mul(b.x).add(a.y.mul(b.y)).add(a.z.mul(b.z))
}

pub fn cross(a: Vec3, b: Vec3) -> (r: Vec3)
    requires
        vbounded(a@, 0x4000_0000),
        vbounded(b@, 0x4000_0000),
    ensures
        r@ == vcross(a@, b@),
        vbounded(r@, 0x2000_0000_0000),
{
    proof {
        lemma_fmul_mag(a@.y, b@.z, 0x4000_0000, 0x4000_0000);
        lemma_fmul_mag(a@.z, b@.y, 0x4000_0000, 0x4000_0000);
        lemma_fmul_mag(a@.z, b@.x, 0x4000_0000, 0x4000_0000);
        lemma_fmul_mag(a@.x, b@.z, 0x4000_0000, 0x4000_0000);
        lemma_fmul_mag(a@.x, b@.y, 0x4000_0000, 0x4000_0000);
        lemma_fmul_mag(a@.y, b@.x, 0x4000_0000, 0x4000_0000);
    }
    Vec3 {
        x: a.y.mul(b.z).sub(a.z.mul(b.y)),
        y: a.z.mul(b.x).sub(a.x.mul(b.z)),
        z: a.x.mul(b.y).sub(a.y.mul(b.x)),
    }
}

/// The direction of `v` scaled to unit length (with the cap of `vunit`).
pub fn unit_vector(v: Vec3) -> (r: Vec3)
    requires
        vbounded(v@, 0x4000_0000),
        vlen_sq(v@) >= 1,
    ensures
        r@ == vunit(v@),
        vbounded(r@, UNIT_MAG as int),
{
    let ls = v.len_squared();
    let len = ls.sqrt();
    proof {
        assert(len.0 >= 256) by (nonlinear_arith)
            requires
                len.0 * len.0 <= ls.0 * 65536 < (len.0 + 1) * (len.0 + 1),
                len.0 >= 0,
                ls.0 >= 1;
    }
    let d = v.div_s(len);
    let m = Fx(UNIT_MAG);
    let nm = Fx(-UNIT_MAG);
    Vec3 { x: d.x.max(nm).min(m), y: d.y.max(nm).min(m), z: d.z.max(nm).min(m) }
}

/// Mirror reflection of `v` about `n`.
pub fn reflect(v: Vec3, n: Vec3) -> (r: Vec3)
    requires
        vbounded(v@, 0x40000),
        vbounded(n@, 0x40000),
    ensures
        r@ == vreflect(v@, n@),
        vbounded(r@, 0x640_0000),
{
    let d = dot(v, n);
    proof {
        lemma_fmul_mag(v@.x, n@.x, 0x40000, 0x40000);
        lemma_fmul_mag(v@.y, n@.y, 0x40000, 0x40000);
        lemma_fmul_mag(v@.z, n@.z, 0x40000, 0x40000);
        lemma_fmul_mag(n@.x, 2 * vdot(v@, n@), 0x40000, 0x1800000);
        lemma_fmul_mag(n@.y, 2 * vdot(v@, n@), 0x40000, 0x1800000);
        lemma_fmul_mag(n@.z, 2 * vdot(v@, n@), 0x40000, 0x1800000);
    }
    let s = d.add(d);
    let nn = Vec3 { x: n.x.mul(s), y: n.y.mul(s), z: n.z.mul(s) };
    v.minus(nn)
}

/// Snell refraction of the unit direction `uv` at the normal `n`.
pub fn refract(uv: Vec3, n: Vec3, etai_over_etat: Fx) -> (r: Vec3)
    requires
        vbounded(uv@, 0x40000),
        vbounded(n@, 0x40000),
        0 < etai_over_etat.0 <= 0x40000,
    ensures
        r@ == vrefract(uv@, n@, etai_over_etat.0 as int),
        vbounded(r@, 0x4_0000_0000),
{
    let cos_theta = dot(uv.inv(), n).min(Fx::one());
    proof {
        lemma_fmul_mag(vneg(uv@).x, n@.x, 0x40000, 0x40000);
        lemma_fmul_mag(vneg(uv@).y, n@.y, 0x40000, 0x40000);
        lemma_fmul_mag(vneg(uv@).z, n@.z, 0x40000, 0x40000);
        lemma_fmul_mag(n@.x, cos_theta.0 as int, 0x40000, 0x30_0000);
        lemma_fmul_mag(n@.y, cos_theta.0 as int, 0x40000, 0x30_0000);
        lemma_fmul_mag(n@.z, cos_theta.0 as int, 0x40000, 0x30_0000);
    }
    let shifted = uv.plus(Vec3 { x: n.x.mul(cos_theta), y: n.y.mul(cos_theta), z: n.z.mul(cos_theta) });
    proof {
        lemma_fmul_mag(shifted@.x, etai_over_etat.0 as int, 0xc8_0000, 0x40000);
        lemma_fmul_mag(shifted@.y, etai_over_etat.0 as int, 0xc8_0000, 0x40000);
        lemma_fmul_mag(shifted@.z, etai_over_etat.0 as int, 0xc8_0000, 0x40000);
    }
    let r_out_perp = Vec3 {
        x: shifted.x.mul(etai_over_etat),
        y: shifted.y.mul(etai_over_etat),
        z: shifted.z.mul(etai_over_etat),
    };
    let pl = r_out_perp.len_squared();
    let gap = Fx::one().sub(pl);
    let mag = if gap.0 >= 0 {
        gap
    } else {
        gap.neg()
    };
    let root = mag.sqrt();
    proof {
        assert(root.0 <= 0x8000_0000) by (nonlinear_arith)
            requires
                root.0 >= 0,
                root.0 * root.0 <= mag.0 * 65536,
                mag.0 <= 0x3000_0000_0001;
        lemma_fmul_mag(n@.x, -root.0 as int, 0x40000, 0x8000_0000);
        lemma_fmul_mag(n@.y, -root.0 as int, 0x40000, 0x8000_0000);
        lemma_fmul_mag(n@.z, -root.0 as int, 0x40000, 0x8000_0000);
    }
    let neg_root = root.neg();
    let r_out_parallel = Vec3 { x: n.x.mul(neg_root), y: n.y.mul(neg_root), z: n.z.mul(neg_root) };
    r_out_perp.plus(r_out_parallel)
}

/// A normalized direction drawn from the unit sphere: the image under
/// `vunit` of a sample whose squared length clears the resampling
/// threshold, so normalization is accurate.
pub open spec fn unit_sample(s: V3) -> bool {
    exists|p: V3| vbounded(p, 65535) && 16384 <= #[trigger] vlen_sq(p) < 65536 && s == vunit(p)
}

/// One component of a normalization: the division characterization and a
/// magnitude cap, plus the floor characterizations of the squares.
proof fn lemma_norm_comp(vi: int, ll: int, s: int)
    requires
        sabs(vi) <= 65535,
        0 <= fmul(vi, vi) <= ll,
        16384 <= ll < 65536,
        s * s <= ll * 65536,
        ll * 65536 < (s + 1) * (s + 1),
        32768 <= s <= 65535,
    ensures
        ({
            let q = fdiv(vi, s);
            sabs(q) <= 65543 && q * q * (s * s) <= vi * vi * (65536 * 65536) && vi * vi * (65536
                * 65536) < (sabs(q) + 1) * (sabs(q) + 1) * (s * s) && 65536 * fmul(vi, vi) <= vi
                * vi && vi * vi < 65536 * fmul(vi, vi) + 65536 && 65536 * fmul(q, q) <= q * q && q
                * q < 65536 * fmul(q, q) + 65536
        }),
{
    let m = sabs(vi);
    let q = (m * 65536) / s;
    vstd::arithmetic::div_mod::lemma_fundamental_div_mod(m * 65536, s);
    vstd::arithmetic::div_mod::lemma_mod_bound(m * 65536, s);
    assert(sabs(fdiv(vi, s)) == q);
    assert(q >= 0) by {
        vstd::arithmetic::div_mod::lemma_div_pos_is_pos(m * 65536, s);
    }
    let qv = fdiv(vi, s);
    assert(qv * qv == q * q) by (nonlinear_arith)
        requires
            q == sabs(qv);
    assert(q * s <= m * 65536 && m * 65536 < (q + 1) * s) by (nonlinear_arith)
        requires
            m * 65536 == s * q + (m * 65536) % s,
            0 <= (m * 65536) % s < s;
    assert(q * q * (s * s) <= vi * vi * (65536 * 65536)) by (nonlinear_arith)
        requires
            q * s <= m * 65536,
            q >= 0,
            s >= 1,
            m == sabs(vi);
    assert(vi * vi * (65536 * 65536) < (q + 1) * (q + 1) * (s * s)) by (nonlinear_arith)
        requires
            m * 65536 < (q + 1) * s,
            q >= 0,
            s >= 1,
            m == sabs(vi),
            m >= 0;
    // floor characterization of the fixed-point squares
    vstd::arithmetic::div_mod::lemma_fundamental_div_mod(vi * vi, 65536);
    vstd::arithmetic::div_mod::lemma_mod_bound(vi * vi, 65536);
    assert(vi * vi >= 0) by (nonlinear_arith);
    assert(fmul(vi, vi) == (vi * vi) / 65536) by {
        assert(sabs(vi * vi) == vi * vi) by (nonlinear_arith);
    }
    vstd::arithmetic::div_mod::lemma_fundamental_div_mod(qv * qv, 65536);
    vstd::arithmetic::div_mod::lemma_mod_bound(qv * qv, 65536);
    assert(qv * qv >= 0) by (nonlinear_arith);
    assert(fmul(qv, qv) == (qv * qv) / 65536) by {
        assert(sabs(qv * qv) == qv * qv) by (nonlinear_arith);
    }
    // the magnitude cap: a larger quotient would outrun the numerator
    assert(vi * vi <= (ll + 1) * 65536) by (nonlinear_arith)
        requires
            vi * vi < 65536 * fmul(vi, vi) + 65536,
            fmul(vi, vi) <= ll;
    assert(s * s > ll * 65536 - 131071) by (nonlinear_arith)
        requires
            ll * 65536 < (s + 1) * (s + 1),
            s <= 65535;
    assert(q <= 65543) by (nonlinear_arith)
        requires
            q * q * (s * s) <= vi * vi * (65536 * 65536),
            vi * vi <= (ll + 1) * 65536,
            s * s > ll * 65536 - 131071,
            16384 <= ll < 65536,
            q >= 0,
            s >= 32768;
}

/// Normalizing a sample above the resampling threshold lands within a
/// narrow band of unit length: the floor square root and the truncating
/// divisions together lose less than a thousandth.
pub proof fn lemma_vunit_near_unit(v: V3)
    requires
        vbounded(v, 65535),
        16384 <= vlen_sq(v) < 65536,
    ensures
        vbounded(vunit(v), 65544),
        65520 <= vlen_sq(vunit(v)) <= 65560,
{
    let ll = vlen_sq(v);
    crate::fx::lemma_sqrt_exists(ll * 65536);
    let s = fsqrt(ll);
    assert(crate::fx::is_sqrt_floor(ll * 65536, s));
    assert(32768 <= s <= 65535) by (nonlinear_arith)
        requires
            s >= 0,
            s * s <= ll * 65536,
            ll * 65536 < (s + 1) * (s + 1),
            16384 <= ll < 65536;
    lemma_fmul_sq(v.x);
    lemma_fmul_sq(v.y);
    lemma_fmul_sq(v.z);
    lemma_norm_comp(v.x, ll, s);
    lemma_norm_comp(v.y, ll, s);
    lemma_norm_comp(v.z, ll, s);
    let qx = fdiv(v.x, s);
    let qy = fdiv(v.y, s);
    let qz = fdiv(v.z, s);
    assert(vunit(v) == (V3 { x: qx, y: qy, z: qz }));
    let aa = qx * qx + qy * qy + qz * qz;
    // upper bound on the raw squared length of the quotient
    assert(aa * (s * s) <= (v.x * v.x + v.y * v.y + v.z * v.z) * (65536 * 65536))
        by (nonlinear_arith)
        requires
            qx * qx * (s * s) <= v.x * v.x * (65536 * 65536),
            qy * qy * (s * s) <= v.y * v.y * (65536 * 65536),
            qz * qz * (s * s) <= v.z * v.z * (65536 * 65536),
            aa == qx * qx + qy * qy + qz * qz;
    assert(v.x * v.x + v.y * v.y + v.z * v.z <= ll * 65536 + 196605);
    assert((65536 * 65536 + 1400000) * (ll * 65536 - 131071) >= (65536 * 65536) * (ll * 65536
        + 196605)) by (nonlinear_arith)
        requires
            16384 <= ll < 65536;
    assert(s * s > ll * 65536 - 131071) by (nonlinear_arith)
        requires
            ll * 65536 < (s + 1) * (s + 1),
            s <= 65535;
    assert(aa <= 65536 * 65536 + 1400000) by (nonlinear_arith)
        requires
            aa * (s * s) <= (v.x * v.x + v.y * v.y + v.z * v.z) * (65536 * 65536),
            v.x * v.x + v.y * v.y + v.z * v.z <= ll * 65536 + 196605,
            (65536 * 65536 + 1400000) * (ll * 65536 - 131071) >= (65536 * 65536) * (ll * 65536
                + 196605),
            s * s > ll * 65536 - 131071,
            s * s > 0,
            65536 * 65536 >= 0;
    // lower bound: the rounded-up quotients already reach unit length
    let mx = sabs(qx);
    let my = sabs(qy);
    let mz = sabs(qz);
    assert(((mx + 1) * (mx + 1) + (my + 1) * (my + 1) + (mz + 1) * (mz + 1)) * (s * s) > (v.x
        * v.x + v.y * v.y + v.z * v.z) * (65536 * 65536)) by (nonlinear_arith)
        requires
            v.x * v.x * (65536 * 65536) < (mx + 1) * (mx + 1) * (s * s),
            v.y * v.y * (65536 * 65536) < (my + 1) * (my + 1) * (s * s),
            v.z * v.z * (65536 * 65536) < (mz + 1) * (mz + 1) * (s * s);
    assert(v.x * v.x + v.y * v.y + v.z * v.z >= ll * 65536);
    assert((mx + 1) * (mx + 1) + (my + 1) * (my + 1) + (mz + 1) * (mz + 1) > 65536 * 65536)
        by (nonlinear_arith)
        requires
            ((mx + 1) * (mx + 1) + (my + 1) * (my + 1) + (mz + 1) * (mz + 1)) * (s * s) > (v.x
                * v.x + v.y * v.y + v.z * v.z) * (65536 * 65536),
            v.x * v.x + v.y * v.y + v.z * v.z >= ll * 65536,
            s * s <= ll * 65536,
            s * s > 0;
    assert(mx == qx || mx == -qx);
    assert(my == qy || my == -qy);
    assert(mz == qz || mz == -qz);
    assert(qx * qx == mx * mx) by (nonlinear_arith)
        requires
            mx == qx || mx == -qx;
    assert(qy * qy == my * my) by (nonlinear_arith)
        requires
            my == qy || my == -qy;
    assert(qz * qz == mz * mz) by (nonlinear_arith)
        requires
            mz == qz || mz == -qz;
    assert(aa > 65536 * 65536 - 393261) by (nonlinear_arith)
        requires
            (mx + 1) * (mx + 1) + (my + 1) * (my + 1) + (mz + 1) * (mz + 1) > 65536 * 65536,
            aa == qx * qx + qy * qy + qz * qz,
            qx * qx == mx * mx && qy * qy == my * my && qz * qz == mz * mz,
            0 <= mx <= 65543 && 0 <= my <= 65543 && 0 <= mz <= 65543;
    // transfer through the fixed-point squares of the components
    let vv = vlen_sq(vunit(v));
    assert(65536 * vv <= aa && aa < 65536 * vv + 196608);
    assert(65520 <= vv && vv <= 65560) by (nonlinear_arith)
        requires
            65536 * vv <= aa,
            aa < 65536 * vv + 196608,
            aa > 65536 * 65536 - 393261,
            aa <= 65536 * 65536 + 1400000;
}

/// A uniformly random point inside the unit sphere; after a bounded number
/// of rejected samples it falls back to a fixed interior point.
pub fn random_in_unit_sphere() -> (r: Vec3)
    ensures
        vbounded(r@, 65535),
        vlen_sq(r@) < 65536,
{
    let mut tries: usize = 0;
    while tries < 64
        invariant
            tries <= 64,
        decreases 64 - tries,
    {
        let p = Vec3 {
            x: random_double(Fx(-65535), Fx(65536)),
            y: random_double(Fx(-65535), Fx(65536)),
            z: random_double(Fx(-65535), Fx(65536)),
        };
        if p.len_squared().0 < 65536 {
            return p;
        }
        tries = tries + 1;
    }
    let f = Vec3 { x: Fx(32768), y: Fx(0), z: Fx(0) };
    proof {
        assert(fmul(32768, 32768) == 16384) by (nonlinear_arith);
        assert(fmul(0, 0) == 0) by (nonlinear_arith);
    }
    f
}

/// A uniformly random direction of unit length: a sphere sample above the
/// resampling threshold, normalized; its squared length provably lands in
/// a narrow band around one.
pub fn random_unit_vector() -> (r: Vec3)
    ensures
        unit_sample(r@),
        vbounded(r@, 65544),
        65520 <= vlen_sq(r@) <= 65560,
{
    let mut tries: usize = 0;
    while tries < 64
        invariant
            tries <= 64,
        decreases 64 - tries,
    {
        let p = random_in_unit_sphere();
        if p.len_squared().0 >= 16384 {
            proof {
                lemma_vunit_near_unit(p@);
            }
            let r = unit_vector(p);
            proof {
                assert(vbounded(p@, 65535) && 16384 <= vlen_sq(p@) < 65536 && r@ == vunit(p@));
                assert(unit_sample(r@));
            }
            return r;
        }
        tries = tries + 1;
    }
    let fb = Vec3 { x: Fx(32768), y: Fx(0), z: Fx(0) };
    proof {
        assert(fmul(32768, 32768) == 16384) by (nonlinear_arith);
        assert(fmul(0, 0) == 0) by (nonlinear_arith);
        assert(vlen_sq(fb@) == 16384);
        lemma_vunit_near_unit(fb@);
    }
    let r = unit_vector(fb);
    proof {
        assert(vbounded(fb@, 65535) && 16384 <= vlen_sq(fb@) < 65536 && r@ == vunit(fb@));
        assert(unit_sample(r@));
    }
    r
}

/// A uniformly random point inside the unit disk of the x-y plane.
pub fn random_in_unit_disk() -> (r: Vec3)
    ensures
        vbounded(r@, 65535),
        vlen_sq(r@) < 65536,
        r@.z == 0,
{
    let mut tries: usize = 0;
    while tries < 64
        invariant
            tries <= 64,
        decreases 64 - tries,
    {
        let p = Vec3 {
            x: random_double(Fx(-65535), Fx(65536)),
            y: random_double(Fx(-65535), Fx(65536)),
            z: Fx(0),
        };
        if p.len_squared().0 < 65536 {
            return p;
        }
        tries = tries + 1;
    }
    let f = Vec3 { x: Fx(32768), y: Fx(0), z: Fx(0) };
    proof {
        assert(fmul(32768, 32768) == 16384) by (nonlinear_arith);
        assert(fmul(0, 0) == 0) by (nonlinear_arith);
    }
    f
}

} // verus!
