//! Spheres: quadratic ray intersection, outward normals, and the
//! spherical texture parametrization. The angle functions are fixed-point
//! rational approximations with exact integer contracts.
use vstd::prelude::*;

use crate::aabb::Bb;
use crate::fx::{
    Fx, fdiv, fmul, fsqrt, lemma_fdiv_mag, lemma_fmul_mag, lemma_fmul_sq, lemma_tdiv_mag, sabs,
};
use crate::hittable::{HitM, HitRecord, is_front_face, oriented_normal};
use crate::material::{Material, mwf};
use crate::ray::{Ray, RayM, ray_at};
use crate::vec3::{Point3, V3, Vec3, dot, vbounded, vdivs, vdot, vlen_sq, vminus, vplus};

verus! {

/// Twice the circle constant, scaled by 2^16.
pub const PI2_RAW: i64 = 411775;

/// Half the circle constant, scaled by 2^16.
pub const HALF_PI_RAW: i64 = 102943;

/// Rational approximation of `atan` on `[0, 1]`, in fixed point; the
/// result lies in `[0, 56568]` (a little over a quarter turn).
pub open spec fn atanq(z: int) -> int {
    fmul(z, 51472) + fmul(fmul(z, 65536 - z), 16038 + fmul(4345, z))
}

/// The angle of the vector `(x, y)` measured counterclockwise from the
/// positive x axis, in `[0, 2 pi)` scaled by 2^16, by octant reduction
/// over `atanq`.
pub open spec fn atan2pos(y: int, x: int) -> int {
    let ax = sabs(x);
    let ay = sabs(y);
    if ax == 0 && ay == 0 {
        0
    } else {
        let base = if ax >= ay {
            atanq(fdiv(ay, ax))
        } else {
            HALF_PI_RAW - atanq(fdiv(ax, ay))
        };
        if x >= 0 && y >= 0 {
            base
        } else if x < 0 && y >= 0 {
            205887 - base
        } else if x < 0 {
            205887 + base
        } else {
            411775 - base
        }
    }
}

/// The spherical `u` coordinate of a point on the unit sphere.
pub open spec fn sphere_u(p: V3) -> int {
    fdiv(atan2pos(p.z, -p.x), PI2_RAW as int)
}

/// The spherical `v` coordinate of a point on the unit sphere.
pub open spec fn sphere_v(p: V3) -> int {
    let w = crate::fx::fclamp(-p.y, -65536, 65536);
    fdiv(atan2pos(fsqrt(65536 - fmul(w, w)), w), 205887)
}

/// A sphere with its material.
pub struct Sphere {
    pub center: Point3,
    pub radius: Fx,
    pub mat_ptr: Material,
}

impl Sphere {
    /// Geometry within the scene bounds, a radius thick enough to divide
    /// by, and a well-formed material.
    pub open spec fn wf(self) -> bool {
        vbounded(self.center@, 0x100_0000) && 256 <= sabs(self.radius.0 as int) <= 0x100_0000
            && mwf(self.mat_ptr)
    }

    pub fn new(cen: Point3, r: Fx, m: Material) -> (s: Sphere)
        ensures
            s.center == cen,
            s.radius == r,
            s.mat_ptr == m,
    {
        Sphere { center: cen, radius: r, mat_ptr: m }
    }
}

/// The candidate intersection parameter of a ray with a sphere: the
/// smaller admissible root of the quadratic, falling back to the larger
/// one; bounded below by `t_min`, unbounded above.
pub open spec fn sphere_cand_t(c: V3, radius: int, rm: RayM, t_min: int) -> Option<int> {
    let oc = vminus(rm.orig, c);
    let a = vlen_sq(rm.dir);
    let half_b = vdot(oc, rm.dir);
    let cc = vlen_sq(oc) - fmul(radius, radius);
    let disc = fmul(half_b, half_b) - fmul(a, cc);
    if a == 0 || disc < 0 {
        None
    } else {
        let sq = fsqrt(disc);
        let r1 = fdiv(-half_b - sq, a);
        if t_min <= r1 {
            Some(r1)
        } else {
            let r2 = fdiv(-half_b + sq, a);
            if t_min <= r2 {
                Some(r2)
            } else {
                None
            }
        }
    }
}

/// The nearest intersection of the ray with the sphere within the range,
/// if any.
pub open spec fn sphere_hit_t(s: Sphere, rm: RayM, t_min: int, t_max: int) -> Option<int> {
    match sphere_cand_t(s.center@, s.radius.0 as int, rm, t_min) {
        Some(t) => if t <= t_max {
            Some(t)
        } else {
            None
        },
        None => None,
    }
}

/// The geometric fields of the hit record a sphere produces at parameter
/// `t`: the hit point, the oriented normal from the outward normal
/// `(p - center) / radius`, and the spherical texture coordinates.
pub open spec fn sphere_rec(s: Sphere, rm: RayM, t: int) -> HitM {
    let p = ray_at(rm, t);
    let outward = vdivs(vminus(p, s.center@), s.radius.0 as int);
    HitM {
        p,
        normal: oriented_normal(rm.dir, outward),
        t,
        u: sphere_u(outward),
        v: sphere_v(outward),
        front_face: is_front_face(rm.dir, outward),
    }
}

impl Sphere {
    /// The nearest intersection of the ray with this sphere in the given
    /// parameter range, with its full hit record.
    pub fn hit<'a>(&'a self, r: &Ray, t_min: Fx, t_max: Fx) -> (res: Option<HitRecord<'a>>)
        requires
            self.wf(),
            vbounded(r@.orig, 0x100_0000),
            vbounded(r@.dir, 0x100_0000),
            sabs(t_min.0 as int) <= 0x100_0000,
            sabs(t_max.0 as int) <= 0x100_0000,
        ensures
            match res {
                Some(rec) => sphere_hit_t(*self, r@, t_min.0 as int, t_max.0 as int) == Some(
                    rec@.t,
                ) && rec@ == sphere_rec(*self, r@, rec@.t) && rec.mat == &self.mat_ptr,
                None => sphere_hit_t(*self, r@, t_min.0 as int, t_max.0 as int) is None,
            },
    {
        let oc = r.origin().minus(self.center);
        let a = r.direction().len_squared();
        proof {
            lemma_fmul_mag(oc@.x, r@.dir.x, 0x200_0000, 0x100_0000);
            lemma_fmul_mag(oc@.y, r@.dir.y, 0x200_0000, 0x100_0000);
            lemma_fmul_mag(oc@.z, r@.dir.z, 0x200_0000, 0x100_0000);
            lemma_fmul_mag(r@.dir.x, r@.dir.x, 0x100_0000, 0x100_0000);
            lemma_fmul_mag(r@.dir.y, r@.dir.y, 0x100_0000, 0x100_0000);
            lemma_fmul_mag(r@.dir.z, r@.dir.z, 0x100_0000, 0x100_0000);
            lemma_fmul_mag(oc@.x, oc@.x, 0x200_0000, 0x200_0000);
            lemma_fmul_mag(oc@.y, oc@.y, 0x200_0000, 0x200_0000);
            lemma_fmul_mag(oc@.z, oc@.z, 0x200_0000, 0x200_0000);
            lemma_fmul_mag(self.radius.0 as int, self.radius.0 as int, 0x100_0000, 0x100_0000);
        }
        let half_b = dot(oc, r.direction());
        let cc = oc.len_squared().sub(self.radius.mul(self.radius));
        proof {
            lemma_fmul_mag(half_b.0 as int, half_b.0 as int, 0x6_0000_0000, 0x6_0000_0000);
            lemma_fmul_mag(a.0 as int, cc.0 as int, 0xc_0000_0000, 0x14_0000_0000);
        }
        let disc = half_b.mul(half_b).sub(a.mul(cc));
        if a.0 == 0 || disc.0 < 0 {
            return None;
        }
        let sq = disc.sqrt();
        proof {
            assert(sq.0 <= 0x400_0000_0000) by (nonlinear_arith)
                requires
                    sq.0 >= 0,
                    sq.0 * sq.0 <= disc.0 * 65536,
                    disc.0 <= 0x114_0000_0000_0000;
        }
        let num1 = half_b.neg().sub(sq);
        let r1 = num1.div(a);
        let root = if t_min.0 <= r1.0 {
            if t_max.0 < r1.0 {
                return None;
            }
            r1
        } else {
            let num2 = half_b.neg().add(sq);
            let r2 = num2.div(a);
            if t_min.0 <= r2.0 && r2.0 <= t_max.0 {
                r2
            } else {
                return None;
            }
        };
        let p = r.at(root);
        proof {
            lemma_fmul_mag(r@.dir.x, root.0 as int, 0x100_0000, 0x100_0000);
            lemma_fmul_mag(r@.dir.y, root.0 as int, 0x100_0000, 0x100_0000);
            lemma_fmul_mag(r@.dir.z, root.0 as int, 0x100_0000, 0x100_0000);
        }
        let diff = p.minus(self.center);
        proof {
            lemma_fdiv_mag(diff@.x, self.radius.0 as int, 0x2_0200_0000, 256);
            lemma_fdiv_mag(diff@.y, self.radius.0 as int, 0x2_0200_0000, 256);
            lemma_fdiv_mag(diff@.z, self.radius.0 as int, 0x2_0200_0000, 256);
        }
        let outward_normal = diff.div_s(self.radius);
        let mut u = Fx(0);
        let mut v = Fx(0);
        get_sphere_uv(&outward_normal, &mut u, &mut v);
        let dw = dot_wide(r.direction(), outward_normal);
        let front_face = dw.0 < 0;
        let normal = if front_face {
            outward_normal
        } else {
            outward_normal.inv()
        };
        let rec = HitRecord { p, normal, mat: &self.mat_ptr, t: root, u, v, front_face };
        Some(rec)
    }

    /// The axis-aligned box of the sphere: the center offset by the radius
    /// on every axis. A sphere always has a box.
    pub fn bounding_box(&self, time0: Fx, time1: Fx, output_box: &mut Bb) -> (res: bool)
        requires
            self.wf(),
        ensures
            res,
            final(output_box).spec_min() == vminus(
                self.center@,
                V3 {
                    x: self.radius.0 as int,
                    y: self.radius.0 as int,
                    z: self.radius.0 as int,
                },
            ),
            final(output_box).spec_max() == vplus(
                self.center@,
                V3 {
                    x: self.radius.0 as int,
                    y: self.radius.0 as int,
                    z: self.radius.0 as int,
                },
            ),
    {
        let rvec = Vec3::from(self.radius, self.radius, self.radius);
        *output_box = Bb::from(&self.center.minus(rvec), &self.center.plus(rvec));
        true
    }
}

/// The dot product against a possibly large outward normal, which can
/// exceed the range the shared `dot` accepts when the radius is small.
fn dot_wide(a: Vec3, b: Vec3) -> (r: Fx)
    requires
        vbounded(a@, 0x200_0000),
        vbounded(b@, 0x400_0000_0000),
    ensures
        r.0 == vdot(a@, b@),
{
    proof {
        lemma_fmul_mag(a@.x, b@.x, 0x200_0000, 0x400_0000_0000);
        lemma_fmul_mag(a@.y, b@.y, 0x200_0000, 0x400_0000_0000);
        lemma_fmul_mag(a@.z, b@.z, 0x200_0000, 0x400_0000_0000);
    }
    a.x.mul(b.x).add(a.y.mul(b.y)).add(a.z.mul(b.z))
}

/// Rational approximation of `atan` on `[0, 1]`.
fn atanq_exec(z: Fx) -> (r: Fx)
    requires
        0 <= z.0 <= 65536,
    ensures
        r.0 == atanq(z.0 as int),
        0 <= r.0 <= 56568,
{
    proof {
        lemma_fmul_mag(z.0 as int, 51472, 65536, 51472);
        lemma_fmul_mag(4345, z.0 as int, 4345, 65536);
        lemma_fmul_mag(z.0 as int, 65536 - z.0 as int, 65536, 65536);
        lemma_fmul_sq(z.0 as int);
        assert(z.0 * (65536 - z.0) <= 32768 * 32768) by (nonlinear_arith)
            requires
                0 <= z.0 <= 65536;
        vstd::arithmetic::div_mod::lemma_div_is_ordered(
            z.0 as int * (65536 - z.0 as int),
            (32768 * 32768) as int,
            65536,
        );
        lemma_tdiv_mag(z.0 as int * (65536 - z.0 as int), 65536);
        assert(fmul(z.0 as int, 65536 - z.0 as int) >= 0) by {
            assert(z.0 as int * (65536 - z.0 as int) >= 0) by (nonlinear_arith)
                requires
                    0 <= z.0 <= 65536;
        }
        lemma_fmul_mag(
            fmul(z.0 as int, 65536 - z.0 as int),
            16038 + fmul(4345, z.0 as int),
            16384,
            20383,
        );
        assert(fmul(4345, z.0 as int) >= 0) by {
            assert(4345 * z.0 >= 0) by (nonlinear_arith)
                requires
                    z.0 >= 0;
        }
        assert(fmul(z.0 as int, 51472) >= 0) by {
            assert(z.0 as int * 51472 >= 0) by (nonlinear_arith)
                requires
                    z.0 >= 0;
        }
        assert(fmul(
            fmul(z.0 as int, 65536 - z.0 as int),
            16038 + fmul(4345, z.0 as int),
        ) >= 0) by {
            assert(fmul(z.0 as int, 65536 - z.0 as int) * (16038 + fmul(4345, z.0 as int))
                >= 0) by (nonlinear_arith)
                requires
                    fmul(z.0 as int, 65536 - z.0 as int) >= 0,
                    fmul(4345, z.0 as int) >= 0;
            lemma_tdiv_mag(
                fmul(z.0 as int, 65536 - z.0 as int) * (16038 + fmul(4345, z.0 as int)),
                65536,
            );
            vstd::arithmetic::div_mod::lemma_div_is_ordered(
                0,
                fmul(z.0 as int, 65536 - z.0 as int) * (16038 + fmul(4345, z.0 as int)),
                65536,
            );
        }
    }
    let a = z.mul(Fx(51472));
    let hump = z.mul(Fx(65536).sub(z));
    let coeff = Fx(16038).add(Fx(4345).mul(z));
    let corr = hump.mul(coeff);
    a.add(corr)
}

/// The angle of `(x, y)` from the positive x axis, in `[0, 2 pi)` scaled.
fn atan2pos_exec(y: Fx, x: Fx) -> (r: Fx)
    requires
        sabs(x.0 as int) <= 0x4000_0000_0000,
        sabs(y.0 as int) <= 0x4000_0000_0000,
    ensures
        r.0 == atan2pos(y.0 as int, x.0 as int),
        0 <= r.0 <= 411775,
        y.0 >= 0 ==> r.0 <= 205887,
{
    let ax = if x.0 >= 0 {
        x
    } else {
        x.neg()
    };
    let ay = if y.0 >= 0 {
        y
    } else {
        y.neg()
    };
    if ax.0 == 0 && ay.0 == 0 {
        return Fx(0);
    }
    let base = if ax.0 >= ay.0 {
        proof {
            vstd::arithmetic::div_mod::lemma_div_is_ordered(
                ay.0 as int * 65536,
                ax.0 as int * 65536,
                ax.0 as int,
            );
            vstd::arithmetic::div_mod::lemma_div_multiples_vanish(65536, ax.0 as int);
            vstd::arithmetic::div_mod::lemma_div_pos_is_pos(ay.0 as int * 65536, ax.0 as int);
        }
        let z = ay.div(ax);
        atanq_exec(z)
    } else {
        proof {
            vstd::arithmetic::div_mod::lemma_div_is_ordered(
                ax.0 as int * 65536,
                ay.0 as int * 65536,
                ay.0 as int,
            );
            vstd::arithmetic::div_mod::lemma_div_multiples_vanish(65536, ay.0 as int);
            vstd::arithmetic::div_mod::lemma_div_pos_is_pos(ax.0 as int * 65536, ay.0 as int);
        }
        let z = ax.div(ay);
        Fx(HALF_PI_RAW).sub(atanq_exec(z))
    };
    if x.0 >= 0 && y.0 >= 0 {
        base
    } else if x.0 < 0 && y.0 >= 0 {
        Fx(205887).sub(base)
    } else if x.0 < 0 {
        Fx(205887).add(base)
    } else {
        Fx(411775).sub(base)
    }
}

/// The spherical texture coordinates of a point on the unit sphere; the
/// seam sits where the azimuth wraps, behind the negative x axis.
pub fn get_sphere_uv(p: &Point3, u: &mut Fx, v: &mut Fx)
    requires
        vbounded(p@, 0x4000_0000_0000),
    ensures
        final(u).0 == sphere_u(p@),
        final(v).0 == sphere_v(p@),
        0 <= final(u).0 <= 65536,
        0 <= final(v).0 <= 65536,
{
    let phi = atan2pos_exec(p.z(), p.x().neg());
    proof {
        lemma_tdiv_mag(phi.0 as int * 65536, PI2_RAW as int);
        vstd::arithmetic::div_mod::lemma_div_is_ordered(
            phi.0 as int * 65536,
            (411775 * 65536) as int,
            411775,
        );
        vstd::arithmetic::div_mod::lemma_div_multiples_vanish(65536, 411775);
        vstd::arithmetic::div_mod::lemma_div_pos_is_pos(phi.0 as int * 65536, 411775);
    }
    *u = phi.div(Fx(PI2_RAW));
    let w = p.y().neg().min(Fx(65536)).max(Fx(-65536));
    proof {
        lemma_fmul_mag(w.0 as int, w.0 as int, 65536, 65536);
        lemma_fmul_sq(w.0 as int);
    }
    let s = Fx(65536).sub(w.mul(w)).sqrt();
    proof {
        assert(s.0 <= 0x10_0000) by (nonlinear_arith)
            requires
                s.0 >= 0,
                s.0 * s.0 <= (65536 - fmul(w.0 as int, w.0 as int)) * 65536,
                0 <= fmul(w.0 as int, w.0 as int) <= 65536;
    }
    let theta = atan2pos_exec(s, w);
    proof {
        lemma_tdiv_mag(theta.0 as int * 65536, 205887);
        vstd::arithmetic::div_mod::lemma_div_is_ordered(
            theta.0 as int * 65536,
            (205887 * 65536) as int,
            205887,
        );
        vstd::arithmetic::div_mod::lemma_div_multiples_vanish(65536, 205887);
        vstd::arithmetic::div_mod::lemma_div_pos_is_pos(theta.0 as int * 65536, 205887);
        assert(theta.0 <= 205887);
    }
    *v = theta.div(Fx(205887));
}

} // verus!
