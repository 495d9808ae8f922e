//! The camera: an orthonormal-ish view frame built from the look
//! direction, a viewport sized by the vertical field of view, and a ray
//! generator with lens defocus and a shutter interval. The tangent is a
//! truncated series, exact as integer arithmetic.
use vstd::prelude::*;

use crate::fx::{Fx, fdiv, fmul, lemma_fdiv_mag, lemma_fmul_mag, lemma_fmul_sq, lemma_tdiv_mag, sabs, tdiv};
use crate::ray::{Ray, RayM};
use crate::utils::{degrees_to_radians, random_double};
use crate::vec3::{
    Point3, UNIT_MAG, V3, Vec3, cross, random_in_unit_disk, unit_vector, vbounded, vcross,
    vlen_sq, vminus, vplus, vscale, vunit,
};

verus! {

/// The tangent of a half angle in `[0, pi/4]`, from truncated sine and
/// cosine series.
pub open spec fn tan_half(x: int) -> int {
    let x2 = fmul(x, x);
    let x3 = fmul(x2, x);
    let x4 = fmul(x2, x2);
    let x5 = fmul(x4, x);
    let s = x - tdiv(x3, 6) + tdiv(x5, 120);
    let c = 65536 - tdiv(x2, 2) + tdiv(x4, 24);
    fdiv(s, c)
}

/// Half the field-of-view angle in radians.
pub open spec fn half_theta(vfov: int) -> int {
    tdiv(fdiv(fmul(vfov, 205887), 11796480), 2)
}

/// The view frame's backward axis: the unit vector from the target to the
/// eye.
pub open spec fn cam_w(lookfrom: V3, lookat: V3) -> V3 {
    vunit(vminus(lookfrom, lookat))
}

/// The view frame's right axis; a degenerate up vector falls back to a
/// fixed unit axis.
pub open spec fn cam_u(vup: V3, w: V3) -> V3 {
    if vlen_sq(vcross(vup, w)) >= 1 {
        vunit(vcross(vup, w))
    } else {
        V3 { x: 0, y: 0, z: 65536 }
    }
}

/// The tangent of half the field of view, from the truncated series.
fn tan_half_exec(vfov: Fx) -> (h: Fx)
    requires
        65 <= vfov.0 <= 5898240,
    ensures
        h.0 == tan_half(half_theta(vfov.0 as int)),
        sabs(h.0 as int) <= 104857,
{
        let theta = degrees_to_radians(vfov);
        proof {
            lemma_fmul_mag(vfov.0 as int, 205887, 5898240, 205887);
            lemma_fdiv_mag(fmul(vfov.0 as int, 205887), 11796480, 18529830, 11796480);
            lemma_tdiv_mag(theta.0 as int, 2);
        }
        let x = theta.div_int(2);
        proof {
            assert(sabs(theta.0 as int) <= 102943);
            vstd::arithmetic::div_mod::lemma_div_is_ordered(sabs(theta.0 as int), 102943, 2);
            vstd::arithmetic::div_mod::lemma_div_pos_is_pos(sabs(theta.0 as int), 2);
            assert(sabs(x.0 as int) <= 51500);
            lemma_fmul_mag(x.0 as int, x.0 as int, 51500, 51500);
            lemma_fmul_sq(x.0 as int);
        }
        let x2 = x.mul(x);
        proof {
            lemma_fmul_mag(x2.0 as int, x.0 as int, 40470, 51500);
            lemma_fmul_mag(x2.0 as int, x2.0 as int, 40470, 40470);
            lemma_fmul_sq(x2.0 as int);
            lemma_tdiv_mag(x2.0 as int, 2);
            lemma_tdiv_mag(fmul(x2.0 as int, x.0 as int), 6);
        }
        let x3 = x2.mul(x);
        let x4 = x2.mul(x2);
        proof {
            lemma_fmul_mag(x4.0 as int, x.0 as int, 24991, 51500);
            lemma_tdiv_mag(x4.0 as int, 24);
            lemma_tdiv_mag(fmul(x4.0 as int, x.0 as int), 120);
        }
        let x5 = x4.mul(x);
        proof {
            vstd::arithmetic::div_mod::lemma_div_is_ordered(sabs(fmul(x2.0 as int, x.0 as int)), 31802, 6);
            vstd::arithmetic::div_mod::lemma_div_is_ordered(sabs(fmul(x4.0 as int, x.0 as int)), 19639, 120);
            vstd::arithmetic::div_mod::lemma_div_is_ordered(sabs(x2.0 as int), 40470, 2);
            vstd::arithmetic::div_mod::lemma_div_pos_is_pos(sabs(fmul(x2.0 as int, x.0 as int)), 6);
            vstd::arithmetic::div_mod::lemma_div_pos_is_pos(sabs(fmul(x4.0 as int, x.0 as int)), 120);
            vstd::arithmetic::div_mod::lemma_div_pos_is_pos(sabs(x2.0 as int), 2);
        }
        let s = x.sub(x3.div_int(6)).add(x5.div_int(120));
        let c = Fx(65536).sub(x2.div_int(2)).add(x4.div_int(24));
        proof {
            assert(c.0 >= 45000);
            lemma_fdiv_mag(s.0 as int, c.0 as int, 72000, 45000);
        }
        let h = s.div(c);
        h
}

/// The camera's immutable configuration.
pub struct Camera {
    pub origin: Point3,
    pub lower_left_corner: Point3,
    pub horizontal: Vec3,
    pub vertical: Vec3,
    pub u: Vec3,
    pub v: Vec3,
    pub w: Vec3,
    pub lens_radius: Fx,
    pub time0: Fx,
    pub time1: Fx,
}

impl Camera {
    /// Ranges under which `get_ray`'s arithmetic stays in bounds.
    pub open spec fn wf(self) -> bool {
        vbounded(self.origin@, 0x100_0000) && vbounded(self.lower_left_corner@, 0x4000_0000)
            && vbounded(self.horizontal@, 0x4000_0000) && vbounded(self.vertical@, 0x4000_0000)
            && vbounded(self.u@, UNIT_MAG as int) && vbounded(self.v@, 0x100_0000) && vbounded(
            self.w@,
            UNIT_MAG as int,
        ) && 0 <= self.lens_radius.0 <= 0x100_0000 && self.time0.0 < self.time1.0 && sabs(
            self.time0.0 as int,
        ) <= 0x100_0000 && sabs(self.time1.0 as int) <= 0x100_0000
    }

    /// Builds the view frame and viewport from the look configuration.
    /// The vertical field of view is capped at 90 degrees: the tangent
    /// comes from a truncated series that is only accurate to a quarter
    /// turn, a limit of the fixed-point numeric model.
    #[verifier::rlimit(80)]
    pub fn new(
        lookfrom: Point3,
        lookat: Point3,
        vup: Vec3,
        vfov: Fx,
        aspect_ratio: Fx,
        aperture: Fx,
        focus_dist: Fx,
        time0: Fx,
        time1: Fx,
    ) -> (r: Camera)
        requires
            vbounded(lookfrom@, 0x100_0000),
            vbounded(lookat@, 0x100_0000),
            vbounded(vup@, 0x100_0000),
            vlen_sq(vminus(lookfrom@, lookat@)) >= 1,
            65 <= vfov.0 <= 5898240,
            0 < aspect_ratio.0 <= 0x40000,
            0 <= aperture.0 <= 0x100_0000,
            0 < focus_dist.0 <= 0x100_0000,
            time0.0 < time1.0,
            sabs(time0.0 as int) <= 0x100_0000,
            sabs(time1.0 as int) <= 0x100_0000,
        ensures
            r.wf(),
            r.origin@ == lookfrom@,
            r.w@ == cam_w(lookfrom@, lookat@),
            r.u@ == cam_u(vup@, r.w@),
            r.v@ == vcross(r.w@, r.u@),
            r.horizontal@ == vscale(
                vscale(r.u@, focus_dist.0 as int),
                fmul(aspect_ratio.0 as int, 2 * tan_half(half_theta(vfov.0 as int))),
            ),
            r.vertical@ == vscale(
                vscale(r.v@, focus_dist.0 as int),
                2 * tan_half(half_theta(vfov.0 as int)),
            ),
            r.lower_left_corner@ == vminus(
                vminus(
                    vminus(lookfrom@, vscale(r.horizontal@, 32768)),
                    vscale(r.vertical@, 32768),
                ),
                vscale(r.w@, focus_dist.0 as int),
            ),
            r.lens_radius.0 == tdiv(aperture.0 as int, 2),
            r.time0 == time0,
            r.time1 == time1,
    {
        let h = tan_half_exec(vfov);
        proof {
            lemma_fmul_mag(aspect_ratio.0 as int, 2 * h.0 as int, 0x40000, 209714);
        }
        let viewport_height = h.add(h);
        let viewport_width = aspect_ratio.mul(viewport_height);
        let w = unit_vector(lookfrom.minus(lookat));
        let cu = cross(vup, w);
        proof {
            lemma_fmul_mag(vup@.y, w@.z, 0x100_0000, 0x30000);
            lemma_fmul_mag(vup@.z, w@.y, 0x100_0000, 0x30000);
            lemma_fmul_mag(vup@.z, w@.x, 0x100_0000, 0x30000);
            lemma_fmul_mag(vup@.x, w@.z, 0x100_0000, 0x30000);
            lemma_fmul_mag(vup@.x, w@.y, 0x100_0000, 0x30000);
            lemma_fmul_mag(vup@.y, w@.x, 0x100_0000, 0x30000);
        }
        let u = if cu.len_squared().0 >= 1 {
            unit_vector(cu)
        } else {
            Vec3::from(Fx(0), Fx(0), Fx(65536))
        };
        let v = cross(w, u);
        proof {
            lemma_fmul_mag(w@.y, u@.z, 0x30000, 0x30000);
            lemma_fmul_mag(w@.z, u@.y, 0x30000, 0x30000);
            lemma_fmul_mag(w@.z, u@.x, 0x30000, 0x30000);
            lemma_fmul_mag(w@.x, u@.z, 0x30000, 0x30000);
            lemma_fmul_mag(w@.x, u@.y, 0x30000, 0x30000);
            lemma_fmul_mag(w@.y, u@.x, 0x30000, 0x30000);
        }
        let origin = lookfrom;
        proof {
            lemma_fmul_mag(u@.x, focus_dist.0 as int, 0x30000, 0x100_0000);
            lemma_fmul_mag(u@.y, focus_dist.0 as int, 0x30000, 0x100_0000);
            lemma_fmul_mag(u@.z, focus_dist.0 as int, 0x30000, 0x100_0000);
            lemma_fmul_mag(v@.x, focus_dist.0 as int, 0x12_0000, 0x100_0000);
            lemma_fmul_mag(v@.y, focus_dist.0 as int, 0x12_0000, 0x100_0000);
            lemma_fmul_mag(v@.z, focus_dist.0 as int, 0x12_0000, 0x100_0000);
        }
        let uf = u.scale(focus_dist);
        let vf = v.scale(focus_dist);
        proof {
            lemma_fmul_mag(uf@.x, viewport_width.0 as int, 0x300_0000, 838856);
            lemma_fmul_mag(uf@.y, viewport_width.0 as int, 0x300_0000, 838856);
            lemma_fmul_mag(uf@.z, viewport_width.0 as int, 0x300_0000, 838856);
            lemma_fmul_mag(vf@.x, viewport_height.0 as int, 0x1200_0000, 209714);
            lemma_fmul_mag(vf@.y, viewport_height.0 as int, 0x1200_0000, 209714);
            lemma_fmul_mag(vf@.z, viewport_height.0 as int, 0x1200_0000, 209714);
        }
        let horizontal = uf.scale(viewport_width);
        let vertical = vf.scale(viewport_height);
        proof {
            lemma_fmul_mag(w@.x, focus_dist.0 as int, 0x30000, 0x100_0000);
            lemma_fmul_mag(w@.y, focus_dist.0 as int, 0x30000, 0x100_0000);
            lemma_fmul_mag(w@.z, focus_dist.0 as int, 0x30000, 0x100_0000);
        }
        let lower_left_corner = origin.minus(horizontal.scale(Fx(32768))).minus(
            vertical.scale(Fx(32768)),
        ).minus(w.scale(focus_dist));
        let lens_radius = aperture.div_int(2);
        proof {
            lemma_tdiv_mag(aperture.0 as int, 2);
        }
        Camera {
            origin,
            lower_left_corner,
            horizontal,
            vertical,
            w,
            u,
            v,
            lens_radius,
            time0,
            time1,
        }
    }

    /// The ray `get_ray` produces from a lens sample `d` and a shutter
    /// time `q`.
    pub open spec fn ray_spec(self, s: int, t: int, d: V3, q: int) -> RayM {
        let rds = vscale(d, self.lens_radius.0 as int);
        let offset = vplus(vscale(self.u@, rds.x), vscale(self.v@, rds.y));
        RayM {
            orig: vplus(self.origin@, offset),
            dir: vminus(
                vminus(
                    vplus(
                        vplus(self.lower_left_corner@, vscale(self.horizontal@, s)),
                        vscale(self.vertical@, t),
                    ),
                    self.origin@,
                ),
                offset,
            ),
            tm: q,
        }
    }

    /// A ray through the image-plane sample `(s, t)`: its origin jittered
    /// over the lens disk for defocus blur, its time drawn uniformly from
    /// the shutter interval.
    pub fn get_ray(&self, s: Fx, t: Fx) -> (r: Ray)
        requires
            self.wf(),
            0 <= s.0 <= 65536,
            0 <= t.0 <= 65536,
        ensures
            exists|d: V3, q: int|
                vbounded(d, 65535) && vlen_sq(d) < 65536 && d.z == 0 && self.time0.0 <= q
                    < self.time1.0 && r@ == #[trigger] self.ray_spec(s.0 as int, t.0 as int, d, q),
    {
        let rd0 = random_in_unit_disk();
        proof {
            lemma_fmul_mag(rd0@.x, self.lens_radius.0 as int, 65535, 0x100_0000);
            lemma_fmul_mag(rd0@.y, self.lens_radius.0 as int, 65535, 0x100_0000);
            lemma_fmul_mag(rd0@.z, self.lens_radius.0 as int, 65535, 0x100_0000);
        }
        let rd = rd0.scale(self.lens_radius);
        proof {
            lemma_fmul_mag(self.u@.x, rd@.x, 0x30000, 0x100_0000);
            lemma_fmul_mag(self.u@.y, rd@.x, 0x30000, 0x100_0000);
            lemma_fmul_mag(self.u@.z, rd@.x, 0x30000, 0x100_0000);
            lemma_fmul_mag(self.v@.x, rd@.y, 0x100_0000, 0x100_0000);
            lemma_fmul_mag(self.v@.y, rd@.y, 0x100_0000, 0x100_0000);
            lemma_fmul_mag(self.v@.z, rd@.y, 0x100_0000, 0x100_0000);
        }
        let offset = self.u.scale(rd.x()).plus(self.v.scale(rd.y()));
        let tmv = random_double(self.time0, self.time1);
        let orig = self.origin.plus(offset);
        proof {
            lemma_fmul_mag(self.horizontal@.x, s.0 as int, 0x4000_0000, 65536);
            lemma_fmul_mag(self.horizontal@.y, s.0 as int, 0x4000_0000, 65536);
            lemma_fmul_mag(self.horizontal@.z, s.0 as int, 0x4000_0000, 65536);
            lemma_fmul_mag(self.vertical@.x, t.0 as int, 0x4000_0000, 65536);
            lemma_fmul_mag(self.vertical@.y, t.0 as int, 0x4000_0000, 65536);
            lemma_fmul_mag(self.vertical@.z, t.0 as int, 0x4000_0000, 65536);
        }
        let dir = self.lower_left_corner.plus(self.horizontal.scale(s)).plus(
            self.vertical.scale(t),
        ).minus(self.origin).minus(offset);
        let r = Ray::new(orig, dir, tmv);
        proof {
            assert(r@ == self.ray_spec(s.0 as int, t.0 as int, rd0@, tmv.0 as int));
        }
        r
    }
}

} // verus!
