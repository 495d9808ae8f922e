//! The transient result of a successful intersection test, with the
//! front-face convention: the stored normal always points against the
//! incoming ray.
use vstd::prelude::*;

use crate::aabb::Bb;
use crate::fx::{Fx, sabs};
use crate::material::{Material, mwf};
use crate::ray::{Ray, RayM};
use crate::rect::{
    Quadrilateral, XyRect, XzRect, YzRect, in_range, quad_cand_t, quad_rec, xy_cand_t, xy_rec,
    xz_cand_t, xz_rec, yz_cand_t, yz_rec,
};
use crate::sphere::{Sphere, sphere_cand_t, sphere_rec};
use crate::vec3::{Point3, V3, Vec3, dot, vbounded, vdot, vminus, vneg, vplus};

verus! {

/// Mathematical model of a hit: the geometric fields of the record.
pub ghost struct HitM {
    pub p: V3,
    pub normal: V3,
    pub t: int,
    pub u: int,
    pub v: int,
    pub front_face: bool,
}

/// Whether the geometric outward normal faces the incoming ray.
pub open spec fn is_front_face(dir: V3, outward: V3) -> bool {
    vdot(dir, outward) < 0
}

/// The stored normal: the outward normal, flipped when the ray starts
/// inside the surface.
pub open spec fn oriented_normal(dir: V3, outward: V3) -> V3 {
    if is_front_face(dir, outward) {
        outward
    } else {
        vneg(outward)
    }
}

/// The record of one intersection; it borrows the material at the hit
/// point for the lifetime of the query.
#[derive(Clone, Copy)]
pub struct HitRecord<'a> {
    pub p: Point3,
    pub normal: Vec3,
    pub mat: &'a Material,
    pub t: Fx,
    pub u: Fx,
    pub v: Fx,
    pub front_face: bool,
}

impl<'a> View for HitRecord<'a> {
    type V = HitM;

    open spec fn view(&self) -> HitM {
        HitM {
            p: self.p@,
            normal: self.normal@,
            t: self.t.0 as int,
            u: self.u.0 as int,
            v: self.v.0 as int,
            front_face: self.front_face,
        }
    }
}

impl<'a> HitRecord<'a> {
    /// Stores the normal oriented against the incoming ray, recording in
    /// `front_face` whether the geometric outward normal already was.
    pub fn set_face_normal(&mut self, r: Ray, outward_normal: Vec3)
        requires
            vbounded(r@.dir, 0x4000_0000),
            vbounded(outward_normal@, 0x4000_0000),
        ensures
            final(self).front_face == is_front_face(r@.dir, outward_normal@),
            final(self).normal@ == oriented_normal(r@.dir, outward_normal@),
            final(self).p == old(self).p,
            final(self).mat == old(self).mat,
            final(self).t == old(self).t,
            final(self).u == old(self).u,
            final(self).v == old(self).v,
    {
        let d = dot(r.direction(), outward_normal);
        self.front_face = d.0 < 0;
        self.normal = if self.front_face {
            outward_normal
        } else {
            outward_normal.inv()
        };
    }
}

/// A geometric surface: the closed set of primitives a ray can intersect.
pub enum Surface {
    Sphere(Sphere),
    XyRect(XyRect),
    XzRect(XzRect),
    YzRect(YzRect),
    Quad(Quadrilateral),
}

/// Well-formedness of a surface: its geometry within the scene bounds and
/// its material well-formed.
pub open spec fn swf(s: Surface) -> bool {
    match s {
        Surface::Sphere(sp) => sp.wf(),
        Surface::XyRect(rc) => rc.wf(),
        Surface::XzRect(rc) => rc.wf(),
        Surface::YzRect(rc) => rc.wf(),
        Surface::Quad(q) => q.wf(),
    }
}

/// The candidate intersection parameter of a ray with a surface: bounded
/// below by `t_min`, unbounded above.
pub open spec fn surface_cand_t(s: Surface, rm: RayM, t_min: int) -> Option<int> {
    match s {
        Surface::Sphere(sp) => sphere_cand_t(sp.center@, sp.radius.0 as int, rm, t_min),
        Surface::XyRect(rc) => xy_cand_t(
            rc.x0.0 as int,
            rc.x1.0 as int,
            rc.y0.0 as int,
            rc.y1.0 as int,
            rc.k.0 as int,
            rm,
            t_min,
        ),
        Surface::XzRect(rc) => xz_cand_t(
            rc.x0.0 as int,
            rc.x1.0 as int,
            rc.z0.0 as int,
            rc.z1.0 as int,
            rc.k.0 as int,
            rm,
            t_min,
        ),
        Surface::YzRect(rc) => yz_cand_t(
            rc.y0.0 as int,
            rc.y1.0 as int,
            rc.z0.0 as int,
            rc.z1.0 as int,
            rc.k.0 as int,
            rm,
            t_min,
        ),
        Surface::Quad(q) => quad_cand_t(q, rm, t_min),
    }
}

/// The geometric fields of the hit record a surface produces at `t`.
pub open spec fn surface_rec(s: Surface, rm: RayM, t: int) -> HitM {
    match s {
        Surface::Sphere(sp) => sphere_rec(sp, rm, t),
        Surface::XyRect(rc) => xy_rec(rc, rm, t),
        Surface::XzRect(rc) => xz_rec(rc, rm, t),
        Surface::YzRect(rc) => yz_rec(rc, rm, t),
        Surface::Quad(q) => quad_rec(q, rm, t),
    }
}

/// The material a surface carries.
pub open spec fn surface_mat(s: Surface) -> Material {
    match s {
        Surface::Sphere(sp) => sp.mat_ptr,
        Surface::XyRect(rc) => rc.mp,
        Surface::XzRect(rc) => rc.mp,
        Surface::YzRect(rc) => rc.mp,
        Surface::Quad(q) => q.mp,
    }
}

/// The corners of a surface's bounding box.
pub open spec fn surface_box(s: Surface) -> (V3, V3) {
    match s {
        Surface::Sphere(sp) => (
            vminus(
                sp.center@,
                V3 { x: sp.radius.0 as int, y: sp.radius.0 as int, z: sp.radius.0 as int },
            ),
            vplus(
                sp.center@,
                V3 { x: sp.radius.0 as int, y: sp.radius.0 as int, z: sp.radius.0 as int },
            ),
        ),
        Surface::XyRect(rc) => (
            V3 { x: rc.x0.0 as int, y: rc.y0.0 as int, z: rc.k.0 - 7 },
            V3 { x: rc.x1.0 as int, y: rc.y1.0 as int, z: rc.k.0 + 7 },
        ),
        Surface::XzRect(rc) => (
            V3 { x: rc.x0.0 as int, y: rc.k.0 - 7, z: rc.z0.0 as int },
            V3 { x: rc.x1.0 as int, y: rc.k.0 + 7, z: rc.z1.0 as int },
        ),
        Surface::YzRect(rc) => (
            V3 { x: rc.k.0 - 7, y: rc.y0.0 as int, z: rc.z0.0 as int },
            V3 { x: rc.k.0 + 7, y: rc.y1.0 as int, z: rc.z1.0 as int },
        ),
        Surface::Quad(q) => (
            V3 { x: q.k.0 - 7, y: q.miny.0 as int, z: q.minz.0 as int },
            V3 { x: q.k.0 + 7, y: q.maxy.0 as int, z: q.maxz.0 as int },
        ),
    }
}

impl Surface {
    /// Whether this surface satisfies its well-formedness condition;
    /// callers outside the verified world use it to establish `swf`.
    pub fn wf_check(&self) -> (r: bool)
        ensures
            r == swf(*self),
    {
        match self {
            Surface::Sphere(sp) => {
                let rad_ok = (sp.radius.0 >= 256 || sp.radius.0 <= -256) && sp.radius.0
                    <= 0x100_0000 && sp.radius.0 >= -0x100_0000;
                in_mag(sp.center.x.0, 0x100_0000) && in_mag(sp.center.y.0, 0x100_0000) && in_mag(
                    sp.center.z.0,
                    0x100_0000,
                ) && rad_ok && sp.mat_ptr.wf_check()
            },
            Surface::XyRect(rc) => in_mag(rc.x0.0, 0x100_0000) && in_mag(rc.x1.0, 0x100_0000)
                && in_mag(rc.y0.0, 0x100_0000) && in_mag(rc.y1.0, 0x100_0000) && in_mag(
                rc.k.0,
                0x100_0000,
            ) && rc.x0.0 + 256 <= rc.x1.0 && rc.y0.0 + 256 <= rc.y1.0 && rc.mp.wf_check(),
            Surface::XzRect(rc) => in_mag(rc.x0.0, 0x100_0000) && in_mag(rc.x1.0, 0x100_0000)
                && in_mag(rc.z0.0, 0x100_0000) && in_mag(rc.z1.0, 0x100_0000) && in_mag(
                rc.k.0,
                0x100_0000,
            ) && rc.x0.0 + 256 <= rc.x1.0 && rc.z0.0 + 256 <= rc.z1.0 && rc.mp.wf_check(),
            Surface::YzRect(rc) => in_mag(rc.y0.0, 0x100_0000) && in_mag(rc.y1.0, 0x100_0000)
                && in_mag(rc.z0.0, 0x100_0000) && in_mag(rc.z1.0, 0x100_0000) && in_mag(
                rc.k.0,
                0x100_0000,
            ) && rc.y0.0 + 256 <= rc.y1.0 && rc.z0.0 + 256 <= rc.z1.0 && rc.mp.wf_check(),
            Surface::Quad(q) => in_mag(q.z0.0, 0x100_0000) && in_mag(q.z1.0, 0x100_0000) && in_mag(
                q.z2.0,
                0x100_0000,
            ) && in_mag(q.z3.0, 0x100_0000) && in_mag(q.y0.0, 0x100_0000) && in_mag(
                q.y1.0,
                0x100_0000,
            ) && in_mag(q.y2.0, 0x100_0000) && in_mag(q.y3.0, 0x100_0000) && in_mag(
                q.k.0,
                0x100_0000,
            ) && in_mag(q.minz.0, 0x100_0000) && in_mag(q.maxz.0, 0x100_0000) && in_mag(
                q.miny.0,
                0x100_0000,
            ) && in_mag(q.maxy.0, 0x100_0000) && q.minz.0 + 256 <= q.maxz.0 && q.miny.0 + 256
                <= q.maxy.0 && q.mp.wf_check(),
        }
    }

    /// The nearest intersection of the ray with this surface in the given
    /// parameter range, dispatched by variant.
    pub fn hit<'a>(&'a self, r: &Ray, t_min: Fx, t_max: Fx) -> (res: Option<HitRecord<'a>>)
        requires
            swf(*self),
            vbounded(r@.orig, 0x100_0000),
            vbounded(r@.dir, 0x100_0000),
            sabs(t_min.0 as int) <= 0x100_0000,
            sabs(t_max.0 as int) <= 0x100_0000,
        ensures
            match res {
                Some(rec) => in_range(surface_cand_t(*self, r@, t_min.0 as int), t_max.0 as int)
                    == Some(rec@.t) && rec@ == surface_rec(*self, r@, rec@.t) && *rec.mat
                    == surface_mat(*self),
                None => in_range(surface_cand_t(*self, r@, t_min.0 as int), t_max.0 as int)
                    is None,
            },
    {
        match self {
            Surface::Sphere(sp) => sp.hit(r, t_min, t_max),
            Surface::XyRect(rc) => rc.hit(r, t_min, t_max),
            Surface::XzRect(rc) => rc.hit(r, t_min, t_max),
            Surface::YzRect(rc) => rc.hit(r, t_min, t_max),
            Surface::Quad(q) => q.hit(r, t_min, t_max),
        }
    }

    /// The bounding box of this surface; every variant has one.
    pub fn bounding_box(&self, time0: Fx, time1: Fx, output_box: &mut Bb) -> (res: bool)
        requires
            swf(*self),
        ensures
            res,
            final(output_box).spec_min() == surface_box(*self).0,
            final(output_box).spec_max() == surface_box(*self).1,
    {
        match self {
            Surface::Sphere(sp) => sp.bounding_box(time0, time1, output_box),
            Surface::XyRect(rc) => rc.bounding_box(time0, time1, output_box),
            Surface::XzRect(rc) => rc.bounding_box(time0, time1, output_box),
            Surface::YzRect(rc) => rc.bounding_box(time0, time1, output_box),
            Surface::Quad(q) => q.bounding_box(time0, time1, output_box),
        }
    }
}

/// Whether a raw scalar lies within the symmetric magnitude bound.
pub(crate) fn in_mag(x: i64, m: i64) -> (r: bool)
    requires
        m >= 0,
    ensures
        r == (sabs(x as int) <= m),
{
    x <= m && x >= -m
}

} // verus!
