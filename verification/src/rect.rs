//! Axis-aligned rectangles in the three coordinate planes, and a
//! quadrilateral restricted to a y-z plane with a crossing-number
//! point-in-polygon test. Texture coordinates interpolate linearly over
//! the extents; the quadrilateral's mapping is a clamped bilinear
//! simplification, approximate by intention and unstable at edges.
use vstd::prelude::*;

use crate::aabb::Bb;
use crate::fx::{Fx, fclamp, fdiv, fmul, lemma_fmul_mag, sabs};
use crate::hittable::{HitM, HitRecord, is_front_face, oriented_normal};
use crate::material::{Lambertian, Material, mwf};
use crate::ray::{Ray, RayM, ray_at};
use crate::utils::clamp;
use crate::vec3::{Color, Point3, V3, Vec3, dot, vbounded};

verus! {

/// The slab half-thickness used to inflate a planar box on its thin axis.
pub const PLANE_EPS: i64 = 7;

/// Linear interpolation coordinate over an extent, clamped to the unit
/// interval.
pub open spec fn extent_coord(w: int, lo: int, hi: int) -> int {
    fclamp(fdiv(w - lo, hi - lo), 0, 65536)
}

/// A rectangle in the x-y plane at depth `k`.
pub struct XyRect {
    pub mp: Material,
    pub x0: Fx,
    pub x1: Fx,
    pub y0: Fx,
    pub y1: Fx,
    pub k: Fx,
}

/// A rectangle in the x-z plane at height `k`.
pub struct XzRect {
    pub mp: Material,
    pub x0: Fx,
    pub x1: Fx,
    pub z0: Fx,
    pub z1: Fx,
    pub k: Fx,
}

/// A rectangle in the y-z plane at depth `k`.
pub struct YzRect {
    pub mp: Material,
    pub y0: Fx,
    pub y1: Fx,
    pub z0: Fx,
    pub z1: Fx,
    pub k: Fx,
}

/// A quadrilateral in the y-z plane at depth `k`, its vertices given in
/// rotational order.
pub struct Quadrilateral {
    pub mp: Material,
    pub z0: Fx,
    pub z1: Fx,
    pub z2: Fx,
    pub z3: Fx,
    pub y0: Fx,
    pub y1: Fx,
    pub y2: Fx,
    pub y3: Fx,
    pub minz: Fx,
    pub miny: Fx,
    pub maxz: Fx,
    pub maxy: Fx,
    pub k: Fx,
}

pub open spec fn xy_cand_t(x0: int, x1: int, y0: int, y1: int, k: int, rm: RayM, t_min: int) -> Option<int> {
    if rm.dir.z == 0 {
        None
    } else {
        let t = fdiv(k - rm.orig.z, rm.dir.z);
        if t < t_min {
            None
        } else {
            let x = rm.orig.x + fmul(t, rm.dir.x);
            let y = rm.orig.y + fmul(t, rm.dir.y);
            if x < x0 || x > x1 || y < y0 || y > y1 {
                None
            } else {
                Some(t)
            }
        }
    }
}

pub open spec fn xz_cand_t(x0: int, x1: int, z0: int, z1: int, k: int, rm: RayM, t_min: int) -> Option<int> {
    if rm.dir.y == 0 {
        None
    } else {
        let t = fdiv(k - rm.orig.y, rm.dir.y);
        if t < t_min {
            None
        } else {
            let x = rm.orig.x + fmul(t, rm.dir.x);
            let z = rm.orig.z + fmul(t, rm.dir.z);
            if x < x0 || x > x1 || z < z0 || z > z1 {
                None
            } else {
                Some(t)
            }
        }
    }
}

pub open spec fn yz_cand_t(y0: int, y1: int, z0: int, z1: int, k: int, rm: RayM, t_min: int) -> Option<int> {
    if rm.dir.x == 0 {
        None
    } else {
        let t = fdiv(k - rm.orig.x, rm.dir.x);
        if t < t_min {
            None
        } else {
            let y = rm.orig.y + fmul(t, rm.dir.y);
            let z = rm.orig.z + fmul(t, rm.dir.z);
            if y < y0 || y > y1 || z < z0 || z > z1 {
                None
            } else {
                Some(t)
            }
        }
    }
}

/// Whether one polygon edge straddles the scan line at `py` and crosses
/// it to the right of `pz`.
pub open spec fn edge_crosses(p1z: int, p1y: int, p2z: int, p2y: int, pz: int, py: int) -> bool {
    ((p1y > py) != (p2y > py)) && pz < fdiv(fmul(p2z - p1z, py - p1y), p2y - p1y) + p1z
}

/// The crossing-number test over the quadrilateral's four edges: an odd
/// number of crossings puts the point inside.
pub open spec fn quad_inside(q: Quadrilateral, pz: int, py: int) -> bool {
    let c0 = edge_crosses(q.z0.0 as int, q.y0.0 as int, q.z3.0 as int, q.y3.0 as int, pz, py);
    let c1 = edge_crosses(q.z1.0 as int, q.y1.0 as int, q.z0.0 as int, q.y0.0 as int, pz, py);
    let c2 = edge_crosses(q.z2.0 as int, q.y2.0 as int, q.z1.0 as int, q.y1.0 as int, pz, py);
    let c3 = edge_crosses(q.z3.0 as int, q.y3.0 as int, q.z2.0 as int, q.y2.0 as int, pz, py);
    (c0 != c1) != (c2 != c3)
}

pub open spec fn quad_cand_t(q: Quadrilateral, rm: RayM, t_min: int) -> Option<int> {
    if rm.dir.x == 0 {
        None
    } else {
        let t = fdiv(q.k.0 - rm.orig.x, rm.dir.x);
        if t < t_min {
            None
        } else {
            let y = rm.orig.y + fmul(t, rm.dir.y);
            let z = rm.orig.z + fmul(t, rm.dir.z);
            if quad_inside(q, z, y) {
                Some(t)
            } else {
                None
            }
        }
    }
}

/// Restriction of a candidate to the closed upper bound `t_max`.
pub open spec fn in_range(cand: Option<int>, t_max: int) -> Option<int> {
    match cand {
        Some(t) => if t <= t_max {
            Some(t)
        } else {
            None
        },
        None => None,
    }
}

pub open spec fn xy_rec(rc: XyRect, rm: RayM, t: int) -> HitM {
    let x = rm.orig.x + fmul(t, rm.dir.x);
    let y = rm.orig.y + fmul(t, rm.dir.y);
    let outward = V3 { x: 0, y: 0, z: 65536 };
    HitM {
        p: ray_at(rm, t),
        normal: oriented_normal(rm.dir, outward),
        t,
        u: extent_coord(x, rc.x0.0 as int, rc.x1.0 as int),
        v: extent_coord(y, rc.y0.0 as int, rc.y1.0 as int),
        front_face: is_front_face(rm.dir, outward),
    }
}

pub open spec fn xz_rec(rc: XzRect, rm: RayM, t: int) -> HitM {
    let x = rm.orig.x + fmul(t, rm.dir.x);
    let z = rm.orig.z + fmul(t, rm.dir.z);
    let outward = V3 { x: 0, y: 65536, z: 0 };
    HitM {
        p: ray_at(rm, t),
        normal: oriented_normal(rm.dir, outward),
        t,
        u: extent_coord(x, rc.x0.0 as int, rc.x1.0 as int),
        v: extent_coord(z, rc.z0.0 as int, rc.z1.0 as int),
        front_face: is_front_face(rm.dir, outward),
    }
}

pub open spec fn yz_rec(rc: YzRect, rm: RayM, t: int) -> HitM {
    let y = rm.orig.y + fmul(t, rm.dir.y);
    let z = rm.orig.z + fmul(t, rm.dir.z);
    let outward = V3 { x: 65536, y: 0, z: 0 };
    HitM {
        p: ray_at(rm, t),
        normal: oriented_normal(rm.dir, outward),
        t,
        u: extent_coord(y, rc.y0.0 as int, rc.y1.0 as int),
        v: extent_coord(z, rc.z0.0 as int, rc.z1.0 as int),
        front_face: is_front_face(rm.dir, outward),
    }
}

/// The quadrilateral's approximate texture coordinates at the in-plane
/// point `(z, y)`: clamped extent coordinates, blended term by term as a
/// written-out bilinear interpolation.
pub open spec fn quad_uv(q: Quadrilateral, z: int, y: int) -> (int, int) {
    let s = extent_coord(z, q.minz.0 as int, q.maxz.0 as int);
    let tt = extent_coord(y, q.miny.0 as int, q.maxy.0 as int);
    (fmul(65536 - tt, s) + fmul(tt, s), tt)
}

pub open spec fn quad_rec(q: Quadrilateral, rm: RayM, t: int) -> HitM {
    let y = rm.orig.y + fmul(t, rm.dir.y);
    let z = rm.orig.z + fmul(t, rm.dir.z);
    let outward = V3 { x: 0, y: 0, z: 65536 };
    HitM {
        p: ray_at(rm, t),
        normal: oriented_normal(rm.dir, outward),
        t,
        u: quad_uv(q, z, y).0,
        v: quad_uv(q, z, y).1,
        front_face: is_front_face(rm.dir, outward),
    }
}

impl XyRect {
    pub open spec fn wf(self) -> bool {
        sabs(self.x0.0 as int) <= 0x100_0000 && sabs(self.x1.0 as int) <= 0x100_0000 && sabs(
            self.y0.0 as int,
        ) <= 0x100_0000 && sabs(self.y1.0 as int) <= 0x100_0000 && sabs(self.k.0 as int)
            <= 0x100_0000 && self.x0.0 + 256 <= self.x1.0 && self.y0.0 + 256 <= self.y1.0 && mwf(
            self.mp,
        )
    }

    /// The degenerate rectangle with a black diffuse material.
    pub fn new() -> (r: XyRect)
        ensures
            r.x0.0 == 0 && r.x1.0 == 0 && r.y0.0 == 0 && r.y1.0 == 0 && r.k.0 == 0,
    {
        XyRect {
            mp: Material::Lambertian(Lambertian::from(Color::new())),
            x0: Fx(0),
            x1: Fx(0),
            y0: Fx(0),
            y1: Fx(0),
            k: Fx(0),
        }
    }

    pub fn from(x0: Fx, x1: Fx, y0: Fx, y1: Fx, k: Fx, mat: Material) -> (r: XyRect)
        ensures
            r.x0 == x0 && r.x1 == x1 && r.y0 == y0 && r.y1 == y1 && r.k == k && r.mp == mat,
    {
        XyRect { x0, x1, y0, y1, k, mp: mat }
    }

    /// The rectangle's box, inflated on the thin axis.
    pub fn bounding_box(&self, time0: Fx, time1: Fx, output_box: &mut Bb) -> (res: bool)
        requires
            self.wf(),
        ensures
            res,
            final(output_box).spec_min() == (V3 {
                x: self.x0.0 as int,
                y: self.y0.0 as int,
                z: self.k.0 - PLANE_EPS,
            }),
            final(output_box).spec_max() == (V3 {
                x: self.x1.0 as int,
                y: self.y1.0 as int,
                z: self.k.0 + PLANE_EPS,
            }),
    {
        *output_box = Bb::from(
            &Point3::from(self.x0, self.y0, self.k.sub(Fx(PLANE_EPS))),
            &Point3::from(self.x1, self.y1, self.k.add(Fx(PLANE_EPS))),
        );
        true
    }

    /// The intersection of the ray with the rectangle's plane, if it lands
    /// inside the extents and the parameter range.
    pub fn hit<'a>(&'a self, r: &Ray, t_min: Fx, t_max: Fx) -> (res: Option<HitRecord<'a>>)
        requires
            self.wf(),
            vbounded(r@.orig, 0x100_0000),
            vbounded(r@.dir, 0x100_0000),
            sabs(t_min.0 as int) <= 0x100_0000,
            sabs(t_max.0 as int) <= 0x100_0000,
        ensures
            match res {
                Some(rec) => in_range(
                    xy_cand_t(
                        self.x0.0 as int,
                        self.x1.0 as int,
                        self.y0.0 as int,
                        self.y1.0 as int,
                        self.k.0 as int,
                        r@,
                        t_min.0 as int,
                    ),
                    t_max.0 as int,
                ) == Some(rec@.t) && rec@ == xy_rec(*self, r@, rec@.t) && rec.mat == &self.mp,
                None => in_range(
                    xy_cand_t(
                        self.x0.0 as int,
                        self.x1.0 as int,
                        self.y0.0 as int,
                        self.y1.0 as int,
                        self.k.0 as int,
                        r@,
                        t_min.0 as int,
                    ),
                    t_max.0 as int,
                ) is None,
            },
    {
        if r.direction().z().0 == 0 {
            return None;
        }
        let t = self.k.sub(r.origin().z()).div(r.direction().z());
        if t.0 < t_min.0 || t.0 > t_max.0 {
            return None;
        }
        proof {
            lemma_fmul_mag(t.0 as int, r@.dir.x, 0x100_0000, 0x100_0000);
            lemma_fmul_mag(t.0 as int, r@.dir.y, 0x100_0000, 0x100_0000);
            lemma_fmul_mag(t.0 as int, r@.dir.z, 0x100_0000, 0x100_0000);
        }
        let x = r.origin().x().add(t.mul(r.direction().x()));
        let y = r.origin().y().add(t.mul(r.direction().y()));
        if x.0 < self.x0.0 || x.0 > self.x1.0 || y.0 < self.y0.0 || y.0 > self.y1.0 {
            return None;
        }
        let u = clamp(x.sub(self.x0).div(self.x1.sub(self.x0)), Fx(0), Fx(65536));
        let v = clamp(y.sub(self.y0).div(self.y1.sub(self.y0)), Fx(0), Fx(65536));
        let outward_normal = Vec3::from(Fx(0), Fx(0), Fx(65536));
        let mut rec = HitRecord {
            p: r.at(t),
            normal: outward_normal,
            mat: &self.mp,
            t,
            u,
            v,
            front_face: false,
        };
        rec.set_face_normal(*r, outward_normal);
        Some(rec)
    }
}

impl XzRect {
    pub open spec fn wf(self) -> bool {
        sabs(self.x0.0 as int) <= 0x100_0000 && sabs(self.x1.0 as int) <= 0x100_0000 && sabs(
            self.z0.0 as int,
        ) <= 0x100_0000 && sabs(self.z1.0 as int) <= 0x100_0000 && sabs(self.k.0 as int)
            <= 0x100_0000 && self.x0.0 + 256 <= self.x1.0 && self.z0.0 + 256 <= self.z1.0 && mwf(
            self.mp,
        )
    }

    /// The degenerate rectangle with a black diffuse material.
    pub fn new() -> (r: XzRect)
        ensures
            r.x0.0 == 0 && r.x1.0 == 0 && r.z0.0 == 0 && r.z1.0 == 0 && r.k.0 == 0,
    {
        XzRect {
            mp: Material::Lambertian(Lambertian::from(Color::new())),
            x0: Fx(0),
            x1: Fx(0),
            z0: Fx(0),
            z1: Fx(0),
            k: Fx(0),
        }
    }

    pub fn from(x0: Fx, x1: Fx, z0: Fx, z1: Fx, k: Fx, mat: Material) -> (r: XzRect)
        ensures
            r.x0 == x0 && r.x1 == x1 && r.z0 == z0 && r.z1 == z1 && r.k == k && r.mp == mat,
    {
        XzRect { x0, x1, z0, z1, k, mp: mat }
    }

    /// The rectangle's box, inflated on the thin axis.
    pub fn bounding_box(&self, time0: Fx, time1: Fx, output_box: &mut Bb) -> (res: bool)
        requires
            self.wf(),
        ensures
            res,
            final(output_box).spec_min() == (V3 {
                x: self.x0.0 as int,
                y: self.k.0 - PLANE_EPS,
                z: self.z0.0 as int,
            }),
            final(output_box).spec_max() == (V3 {
                x: self.x1.0 as int,
                y: self.k.0 + PLANE_EPS,
                z: self.z1.0 as int,
            }),
    {
        *output_box = Bb::from(
            &Point3::from(self.x0, self.k.sub(Fx(PLANE_EPS)), self.z0),
            &Point3::from(self.x1, self.k.add(Fx(PLANE_EPS)), self.z1),
        );
        true
    }

    /// The intersection of the ray with the rectangle's plane, if it lands
    /// inside the extents and the parameter range.
    pub fn hit<'a>(&'a self, r: &Ray, t_min: Fx, t_max: Fx) -> (res: Option<HitRecord<'a>>)
        requires
            self.wf(),
            vbounded(r@.orig, 0x100_0000),
            vbounded(r@.dir, 0x100_0000),
            sabs(t_min.0 as int) <= 0x100_0000,
            sabs(t_max.0 as int) <= 0x100_0000,
        ensures
            match res {
                Some(rec) => in_range(
                    xz_cand_t(
                        self.x0.0 as int,
                        self.x1.0 as int,
                        self.z0.0 as int,
                        self.z1.0 as int,
                        self.k.0 as int,
                        r@,
                        t_min.0 as int,
                    ),
                    t_max.0 as int,
                ) == Some(rec@.t) && rec@ == xz_rec(*self, r@, rec@.t) && rec.mat == &self.mp,
                None => in_range(
                    xz_cand_t(
                        self.x0.0 as int,
                        self.x1.0 as int,
                        self.z0.0 as int,
                        self.z1.0 as int,
                        self.k.0 as int,
                        r@,
                        t_min.0 as int,
                    ),
                    t_max.0 as int,
                ) is None,
            },
    {
        if r.direction().y().0 == 0 {
            return None;
        }
        let t = self.k.sub(r.origin().y()).div(r.direction().y());
        if t.0 < t_min.0 || t.0 > t_max.0 {
            return None;
        }
        proof {
            lemma_fmul_mag(t.0 as int, r@.dir.x, 0x100_0000, 0x100_0000);
            lemma_fmul_mag(t.0 as int, r@.dir.y, 0x100_0000, 0x100_0000);
            lemma_fmul_mag(t.0 as int, r@.dir.z, 0x100_0000, 0x100_0000);
        }
        let x = r.origin().x().add(t.mul(r.direction().x()));
        let z = r.origin().z().add(t.mul(r.direction().z()));
        if x.0 < self.x0.0 || x.0 > self.x1.0 || z.0 < self.z0.0 || z.0 > self.z1.0 {
            return None;
        }
        let u = clamp(x.sub(self.x0).div(self.x1.sub(self.x0)), Fx(0), Fx(65536));
        let v = clamp(z.sub(self.z0).div(self.z1.sub(self.z0)), Fx(0), Fx(65536));
        let outward_normal = Vec3::from(Fx(0), Fx(65536), Fx(0));
        let mut rec = HitRecord {
            p: r.at(t),
            normal: outward_normal,
            mat: &self.mp,
            t,
            u,
            v,
            front_face: false,
        };
        rec.set_face_normal(*r, outward_normal);
        Some(rec)
    }
}

impl YzRect {
    pub open spec fn wf(self) -> bool {
        sabs(self.y0.0 as int) <= 0x100_0000 && sabs(self.y1.0 as int) <= 0x100_0000 && sabs(
            self.z0.0 as int,
        ) <= 0x100_0000 && sabs(self.z1.0 as int) <= 0x100_0000 && sabs(self.k.0 as int)
            <= 0x100_0000 && self.y0.0 + 256 <= self.y1.0 && self.z0.0 + 256 <= self.z1.0 && mwf(
            self.mp,
        )
    }

    /// The degenerate rectangle with a black diffuse material.
    pub fn new() -> (r: YzRect)
        ensures
            r.y0.0 == 0 && r.y1.0 == 0 && r.z0.0 == 0 && r.z1.0 == 0 && r.k.0 == 0,
    {
        YzRect {
            mp: Material::Lambertian(Lambertian::from(Color::new())),
            y0: Fx(0),
            y1: Fx(0),
            z0: Fx(0),
            z1: Fx(0),
            k: Fx(0),
        }
    }

    pub fn from(y0: Fx, y1: Fx, z0: Fx, z1: Fx, k: Fx, mat: Material) -> (r: YzRect)
        ensures
            r.y0 == y0 && r.y1 == y1 && r.z0 == z0 && r.z1 == z1 && r.k == k && r.mp == mat,
    {
        YzRect { y0, y1, z0, z1, k, mp: mat }
    }

    /// The rectangle's box, inflated on the thin axis.
    pub fn bounding_box(&self, time0: Fx, time1: Fx, output_box: &mut Bb) -> (res: bool)
        requires
            self.wf(),
        ensures
            res,
            final(output_box).spec_min() == (V3 {
                x: self.k.0 - PLANE_EPS,
                y: self.y0.0 as int,
                z: self.z0.0 as int,
            }),
            final(output_box).spec_max() == (V3 {
                x: self.k.0 + PLANE_EPS,
                y: self.y1.0 as int,
                z: self.z1.0 as int,
            }),
    {
        *output_box = Bb::from(
            &Point3::from(self.k.sub(Fx(PLANE_EPS)), self.y0, self.z0),
            &Point3::from(self.k.add(Fx(PLANE_EPS)), self.y1, self.z1),
        );
        true
    }

    /// The intersection of the ray with the rectangle's plane, if it lands
    /// inside the extents and the parameter range.
    pub fn hit<'a>(&'a self, r: &Ray, t_min: Fx, t_max: Fx) -> (res: Option<HitRecord<'a>>)
        requires
            self.wf(),
            vbounded(r@.orig, 0x100_0000),
            vbounded(r@.dir, 0x100_0000),
            sabs(t_min.0 as int) <= 0x100_0000,
            sabs(t_max.0 as int) <= 0x100_0000,
        ensures
            match res {
                Some(rec) => in_range(
                    yz_cand_t(
                        self.y0.0 as int,
                        self.y1.0 as int,
                        self.z0.0 as int,
                        self.z1.0 as int,
                        self.k.0 as int,
                        r@,
                        t_min.0 as int,
                    ),
                    t_max.0 as int,
                ) == Some(rec@.t) && rec@ == yz_rec(*self, r@, rec@.t) && rec.mat == &self.mp,
                None => in_range(
                    yz_cand_t(
                        self.y0.0 as int,
                        self.y1.0 as int,
                        self.z0.0 as int,
                        self.z1.0 as int,
                        self.k.0 as int,
                        r@,
                        t_min.0 as int,
                    ),
                    t_max.0 as int,
                ) is None,
            },
    {
        if r.direction().x().0 == 0 {
            return None;
        }
        let t = self.k.sub(r.origin().x()).div(r.direction().x());
        if t.0 < t_min.0 || t.0 > t_max.0 {
            return None;
        }
        proof {
            lemma_fmul_mag(t.0 as int, r@.dir.x, 0x100_0000, 0x100_0000);
            lemma_fmul_mag(t.0 as int, r@.dir.y, 0x100_0000, 0x100_0000);
            lemma_fmul_mag(t.0 as int, r@.dir.z, 0x100_0000, 0x100_0000);
        }
        let y = r.origin().y().add(t.mul(r.direction().y()));
        let z = r.origin().z().add(t.mul(r.direction().z()));
        if y.0 < self.y0.0 || y.0 > self.y1.0 || z.0 < self.z0.0 || z.0 > self.z1.0 {
            return None;
        }
        let u = clamp(y.sub(self.y0).div(self.y1.sub(self.y0)), Fx(0), Fx(65536));
        let v = clamp(z.sub(self.z0).div(self.z1.sub(self.z0)), Fx(0), Fx(65536));
        let outward_normal = Vec3::from(Fx(65536), Fx(0), Fx(0));
        let mut rec = HitRecord {
            p: r.at(t),
            normal: outward_normal,
            mat: &self.mp,
            t,
            u,
            v,
            front_face: false,
        };
        rec.set_face_normal(*r, outward_normal);
        Some(rec)
    }
}

/// The crossing-number test: whether the in-plane point `(pointz, pointy)`
/// lies inside the quadrilateral.
pub fn point_in_quadrilateral(pointz: Fx, pointy: Fx, quad: &Quadrilateral) -> (r: bool)
    requires
        quad.wf(),
        sabs(pointz.0 as int) <= 0x2_0000_0000,
        sabs(pointy.0 as int) <= 0x2_0000_0000,
    ensures
        r == quad_inside(*quad, pointz.0 as int, pointy.0 as int),
{
    let c0 = edge_cross_exec(quad.z0, quad.y0, quad.z3, quad.y3, pointz, pointy);
    let c1 = edge_cross_exec(quad.z1, quad.y1, quad.z0, quad.y0, pointz, pointy);
    let c2 = edge_cross_exec(quad.z2, quad.y2, quad.z1, quad.y1, pointz, pointy);
    let c3 = edge_cross_exec(quad.z3, quad.y3, quad.z2, quad.y2, pointz, pointy);
    (c0 != c1) != (c2 != c3)
}

/// One edge of the crossing-number test.
fn edge_cross_exec(p1z: Fx, p1y: Fx, p2z: Fx, p2y: Fx, pz: Fx, py: Fx) -> (r: bool)
    requires
        sabs(p1z.0 as int) <= 0x100_0000,
        sabs(p1y.0 as int) <= 0x100_0000,
        sabs(p2z.0 as int) <= 0x100_0000,
        sabs(p2y.0 as int) <= 0x100_0000,
        sabs(pz.0 as int) <= 0x2_0000_0000,
        sabs(py.0 as int) <= 0x2_0000_0000,
    ensures
        r == edge_crosses(
            p1z.0 as int,
            p1y.0 as int,
            p2z.0 as int,
            p2y.0 as int,
            pz.0 as int,
            py.0 as int,
        ),
{
    if (p1y.0 > py.0) != (p2y.0 > py.0) {
        proof {
            lemma_fmul_mag(p2z.0 - p1z.0 as int, py.0 - p1y.0 as int, 0x200_0000, 0x3_0000_0000);
        }
        let num = p2z.sub(p1z).mul(py.sub(p1y));
        let intersect_z = num.div(p2y.sub(p1y)).add(p1z);
        pz.0 < intersect_z.0
    } else {
        false
    }
}

impl Quadrilateral {
    /// Vertex and extent coordinates within the scene bounds, extents with
    /// enough thickness to interpolate over, and a well-formed material.
    pub open spec fn wf(self) -> bool {
        sabs(self.z0.0 as int) <= 0x100_0000 && sabs(self.z1.0 as int) <= 0x100_0000 && sabs(
            self.z2.0 as int,
        ) <= 0x100_0000 && sabs(self.z3.0 as int) <= 0x100_0000 && sabs(self.y0.0 as int)
            <= 0x100_0000 && sabs(self.y1.0 as int) <= 0x100_0000 && sabs(self.y2.0 as int)
            <= 0x100_0000 && sabs(self.y3.0 as int) <= 0x100_0000 && sabs(self.k.0 as int)
            <= 0x100_0000 && sabs(self.minz.0 as int) <= 0x100_0000 && sabs(self.maxz.0 as int)
            <= 0x100_0000 && sabs(self.miny.0 as int) <= 0x100_0000 && sabs(self.maxy.0 as int)
            <= 0x100_0000 && self.minz.0 + 256 <= self.maxz.0 && self.miny.0 + 256 <= self.maxy.0
            && mwf(self.mp)
    }

    /// The degenerate quadrilateral with a black diffuse material.
    pub fn new() -> (r: Quadrilateral)
        ensures
            r.k.0 == 0,
    {
        Quadrilateral {
            mp: Material::Lambertian(Lambertian::from(Color::new())),
            z0: Fx(0),
            z1: Fx(0),
            z2: Fx(0),
            z3: Fx(0),
            y0: Fx(0),
            y1: Fx(0),
            y2: Fx(0),
            y3: Fx(0),
            minz: Fx(0),
            miny: Fx(0),
            maxz: Fx(0),
            maxy: Fx(0),
            k: Fx(0),
        }
    }

    /// Builds the quadrilateral from its four `(z, y)` vertex pairs in
    /// rotational order, precomputing the extent extremes.
    pub fn from(pair0: (Fx, Fx), pair1: (Fx, Fx), pair2: (Fx, Fx), pair3: (Fx, Fx), k: Fx, mat: Material) -> (r: Quadrilateral)
        ensures
            r.z0 == pair0.0 && r.y0 == pair0.1,
            r.z1 == pair1.0 && r.y1 == pair1.1,
            r.z2 == pair2.0 && r.y2 == pair2.1,
            r.z3 == pair3.0 && r.y3 == pair3.1,
            r.k == k,
            r.mp == mat,
            r.minz.0 == crate::aabb::fmin(
                crate::aabb::fmin(pair0.0.0 as int, pair1.0.0 as int),
                crate::aabb::fmin(pair2.0.0 as int, pair3.0.0 as int),
            ),
            r.maxz.0 == crate::aabb::fmax(
                crate::aabb::fmax(pair0.0.0 as int, pair1.0.0 as int),
                crate::aabb::fmax(pair2.0.0 as int, pair3.0.0 as int),
            ),
            r.miny.0 == crate::aabb::fmin(
                crate::aabb::fmin(pair0.1.0 as int, pair1.1.0 as int),
                crate::aabb::fmin(pair2.1.0 as int, pair3.1.0 as int),
            ),
            r.maxy.0 == crate::aabb::fmax(
                crate::aabb::fmax(pair0.1.0 as int, pair1.1.0 as int),
                crate::aabb::fmax(pair2.1.0 as int, pair3.1.0 as int),
            ),
    {
        let min_z = pair0.0.min(pair1.0).min(pair2.0.min(pair3.0));
        let max_z = pair0.0.max(pair1.0).max(pair2.0.max(pair3.0));
        let min_y = pair0.1.min(pair1.1).min(pair2.1.min(pair3.1));
        let max_y = pair0.1.max(pair1.1).max(pair2.1.max(pair3.1));
        Quadrilateral {
            z0: pair0.0,
            z1: pair1.0,
            z2: pair2.0,
            z3: pair3.0,
            y0: pair0.1,
            y1: pair1.1,
            y2: pair2.1,
            y3: pair3.1,
            k,
            minz: min_z,
            miny: min_y,
            maxz: max_z,
            maxy: max_y,
            mp: mat,
        }
    }

    /// The quadrilateral's box: its extent extremes, inflated on the thin
    /// axis.
    pub fn bounding_box(&self, time0: Fx, time1: Fx, output_box: &mut Bb) -> (res: bool)
        requires
            self.wf(),
        ensures
            res,
            final(output_box).spec_min() == (V3 {
                x: self.k.0 - PLANE_EPS,
                y: self.miny.0 as int,
                z: self.minz.0 as int,
            }),
            final(output_box).spec_max() == (V3 {
                x: self.k.0 + PLANE_EPS,
                y: self.maxy.0 as int,
                z: self.maxz.0 as int,
            }),
    {
        *output_box = Bb::from(
            &Point3::from(self.k.sub(Fx(PLANE_EPS)), self.miny, self.minz),
            &Point3::from(self.k.add(Fx(PLANE_EPS)), self.maxy, self.maxz),
        );
        true
    }

    /// The intersection of the ray with the quadrilateral's plane, if it
    /// lands inside the polygon and the parameter range.
    pub fn hit<'a>(&'a self, r: &Ray, t_min: Fx, t_max: Fx) -> (res: Option<HitRecord<'a>>)
        requires
            self.wf(),
            vbounded(r@.orig, 0x100_0000),
            vbounded(r@.dir, 0x100_0000),
            sabs(t_min.0 as int) <= 0x100_0000,
            sabs(t_max.0 as int) <= 0x100_0000,
        ensures
            match res {
                Some(rec) => in_range(quad_cand_t(*self, r@, t_min.0 as int), t_max.0 as int)
                    == Some(rec@.t) && rec@ == quad_rec(*self, r@, rec@.t) && rec.mat == &self.mp,
                None => in_range(quad_cand_t(*self, r@, t_min.0 as int), t_max.0 as int) is None,
            },
    {
        if r.direction().x().0 == 0 {
            return None;
        }
        let t = self.k.sub(r.origin().x()).div(r.direction().x());
        if t.0 < t_min.0 || t.0 > t_max.0 {
            return None;
        }
        proof {
            lemma_fmul_mag(t.0 as int, r@.dir.y, 0x100_0000, 0x100_0000);
            lemma_fmul_mag(t.0 as int, r@.dir.z, 0x100_0000, 0x100_0000);
        }
        let y = r.origin().y().add(t.mul(r.direction().y()));
        let z = r.origin().z().add(t.mul(r.direction().z()));
        if !point_in_quadrilateral(z, y, self) {
            return None;
        }
        let s = clamp(z.sub(self.minz).div(self.maxz.sub(self.minz)), Fx(0), Fx(65536));
        let tt = clamp(y.sub(self.miny).div(self.maxy.sub(self.miny)), Fx(0), Fx(65536));
        proof {
            lemma_fmul_mag(65536 - tt.0 as int, s.0 as int, 65536, 65536);
            lemma_fmul_mag(tt.0 as int, s.0 as int, 65536, 65536);
        }
        let u = Fx(65536).sub(tt).mul(s).add(tt.mul(s));
        let v = tt;
        let outward_normal = Vec3::from(Fx(0), Fx(0), Fx(65536));
        let mut rec = HitRecord {
            p: r.at(t),
            normal: outward_normal,
            mat: &self.mp,
            t,
            u,
            v,
            front_face: false,
        };
        rec.set_face_normal(*r, outward_normal);
        Some(rec)
    }
}

} // verus!
