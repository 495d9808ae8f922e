//! Axis-aligned bounding boxes: a min/max corner pair with union and a
//! slab intersection test. With integer scalars there is no NaN, so the
//! NaN-tolerant min/max of the design degenerates to the exact ones, and a
//! zero direction component is handled by an explicit parallel-ray branch
//! in place of the IEEE infinities.
use vstd::prelude::*;

use crate::fx::{Fx, fdiv, sabs};
use crate::ray::{Ray, RayM};
use crate::vec3::{Point3, V3, Vec3, vbounded};

verus! {

pub open spec fn fmin(a: int, b: int) -> int {
    if a <= b {
        a
    } else {
        b
    }
}

pub open spec fn fmax(a: int, b: int) -> int {
    if a >= b {
        a
    } else {
        b
    }
}

pub open spec fn vmin3(a: V3, b: V3) -> V3 {
    V3 { x: fmin(a.x, b.x), y: fmin(a.y, b.y), z: fmin(a.z, b.z) }
}

pub open spec fn vmax3(a: V3, b: V3) -> V3 {
    V3 { x: fmax(a.x, b.x), y: fmax(a.y, b.y), z: fmax(a.z, b.z) }
}

pub open spec fn v_le(a: V3, b: V3) -> bool {
    a.x <= b.x && a.y <= b.y && a.z <= b.z
}

/// The box `[om, oM]` contains the box `[im, iM]` componentwise.
pub open spec fn bb_contains(om: V3, o_max: V3, im: V3, i_max: V3) -> bool {
    v_le(om, im) && v_le(i_max, o_max)
}

/// One slab of the test: narrows the `t` interval on a single axis, or
/// reports a miss. A zero direction component leaves the interval unchanged
/// when the origin lies within the slab and misses otherwise.
pub open spec fn slab_step(lo: int, hi: int, o: int, d: int, tr: (int, int)) -> Option<(int, int)> {
    if d == 0 {
        if o < lo || o > hi {
            None
        } else {
            Some(tr)
        }
    } else {
        let ta = fdiv(lo - o, d);
        let tb = fdiv(hi - o, d);
        let t0 = if d < 0 {
            tb
        } else {
            ta
        };
        let t1 = if d < 0 {
            ta
        } else {
            tb
        };
        let nmin = fmax(t0, tr.0);
        let nmax = fmin(t1, tr.1);
        if nmax <= nmin {
            None
        } else {
            Some((nmin, nmax))
        }
    }
}

/// The remainder of the slab test starting from axis `i` with the interval
/// `tr` already narrowed by the earlier axes.
pub open spec fn axes_from(bmin: V3, bmax: V3, r: RayM, i: int, tr: (int, int)) -> Option<
    (int, int),
>
    decreases 3 - i,
{
    if i == 0 {
        match slab_step(bmin.x, bmax.x, r.orig.x, r.dir.x, tr) {
            None => None,
            Some(tr1) => axes_from(bmin, bmax, r, 1, tr1),
        }
    } else if i == 1 {
        match slab_step(bmin.y, bmax.y, r.orig.y, r.dir.y, tr) {
            None => None,
            Some(tr1) => axes_from(bmin, bmax, r, 2, tr1),
        }
    } else if i == 2 {
        match slab_step(bmin.z, bmax.z, r.orig.z, r.dir.z, tr) {
            None => None,
            Some(tr1) => Some(tr1),
        }
    } else {
        Some(tr)
    }
}

/// The whole slab test over the three axes.
pub open spec fn bb_hit(bmin: V3, bmax: V3, r: RayM, t_min: int, t_max: int) -> bool {
    axes_from(bmin, bmax, r, 0, (t_min, t_max)) is Some
}

/// An axis-aligned bounding box given by its two corners.
#[derive(Clone, Copy, Debug, PartialEq, Eq, Structural)]
pub struct Bb {
    pub min: Point3,
    pub max: Point3,
}

/// The smallest box containing both inputs: componentwise minimum of the
/// low corners and maximum of the high corners.
pub fn surrounding_box(box0: &Bb, box1: &Bb) -> (r: Bb)
    ensures
        r.spec_min() == vmin3(box0.spec_min(), box1.spec_min()),
        r.spec_max() == vmax3(box0.spec_max(), box1.spec_max()),
{
    let small_coords = Point3::from(
        box0.min().x().min(box1.min().x()),
        box0.min().y().min(box1.min().y()),
        box0.min().z().min(box1.min().z()),
    );
    let large_coords = Point3::from(
        box0.max().x().max(box1.max().x()),
        box0.max().y().max(box1.max().y()),
        box0.max().z().max(box1.max().z()),
    );
    Bb::from(&small_coords, &large_coords)
}

/// The box of the union contains both inputs, and any box containing both
/// inputs contains it: `surrounding_box` is the componentwise-minimal
/// enclosing box.
pub proof fn lemma_union_minimal(m0: V3, x0: V3, m1: V3, x1: V3)
    ensures
        bb_contains(vmin3(m0, m1), vmax3(x0, x1), m0, x0),
        bb_contains(vmin3(m0, m1), vmax3(x0, x1), m1, x1),
        forall|cm: V3, cx: V3|
            bb_contains(cm, cx, m0, x0) && bb_contains(cm, cx, m1, x1) ==> bb_contains(
                cm,
                cx,
                vmin3(m0, m1),
                vmax3(x0, x1),
            ),
{
}

impl Bb {
    pub open spec fn spec_min(self) -> V3 {
        self.min@
    }

    pub open spec fn spec_max(self) -> V3 {
        self.max@
    }

    /// The degenerate box at the origin.
    pub fn new() -> (r: Bb)
        ensures
            r.spec_min() == (V3 { x: 0, y: 0, z: 0 }),
            r.spec_max() == (V3 { x: 0, y: 0, z: 0 }),
    {
        Bb { min: Point3::new(), max: Point3::new() }
    }

    pub fn from(a: &Point3, b: &Point3) -> (r: Bb)
        ensures
            r.spec_min() == a@,
            r.spec_max() == b@,
    {
        Bb { min: *a, max: *b }
    }

    pub fn min(&self) -> (r: Point3)
        ensures
            r@ == self.spec_min(),
    {
        self.min
    }

    pub fn max(&self) -> (r: Point3)
        ensures
            r@ == self.spec_max(),
    {
        self.max
    }

    /// The slab test: whether the ray crosses the box somewhere in the open
    /// `t` interval.
    pub fn hit(&self, r: &Ray, t_min: Fx, t_max: Fx) -> (res: bool)
        requires
            vbounded(self.spec_min(), 0x2000_0000_0000),
            vbounded(self.spec_max(), 0x2000_0000_0000),
            vbounded(r@.orig, 0x2000_0000_0000),
        ensures
            res == bb_hit(self.spec_min(), self.spec_max(), r@, t_min.0 as int, t_max.0 as int),
    {
        let mut lo = t_min;
        let mut hi = t_max;
        let mut i: usize = 0;
        while i < 3
            invariant
                vbounded(self.spec_min(), 0x2000_0000_0000),
                vbounded(self.spec_max(), 0x2000_0000_0000),
                vbounded(r@.orig, 0x2000_0000_0000),
                i <= 3,
                bb_hit(self.spec_min(), self.spec_max(), r@, t_min.0 as int, t_max.0 as int)
                    == match axes_from(
                    self.spec_min(),
                    self.spec_max(),
                    r@,
                    i as int,
                    (lo.0 as int, hi.0 as int),
                ) {
                    None => false,
                    Some(_) => true,
                },
            decreases 3 - i,
        {
            let lov = self.min.axis(i);
            let hiv = self.max.axis(i);
            let ov = r.origin().axis(i);
            let dv = r.direction().axis(i);
            if dv.0 == 0 {
                if ov.0 < lov.0 || ov.0 > hiv.0 {
                    return false;
                }
            } else {
                let ta = lov.sub(ov).div(dv);
                let tb = hiv.sub(ov).div(dv);
                let t0 = if dv.0 < 0 {
                    tb
                } else {
                    ta
                };
                let t1 = if dv.0 < 0 {
                    ta
                } else {
                    tb
                };
                let nmin = t0.max(lo);
                let nmax = t1.min(hi);
                if nmax.0 <= nmin.0 {
                    return false;
                }
                lo = nmin;
                hi = nmax;
            }
            i = i + 1;
        }
        true
    }
}

} // verus!
