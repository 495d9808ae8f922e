//! Rays through space: an origin, an unnormalized direction and a time tag
//! for motion blur. The radiance estimator `ray_color` lives here too.
use vstd::prelude::*;

use crate::fx::{Fx, lemma_fmul_mag, sabs};
use crate::hittable::{HitM, in_mag, surface_cand_t, surface_mat, surface_rec, swf};
use crate::hittable_list::{HittableList, best_t, list_wf};
use crate::material::{Material, emitted_spec, mwf, scatter_spec};
use crate::vec3::{Color, Point3, V3, Vec3, vbounded, vlen_sq, vplus, vscale};

verus! {

/// Mathematical model of a ray: the raw origin, direction and time.
pub ghost struct RayM {
    pub orig: V3,
    pub dir: V3,
    pub tm: int,
}

/// The point reached at parameter `t`.
pub open spec fn ray_at(r: RayM, t: int) -> V3 {
    vplus(r.orig, vscale(r.dir, t))
}

#[derive(Clone, Copy, Debug, PartialEq, Eq, Structural)]
pub struct Ray {
    pub orig: Point3,
    pub dir: Vec3,
    pub tm: Fx,
}

impl View for Ray {
    type V = RayM;

    open spec fn view(&self) -> RayM {
        RayM { orig: self.orig@, dir: self.dir@, tm: self.tm.0 as int }
    }
}

impl Ray {
    pub fn new(origin: Point3, direction: Vec3, time: Fx) -> (r: Ray)
        ensures
            r@.orig == origin@,
            r@.dir == direction@,
            r@.tm == time.0 as int,
    {
        Ray { orig: origin, dir: direction, tm: time }
    }

    pub fn origin(&self) -> (r: Point3)
        ensures
            r@ == self@.orig,
    {
        self.orig
    }

    pub fn direction(&self) -> (r: Vec3)
        ensures
            r@ == self@.dir,
    {
        self.dir
    }

    pub fn time(&self) -> (r: Fx)
        ensures
            r.0 == self@.tm,
    {
        self.tm
    }

    /// The point along the ray at parameter `t`.
    pub fn at(&self, t: Fx) -> (r: Point3)
        requires
            vbounded(self@.orig, 0x3fff_ffff_ffff),
            vbounded(self@.dir, 0x4000_0000),
            sabs(t.0 as int) <= 0x4000_0000,
        ensures
            r@ == ray_at(self@, t.0 as int),
    {
        self.orig.plus(self.dir.scale(t))
    }
}

/// The lower intersection bound that avoids shadow acne (0.001 scaled).
pub const T_EPS_RAW: i64 = 65;

/// The upper intersection bound standing in for an unbounded range.
pub const T_LIM_RAW: i64 = 0x100_0000;

/// A ray the intersection pipeline accepts: origin and direction within
/// the scene bounds and a direction long enough to normalize. A renderer
/// on floats lets degenerate rays fall through every comparison and miss;
/// here the conditions are explicit.
pub open spec fn ray_ok(rm: RayM) -> bool {
    vbounded(rm.orig, 0x100_0000) && vbounded(rm.dir, 0x100_0000) && vlen_sq(rm.dir) >= 1
}

/// A hit record whose numeric ranges the shading model accepts; outside
/// them the estimator treats the bounce as absorbed.
pub open spec fn rec_ranges(h: HitM) -> bool {
    vbounded(h.p, 0x4000_0000) && vbounded(h.normal, 0x40000)
}

/// The componentwise product of an attenuation and a recursive color,
/// clamped to the radiance band.
pub open spec fn clamp_prod(att: V3, rc: V3) -> V3 {
    V3 {
        x: crate::fx::fclamp(crate::fx::fmul(att.x, rc.x), -0x4000_0000, 0x4000_0000),
        y: crate::fx::fclamp(crate::fx::fmul(att.y, rc.y), -0x4000_0000, 0x4000_0000),
        z: crate::fx::fclamp(crate::fx::fmul(att.z, rc.z), -0x4000_0000, 0x4000_0000),
    }
}

/// What the estimator returns at a hit whose record ranges are accepted:
/// for some attenuation, scattered ray, scatter decision and recursive
/// color bound to the hit by the material's own scatter contract, the
/// result is the emission alone when the scatter declined, and the
/// emission plus the clamped attenuated recursive color when it was
/// accepted. One scattered sample per call; no clamp below the radiance
/// band cap, so emissive values above 1.0 pass through.
pub open spec fn bounce_value(m: Material, rm: RayM, h: HitM, c: V3) -> bool {
    let em = emitted_spec(m, h.u, h.v, h.p);
    exists|att: V3, sc: RayM, b: bool, rc: V3|
        #![trigger scatter_spec(m, rm, h, att, sc, b, att, sc), clamp_prod(att, rc)]
        scatter_spec(m, rm, h, att, sc, b, att, sc) && vbounded(rc, 0x8000_0000) && c == if b {
            vplus(em, clamp_prod(att, rc))
        } else {
            em
        }
}

/// Introduces `bounce_value` from an explicit scatter outcome.
proof fn lemma_bounce_value(m: Material, rm: RayM, h: HitM, att: V3, sc: RayM, b: bool, rc: V3, c: V3)
    requires
        scatter_spec(m, rm, h, att, sc, b, att, sc),
        vbounded(rc, 0x8000_0000),
        c == if b {
            vplus(emitted_spec(m, h.u, h.v, h.p), clamp_prod(att, rc))
        } else {
            emitted_spec(m, h.u, h.v, h.p)
        },
    ensures
        bounce_value(m, rm, h, c),
{
    let cp = clamp_prod(att, rc);
    assert(scatter_spec(m, rm, h, att, sc, b, att, sc) && vbounded(rc, 0x8000_0000) && c == if b {
        vplus(emitted_spec(m, h.u, h.v, h.p), cp)
    } else {
        emitted_spec(m, h.u, h.v, h.p)
    });
}

/// The recursive radiance estimator: black once the depth budget is
/// exhausted, the background on a miss, and otherwise the hit material's
/// emission plus its attenuated scattered contribution, clamped to the
/// radiance band. A hit on a light (a material that never scatters) shows
/// exactly the light's emission.
/// The upper intersection bound substitutes the scene-scale cap for the
/// unbounded range: a hit beyond parameter 256.0 is treated as a miss.
pub fn ray_color(r: Ray, background: &Color, world: &HittableList, depth: i32) -> (c: Color)
    requires
        list_wf(world.objects@),
        vbounded(background@, 0x4000_0000),
    ensures
        vbounded(c@, 0x8000_0000),
        depth <= 0 ==> c@ == (V3 { x: 0, y: 0, z: 0 }),
        depth > 0 && !ray_ok(r@) ==> c@ == background@,
        depth > 0 && ray_ok(r@) && best_t(
            world.objects@,
            r@,
            T_EPS_RAW as int,
            T_LIM_RAW as int,
        ) is None ==> c@ == background@,
        ({
            let bt = best_t(world.objects@, r@, T_EPS_RAW as int, T_LIM_RAW as int);
            depth > 0 && ray_ok(r@) && bt is Some ==> exists|i: int|
                0 <= i < world.objects@.len() && surface_cand_t(
                    #[trigger] world.objects@[i],
                    r@,
                    T_EPS_RAW as int,
                ) == bt && {
                    let h = surface_rec(world.objects@[i], r@, bt->Some_0);
                    rec_ranges(h) ==> bounce_value(surface_mat(world.objects@[i]), r@, h, c@)
                }
        }),
    decreases depth,
{
    if depth <= 0 {
        return Color::new();
    }
    let bounds_ok = in_mag(r.orig.x.0, T_LIM_RAW) && in_mag(r.orig.y.0, T_LIM_RAW) && in_mag(
        r.orig.z.0,
        T_LIM_RAW,
    ) && in_mag(r.dir.x.0, T_LIM_RAW) && in_mag(r.dir.y.0, T_LIM_RAW) && in_mag(
        r.dir.z.0,
        T_LIM_RAW,
    );
    if !bounds_ok {
        return *background;
    }
    if r.dir.len_squared().0 < 1 {
        return *background;
    }
    match world.hit(&r, Fx(T_EPS_RAW), Fx(T_LIM_RAW)) {
        None => *background,
        Some(rec) => {
            let ghost j = choose|j: int|
                0 <= j < world.objects@.len() && surface_cand_t(
                    #[trigger] world.objects@[j],
                    r@,
                    T_EPS_RAW as int,
                ) == Some(rec@.t) && rec@ == surface_rec(world.objects@[j], r@, rec@.t)
                    && *rec.mat == surface_mat(world.objects@[j]);
            proof {
                assert(swf(world.objects@[j]));
            }
            let ranges_ok = in_mag(rec.p.x.0, 0x4000_0000) && in_mag(rec.p.y.0, 0x4000_0000)
                && in_mag(rec.p.z.0, 0x4000_0000) && in_mag(rec.normal.x.0, 0x40000) && in_mag(
                rec.normal.y.0,
                0x40000,
            ) && in_mag(rec.normal.z.0, 0x40000);
            if !ranges_ok {
                proof {
                    assert(!rec_ranges(surface_rec(world.objects@[j], r@, rec@.t)));
                }
                return Color::new();
            }
            proof {
                assert(mwf(*rec.mat));
            }
            let emitted = rec.mat.emitted(rec.u, rec.v, &rec.p);
            let mut scattered = Ray::new(Point3::new(), Vec3::new(), Fx(0));
            let mut attenuation = Color::new();
            let did_scatter = rec.mat.scatter(r, rec, &mut attenuation, &mut scattered);
            if !did_scatter {
                proof {
                    let m = surface_mat(world.objects@[j]);
                    let h = surface_rec(world.objects@[j], r@, rec@.t);
                    assert(scatter_spec(m, r@, h, attenuation@, scattered@, false, attenuation@, scattered@));
                    lemma_bounce_value(
                        m,
                        r@,
                        h,
                        attenuation@,
                        scattered@,
                        false,
                        V3 { x: 0, y: 0, z: 0 },
                        emitted@,
                    );
                }
                return emitted;
            }
            let col = ray_color(scattered, background, world, depth - 1);
            proof {
                lemma_fmul_mag(attenuation@.x, col@.x, 0x4000_0000, 0x8000_0000);
                lemma_fmul_mag(attenuation@.y, col@.y, 0x4000_0000, 0x8000_0000);
                lemma_fmul_mag(attenuation@.z, col@.z, 0x4000_0000, 0x8000_0000);
            }
            let sx = attenuation.x.mul(col.x).max(Fx(-0x4000_0000)).min(Fx(0x4000_0000));
            let sy = attenuation.y.mul(col.y).max(Fx(-0x4000_0000)).min(Fx(0x4000_0000));
            let sz = attenuation.z.mul(col.z).max(Fx(-0x4000_0000)).min(Fx(0x4000_0000));
            let out = emitted.plus(Color::from(sx, sy, sz));
            proof {
                let m = surface_mat(world.objects@[j]);
                let h = surface_rec(world.objects@[j], r@, rec@.t);
                assert(scatter_spec(m, r@, h, attenuation@, scattered@, true, attenuation@, scattered@));
                assert(out@ == vplus(
                    emitted_spec(m, h.u, h.v, h.p),
                    clamp_prod(attenuation@, col@),
                ));
                lemma_bounce_value(m, r@, h, attenuation@, scattered@, true, col@, out@);
            }
            out
        },
    }
}

} // verus!
