//! Materials: a closed set of variants deciding whether and how light
//! scatters at a hit, and what it emits. Randomness enters only through
//! the wrappers in `utils`, so each contract states what holds of every
//! outcome of the random samples.
use vstd::prelude::*;

use crate::fx::{Fx, fclamp, fdiv, fmul, fsqrt, lemma_fmul_mag, lemma_fmul_sq, sabs, tdiv};
use crate::hittable::{HitM, HitRecord};
use crate::ray::{Ray, RayM};
use crate::texture::{SolidColor, Texture, tex_value, twf};
use crate::utils::random_double;
use crate::vec3::{
    Color, Point3, V3, Vec3, dot, random_in_unit_sphere, random_unit_vector, reflect, refract,
    unit_sample, unit_vector, vbounded, vdot, vlen_sq, vnear_zero, vneg, vplus, vrefract,
    vreflect, vscale, vunit,
};

verus! {

/// A material: diffuse, specular with fuzz, refractive, volumetric
/// scattering, or light-emitting.
pub enum Material {
    Lambertian(Lambertian),
    Metal(Metal),
    Dielectric(Dielectric),
    Isotropic(Isotropic),
    DiffuseLight(DiffuseLight),
}

pub struct Isotropic {
    pub albedo: Texture,
}

pub struct Lambertian {
    pub albedo: Texture,
}

#[derive(Clone, Copy, Debug, PartialEq, Eq, Structural)]
pub struct Metal {
    pub albedo: Color,
    pub fuzz: Fx,
}

#[derive(Clone, Copy, Debug, PartialEq, Eq, Structural)]
pub struct Dielectric {
    pub ir: Fx,
}

pub struct DiffuseLight {
    pub emit: Texture,
}

/// Well-formedness of a material: textures well-formed, the metal fuzz and
/// albedo within range, and the refraction index within the representable
/// band `[0.25, 4.0]`.
pub open spec fn mwf(m: Material) -> bool {
    match m {
        Material::Lambertian(l) => twf(l.albedo),
        Material::Metal(mt) => vbounded(mt.albedo@, 0x4000_0000) && sabs(mt.fuzz.0 as int)
            <= 65536,
        Material::Dielectric(d) => 16384 <= d.ir.0 <= 0x40000,
        Material::Isotropic(i) => twf(i.albedo),
        Material::DiffuseLight(d) => twf(d.emit),
    }
}

/// Schlick's reflectance approximation, in fixed point.
pub open spec fn schlick(cosine: int, ref_idx: int) -> int {
    let q = fdiv(65536 - ref_idx, 65536 + ref_idx);
    let r0 = fmul(q, q);
    let x = 65536 - cosine;
    let x2 = fmul(x, x);
    let x4 = fmul(x2, x2);
    let x5 = fmul(x4, x);
    r0 + fmul(65536 - r0, x5)
}

/// What a Lambertian scatter guarantees: the ray starts at the hit point,
/// keeps the incoming time, and points along the normal plus a normalized
/// sphere sample of near-unit length, falling back to the normal itself
/// when the sum degenerates.
pub open spec fn lambertian_scatter(alb: Texture, rm: RayM, h: HitM, att: V3, sc: RayM) -> bool {
    att == tex_value(alb, h.u, h.v, h.p) && sc.orig == h.p && sc.tm == rm.tm && (exists|s: V3|
        #![trigger vplus(h.normal, s)]
        unit_sample(s) && 65520 <= vlen_sq(s) <= 65560 && sc.dir == if vnear_zero(
            vplus(h.normal, s),
        ) {
            h.normal
        } else {
            vplus(h.normal, s)
        })
}

/// What a metal scatter guarantees: a mirror reflection of the unit
/// incoming direction, perturbed by a fuzz-scaled sample from the unit
/// sphere; the scatter is accepted only when the result leaves the surface.
pub open spec fn metal_scatter(
    albedo: V3,
    fuzz: int,
    rm: RayM,
    h: HitM,
    att: V3,
    sc: RayM,
    b: bool,
) -> bool {
    att == albedo && sc.orig == h.p && sc.tm == rm.tm && (exists|s: V3|
        vbounded(s, 65535) && vlen_sq(s) < 65536 && sc.dir == vplus(
            vreflect(vunit(rm.dir), h.normal),
            vscale(s, fuzz),
        )) && b == (vdot(sc.dir, h.normal) > 0)
}

/// The refraction ratio a dielectric uses at a hit: the reciprocal of the
/// index when entering from outside, the index itself when leaving.
pub open spec fn dielectric_ratio(ir: int, front_face: bool) -> int {
    if front_face {
        fdiv(65536, ir)
    } else {
        ir
    }
}

/// The direction a dielectric scatters into, given the random draw `q`:
/// a unit ratio always refracts (the interface is no interface, and the
/// ray passes through); otherwise reflection when refraction is
/// impossible or `q` lands under Schlick's reflectance, else Snell
/// refraction.
pub open spec fn dielectric_dir(ud: V3, n: V3, ratio: int, q: int) -> V3 {
    let cos_theta = fclamp(vdot(vneg(ud), n), -65536, 65536);
    let sin_theta = fsqrt(65536 - fmul(cos_theta, cos_theta));
    let cannot_refract = fmul(ratio, sin_theta) > 65536;
    if ratio == 65536 {
        vrefract(ud, n, ratio)
    } else if cannot_refract || schlick(cos_theta, ratio) > q {
        vreflect(ud, n)
    } else {
        vrefract(ud, n, ratio)
    }
}

/// What a dielectric scatter guarantees: white attenuation, and a
/// direction that always refracts at a unit ratio, and otherwise is the
/// reflection of the unit incoming direction when refraction is
/// impossible or a random draw lands under Schlick's reflectance, else
/// its Snell refraction.
pub open spec fn dielectric_scatter(ir: int, rm: RayM, h: HitM, att: V3, sc: RayM) -> bool {
    att == (V3 { x: 65536, y: 65536, z: 65536 }) && sc.orig == h.p && sc.tm == rm.tm && (exists|
        q: int,
    |
        0 <= q < 65536 && sc.dir == #[trigger] dielectric_dir(
            vunit(rm.dir),
            h.normal,
            dielectric_ratio(ir, h.front_face),
            q,
        ))
}

/// What an isotropic scatter guarantees: a direction drawn uniformly from
/// the unit sphere.
pub open spec fn isotropic_scatter(alb: Texture, rm: RayM, h: HitM, att: V3, sc: RayM) -> bool {
    att == tex_value(alb, h.u, h.v, h.p) && sc.orig == h.p && sc.tm == rm.tm && (exists|s: V3|
        vbounded(s, 65535) && vlen_sq(s) < 65536 && sc.dir == s)
}

/// The light a material emits at a hit: the emission texture for a diffuse
/// light, black for everything else.
pub open spec fn emitted_spec(m: Material, u: int, v: int, p: V3) -> V3 {
    match m {
        Material::DiffuseLight(d) => tex_value(d.emit, u, v, p),
        _ => V3 { x: 0, y: 0, z: 0 },
    }
}

/// The full scatter contract, by variant.
pub open spec fn scatter_spec(
    m: Material,
    rm: RayM,
    h: HitM,
    att: V3,
    sc: RayM,
    b: bool,
    old_att: V3,
    old_sc: RayM,
) -> bool {
    match m {
        Material::Lambertian(l) => b && lambertian_scatter(l.albedo, rm, h, att, sc),
        Material::Metal(mt) => metal_scatter(mt.albedo@, mt.fuzz.0 as int, rm, h, att, sc, b),
        Material::Dielectric(d) => b && dielectric_scatter(d.ir.0 as int, rm, h, att, sc),
        Material::Isotropic(i) => b && isotropic_scatter(i.albedo, rm, h, att, sc),
        Material::DiffuseLight(_) => !b && att == old_att && sc == old_sc,
    }
}

/// A dielectric with unit refraction index always takes the refraction
/// branch, whatever the random draw and on either face: the law behind
/// the pass-through behavior.
pub proof fn lemma_dielectric_unit_refracts(rm: RayM, h: HitM, att: V3, sc: RayM)
    requires
        dielectric_scatter(65536, rm, h, att, sc),
    ensures
        sc.dir == vrefract(vunit(rm.dir), h.normal, 65536),
{
    assert(dielectric_ratio(65536, h.front_face) == 65536) by {
        assert(fdiv(65536, 65536) == tdiv((65536 * 65536) as int, 65536));
        crate::fx::lemma_tdiv_mag((65536 * 65536) as int, 65536);
        assert(sabs((65536 * 65536) as int) / sabs(65536) == 65536);
    }
    let q = choose|q: int|
        0 <= q < 65536 && sc.dir == #[trigger] dielectric_dir(
            vunit(rm.dir),
            h.normal,
            dielectric_ratio(65536, h.front_face),
            q,
        );
    assert(sc.dir == dielectric_dir(vunit(rm.dir), h.normal, 65536, q));
}

/// A dielectric with unit refraction index passes head-on light through
/// unchanged: when the unit incoming direction opposes an exactly unit
/// normal, the scatter it promises keeps the direction, whatever the
/// random draw.
pub proof fn lemma_dielectric_passthrough(rm: RayM, h: HitM, att: V3, sc: RayM)
    requires
        dielectric_scatter(65536, rm, h, att, sc),
        vunit(rm.dir) == vneg(h.normal),
        vlen_sq(h.normal) == 65536,
    ensures
        sc.dir == vunit(rm.dir),
{
    let n = h.normal;
    let ud = vunit(rm.dir);
    lemma_dielectric_unit_refracts(rm, h, att, sc);
    assert(vneg(ud) == n);
    crate::fx::lemma_fmul_one(65536);
    assert(fsqrt(0) == 0) by {
        crate::fx::lemma_sqrt_floor_unique(0, 0);
    }
    assert(vrefract(ud, n, 65536) == ud) by {
        crate::fx::lemma_fmul_one(n.x);
        crate::fx::lemma_fmul_one(n.y);
        crate::fx::lemma_fmul_one(n.z);
        let shifted = vplus(ud, vscale(n, 65536));
        assert(shifted == (V3 { x: 0, y: 0, z: 0 }));
        crate::fx::lemma_fmul_one(0);
        let perp = vscale(shifted, 65536);
        assert(perp == (V3 { x: 0, y: 0, z: 0 }));
        assert(vlen_sq(perp) == 0);
        crate::fx::lemma_sqrt_floor_unique((65536 * 65536) as int, 65536);
        assert(fsqrt(sabs(65536 - vlen_sq(perp))) == 65536);
        assert(vscale(n, -65536) == vneg(n));
        assert(vplus(perp, vneg(n)) == ud);
    }
}

impl Isotropic {
    pub fn from_color(c: Color) -> (r: Isotropic)
        ensures
            r.albedo == Texture::Solid(SolidColor { color_value: c }),
    {
        Isotropic { albedo: Texture::Solid(SolidColor::from(c)) }
    }

    pub fn from_texture(a: Texture) -> (r: Isotropic)
        ensures
            r.albedo == a,
    {
        Isotropic { albedo: a }
    }
}

impl Lambertian {
    pub fn from(a: Color) -> (r: Lambertian)
        ensures
            r.albedo == Texture::Solid(SolidColor { color_value: a }),
    {
        Lambertian { albedo: Texture::Solid(SolidColor::from(a)) }
    }

    pub fn from_texture(a: Texture) -> (r: Lambertian)
        ensures
            r.albedo == a,
    {
        Lambertian { albedo: a }
    }
}

impl Metal {
    /// A metal with the fuzz clamped into `[0, 1)`.
    pub fn from(a: Color, f: Fx) -> (r: Metal)
        ensures
            r.albedo == a,
            r.fuzz.0 == fclamp(f.0 as int, 0, 65535),
    {
        Metal { albedo: a, fuzz: f.max(Fx(0)).min(Fx(65535)) }
    }
}

impl Dielectric {
    pub fn new(index_of_refraction: Fx) -> (r: Dielectric)
        ensures
            r.ir == index_of_refraction,
    {
        Dielectric { ir: index_of_refraction }
    }
}

impl DiffuseLight {
    pub fn from(a: Texture) -> (r: DiffuseLight)
        ensures
            r.emit == a,
    {
        DiffuseLight { emit: a }
    }

    pub fn from_color(c: Color) -> (r: DiffuseLight)
        ensures
            r.emit == Texture::Solid(SolidColor { color_value: c }),
    {
        DiffuseLight { emit: Texture::Solid(SolidColor::from(c)) }
    }
}

/// Schlick's reflectance approximation.
fn reflectance(cosine: Fx, ref_idx: Fx) -> (r: Fx)
    requires
        sabs(cosine.0 as int) <= 65536,
        16384 <= ref_idx.0 <= 0x40000,
    ensures
        r.0 == schlick(cosine.0 as int, ref_idx.0 as int),
{
    let num = Fx(65536).sub(ref_idx);
    let den = Fx(65536).add(ref_idx);
    let q = num.div(den);
    proof {
        crate::fx::lemma_tdiv_mag(num.0 as int * 65536, den.0 as int);
        lemma_fmul_mag(q.0 as int, q.0 as int, 0x3_0000_0000, 0x3_0000_0000);
    }
    let r0 = q.mul(q);
    let x = Fx(65536).sub(cosine);
    proof {
        lemma_fmul_mag(x.0 as int, x.0 as int, 0x2_0000, 0x2_0000);
        lemma_fmul_mag(fmul(x.0 as int, x.0 as int), fmul(x.0 as int, x.0 as int), 0x4_0000, 0x4_0000);
        lemma_fmul_mag(
            fmul(fmul(x.0 as int, x.0 as int), fmul(x.0 as int, x.0 as int)),
            x.0 as int,
            0x10_0000,
            0x2_0000,
        );
    }
    let x2 = x.mul(x);
    let x4 = x2.mul(x2);
    let x5 = x4.mul(x);
    proof {
        lemma_fmul_mag(
            65536 - r0.0 as int,
            x5.0 as int,
            0x24_0001_0000_0000,
            0x20_0000,
        );
    }
    r0.add(Fx(65536).sub(r0).mul(x5))
}

impl Material {
    /// Whether this material satisfies its well-formedness condition;
    /// callers outside the verified world use it to establish `mwf`.
    pub fn wf_check(&self) -> (r: bool)
        ensures
            r == mwf(*self),
    {
        match self {
            Material::Lambertian(l) => l.albedo.wf_check(),
            Material::Metal(mt) => mt.albedo.x.0 <= 0x4000_0000 && mt.albedo.x.0 >= -0x4000_0000
                && mt.albedo.y.0 <= 0x4000_0000 && mt.albedo.y.0 >= -0x4000_0000 && mt.albedo.z.0
                <= 0x4000_0000 && mt.albedo.z.0 >= -0x4000_0000 && mt.fuzz.0 <= 65536 && mt.fuzz.0
                >= -65536,
            Material::Dielectric(d) => 16384 <= d.ir.0 && d.ir.0 <= 0x40000,
            Material::Isotropic(i) => i.albedo.wf_check(),
            Material::DiffuseLight(d) => d.emit.wf_check(),
        }
    }

    /// Decides whether the incoming ray scatters at the hit; on a scatter,
    /// fills the attenuation color and the scattered ray.
    pub fn scatter(
        &self,
        r_in: Ray,
        rec: HitRecord<'_>,
        attenuation: &mut Color,
        scattered: &mut Ray,
    ) -> (b: bool)
        requires
            mwf(*self),
            vbounded(rec@.p, 0x4000_0000),
            vbounded(rec@.normal, 0x40000),
            vbounded(r_in@.dir, 0x4000_0000),
            vlen_sq(r_in@.dir) >= 1,
        ensures
            scatter_spec(
                *self,
                r_in@,
                rec@,
                final(attenuation)@,
                final(scattered)@,
                b,
                old(attenuation)@,
                old(scattered)@,
            ),
            b ==> vbounded(final(scattered)@.dir, 0x4_0000_0000),
            b ==> vbounded(final(attenuation)@, 0x4000_0000),
    {
        match self {
            Material::Lambertian(l) => {
                let s = random_unit_vector();
                let sum = rec.normal.plus(s);
                let nz = sum.near_zero();
                let dir = if nz {
                    rec.normal
                } else {
                    sum
                };
                let sc = Ray::new(rec.p, dir, r_in.time());
                let att = l.albedo.value(rec.u, rec.v, &rec.p);
                *scattered = sc;
                *attenuation = att;
                proof {
                    let sv = s@;
                    assert(unit_sample(sv) && 65520 <= vlen_sq(sv) <= 65560);
                    assert(sc@.dir == if vnear_zero(vplus(rec@.normal, sv)) {
                        rec@.normal
                    } else {
                        vplus(rec@.normal, sv)
                    });
                    assert(lambertian_scatter(l.albedo, r_in@, rec@, att@, sc@));
                }
                true
            },
            Material::Metal(mt) => {
                let ud = unit_vector(r_in.direction());
                let reflected = reflect(ud, rec.normal);
                let s = random_in_unit_sphere();
                proof {
                    lemma_fmul_mag(s@.x, mt.fuzz.0 as int, 65535, 65536);
                    lemma_fmul_mag(s@.y, mt.fuzz.0 as int, 65535, 65536);
                    lemma_fmul_mag(s@.z, mt.fuzz.0 as int, 65535, 65536);
                }
                let fs = s.scale(mt.fuzz);
                let dir = reflected.plus(fs);
                let sc = Ray::new(rec.p, dir, r_in.time());
                *scattered = sc;
                *attenuation = mt.albedo;
                let d = dot(dir, rec.normal);
                let accept = d.0 > 0;
                proof {
                    let sv = s@;
                    assert(vbounded(sv, 65535) && vlen_sq(sv) < 65536);
                    assert(sc@.dir == vplus(
                        vreflect(vunit(r_in@.dir), rec@.normal),
                        vscale(sv, mt.fuzz.0 as int),
                    ));
                    assert(metal_scatter(
                        mt.albedo@,
                        mt.fuzz.0 as int,
                        r_in@,
                        rec@,
                        mt.albedo@,
                        sc@,
                        accept,
                    ));
                }
                accept
            },
            Material::Dielectric(di) => {
                let att = Color::from(Fx(65536), Fx(65536), Fx(65536));
                *attenuation = att;
                let refraction_ratio = if rec.front_face {
                    Fx(65536).div(di.ir)
                } else {
                    di.ir
                };
                proof {
                    if rec@.front_face {
                        vstd::arithmetic::div_mod::lemma_div_is_ordered_by_denominator(
                            0x1_0000_0000,
                            16384,
                            di.ir.0 as int,
                        );
                        vstd::arithmetic::div_mod::lemma_div_is_ordered_by_denominator(
                            0x1_0000_0000,
                            di.ir.0 as int,
                            0x40000,
                        );
                        assert(fdiv(65536, di.ir.0 as int) == 0x1_0000_0000 as int / (
                        di.ir.0 as int));
                    }
                    assert(16384 <= refraction_ratio.0 <= 0x40000);
                    assert(refraction_ratio.0 == dielectric_ratio(di.ir.0 as int, rec@.front_face));
                }
                let unit_direction = unit_vector(r_in.direction());
                let cos_theta = dot(unit_direction.inv(), rec.normal).min(Fx::one()).max(
                    Fx(-65536),
                );
                proof {
                    lemma_fmul_mag(cos_theta.0 as int, cos_theta.0 as int, 65536, 65536);
                    lemma_fmul_sq(cos_theta.0 as int);
                }
                let sin_theta = Fx(65536).sub(cos_theta.mul(cos_theta)).sqrt();
                proof {
                    assert(sin_theta.0 <= 0x10_0000) by (nonlinear_arith)
                        requires
                            sin_theta.0 >= 0,
                            sin_theta.0 * sin_theta.0 <= (65536 - fmul(
                                cos_theta.0 as int,
                                cos_theta.0 as int,
                            )) * 65536,
                            0 <= fmul(cos_theta.0 as int, cos_theta.0 as int) <= 65536;
                    lemma_fmul_mag(refraction_ratio.0 as int, sin_theta.0 as int, 0x40000, 0x10_0000);
                }
                let cannot_refract = refraction_ratio.mul(sin_theta).0 > 65536;
                let rq = random_double(Fx(0), Fx(65536));
                let direction = if refraction_ratio.0 == 65536 {
                    refract(unit_direction, rec.normal, refraction_ratio)
                } else if cannot_refract || reflectance(cos_theta, refraction_ratio).0 > rq.0 {
                    reflect(unit_direction, rec.normal)
                } else {
                    refract(unit_direction, rec.normal, refraction_ratio)
                };
                let sc = Ray::new(rec.p, direction, r_in.time());
                *scattered = sc;
                proof {
                    let qv = rq.0 as int;
                    assert(0 <= qv < 65536);
                    assert(sc@.dir == dielectric_dir(
                        vunit(r_in@.dir),
                        rec@.normal,
                        dielectric_ratio(di.ir.0 as int, rec@.front_face),
                        qv,
                    ));
                    assert(dielectric_scatter(di.ir.0 as int, r_in@, rec@, att@, sc@));
                }
                true
            },
            Material::Isotropic(iso) => {
                let s = random_in_unit_sphere();
                let sc = Ray::new(rec.p, s, r_in.time());
                let att = iso.albedo.value(rec.u, rec.v, &rec.p);
                *scattered = sc;
                *attenuation = att;
                proof {
                    assert(vbounded(s@, 65535) && vlen_sq(s@) < 65536 && sc@.dir == s@);
                    assert(isotropic_scatter(iso.albedo, r_in@, rec@, att@, sc@));
                }
                true
            },
            Material::DiffuseLight(_) => false,
        }
    }

    /// The light this material emits at `(u, v)` and point `p`: the
    /// emission texture for a diffuse light, black otherwise.
    pub fn emitted(&self, u: Fx, v: Fx, p: &Point3) -> (r: Color)
        requires
            mwf(*self),
            vbounded(p@, 0x4000_0000),
        ensures
            r@ == emitted_spec(*self, u.0 as int, v.0 as int, p@),
            vbounded(r@, 0x4000_0000),
    {
        match self {
            Material::DiffuseLight(d) => d.emit.value(u, v, p),
            _ => Color::new(),
        }
    }
}

impl Texture {
    /// Whether this texture satisfies its well-formedness condition.
    pub fn wf_check(&self) -> (r: bool)
        ensures
            r == twf(*self),
        decreases *self,
    {
        match self {
            Texture::Solid(s) => s.color_value.x.0 <= 0x4000_0000 && s.color_value.x.0
                >= -0x4000_0000 && s.color_value.y.0 <= 0x4000_0000 && s.color_value.y.0
                >= -0x4000_0000 && s.color_value.z.0 <= 0x4000_0000 && s.color_value.z.0
                >= -0x4000_0000,
            Texture::Checker(c) => {
                let a = c.odd.wf_check();
                let b = c.even.wf_check();
                a && b
            },
            Texture::Image(it) => {
                if it.bytes_per_pixel != 3 {
                    false
                } else if it.data.len() == 0 {
                    true
                } else {
                    match 3usize.checked_mul(it.width) {
                        Some(row) => match row.checked_mul(it.height) {
                            Some(total) => 1 <= it.width && it.width <= 0xffff_ffff && 1
                                <= it.height && it.height <= 0xffff_ffff && it.bytes_per_scanline
                                == row && it.data.len() == total,
                            None => false,
                        },
                        None => false,
                    }
                }
            },
        }
    }
}

} // verus!
