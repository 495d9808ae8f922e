//! Scenario tests for the scattering model and the textures.
use pathtracer::fx::Fx;
use pathtracer::hittable::HitRecord;
use pathtracer::material::{Dielectric, DiffuseLight, Isotropic, Lambertian, Material, Metal};
use pathtracer::ray::Ray;
use pathtracer::texture::{CheckerTexture, ImageTexture, SolidColor, Texture};
use pathtracer::vec3::{Color, Point3, Vec3};

const ONE: i64 = 65536;

fn hit_at<'a>(mat: &'a Material, normal: Vec3, front_face: bool) -> HitRecord<'a> {
    HitRecord {
        p: Point3::from(Fx(2 * ONE), Fx(0), Fx(0)),
        normal,
        mat,
        t: Fx(2 * ONE),
        u: Fx(0),
        v: Fx(0),
        front_face,
    }
}

const DIR_BOUND: i64 = 0x4_0000_0000;

#[test]
fn lambertian_scatter_stays_finite_and_keeps_albedo() {
    let m = Material::Lambertian(Lambertian::from(Color::from(
        Fx::from_ratio(65, 100),
        Fx::from_ratio(5, 100),
        Fx::from_ratio(5, 100),
    )));
    assert!(m.wf_check());
    let normal = Vec3::from(Fx(-ONE), Fx(0), Fx(0));
    let r_in = Ray::new(Point3::new(), Vec3::from(Fx(ONE), Fx(0), Fx(0)), Fx(0));
    for _ in 0..50 {
        let rec = hit_at(&m, normal, true);
        let mut attenuation = Color::new();
        let mut scattered = Ray::new(Point3::new(), Vec3::new(), Fx(0));
        assert!(m.scatter(r_in, rec, &mut attenuation, &mut scattered));
        assert_eq!(attenuation.x.0, Fx::from_ratio(65, 100).0);
        for c in [scattered.dir.x.0, scattered.dir.y.0, scattered.dir.z.0] {
            assert!(c.abs() <= DIR_BOUND);
        }
        // origin and time carry over from the hit
        assert_eq!(scattered.orig.x.0, 2 * ONE);
        assert_eq!(scattered.tm.0, 0);
    }
}

#[test]
fn metal_scatter_reflects_and_respects_the_fuzz_clamp() {
    let clamped = Metal::from(Color::from(Fx(ONE), Fx(ONE), Fx(ONE)), Fx(3 * ONE));
    assert_eq!(clamped.fuzz.0, ONE - 1);
    let lifted = Metal::from(Color::from(Fx(ONE), Fx(ONE), Fx(ONE)), Fx(-ONE));
    assert_eq!(lifted.fuzz.0, 0);
    let m = Material::Metal(Metal::from(Color::from(Fx(ONE), Fx(ONE), Fx(ONE)), Fx(0)));
    assert!(m.wf_check());
    let normal = Vec3::from(Fx(0), Fx(ONE), Fx(0));
    // a 45-degree incoming ray reflects off the x-z plane
    let r_in = Ray::new(
        Point3::new(),
        Vec3::from(Fx(ONE), Fx(-ONE), Fx(0)),
        Fx(0),
    );
    let rec = hit_at(&m, normal, true);
    let mut attenuation = Color::new();
    let mut scattered = Ray::new(Point3::new(), Vec3::new(), Fx(0));
    assert!(m.scatter(r_in, rec, &mut attenuation, &mut scattered));
    // the y component flips sign, the x component keeps it
    assert!(scattered.dir.y.0 > 0);
    assert!(scattered.dir.x.0 > 0);
    for c in [scattered.dir.x.0, scattered.dir.y.0, scattered.dir.z.0] {
        assert!(c.abs() <= DIR_BOUND);
    }
}

#[test]
fn dielectric_with_unit_index_passes_head_on_light_through() {
    let m = Material::Dielectric(Dielectric::new(Fx(ONE)));
    assert!(m.wf_check());
    let normal = Vec3::from(Fx(-ONE), Fx(0), Fx(0));
    let r_in = Ray::new(Point3::new(), Vec3::from(Fx(ONE), Fx(0), Fx(0)), Fx(0));
    for _ in 0..50 {
        let rec = hit_at(&m, normal, true);
        let mut attenuation = Color::new();
        let mut scattered = Ray::new(Point3::new(), Vec3::new(), Fx(0));
        assert!(m.scatter(r_in, rec, &mut attenuation, &mut scattered));
        // attenuation is white, and the direction is exactly unchanged
        assert_eq!(attenuation.x.0, ONE);
        assert_eq!(attenuation.y.0, ONE);
        assert_eq!(attenuation.z.0, ONE);
        assert_eq!(scattered.dir.x.0, ONE);
        assert_eq!(scattered.dir.y.0, 0);
        assert_eq!(scattered.dir.z.0, 0);
    }
}

#[test]
fn dielectric_with_unit_index_refracts_at_an_angle() {
    // off head-on the unit-index dielectric still always refracts, and the
    // direction passes through unchanged up to fixed-point rounding
    let m = Material::Dielectric(Dielectric::new(Fx(ONE)));
    let normal = Vec3::from(Fx(-ONE), Fx(0), Fx(0));
    let incoming = Vec3::from(Fx(ONE), Fx(26214), Fx(0));
    let expected = pathtracer::vec3::unit_vector(incoming);
    let r_in = Ray::new(Point3::new(), incoming, Fx(0));
    for _ in 0..50 {
        let rec = hit_at(&m, normal, true);
        let mut attenuation = Color::new();
        let mut scattered = Ray::new(Point3::new(), Vec3::new(), Fx(0));
        assert!(m.scatter(r_in, rec, &mut attenuation, &mut scattered));
        assert!((scattered.dir.x.0 - expected.x.0).abs() <= 16);
        assert!((scattered.dir.y.0 - expected.y.0).abs() <= 16);
        assert!((scattered.dir.z.0 - expected.z.0).abs() <= 16);
    }
}

#[test]
fn dielectric_scatter_stays_finite_for_glass() {
    let m = Material::Dielectric(Dielectric::new(Fx::from_ratio(3, 2)));
    assert!(m.wf_check());
    let normal = Vec3::from(Fx(-ONE), Fx(0), Fx(0));
    let r_in = Ray::new(
        Point3::new(),
        Vec3::from(Fx(ONE), Fx(26214), Fx(0)),
        Fx(0),
    );
    for _ in 0..50 {
        let rec = hit_at(&m, normal, true);
        let mut attenuation = Color::new();
        let mut scattered = Ray::new(Point3::new(), Vec3::new(), Fx(0));
        assert!(m.scatter(r_in, rec, &mut attenuation, &mut scattered));
        for c in [scattered.dir.x.0, scattered.dir.y.0, scattered.dir.z.0] {
            assert!(c.abs() <= DIR_BOUND);
        }
    }
}

#[test]
fn diffuse_light_absorbs_and_emits_its_texture() {
    let m = Material::DiffuseLight(DiffuseLight::from_color(Color::from(
        Fx::from_ratio(5, 2),
        Fx::from_ratio(5, 2),
        Fx::from_ratio(5, 2),
    )));
    assert!(m.wf_check());
    let rec = hit_at(&m, Vec3::from(Fx(-ONE), Fx(0), Fx(0)), true);
    let r_in = Ray::new(Point3::new(), Vec3::from(Fx(ONE), Fx(0), Fx(0)), Fx(0));
    let mut attenuation = Color::new();
    let mut scattered = Ray::new(Point3::new(), Vec3::new(), Fx(0));
    assert!(!m.scatter(r_in, rec, &mut attenuation, &mut scattered));
    let e = m.emitted(Fx(0), Fx(0), &Point3::new());
    assert_eq!(e.x.0, Fx::from_ratio(5, 2).0);
    // a non-emitting material emits black
    let lam = Material::Lambertian(Lambertian::from(Color::from(Fx(ONE), Fx(ONE), Fx(ONE))));
    let dark = lam.emitted(Fx(0), Fx(0), &Point3::new());
    assert_eq!(dark.x.0, 0);
    assert_eq!(dark.y.0, 0);
    assert_eq!(dark.z.0, 0);
}

#[test]
fn isotropic_scatters_into_the_unit_sphere() {
    let m = Material::Isotropic(Isotropic::from_color(Color::from(Fx(ONE), Fx(0), Fx(0))));
    assert!(m.wf_check());
    let rec = hit_at(&m, Vec3::from(Fx(-ONE), Fx(0), Fx(0)), true);
    let r_in = Ray::new(Point3::new(), Vec3::from(Fx(ONE), Fx(0), Fx(0)), Fx(7));
    let mut attenuation = Color::new();
    let mut scattered = Ray::new(Point3::new(), Vec3::new(), Fx(0));
    assert!(m.scatter(r_in, rec, &mut attenuation, &mut scattered));
    assert_eq!(scattered.tm.0, 7);
    let d = scattered.dir;
    assert!(d.len_squared().0 < ONE);
}

#[test]
fn checker_texture_alternates_in_space() {
    let red = Color::from(Fx(ONE), Fx(0), Fx(0));
    let blue = Color::from(Fx(0), Fx(0), Fx(ONE));
    let t = Texture::Checker(CheckerTexture::from_colors(red, blue));
    // sin(10x) flips sign between x = 0.1 and x = 0.4 (1 and 4 radians)
    let a = t.value(Fx(0), Fx(0), &Point3::from(Fx(6554), Fx(6554), Fx(6554)));
    let b = t.value(Fx(0), Fx(0), &Point3::from(Fx(26214), Fx(6554), Fx(6554)));
    assert_ne!(a.x.0 == 0, b.x.0 == 0, "cells must alternate");
}

#[test]
fn checker_from_texture_keeps_both_children() {
    let even = Texture::Solid(SolidColor::fromrgb(Fx(ONE), Fx(0), Fx(0)));
    let odd = Texture::Solid(SolidColor::fromrgb(Fx(0), Fx(ONE), Fx(0)));
    let t = Texture::Checker(CheckerTexture::from_texture(even, odd));
    let c = t.value(Fx(0), Fx(0), &Point3::from(Fx(6554), Fx(6554), Fx(6554)));
    assert!(c.x.0 == ONE || c.y.0 == ONE);
}

#[test]
fn image_texture_samples_nearest_pixel_and_degrades_to_black() {
    // a 2x2 image: red, green / blue, white
    let data = vec![
        255u8, 0, 0, 0, 255, 0,
        0, 0, 255, 255, 255, 255,
    ];
    let t = ImageTexture::from_decoded(2, 2, data);
    let p = Point3::new();
    // u, v near 0, 1 is the top-left pixel: red
    let c = t.value(Fx(0), Fx(ONE), &p);
    assert_eq!(c.x.0, ONE);
    assert_eq!(c.y.0, 0);
    // u, v near 1, 0 is the bottom-right pixel: white
    let c2 = t.value(Fx(ONE), Fx(0), &p);
    assert_eq!(c2.x.0, ONE);
    assert_eq!(c2.y.0, ONE);
    assert_eq!(c2.z.0, ONE);
    // a mismatched buffer degrades to the empty texture, which samples black
    let broken = ImageTexture::from_decoded(3, 3, vec![0u8; 5]);
    let c3 = broken.value(Fx(0), Fx(0), &p);
    assert_eq!((c3.x.0, c3.y.0, c3.z.0), (0, 0, 0));
    let empty = ImageTexture::new();
    let c4 = empty.value(Fx(32768), Fx(32768), &p);
    assert_eq!((c4.x.0, c4.y.0, c4.z.0), (0, 0, 0));
}
