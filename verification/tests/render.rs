//! End-to-end tests of the radiance estimator and the sampling drivers.
use pathtracer::camera::Camera;
use pathtracer::canvas::{Canvas, sample_pixel};
use pathtracer::fx::Fx;
use pathtracer::hittable::Surface;
use pathtracer::hittable_list::HittableList;
use pathtracer::material::{DiffuseLight, Lambertian, Material};
use pathtracer::ray::{Ray, ray_color};
use pathtracer::rect::YzRect;
use pathtracer::sphere::Sphere;
use pathtracer::vec3::{Color, Point3, Vec3};

const ONE: i64 = 65536;

fn fxi(i: i64) -> Fx {
    Fx(i * ONE)
}

fn light_and_sphere_world() -> HittableList {
    let mut world = HittableList::new();
    world.add(Surface::Sphere(Sphere::new(
        Point3::new(),
        fxi(2),
        Material::Lambertian(Lambertian::from(Color::from(
            Fx::from_ratio(73, 100),
            Fx::from_ratio(73, 100),
            Fx::from_ratio(73, 100),
        ))),
    )));
    world.add(Surface::Sphere(Sphere::new(
        Point3::from(fxi(0), fxi(120), fxi(0)),
        fxi(1),
        Material::Lambertian(Lambertian::from(Color::from(Fx(ONE), Fx(ONE), Fx(ONE)))),
    )));
    // a large emissive rectangle behind the camera, facing the sphere
    world.add(Surface::YzRect(YzRect::from(
        fxi(-200),
        fxi(200),
        fxi(-200),
        fxi(200),
        fxi(-30),
        Material::DiffuseLight(DiffuseLight::from_color(Color::from(
            Fx::from_ratio(5, 2),
            Fx::from_ratio(5, 2),
            Fx::from_ratio(5, 2),
        ))),
    )));
    world
}

#[test]
fn zero_depth_returns_exactly_black() {
    let world = light_and_sphere_world();
    assert!(world.wf_check());
    let background = Color::from(Fx(3000), Fx(2000), Fx(1000));
    let r = Ray::new(Point3::from(fxi(-15), Fx(0), Fx(0)), Vec3::from(fxi(1), Fx(0), Fx(0)), Fx(0));
    let c = ray_color(r, &background, &world, 0);
    assert_eq!((c.x.0, c.y.0, c.z.0), (0, 0, 0));
    let c2 = ray_color(r, &background, &world, -3);
    assert_eq!((c2.x.0, c2.y.0, c2.z.0), (0, 0, 0));
}

#[test]
fn missing_everything_returns_exactly_the_background() {
    let world = light_and_sphere_world();
    let background = Color::from(Fx(3000), Fx(2000), Fx(1000));
    // aimed away from every object
    let r = Ray::new(
        Point3::from(fxi(-15), Fx(0), Fx(0)),
        Vec3::from(fxi(1), Fx(0), fxi(100)),
        Fx(0),
    );
    let c = ray_color(r, &background, &world, 10);
    assert_eq!((c.x.0, c.y.0, c.z.0), (3000, 2000, 1000));
}

#[test]
fn emissive_surface_shows_through_the_estimator() {
    let world = light_and_sphere_world();
    let background = Color::new();
    // straight at the light, which absorbs and emits 2.5
    let r = Ray::new(
        Point3::from(fxi(-15), Fx(0), Fx(0)),
        Vec3::from(fxi(-1), Fx(0), Fx(0)),
        Fx(0),
    );
    let c = ray_color(r, &background, &world, 5);
    assert_eq!(c.x.0, Fx::from_ratio(5, 2).0);
}

#[test]
fn single_sample_render_lights_the_sphere_and_keeps_the_background() {
    let world = light_and_sphere_world();
    assert!(world.wf_check());
    let background = Color::new();
    let cam = Camera::new(
        Point3::from(fxi(-15), Fx(0), Fx(0)),
        Point3::new(),
        Vec3::from(Fx(0), fxi(1), Fx(0)),
        fxi(20),
        Fx::from_ratio(16, 9),
        Fx(0),
        fxi(5),
        Fx(0),
        fxi(1),
    );
    let nx: usize = 16;
    let ny: usize = 9;
    let c = Canvas::from_fn(nx, ny, 1, |i, j| {
        sample_pixel(&cam, &world, &background, i, j, nx, ny, 1, 8)
    });
    let pixels = c.get_pixels();
    assert_eq!(pixels.len(), nx * ny);
    // at least one pixel whose centered primary ray meets the sphere is lit
    let mut lit = false;
    for j in 0..ny {
        for i in 0..nx {
            let u = Fx::from_ratio((i as i64) * ONE + 32768, (nx as i64 - 1) * ONE);
            let v = Fx::from_ratio((j as i64) * ONE + 32768, (ny as i64 - 1) * ONE);
            let r = cam.get_ray(u.min(Fx(ONE)).max(Fx(0)), v.min(Fx(ONE)).max(Fx(0)));
            if world.hit(&r, Fx(65), Fx(0x100_0000)).is_some() {
                let p = pixels[j * nx + i];
                if p.x.0 > 0 || p.y.0 > 0 || p.z.0 > 0 {
                    lit = true;
                }
            }
        }
    }
    assert!(lit, "no sphere pixel caught any light");
    // corner pixels look past everything: exactly the background
    for (i, j) in [(0usize, 0usize), (nx - 1, 0), (0, ny - 1), (nx - 1, ny - 1)] {
        let p = pixels[j * nx + i];
        assert_eq!((p.x.0, p.y.0, p.z.0), (0, 0, 0));
    }
}

#[test]
fn parallel_render_matches_the_serial_layout() {
    // a deterministic fill: the parallel driver must place every pixel at
    // the same index the serial driver does
    let f = |i: usize, j: usize| {
        Color::from(Fx(i as i64), Fx(j as i64), Fx((i + 2 * j) as i64))
    };
    let serial = Canvas::from_fn(7, 5, 4, f);
    let parallel = Canvas::from_fn_parallel(7, 5, 4, f);
    assert_eq!(serial.dimensions(), (7, 5));
    assert_eq!(parallel.dimensions(), (7, 5));
    let a = serial.get_pixels();
    let b = parallel.get_pixels();
    assert_eq!(a.len(), b.len());
    for k in 0..a.len() {
        assert_eq!(a[k].x.0, b[k].x.0);
        assert_eq!(a[k].y.0, b[k].y.0);
        assert_eq!(a[k].z.0, b[k].z.0);
    }
    // and the layout is row-major: pixel (i, j) sits at j * width + i
    assert_eq!(a[2 * 7 + 3].x.0, 3);
    assert_eq!(a[2 * 7 + 3].y.0, 2);
}

#[test]
fn camera_rays_are_deterministic_without_aperture() {
    let cam = Camera::new(
        Point3::from(fxi(-15), Fx(0), Fx(0)),
        Point3::new(),
        Vec3::from(Fx(0), fxi(1), Fx(0)),
        fxi(20),
        Fx::from_ratio(16, 9),
        Fx(0),
        fxi(5),
        Fx(0),
        fxi(1),
    );
    let a = cam.get_ray(Fx(32768), Fx(32768));
    let b = cam.get_ray(Fx(32768), Fx(32768));
    // with a zero lens radius the origin and direction are deterministic
    assert_eq!(a.orig.x.0, -15 * ONE);
    assert_eq!(a.dir.x.0, b.dir.x.0);
    assert_eq!(a.dir.y.0, b.dir.y.0);
    assert_eq!(a.dir.z.0, b.dir.z.0);
    // the central ray looks into the scene, along positive x
    assert!(a.dir.x.0 > 0);
    assert!(a.dir.y.0.abs() < ONE / 4);
    assert!(a.dir.z.0.abs() < ONE / 4);
    // the shutter time lies in the configured interval
    assert!(0 <= a.tm.0 && a.tm.0 < ONE);
}
