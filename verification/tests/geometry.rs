//! Scenario tests for the bounding volume, the sphere and rectangle
//! intersections, and the aggregate's nearest-hit selection.
use pathtracer::aabb::{Bb, surrounding_box};
use pathtracer::fx::Fx;
use pathtracer::hittable::Surface;
use pathtracer::hittable_list::HittableList;
use pathtracer::material::{Lambertian, Material};
use pathtracer::ray::Ray;
use pathtracer::rect::{Quadrilateral, XyRect, XzRect, YzRect, point_in_quadrilateral};
use pathtracer::sphere::{Sphere, get_sphere_uv};
use pathtracer::vec3::{Color, Point3, Vec3};

const ONE: i64 = 65536;

fn fxi(i: i64) -> Fx {
    Fx(i * ONE)
}

fn gray() -> Material {
    Material::Lambertian(Lambertian::from(Color::from(
        Fx::from_ratio(1, 2),
        Fx::from_ratio(1, 2),
        Fx::from_ratio(1, 2),
    )))
}

#[test]
fn union_contains_both_boxes() {
    let a = Bb::from(
        &Point3::from(fxi(-1), fxi(0), fxi(2)),
        &Point3::from(fxi(1), fxi(3), fxi(4)),
    );
    let b = Bb::from(
        &Point3::from(fxi(0), fxi(-2), fxi(3)),
        &Point3::from(fxi(2), fxi(1), fxi(5)),
    );
    let u = surrounding_box(&a, &b);
    // contains both inputs
    assert!(u.min().x().0 <= a.min().x().0 && u.min().x().0 <= b.min().x().0);
    assert!(u.min().y().0 <= a.min().y().0 && u.min().y().0 <= b.min().y().0);
    assert!(u.min().z().0 <= a.min().z().0 && u.min().z().0 <= b.min().z().0);
    assert!(u.max().x().0 >= a.max().x().0 && u.max().x().0 >= b.max().x().0);
    assert!(u.max().y().0 >= a.max().y().0 && u.max().y().0 >= b.max().y().0);
    assert!(u.max().z().0 >= a.max().z().0 && u.max().z().0 >= b.max().z().0);
    // and is the minimal such box componentwise
    assert_eq!(u.min().x().0, -ONE);
    assert_eq!(u.min().y().0, -2 * ONE);
    assert_eq!(u.min().z().0, 2 * ONE);
    assert_eq!(u.max().x().0, 2 * ONE);
    assert_eq!(u.max().y().0, 3 * ONE);
    assert_eq!(u.max().z().0, 5 * ONE);
}

#[test]
fn slab_test_hits_and_misses() {
    let b = Bb::from(
        &Point3::from(fxi(-1), fxi(-1), fxi(-1)),
        &Point3::from(fxi(1), fxi(1), fxi(1)),
    );
    let toward = Ray::new(Point3::from(fxi(-5), Fx(0), Fx(0)), Vec3::from(fxi(1), Fx(0), Fx(0)), Fx(0));
    assert!(b.hit(&toward, Fx(0), Fx(100 * ONE)));
    let away = Ray::new(Point3::from(fxi(-5), Fx(0), Fx(0)), Vec3::from(fxi(-1), Fx(0), Fx(0)), Fx(0));
    assert!(!b.hit(&away, Fx(0), Fx(100 * ONE)));
    // a zero direction component: parallel ray inside the slab still hits
    let parallel = Ray::new(Point3::from(fxi(-5), Fx(0), Fx(0)), Vec3::from(fxi(1), Fx(0), Fx(0)), Fx(0));
    assert!(b.hit(&parallel, Fx(0), Fx(100 * ONE)));
    // parallel ray outside the slab misses
    let outside = Ray::new(Point3::from(fxi(-5), fxi(2), Fx(0)), Vec3::from(fxi(1), Fx(0), Fx(0)), Fx(0));
    assert!(!b.hit(&outside, Fx(0), Fx(100 * ONE)));
}

#[test]
fn ray_at_center_hits_at_distance_minus_radius() {
    let s = Sphere::new(Point3::from(fxi(10), Fx(0), Fx(0)), fxi(2), gray());
    let r = Ray::new(Point3::new(), Vec3::from(fxi(1), Fx(0), Fx(0)), Fx(0));
    let rec = s.hit(&r, Fx(65), Fx(0x100_0000)).expect("ray at center must hit");
    // t == distance - radius, exactly representable here
    assert_eq!(rec.t.0, 8 * ONE);
    // normal is parallel to the ray direction, pointing back at it
    assert_eq!(rec.normal.x.0, -ONE);
    assert_eq!(rec.normal.y.0, 0);
    assert_eq!(rec.normal.z.0, 0);
    assert!(rec.front_face);
}

#[test]
fn sphere_hit_points_lie_on_the_sphere() {
    let s = Sphere::new(Point3::from(fxi(10), Fx(0), Fx(0)), fxi(2), gray());
    let dirs = [
        (ONE, 0, 0),
        (ONE, 6554, 0),
        (ONE, 0, -9830),
        (ONE, 5000, 5000),
    ];
    for (dx, dy, dz) in dirs {
        let r = Ray::new(Point3::new(), Vec3::from(Fx(dx), Fx(dy), Fx(dz)), Fx(0));
        if let Some(rec) = s.hit(&r, Fx(65), Fx(0x100_0000)) {
            let diff = rec.p.minus(Point3::from(fxi(10), Fx(0), Fx(0)));
            let dist = diff.length();
            let err = (dist.0 - 2 * ONE).abs();
            assert!(err <= 400, "hit point off the sphere by {} raw units", err);
            // texture coordinates stay inside the unit square
            assert!(0 <= rec.u.0 && rec.u.0 <= ONE);
            assert!(0 <= rec.v.0 && rec.v.0 <= ONE);
        } else {
            panic!("ray through the sphere must hit");
        }
    }
}

#[test]
fn sphere_uv_known_points_and_continuity() {
    // +x axis: u is half a turn from the seam, v is the equator
    let mut u = Fx(0);
    let mut v = Fx(0);
    get_sphere_uv(&Point3::from(Fx(ONE), Fx(0), Fx(0)), &mut u, &mut v);
    assert!((u.0 - 32768).abs() <= 4, "u = {}", u.0);
    assert!((v.0 - 32768).abs() <= 4, "v = {}", v.0);
    // poles: v reaches the ends of its range
    get_sphere_uv(&Point3::from(Fx(0), Fx(ONE), Fx(0)), &mut u, &mut v);
    assert!(v.0 >= ONE - 4, "north pole v = {}", v.0);
    get_sphere_uv(&Point3::from(Fx(0), Fx(-ONE), Fx(0)), &mut u, &mut v);
    assert!(v.0 <= 4, "south pole v = {}", v.0);
    // continuity away from the seam: nearby points give nearby u
    let mut u2 = Fx(0);
    let mut v2 = Fx(0);
    get_sphere_uv(&Point3::from(Fx(ONE), Fx(0), Fx(655)), &mut u, &mut v);
    get_sphere_uv(&Point3::from(Fx(ONE), Fx(0), Fx(-655)), &mut u2, &mut v2);
    assert!((u.0 - u2.0).abs() <= 500, "u jump {} vs {}", u.0, u2.0);
}

#[test]
fn rect_hits_set_extent_coordinates() {
    let rc = XyRect::from(fxi(-1), fxi(1), fxi(-1), fxi(1), fxi(3), gray());
    let r = Ray::new(Point3::new(), Vec3::from(Fx(0), Fx(0), fxi(1)), Fx(0));
    let rec = rc.hit(&r, Fx(65), Fx(0x100_0000)).expect("must hit the plane");
    assert_eq!(rec.t.0, 3 * ONE);
    assert_eq!(rec.u.0, 32768);
    assert_eq!(rec.v.0, 32768);
    // the ray travels with the plane normal, so the stored normal flips
    assert!(!rec.front_face);
    assert_eq!(rec.normal.z.0, -ONE);
    // out of extents: miss
    let wide = Ray::new(Point3::from(fxi(5), Fx(0), Fx(0)), Vec3::from(Fx(0), Fx(0), fxi(1)), Fx(0));
    assert!(rc.hit(&wide, Fx(65), Fx(0x100_0000)).is_none());
}

#[test]
fn xz_and_yz_rects_use_their_plane_normals() {
    let xz = XzRect::from(fxi(-1), fxi(1), fxi(-1), fxi(1), fxi(-2), gray());
    let down = Ray::new(Point3::new(), Vec3::from(Fx(0), fxi(-1), Fx(0)), Fx(0));
    let rec = xz.hit(&down, Fx(65), Fx(0x100_0000)).expect("must hit");
    assert_eq!(rec.t.0, 2 * ONE);
    assert_eq!(rec.normal.y.0, ONE);
    let yz = YzRect::from(fxi(-1), fxi(1), fxi(-1), fxi(1), fxi(4), gray());
    let fwd = Ray::new(Point3::new(), Vec3::from(fxi(1), Fx(0), Fx(0)), Fx(0));
    let rec2 = yz.hit(&fwd, Fx(65), Fx(0x100_0000)).expect("must hit");
    assert_eq!(rec2.t.0, 4 * ONE);
    assert_eq!(rec2.normal.x.0, -ONE);
}

#[test]
fn quadrilateral_crossing_test_and_hit() {
    // a unit-ish diamond in the y-z plane at x = 4
    let q = Quadrilateral::from(
        (fxi(-1), Fx(0)),
        (Fx(0), fxi(1)),
        (fxi(1), Fx(0)),
        (Fx(0), fxi(-1)),
        fxi(4),
        gray(),
    );
    assert!(point_in_quadrilateral(Fx(0), Fx(0), &q));
    assert!(!point_in_quadrilateral(fxi(1), fxi(1), &q));
    let r = Ray::new(Point3::new(), Vec3::from(fxi(1), Fx(0), Fx(0)), Fx(0));
    let rec = q.hit(&r, Fx(65), Fx(0x100_0000)).expect("center ray must hit");
    assert_eq!(rec.t.0, 4 * ONE);
    let miss = Ray::new(
        Point3::from(Fx(0), fxi(1), fxi(1)),
        Vec3::from(fxi(1), Fx(0), Fx(0)),
        Fx(0),
    );
    assert!(q.hit(&miss, Fx(65), Fx(0x100_0000)).is_none());
}

#[test]
fn aggregate_reports_the_minimum_hit() {
    let mut world = HittableList::new();
    world.add(Surface::Sphere(Sphere::new(
        Point3::from(fxi(20), Fx(0), Fx(0)),
        fxi(2),
        gray(),
    )));
    world.add(Surface::Sphere(Sphere::new(
        Point3::from(fxi(10), Fx(0), Fx(0)),
        fxi(2),
        gray(),
    )));
    assert!(world.wf_check());
    let r = Ray::new(Point3::new(), Vec3::from(fxi(1), Fx(0), Fx(0)), Fx(0));
    let (first_t, first_px) = {
        let rec = world.hit(&r, Fx(65), Fx(0x100_0000)).expect("must hit");
        (rec.t.0, rec.p.x.0)
    };
    // the nearer sphere wins, no matter the insertion order
    assert_eq!(first_t, 8 * ONE);
    // adding a non-intersecting object never changes the reported hit
    world.add(Surface::Sphere(Sphere::new(
        Point3::from(Fx(0), fxi(50), Fx(0)),
        fxi(1),
        gray(),
    )));
    let rec2 = world.hit(&r, Fx(65), Fx(0x100_0000)).expect("still hits");
    assert_eq!(rec2.t.0, 8 * ONE);
    assert_eq!(rec2.p.x.0, first_px);
}

#[test]
fn aggregate_box_unions_children_and_clear_empties() {
    let mut world = HittableList::new();
    let mut b = Bb::new();
    assert!(!world.bounding_box(Fx(0), Fx(ONE), &mut b));
    world.add(Surface::Sphere(Sphere::new(Point3::new(), fxi(1), gray())));
    world.add(Surface::Sphere(Sphere::new(
        Point3::from(fxi(5), Fx(0), Fx(0)),
        fxi(1),
        gray(),
    )));
    assert!(world.bounding_box(Fx(0), Fx(ONE), &mut b));
    assert_eq!(b.min().x().0, -ONE);
    assert_eq!(b.max().x().0, 6 * ONE);
    world.clear();
    assert!(!world.bounding_box(Fx(0), Fx(ONE), &mut b));
}
