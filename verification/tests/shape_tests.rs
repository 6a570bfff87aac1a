use raytracer::color::Color;
use raytracer::fx::FX_ONE;
use raytracer::iso::Mat3;
use raytracer::material::{Material, MaterialType};
use raytracer::ray::Ray;
use raytracer::shapes::plane::Plane;
use raytracer::shapes::sphere::Sphere;
use raytracer::shapes::{get_nearest_cast_info, CastInfo};
use raytracer::vec::Vec3;

fn phong_material() -> Material {
    Material {
        color: Color::RGB(0, 0, 0),
        albedo: FX_ONE,
        material_type: MaterialType::Phong { k_specular: 0, k_diffuse: FX_ONE, specular_n: 1 },
    }
}

#[test]
fn test_sphere_through_center_roots() {
    // A ray through the center: roots at exactly center - radius and
    // center + radius along the line (5 -+ 1 units here).
    let sphere = Sphere::new(Vec3::new(0, 0, 0), FX_ONE, phong_material());
    let ray = Ray { origin: Vec3::new(0, 0, -5 * FX_ONE), direction: Vec3::new(0, 0, FX_ONE) };
    assert_eq!(sphere.find_roots_intersection(&ray), Some((4 * FX_ONE, 6 * FX_ONE)));
}

#[test]
fn test_sphere_cast_center_hit() {
    let sphere = Sphere::new(Vec3::new(0, 0, 0), FX_ONE, phong_material());
    let ray = Ray { origin: Vec3::new(0, 0, -5 * FX_ONE), direction: Vec3::new(0, 0, FX_ONE) };
    let info = sphere.cast_ray(&ray).unwrap();
    assert_eq!(info.distance, 4 * FX_ONE);
    assert_eq!(info.point_hit, Vec3::new(0, 0, -FX_ONE));
    assert_eq!(info.normal, Vec3::new(0, 0, -FX_ONE));
    assert_eq!(info.pointing_to_viewer, Vec3::new(0, 0, -FX_ONE));
}

#[test]
fn test_sphere_miss_closest_approach() {
    // The closest approach (2 units) exceeds the radius (1 unit).
    let sphere = Sphere::new(Vec3::new(0, 0, 0), FX_ONE, phong_material());
    let ray = Ray {
        origin: Vec3::new(2 * FX_ONE, 0, -5 * FX_ONE),
        direction: Vec3::new(0, 0, FX_ONE),
    };
    assert!(sphere.cast_ray(&ray).is_none());
    // Grazing contact at exactly the radius still hits.
    let ray_tangent = Ray {
        origin: Vec3::new(FX_ONE, 0, -5 * FX_ONE),
        direction: Vec3::new(0, 0, FX_ONE),
    };
    assert!(sphere.cast_ray(&ray_tangent).is_some());
}

#[test]
fn test_sphere_behind_ray_is_missed() {
    let sphere = Sphere::new(Vec3::new(0, 0, 5 * FX_ONE), FX_ONE, phong_material());
    let ray = Ray { origin: Vec3::new(0, 0, 0), direction: Vec3::new(0, 0, -FX_ONE) };
    assert!(sphere.cast_ray(&ray).is_none());
}

#[test]
fn test_sphere_move_to() {
    let mut sphere = Sphere::new(Vec3::new(0, 0, 0), FX_ONE, phong_material());
    sphere.move_to(Vec3::new(FX_ONE, 2 * FX_ONE, 0));
    assert_eq!(sphere.center, Vec3::new(FX_ONE, 2 * FX_ONE, 0));
}

#[test]
fn test_plane_bounds_reject_and_relax() {
    // A downward ray lands 3 units off-center on x; the configured
    // half-extent of 2 rejects the hit, and removing it restores it.
    let bounded = Plane::new(
        Vec3::new(0, FX_ONE, 0),
        Vec3::new(0, 0, 0),
        (Some(2 * FX_ONE), Some(2 * FX_ONE)),
        Mat3::identity(),
        phong_material(),
    );
    let unbounded = Plane::new(
        Vec3::new(0, FX_ONE, 0),
        Vec3::new(0, 0, 0),
        (None, None),
        Mat3::identity(),
        phong_material(),
    );
    let off_center = Ray {
        origin: Vec3::new(3 * FX_ONE, 3 * FX_ONE, 0),
        direction: Vec3::new(0, -FX_ONE, 0),
    };
    assert!(bounded.cast_ray(&off_center).is_none());
    let info = unbounded.cast_ray(&off_center).unwrap();
    assert_eq!(info.distance, 3 * FX_ONE);
    assert_eq!(info.point_hit, Vec3::new(3 * FX_ONE, 0, 0));

    let within = Ray {
        origin: Vec3::new(FX_ONE, 3 * FX_ONE, 0),
        direction: Vec3::new(0, -FX_ONE, 0),
    };
    assert!(bounded.cast_ray(&within).is_some());

    // The same on the z axis.
    let off_center_z = Ray {
        origin: Vec3::new(0, 3 * FX_ONE, 3 * FX_ONE),
        direction: Vec3::new(0, -FX_ONE, 0),
    };
    assert!(bounded.cast_ray(&off_center_z).is_none());
    assert!(unbounded.cast_ray(&off_center_z).is_some());
}

#[test]
fn test_plane_backface_culled() {
    let plane = Plane::new(
        Vec3::new(0, FX_ONE, 0),
        Vec3::new(0, 0, 0),
        (None, None),
        Mat3::identity(),
        phong_material(),
    );
    // A ray from below travels along the normal: the denominator is
    // positive, so the back face is culled.
    let from_below = Ray {
        origin: Vec3::new(0, -3 * FX_ONE, 0),
        direction: Vec3::new(0, FX_ONE, 0),
    };
    assert!(plane.cast_ray(&from_below).is_none());
    // A ray pointing away never reaches the plane (t < 0).
    let away = Ray { origin: Vec3::new(0, 3 * FX_ONE, 0), direction: Vec3::new(0, FX_ONE, 0) };
    assert!(plane.cast_ray(&away).is_none());
}

#[test]
fn test_nearest_cast_info_picks_smaller() {
    let mk = |d: i64| CastInfo {
        normal: Vec3::new(0, FX_ONE, 0),
        pointing_to_viewer: Vec3::new(0, FX_ONE, 0),
        point_hit: Vec3::new(0, 0, 0),
        distance: d,
        material: phong_material(),
        casted: 0,
    };
    assert_eq!(get_nearest_cast_info(None, None), None);
    assert_eq!(get_nearest_cast_info(Some(mk(5)), None).unwrap().distance, 5);
    assert_eq!(get_nearest_cast_info(None, Some(mk(7))).unwrap().distance, 7);
    assert_eq!(get_nearest_cast_info(Some(mk(5)), Some(mk(7))).unwrap().distance, 5);
    assert_eq!(get_nearest_cast_info(Some(mk(9)), Some(mk(7))).unwrap().distance, 7);
    // A tie keeps the first argument.
    let mut a = mk(5);
    a.casted = 1;
    assert_eq!(get_nearest_cast_info(Some(a), Some(mk(5))).unwrap().casted, 1);
}
