use raytracer::color::Color;
use raytracer::fx::FX_ONE;
use raytracer::iso::Mat3;
use raytracer::light::PointLight;
use raytracer::material::{Material, MaterialType};
use raytracer::ray::Ray;
use raytracer::shapes::plane::Plane;
use raytracer::shapes::sphere::Sphere;
use raytracer::shapes::{CastInfo, Shape};
use raytracer::vec::Vec3;
use raytracer::world::World;

fn opaque_material() -> Material {
    Material {
        color: Color::RGB(0, 0, 0),
        albedo: FX_ONE,
        material_type: MaterialType::Phong { k_specular: 0, k_diffuse: FX_ONE, specular_n: 1 },
    }
}

fn mirror_material() -> Material {
    Material {
        color: Color::RGB(0, 0, 0),
        albedo: FX_ONE,
        material_type: MaterialType::Reflection { reflectivity: FX_ONE },
    }
}

fn transparent_material() -> Material {
    Material {
        color: Color::RGB(0, 0, 0),
        albedo: FX_ONE,
        material_type: MaterialType::Refraction { refractive_index: (1.03f64 * FX_ONE as f64) as i64 },
    }
}

fn white_light_above() -> PointLight {
    PointLight {
        ray: Ray {
            origin: Vec3::new(0, 5 * FX_ONE, 0),
            direction: Vec3::new(0, -FX_ONE, 0),
        },
        color: Color::RGB(255, 255, 255),
        intensity: 1000 * FX_ONE,
    }
}

fn floor_plane() -> Plane {
    Plane::new(
        Vec3::new(0, FX_ONE, 0),
        Vec3::new(0, 0, 0),
        (None, None),
        Mat3::identity(),
        opaque_material(),
    )
}

// A ray that lands on the floor at the origin, straight from above.
fn down_ray() -> Ray {
    Ray { origin: Vec3::new(0, FX_ONE, 0), direction: Vec3::new(0, -FX_ONE, 0) }
}

#[test]
fn test_occluder_zeroes_lighting() {
    // An opaque sphere strictly between the surface point and the light
    // zeroes that light's contribution; removing it restores it.
    let occluder = Sphere::new(Vec3::new(0, 2 * FX_ONE, 0), FX_ONE / 2, opaque_material());
    let blocked_world = World {
        shapes: vec![Shape::Plane(floor_plane()), Shape::Sphere(occluder)],
        lights: vec![white_light_above()],
    };
    // The primary ray passes under the occluder and hits the floor; the
    // shadow ray toward the light is blocked.
    assert_eq!(blocked_world.get_color_at_ray(&down_ray(), 0), Color::RGB(0, 0, 0));

    let open_world = World {
        shapes: vec![Shape::Plane(floor_plane())],
        lights: vec![white_light_above()],
    };
    // The facing ratio is one and the intensity term saturates the
    // channels, so the diffuse color is full white.
    assert_eq!(open_world.get_color_at_ray(&down_ray(), 0), Color::RGB(255, 255, 255));
}

#[test]
fn test_transparent_occluder_casts_no_shadow() {
    // A refractive shape is not shadow-casting: the same geometry with a
    // transparent occluder leaves the light visible.
    let occluder = Sphere::new(Vec3::new(0, 2 * FX_ONE, 0), FX_ONE / 2, transparent_material());
    let world = World {
        shapes: vec![Shape::Plane(floor_plane()), Shape::Sphere(occluder)],
        lights: vec![white_light_above()],
    };
    assert_eq!(world.get_color_at_ray(&down_ray(), 0), Color::RGB(255, 255, 255));
}

#[test]
fn test_facing_mirrors_terminate() {
    // Two fully reflective mirrors facing each other: the recursion stops
    // at the depth bound and yields a finite color (zero contribution).
    let mirror_a = Plane::new(
        Vec3::new(0, 0, FX_ONE),
        Vec3::new(0, 0, -5 * FX_ONE),
        (None, None),
        Mat3::identity(),
        mirror_material(),
    );
    let mirror_b = Plane::new(
        Vec3::new(0, 0, -FX_ONE),
        Vec3::new(0, 0, 5 * FX_ONE),
        (None, None),
        Mat3::identity(),
        mirror_material(),
    );
    let world = World {
        shapes: vec![Shape::Plane(mirror_a), Shape::Plane(mirror_b)],
        lights: vec![],
    };
    let ray = Ray { origin: Vec3::new(0, 0, 0), direction: Vec3::new(0, 0, -FX_ONE) };
    assert_eq!(world.get_color_at_ray(&ray, 0), Color::RGB(0, 0, 0));
    // Any starting depth up to the bound terminates as well.
    assert_eq!(world.get_color_at_ray(&ray, 10), Color::RGB(0, 0, 0));
    assert_eq!(world.get_color_at_ray(&ray, 11), Color::RGB(0, 0, 0));
}

#[test]
fn test_end_to_end_phong_sphere() {
    // A unit sphere at the origin with pure diffuse Phong and one light
    // above: a ray from (0,0,-5) toward +z hits at (0,0,-1) with normal
    // (0,0,-1); the light is orthogonal there, so the diffuse term is
    // max(0, normal . to_light) == 0 and the color is black.
    let sphere = Sphere::new(Vec3::new(0, 0, 0), FX_ONE, opaque_material());
    let light = PointLight {
        ray: Ray {
            origin: Vec3::new(0, 10 * FX_ONE, 0),
            direction: Vec3::new(0, -FX_ONE, 0),
        },
        color: Color::RGB(255, 255, 255),
        intensity: 1000 * FX_ONE,
    };
    let world = World { shapes: vec![Shape::Sphere(sphere)], lights: vec![light] };
    let ray = Ray { origin: Vec3::new(0, 0, -5 * FX_ONE), direction: Vec3::new(0, 0, FX_ONE) };

    let info = world.cast_to_shapes(&ray).unwrap();
    assert_eq!(info.point_hit, Vec3::new(0, 0, -FX_ONE));
    assert_eq!(info.normal, Vec3::new(0, 0, -FX_ONE));
    assert_eq!(info.distance, 4 * FX_ONE);
    assert_eq!(info.casted, 0);
    assert_eq!(world.get_color_at_ray(&ray, 0), Color::RGB(0, 0, 0));

    // Hitting the top of the sphere instead: the light is straight above
    // the hit point at distance 9, the facing ratio is exactly one, and
    // each channel comes out at floor(255 * intensity / (4 pi * 81)).
    let top_ray = Ray { origin: Vec3::new(0, 5 * FX_ONE, 0), direction: Vec3::new(0, -FX_ONE, 0) };
    let top = world.cast_to_shapes(&top_ray).unwrap();
    assert_eq!(top.point_hit, Vec3::new(0, FX_ONE, 0));
    assert_eq!(top.normal, Vec3::new(0, FX_ONE, 0));
    assert_eq!(world.get_color_at_ray(&top_ray, 0), Color::RGB(250, 250, 250));
}

#[test]
fn test_phong_weights_blend_diffuse_and_specular() {
    // A shiny floor lit straight from above, seen straight from above:
    // facing ratio and specular alignment are both exactly one, both
    // unweighted terms saturate to white, and the final color is
    // floor(255 * 0.7) + floor(255 * 0.3) per channel.
    let shiny = Material {
        color: Color::RGB(0, 0, 0),
        albedo: FX_ONE,
        material_type: MaterialType::Phong {
            k_specular: (0.3f64 * FX_ONE as f64).round() as i64,
            k_diffuse: (0.7f64 * FX_ONE as f64).round() as i64,
            specular_n: 30,
        },
    };
    let floor = Plane::new(
        Vec3::new(0, FX_ONE, 0),
        Vec3::new(0, 0, 0),
        (None, None),
        Mat3::identity(),
        shiny,
    );
    let world = World {
        shapes: vec![Shape::Plane(floor)],
        lights: vec![white_light_above()],
    };
    let ray = Ray { origin: Vec3::new(0, 2 * FX_ONE, 0), direction: Vec3::new(0, -FX_ONE, 0) };
    assert_eq!(world.get_color_at_ray(&ray, 0), Color::RGB(254, 254, 254));
}

#[test]
fn test_background_on_miss() {
    let world = World { shapes: vec![], lights: vec![] };
    let ray = Ray { origin: Vec3::new(0, 0, 0), direction: Vec3::new(0, 0, FX_ONE) };
    assert_eq!(world.get_color_at_ray(&ray, 0), Color::RGB(59, 172, 214));
    // Beyond the depth bound the contribution is zero, not background.
    assert_eq!(world.get_color_at_ray(&ray, 11), Color::RGB(0, 0, 0));
}

#[test]
fn test_refracted_ray_coefficients_sum_to_one() {
    let world = World { shapes: vec![], lights: vec![] };
    let info = CastInfo {
        normal: Vec3::new(0, 0, -FX_ONE),
        pointing_to_viewer: Vec3::new(0, 0, -FX_ONE),
        point_hit: Vec3::new(0, 0, -FX_ONE),
        distance: 4 * FX_ONE,
        material: transparent_material(),
        casted: 0,
    };
    let (kr, kt, refracted) = world.get_refracted_ray(&info);
    assert_eq!(kr + kt, FX_ONE);
    // Straight-on entry continues straight through.
    assert_eq!(refracted.direction, Vec3::new(0, 0, FX_ONE));
}

#[test]
fn test_nearest_shape_wins() {
    let near = Sphere::new(Vec3::new(0, 0, 3 * FX_ONE), FX_ONE, opaque_material());
    let far = Sphere::new(Vec3::new(0, 0, 8 * FX_ONE), FX_ONE, mirror_material());
    let world = World {
        shapes: vec![Shape::Sphere(far), Shape::Sphere(near)],
        lights: vec![],
    };
    let ray = Ray { origin: Vec3::new(0, 0, 0), direction: Vec3::new(0, 0, FX_ONE) };
    let info = world.cast_to_shapes(&ray).unwrap();
    assert_eq!(info.distance, 2 * FX_ONE);
    assert_eq!(info.casted, 1);
}
