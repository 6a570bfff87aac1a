use raytracer::fx::FX_ONE;
use raytracer::iso::{Isometry, Mat3};
use raytracer::ops::{fresnel, reflect, refract};
use raytracer::vec::Vec3;

fn fx(v: f64) -> i64 {
    (v * FX_ONE as f64).round() as i64
}

fn fxv(x: f64, y: f64, z: f64) -> Vec3 {
    Vec3::new(fx(x), fx(y), fx(z))
}

fn funit(x: f64, y: f64, z: f64) -> Vec3 {
    let l = (x * x + y * y + z * z).sqrt();
    fxv(x / l, y / l, z / l)
}

fn vec_from_angle(degrees: f64) -> (f64, f64, f64) {
    let r = degrees.to_radians();
    (r.cos(), r.sin(), 0.0)
}

fn assert_vec_close(a: &Vec3, b: &Vec3) {
    let dx = (a.x - b.x) as f64 / FX_ONE as f64;
    let dy = (a.y - b.y) as f64 / FX_ONE as f64;
    let dz = (a.z - b.z) as f64 / FX_ONE as f64;
    let difference = (dx * dx + dy * dy + dz * dz).sqrt();
    if difference > 0.001 {
        panic!("vector {:?} do not equal {:?}", a, b);
    }
}

fn rot_y(angle: f64) -> Mat3 {
    let (s, c) = angle.sin_cos();
    Mat3::from_rows(fxv(c, 0.0, s), fxv(0.0, 1.0, 0.0), fxv(-s, 0.0, c))
}

#[test]
fn test_reflect() {
    let n = funit(0.0, 1.0, 0.0);
    let v = Vec3::new(-FX_ONE, -FX_ONE, 0);
    assert_eq!(reflect(&v, &n), Vec3::new(FX_ONE, -FX_ONE, 0));
}

#[test]
fn test_refract() {
    let n = funit(0.0, 1.0, 0.0);
    let (vx, vy, vz) = vec_from_angle(-45.0);
    let v = funit(vx, vy, vz);
    let isometry = Isometry::new(rot_y(0.5), fxv(10.0, -20.0, -5.0));

    // test normal refract and with isometry applied
    let test_normal_and_isometry =
        |i: &Vec3, n: &Vec3, n_i: i64, n_t: i64, expected: (f64, f64, f64)| {
            let expected_fx = funit(expected.0, expected.1, expected.2);
            assert_vec_close(&refract(i, n, n_i, n_t).unwrap(), &expected_fx);
            assert_vec_close(
                &refract(
                    &isometry.transform_vector(i),
                    &isometry.transform_vector(n),
                    n_i,
                    n_t,
                )
                .unwrap(),
                &isometry.transform_vector(&expected_fx),
            );
        };

    test_normal_and_isometry(&v, &n, FX_ONE, FX_ONE, (vx, vy, vz));

    // works with reflection
    let v_r = reflect(&v, &n);
    let v_r_f = (
        v_r.x as f64 / FX_ONE as f64,
        v_r.y as f64 / FX_ONE as f64,
        v_r.z as f64 / FX_ONE as f64,
    );
    test_normal_and_isometry(&v_r, &n, FX_ONE, FX_ONE, v_r_f);

    let (wx, wy, wz) = vec_from_angle(-60.0);
    let v_60 = funit(wx, wy, wz);
    test_normal_and_isometry(&v_60, &n, FX_ONE, FX_ONE, (wx, wy, wz));

    let refracted = vec_from_angle(-90.0 + 28.1255);
    // to higher refractive index
    test_normal_and_isometry(&v, &n, FX_ONE, fx(1.5), refracted);

    // to lower refractive index
    test_normal_and_isometry(
        &funit(refracted.0, refracted.1, refracted.2),
        &n,
        fx(1.5),
        FX_ONE,
        (vx, vy, vz),
    );

    // total internal reflection
    assert_eq!(refract(&v, &n, fx(1.5), FX_ONE), None);

    test_normal_and_isometry(
        &funit(-0.0, -0.0, 1.0),
        &funit(0.0, 0.0, -1.0),
        FX_ONE,
        FX_ONE,
        (-0.0, -0.0, 1.0),
    );
}

#[test]
fn test_reflect_involution_axis() {
    let n = Vec3::new(0, FX_ONE, 0);
    let v = Vec3::new(12345, -98765, 55555);
    assert_eq!(reflect(&reflect(&v, &n), &n), v);
    let m = Vec3::new(-FX_ONE, 0, 0);
    assert_eq!(reflect(&reflect(&v, &m), &m), v);
}

#[test]
fn test_refract_round_trip() {
    let n = funit(0.0, 1.0, 0.0);
    let (vx, vy, vz) = vec_from_angle(-30.0);
    let v = funit(vx, vy, vz);
    let out = refract(&v, &n, FX_ONE, fx(1.4)).unwrap();
    let of = (
        out.x as f64 / FX_ONE as f64,
        out.y as f64 / FX_ONE as f64,
        out.z as f64 / FX_ONE as f64,
    );
    let back = refract(&funit(of.0, of.1, of.2), &n, fx(1.4), FX_ONE).unwrap();
    assert_vec_close(&back, &v);
}

#[test]
fn test_refract_straight_on() {
    let i = Vec3::new(0, 0, FX_ONE);
    let n = Vec3::new(0, 0, -FX_ONE);
    assert_eq!(refract(&i, &n, FX_ONE, fx(1.03)), Some(Vec3::new(0, 0, FX_ONE)));
}

#[test]
fn test_fresnel_total_internal_reflection() {
    let n = funit(0.0, 1.0, 0.0);
    let (vx, vy, vz) = vec_from_angle(-45.0);
    let v = funit(vx, vy, vz);
    // from the denser medium at 45 degrees the transmission sine exceeds one
    assert_eq!(fresnel(&v, &n, fx(1.5), FX_ONE), (FX_ONE, 0));
}

#[test]
fn test_fresnel_sums_to_one() {
    let n = funit(0.0, 1.0, 0.0);
    let (vx, vy, vz) = vec_from_angle(-45.0);
    let v = funit(vx, vy, vz);
    let (kr, kt) = fresnel(&v, &n, FX_ONE, fx(1.5));
    assert_eq!(kr + kt, FX_ONE);
    assert!(kr >= 0 && kr <= FX_ONE);
    let (kr2, kt2) = fresnel(&v, &n, FX_ONE, fx(1.03));
    assert_eq!(kr2 + kt2, FX_ONE);
    assert!(kr2 >= 0 && kr2 <= FX_ONE);
}
