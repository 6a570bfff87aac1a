use raytracer::color::Color;
use raytracer::fx::FX_ONE;

#[test]
fn test_color_add_saturates() {
    assert_eq!(
        Color::RGB(200, 10, 0).add(Color::RGB(100, 10, 255)),
        Color::RGB(255, 20, 255)
    );
}

#[test]
fn test_color_mul_scales_and_clamps() {
    assert_eq!(Color::RGB(100, 4, 255).mul(2 * FX_ONE), Color::RGB(200, 8, 255));
    assert_eq!(Color::RGB(100, 4, 255).mul(FX_ONE / 2), Color::RGB(50, 2, 127));
    // A negative factor clamps to black, a huge one to white.
    assert_eq!(Color::RGB(100, 4, 255).mul(-FX_ONE), Color::RGB(0, 0, 0));
    assert_eq!(Color::RGB(100, 4, 1).mul(1000 * FX_ONE), Color::RGB(255, 255, 255));
}

#[test]
fn test_color_zero_is_black() {
    assert_eq!(Color::zero(), Color::RGB(0, 0, 0));
}
