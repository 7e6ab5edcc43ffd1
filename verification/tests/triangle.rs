use triangle_mosaic::cfg::{
    GAP_X, GAP_Y, HEIGHT, POLYGON_SIDES, TRIANGLE_RADIUS, TRIANGLE_SCALE, UNIT, WIDTH,
};
use triangle_mosaic::color::Color;
use triangle_mosaic::isqrt::isqrt;
use triangle_mosaic::triangle::{Orientation, Triangle};

#[test]
fn configuration_constants() {
    assert_eq!(UNIT, 1000);
    assert_eq!(POLYGON_SIDES, 3);
    assert_eq!(TRIANGLE_SCALE, 0);
    assert_eq!(TRIANGLE_RADIUS, (WIDTH + HEIGHT) / 250);
    assert_eq!(TRIANGLE_RADIUS, 12_000);
    assert_eq!((GAP_X, GAP_Y), (1100, 1100));
}

#[test]
fn default_triangle_is_the_configured_seed() {
    let t = Triangle::default();
    assert_eq!(t.x(), 0);
    assert_eq!(t.y(), 0);
    assert_eq!(t.z, 0);
    assert_eq!(t.angle, Orientation::Upright);
    assert_eq!(t.radius(), TRIANGLE_RADIUS);
    assert_eq!(t.stroke, Color::none());
    assert_eq!(t.fill, Color::none());
}

#[test]
fn triangle_setters_change_one_field_each() {
    let red = Color { hue: 0, saturation: 1000, lightness: 500, alpha: 1000 };
    let blue = Color { hue: 240_000, saturation: 1000, lightness: 500, alpha: 1000 };
    let t = Triangle::default()
        .set_x(1)
        .set_y(-2)
        .set_z(3)
        .set_radius(4)
        .set_angle(Orientation::Inverted)
        .set_stroke(red)
        .set_fill(blue);
    assert_eq!(
        t,
        Triangle {
            x: 1,
            y: -2,
            z: 3,
            angle: Orientation::Inverted,
            radius: 4,
            stroke: red,
            fill: blue,
        }
    );
    assert_eq!(t.set_x(9).x(), 9);
    assert_eq!(t.set_x(9).y(), -2);
    assert_eq!(t.set_y(9).y(), 9);
    assert_eq!(t.set_radius(9).radius(), 9);
    assert_eq!(t.set_z(9), Triangle { z: 9, ..t });
    assert_eq!(t.set_angle(Orientation::Upright), Triangle { angle: Orientation::Upright, ..t });
    assert_eq!(t.set_stroke(blue), Triangle { stroke: blue, ..t });
    assert_eq!(t.set_fill(red), Triangle { fill: red, ..t });
}

#[test]
fn side_is_radius_times_root_three_rounded_towards_zero() {
    assert_eq!(Triangle::default().set_radius(10_000).side(), 17_320);
    assert_eq!(Triangle::default().side(), 20_784);
    assert_eq!(Triangle::default().set_radius(0).side(), 0);
    assert_eq!(Triangle::default().set_radius(1).side(), 1);
    assert_eq!(Triangle::default().set_radius(2).side(), 3);
    assert_eq!(Triangle::default().set_radius(3).side(), 5);
    assert_eq!(Triangle::default().set_radius(-10_000).side(), -17_320);
    assert_eq!(Triangle::default().set_radius(i32::MAX).side(), 3_719_550_785);
    assert_eq!(Triangle::default().set_radius(i32::MIN).side(), -3_719_550_786);
}

#[test]
fn square_root_rounds_down() {
    assert_eq!(isqrt(0), 0);
    assert_eq!(isqrt(1), 1);
    assert_eq!(isqrt(2), 1);
    assert_eq!(isqrt(3), 1);
    assert_eq!(isqrt(4), 2);
    assert_eq!(isqrt(99), 9);
    assert_eq!(isqrt(100), 10);
    assert_eq!(isqrt(300_000_000), 17_320);
    assert_eq!(isqrt(u64::MAX), 4_294_967_295);
    assert_eq!(isqrt(4_294_967_295 * 4_294_967_295), 4_294_967_295);
    assert_eq!(isqrt(4_294_967_295 * 4_294_967_295 - 1), 4_294_967_294);
}

#[test]
fn square_root_brackets_its_argument() {
    let mut n: u64 = 0;
    while n < 5_000 {
        let s: u64 = isqrt(n);
        assert!(s * s <= n && n < (s + 1) * (s + 1));
        n += 1;
    }
}

#[test]
fn orientation_flips_between_two_values() {
    assert_eq!(Orientation::Upright.flipped(), Orientation::Inverted);
    assert_eq!(Orientation::Inverted.flipped(), Orientation::Upright);
    assert_eq!(Orientation::Upright.degrees(), 0);
    assert_eq!(Orientation::Inverted.degrees(), 180);
    for o in [Orientation::Upright, Orientation::Inverted] {
        assert_eq!(o.flipped().degrees(), (180 + 360 - o.degrees()) % 360);
        assert_eq!(o.flipped().flipped(), o);
    }
}

#[test]
fn shifted_triangle_is_mirrored_turned_and_moved() {
    let t = Triangle::default().set_x(3).set_y(4).set_z(5).set_radius(6);
    let s = t.shifted(10, 100);
    assert_eq!(s, Triangle { x: 13, y: 96, angle: Orientation::Inverted, ..t });
    assert_eq!(s.shifted(-10, 100), t);
}
