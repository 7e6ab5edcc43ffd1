use triangle_mosaic::animation::{Index, Shape, TrianglesPlugin};
use triangle_mosaic::cfg::{
    HUE_RANGE, HUE_RATE, MAX_RINGS, STROKE_ALPHA, STROKE_LIGHTNESS, STROKE_SATURATION,
    TRIANGLE_RADIUS, UNIT,
};
use triangle_mosaic::color::Color;
use triangle_mosaic::mosaic::{ConfigError, Size};
use triangle_mosaic::triangle::{Orientation, Triangle};

fn lit(hue: u32) -> Color {
    Color { hue, saturation: 1000, lightness: 500, alpha: 1000 }
}

fn three_shapes() -> Vec<Shape> {
    vec![
        Shape::new(Triangle::default()),
        Shape::new(Triangle::default().set_x(5).set_angle(Orientation::Inverted)),
        Shape { triangle: Triangle::default().set_stroke(lit(359_990)), scale_x: 990, scale_y: 2000 },
    ]
}

#[test]
fn no_colour_is_transparent_black() {
    assert_eq!(Color::none(), Color { hue: 0, saturation: 0, lightness: 0, alpha: 0 });
}

#[test]
fn stroke_constants() {
    assert_eq!(HUE_RATE, 20);
    assert_eq!(HUE_RANGE, 360_000);
    assert_eq!((STROKE_SATURATION, STROKE_LIGHTNESS, STROKE_ALPHA), (1000, 500, 1000));
}

#[test]
fn hue_turns_twenty_degrees_a_second() {
    assert_eq!(Color::none().rotated(1000), lit(20_000));
    assert_eq!(Color::none().rotated(16), lit(320));
    assert_eq!(lit(100_000).rotated(500), lit(110_000));
    assert_eq!(lit(100_000).rotated(0), lit(100_000));
}

#[test]
fn hue_wraps_at_the_end_of_the_circle() {
    assert_eq!(lit(359_990).rotated(1), lit(10));
    assert_eq!(lit(359_980).rotated(1), lit(0));
    assert_eq!(lit(0).rotated(18_000), lit(0));
    assert_eq!(lit(123).rotated(18_000), lit(123));
    assert_eq!(lit(0).rotated(u32::MAX), lit(105_900));
    assert_eq!(lit(u32::MAX).rotated(u32::MAX), lit(273_195));
}

#[test]
fn rotation_forces_saturation_lightness_and_opacity() {
    let dull = Color { hue: 10, saturation: 1, lightness: 2, alpha: 3 };
    assert_eq!(dull.rotated(1), lit(30));
}

#[test]
fn new_shape_starts_at_scale_zero() {
    let t = Triangle::default().set_x(7);
    assert_eq!(Shape::new(t), Shape { triangle: t, scale_x: 0, scale_y: 0 });
}

#[test]
fn easing_adds_the_elapsed_time_to_both_axes() {
    let s = Shape::new(Triangle::default()).ease(16);
    assert_eq!((s.scale_x, s.scale_y), (16, 16));
    let t = Shape { triangle: Triangle::default(), scale_x: -500, scale_y: 1000 }.ease(20);
    assert_eq!((t.scale_x, t.scale_y), (-480, 1020));
    assert_eq!(s.triangle, Triangle::default());
}

#[test]
fn easing_stops_once_an_axis_is_past_one() {
    let x = Shape { triangle: Triangle::default(), scale_x: 1001, scale_y: 0 };
    assert_eq!(x.ease(20), x);
    let y = Shape { triangle: Triangle::default(), scale_x: 0, scale_y: 1001 };
    assert_eq!(y.ease(20), y);
    let top = Shape { triangle: Triangle::default(), scale_x: 1000, scale_y: 1000 };
    assert_eq!(top.ease(20), Shape { triangle: Triangle::default(), scale_x: 1020, scale_y: 1020 });
    assert_eq!(top.ease(20).ease(20), top.ease(20));
}

#[test]
fn easing_reaches_exactly_one_after_one_second_of_equal_steps() {
    for delta in [1u32, 2, 4, 5, 8, 10, 20, 25, 40, 50, 100, 125, 200, 250, 500, 1000] {
        let mut s = Shape::new(Triangle::default());
        let steps: u32 = 1000 / delta;
        for _ in 0..steps {
            let next = s.ease(delta);
            assert!(next.scale_x >= s.scale_x && next.scale_y >= s.scale_y);
            s = next;
        }
        assert_eq!((s.scale_x, s.scale_y), (UNIT, UNIT));
    }
}

#[test]
fn easing_never_decreases_and_never_overflows() {
    let s = Shape { triangle: Triangle::default(), scale_x: 1000, scale_y: i64::MIN };
    let e = s.ease(u32::MAX);
    assert_eq!((e.scale_x, e.scale_y), (1000 + 4_294_967_295, i64::MIN + 4_294_967_295));
    assert_eq!(e.ease(u32::MAX), e);
}

#[test]
fn animated_shape_is_eased_and_turned() {
    let s = Shape::new(Triangle::default().set_x(3).set_fill(lit(5))).animated(20);
    assert_eq!(
        s,
        Shape { triangle: Triangle::default().set_x(3).set_fill(lit(5)).set_stroke(lit(400)), scale_x: 20, scale_y: 20 }
    );
    let grown = Shape { triangle: Triangle::default(), scale_x: 5000, scale_y: 5000 }.animated(20);
    assert_eq!((grown.scale_x, grown.scale_y), (5000, 5000));
    assert_eq!(grown.triangle.stroke, lit(400));
}

#[test]
fn cursor_moves_on_and_wraps() {
    assert_eq!(Index(0).advance(3), Index(1));
    assert_eq!(Index(1).advance(3), Index(2));
    assert_eq!(Index(2).advance(3), Index(0));
    assert_eq!(Index(0).advance(1), Index(0));
    assert_eq!(Index(usize::MAX - 1).advance(usize::MAX), Index(0));
}

#[test]
fn cursor_that_points_at_no_shape_stays() {
    assert_eq!(Index(0).advance(0), Index(0));
    assert_eq!(Index(3).advance(3), Index(3));
    assert_eq!(Index(usize::MAX).advance(5), Index(usize::MAX));
}

#[test]
fn cursor_is_back_after_as_many_frames_as_shapes() {
    for count in 1..20usize {
        for start in 0..count {
            let mut index = Index(start);
            for step in 1..=count {
                index = index.advance(count);
                assert_eq!(index, Index((start + step) % count));
            }
            assert_eq!(index, Index(start));
        }
    }
}

#[test]
fn first_frame_only_makes_the_cursor() {
    let mut plugin = TrianglesPlugin { shapes: three_shapes(), index: None };
    plugin.animation(16);
    assert_eq!(plugin, TrianglesPlugin { shapes: three_shapes(), index: Some(Index(0)) });
}

#[test]
fn later_frames_animate_every_shape_and_move_the_cursor() {
    let mut plugin = TrianglesPlugin { shapes: three_shapes(), index: Some(Index(0)) };
    plugin.animation(20);
    assert_eq!(plugin.index, Some(Index(1)));
    assert_eq!(
        plugin.shapes,
        vec![
            Shape { triangle: Triangle::default().set_stroke(lit(400)), scale_x: 20, scale_y: 20 },
            Shape {
                triangle: Triangle::default()
                    .set_x(5)
                    .set_angle(Orientation::Inverted)
                    .set_stroke(lit(400)),
                scale_x: 20,
                scale_y: 20,
            },
            Shape { triangle: Triangle::default().set_stroke(lit(390)), scale_x: 990, scale_y: 2000 },
        ]
    );
    plugin.animation(20);
    assert_eq!(plugin.index, Some(Index(2)));
    assert_eq!(plugin.shapes[0].scale_x, 40);
    assert_eq!(plugin.shapes[0].triangle.stroke, lit(800));
    plugin.animation(20);
    assert_eq!(plugin.index, Some(Index(0)));
    assert_eq!(plugin.shapes[1].scale_y, 60);
    assert_eq!(plugin.shapes[2].triangle.stroke, lit(1190));
}

#[test]
fn all_shapes_are_animated_wherever_the_cursor_is() {
    let mut plugin = TrianglesPlugin { shapes: three_shapes(), index: Some(Index(2)) };
    plugin.animation(10);
    assert_eq!(plugin.index, Some(Index(0)));
    assert_eq!(plugin.shapes[0].scale_x, 10);
    assert_eq!(plugin.shapes[1].scale_x, 10);
    assert_eq!(plugin.shapes[2].triangle.stroke, lit(190));
}

#[test]
fn animation_without_shapes_does_nothing() {
    let mut plugin = TrianglesPlugin { shapes: Vec::new(), index: None };
    plugin.animation(16);
    assert_eq!(plugin, TrianglesPlugin { shapes: Vec::new(), index: Some(Index(0)) });
    plugin.animation(16);
    assert_eq!(plugin, TrianglesPlugin { shapes: Vec::new(), index: Some(Index(0)) });
}

#[test]
fn cursor_out_of_range_stays_while_shapes_are_animated() {
    let mut plugin = TrianglesPlugin { shapes: three_shapes(), index: Some(Index(7)) };
    plugin.animation(10);
    assert_eq!(plugin.index, Some(Index(7)));
    assert_eq!(plugin.shapes[0].scale_x, 10);
}

#[test]
fn one_second_of_frames_brings_every_shape_to_full_scale() {
    let mut plugin = TrianglesPlugin::generate(Size(100_000, 100_000)).unwrap();
    let count: usize = plugin.shapes.len();
    plugin.animation(20);
    assert_eq!(plugin.index, Some(Index(0)));
    for frame in 1..=50usize {
        plugin.animation(20);
        assert_eq!(plugin.index, Some(Index(frame % count)));
    }
    for shape in &plugin.shapes {
        assert_eq!((shape.scale_x, shape.scale_y), (1000, 1000));
        assert_eq!(shape.triangle.stroke, lit(20_000));
        assert_eq!(shape.triangle.fill, Color::none());
    }
}

#[test]
fn generate_makes_a_shape_of_each_visible_triangle() {
    let plugin = TrianglesPlugin::generate(Size(100_000, 100_000)).unwrap();
    assert_eq!(plugin.index, None);
    // Radius 12 000 gives offsets (11431, 6600): three rings, 64 triangles,
    // of which those within 62 000 of the origin on both axes are kept.
    assert_eq!(plugin.shapes.len(), 54);
    assert_eq!(plugin.shapes[0], Shape::new(Triangle::default()));
    assert_eq!(
        plugin.shapes[1],
        Shape::new(
            Triangle::default().set_x(11_431).set_y(6_600).set_angle(Orientation::Inverted)
        )
    );
    for shape in &plugin.shapes {
        assert_eq!((shape.scale_x, shape.scale_y), (0, 0));
        assert_eq!(shape.triangle.radius(), TRIANGLE_RADIUS);
        assert!(shape.triangle.is_visible(Size(100_000, 100_000)));
        assert!(shape.triangle.x().abs() < 62_000 && shape.triangle.y().abs() < 62_000);
    }
}

#[test]
fn generate_for_the_configured_window() {
    let plugin = TrianglesPlugin::generate(Size(1_920_000, 1_080_000)).unwrap();
    assert_eq!(plugin.shapes.len(), 8707);
    assert_eq!(plugin.index, None);
}

#[test]
fn generate_for_an_empty_viewport_keeps_the_seed() {
    let plugin = TrianglesPlugin::generate(Size(0, 0)).unwrap();
    assert_eq!(plugin.shapes, vec![Shape::new(Triangle::default())]);
}

#[test]
fn generate_refuses_a_viewport_of_more_than_ten_rings() {
    assert_eq!(MAX_RINGS, 10);
    assert_eq!(
        TrianglesPlugin::generate(Size(11_705_344, 6_758_400)),
        Err(ConfigError::TooManyRings)
    );
    assert_eq!(TrianglesPlugin::generate(Size(u32::MAX, u32::MAX)), Err(ConfigError::TooManyRings));
}
