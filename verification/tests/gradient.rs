use gradient_message::color::{
    canvas_extent, interpolate_multi_color, lerp, lerp_color, scale_color, Color, Direction,
    DIRECTION_SCALE,
};

const BLACK: Color = Color { r: 0, g: 0, b: 0 };
const WHITE: Color = Color { r: 255, g: 255, b: 255 };
const RED: Color = Color { r: 255, g: 0, b: 0 };
const GREEN: Color = Color { r: 0, g: 255, b: 0 };
const BLUE: Color = Color { r: 0, g: 0, b: 255 };

fn direction_of(degrees: f64) -> Direction {
    let radians = degrees.to_radians();
    let x = (radians.cos() * DIRECTION_SCALE as f64).round() as i32;
    let y = (radians.sin() * DIRECTION_SCALE as f64).round() as i32;
    Direction::new(x, y).unwrap()
}

fn reference_channel(x: f64, y: f64, width: f64, height: f64, d: Direction, a: f64, b: f64) -> f64 {
    let dir_x = d.x as f64 / DIRECTION_SCALE as f64;
    let dir_y = d.y as f64 / DIRECTION_SCALE as f64;
    let denom = (width / 2.0) * dir_x.abs() + (height / 2.0) * dir_y.abs();
    let denom = if denom == 0.0 { 1.0 } else { denom };
    let t = ((x - width / 2.0) * dir_x + (y - height / 2.0) * dir_y) / denom;
    let t = (t * 0.5 + 0.5).clamp(0.0, 0.999999);
    a * (1.0 - t) + b * t
}

#[test]
fn single_stop_gradient_is_that_color_everywhere() {
    let stops = vec![Color { r: 12, g: 200, b: 77 }];
    for degrees in [0.0, 33.0, 90.0, 180.0, 271.5] {
        let d = direction_of(degrees);
        for x in 0..12 {
            for y in 0..5 {
                assert_eq!(interpolate_multi_color(x, y, 11, 4, d, &stops), stops[0]);
            }
        }
    }
    assert_eq!(
        interpolate_multi_color(u32::MAX, 0, 0, u32::MAX, Direction { x: 0, y: 0 }, &stops),
        stops[0]
    );
}

#[test]
fn canvas_center_is_halfway_whatever_the_angle() {
    let two = vec![BLACK, WHITE];
    let three = vec![RED, GREEN, BLUE];
    for degrees in [0.0, 17.0, 45.0, 90.0, 135.0, 180.0, 200.0, 270.0, 359.0] {
        let d = direction_of(degrees);
        assert_eq!(interpolate_multi_color(5, 2, 10, 4, d, &two), Color { r: 127, g: 127, b: 127 });
        assert_eq!(interpolate_multi_color(5, 2, 10, 4, d, &three), GREEN);
    }
}

#[test]
fn gradient_runs_from_the_first_stop_to_the_last() {
    let stops = vec![BLACK, WHITE];
    let along = Direction::new(DIRECTION_SCALE, 0).unwrap();
    assert_eq!(interpolate_multi_color(0, 0, 10, 1, along, &stops), BLACK);
    assert_eq!(interpolate_multi_color(5, 0, 10, 1, along, &stops), Color { r: 127, g: 127, b: 127 });
    assert_eq!(interpolate_multi_color(9, 0, 10, 1, along, &stops), Color { r: 229, g: 229, b: 229 });
    let against = Direction::new(-DIRECTION_SCALE, 0).unwrap();
    assert_eq!(interpolate_multi_color(10, 0, 10, 1, against, &stops), BLACK);
    assert_eq!(interpolate_multi_color(1, 0, 10, 1, against, &stops), Color { r: 229, g: 229, b: 229 });
}

#[test]
fn gradient_picks_the_segment_between_two_stops() {
    let stops = vec![RED, GREEN, BLUE];
    let along = Direction::new(DIRECTION_SCALE, 0).unwrap();
    // t = 0.25: halfway through the first segment.
    assert_eq!(interpolate_multi_color(5, 0, 20, 1, along, &stops), Color { r: 127, g: 127, b: 0 });
    // t = 0.75: halfway through the second segment.
    assert_eq!(interpolate_multi_color(15, 0, 20, 1, along, &stops), Color { r: 0, g: 127, b: 127 });
    // t = 0.5: exactly on the middle stop.
    assert_eq!(interpolate_multi_color(10, 0, 20, 1, along, &stops), GREEN);
}

#[test]
fn gradient_position_stays_below_one() {
    let stops = vec![BLACK, WHITE];
    let along = Direction::new(DIRECTION_SCALE, 0).unwrap();
    assert_eq!(interpolate_multi_color(10, 0, 10, 1, along, &stops), Color { r: 254, g: 254, b: 254 });
    assert_eq!(interpolate_multi_color(20, 0, 10, 1, along, &stops), Color { r: 254, g: 254, b: 254 });
    let three = vec![RED, GREEN, BLUE];
    assert_eq!(interpolate_multi_color(500, 0, 10, 1, along, &three), Color { r: 0, g: 0, b: 254 });
}

#[test]
fn empty_extent_counts_as_one() {
    let stops = vec![BLACK, WHITE];
    let along = Direction::new(DIRECTION_SCALE, 0).unwrap();
    // No canvas: the offset is 0 and the normalizer is 1.
    assert_eq!(interpolate_multi_color(0, 0, 0, 0, along, &stops), Color { r: 127, g: 127, b: 127 });
    // One cell to the right of an empty canvas: the offset 1 over the normalizer 1.
    assert_eq!(interpolate_multi_color(1, 0, 0, 0, along, &stops), Color { r: 254, g: 254, b: 254 });
    let none = Direction::new(0, 0).unwrap();
    assert_eq!(interpolate_multi_color(3, 1, 10, 4, none, &stops), Color { r: 127, g: 127, b: 127 });
}

#[test]
fn gradient_agrees_with_floating_point_within_one() {
    let stops = vec![Color { r: 10, g: 250, b: 0 }, Color { r: 200, g: 20, b: 255 }];
    for degrees in [0.0, 30.0, 45.0, 77.0, 90.0, 120.0, 210.0, 300.0] {
        let d = direction_of(degrees);
        for x in 0..16u32 {
            for y in 0..6u32 {
                let c = interpolate_multi_color(x, y, 16, 6, d, &stops);
                let r = reference_channel(x as f64, y as f64, 16.0, 6.0, d, 10.0, 200.0);
                let g = reference_channel(x as f64, y as f64, 16.0, 6.0, d, 250.0, 20.0);
                let b = reference_channel(x as f64, y as f64, 16.0, 6.0, d, 0.0, 255.0);
                assert!((c.r as f64 - r).abs() <= 1.0, "red at {x},{y},{degrees}: {} vs {r}", c.r);
                assert!((c.g as f64 - g).abs() <= 1.0, "green at {x},{y},{degrees}: {} vs {g}", c.g);
                assert!((c.b as f64 - b).abs() <= 1.0, "blue at {x},{y},{degrees}: {} vs {b}", c.b);
            }
        }
    }
}

#[test]
fn lerp_rounds_down_between_its_ends() {
    assert_eq!(lerp(0, 255, 1, 2), 127);
    assert_eq!(lerp(10, 20, 0, 5), 10);
    assert_eq!(lerp(10, 20, 5, 5), 20);
    assert_eq!(lerp(200, 100, 1, 4), 175);
    assert_eq!(lerp(0, 1, 999_999, 1_000_000), 0);
    assert_eq!(lerp(255, 255, 3, 7), 255);
    assert_eq!(lerp(0, 255, u64::MAX - 1, u64::MAX), 254);
}

#[test]
fn lerp_color_blends_each_channel() {
    let a = Color { r: 0, g: 100, b: 255 };
    let b = Color { r: 255, g: 200, b: 0 };
    assert_eq!(lerp_color(a, b, 1, 4), Color { r: 63, g: 125, b: 191 });
    assert_eq!(lerp_color(a, b, 0, 4), a);
    assert_eq!(lerp_color(a, b, 4, 4), b);
}

#[test]
fn scale_color_rounds_to_the_nearest_thousandth() {
    assert_eq!(scale_color(0), 0);
    assert_eq!(scale_color(1), 4);
    assert_eq!(scale_color(128), 502);
    assert_eq!(scale_color(255), 1000);
    for value in 0..=255u8 {
        let expected = (value as f32 * 1000.0 / 255.0).round() as i16;
        assert_eq!(scale_color(value), expected);
    }
}

#[test]
fn direction_components_lie_within_one() {
    assert_eq!(Direction::new(0, 0), Some(Direction { x: 0, y: 0 }));
    assert_eq!(
        Direction::new(-DIRECTION_SCALE, DIRECTION_SCALE),
        Some(Direction { x: -1_000_000, y: 1_000_000 })
    );
    assert_eq!(Direction::new(DIRECTION_SCALE + 1, 0), None);
    assert_eq!(Direction::new(0, -DIRECTION_SCALE - 1), None);
    assert_eq!(Direction::new(i32::MIN, i32::MAX), None);
}

#[test]
fn canvas_extent_stops_at_the_largest_extent() {
    assert_eq!(canvas_extent(0), 0);
    assert_eq!(canvas_extent(80), 80);
    assert_eq!(canvas_extent(u32::MAX as usize), u32::MAX);
    assert_eq!(canvas_extent(usize::MAX), u32::MAX);
}
