use yasa::fixed::UNIT;
use yasa::geometry::Point;
use yasa::painting::DrawObj;
use yasa::painting::Painting;
use yasa::painting::Stroke;
use yasa::pixels::Color;
use yasa::pixels::PixelBuffer;
use yasa::raster::segment_coordinates;
use yasa::raster::Segment;

const RED: Color = Color { r: 255, g: 0, b: 0, a: 255 };

fn blank_image(width: u32, height: u32) -> PixelBuffer {
    PixelBuffer::from_raw(width, height, vec![0; (4 * width * height) as usize]).unwrap()
}

fn px(x: i64, y: i64) -> Point {
    Point::new(x * UNIT, y * UNIT)
}

/// Draws the segments onto a copy of the image, as the application does.
fn draw(image: &PixelBuffer, segments: &[Segment]) -> image::RgbaImage {
    let mut out = image::RgbaImage::from_raw(image.width(), image.height(), image.to_raw()).unwrap();
    for s in segments {
        imageproc::drawing::draw_line_segment_mut(
            &mut out,
            (s.start.x as f32 / UNIT as f32, s.start.y as f32 / UNIT as f32),
            (s.end.x as f32 / UNIT as f32, s.end.y as f32 / UNIT as f32),
            image::Rgba([s.color.r, s.color.g, s.color.b, s.color.a]),
        );
    }
    out
}

#[test]
fn a_point_is_scaled_moved_by_half_the_width_and_the_offset() {
    // (0.25, 0.5) on 100 by 100 pixels is (25, 50); half of 3 is 1.5.
    let p = Point::new(250_000, 500_000);
    assert_eq!(segment_coordinates(p, 3_000_000, 100, 100, (0, 0)), Point::new(26_500_000, 51_500_000));
    assert_eq!(segment_coordinates(p, 3_000_000, 100, 100, (2, 2)), Point::new(28_500_000, 53_500_000));
    assert_eq!(segment_coordinates(p, 3_000_000, 100, 100, (0, 2)), Point::new(26_500_000, 53_500_000));
    assert_eq!(segment_coordinates(p, 0, 100, 100, (0, 0)), Point::new(25_000_000, 50_000_000));
}

#[test]
fn the_shorter_side_of_the_image_is_one() {
    let p = Point::new(UNIT, UNIT);
    assert_eq!(segment_coordinates(p, 0, 200, 100, (0, 0)), px(100, 99));
    assert_eq!(segment_coordinates(Point::new(UNIT, UNIT / 2), 0, 200, 100, (0, 0)), px(100, 50));
    assert_eq!(segment_coordinates(Point::new(UNIT / 2, UNIT), 0, 100, 300, (0, 0)), px(50, 100));
}

#[test]
fn a_point_off_the_image_is_brought_back_onto_it() {
    assert_eq!(segment_coordinates(Point::new(UNIT, UNIT), 3_000_000, 10, 10, (0, 0)), px(9, 9));
    assert_eq!(segment_coordinates(Point::new(-UNIT, -UNIT), 3_000_000, 10, 10, (3, 3)), px(0, 0));
    assert_eq!(segment_coordinates(Point::new(i64::MAX, i64::MIN), 0, 10, 10, (0, 0)), px(9, 0));
    // 9.4 lies beyond the last pixel.
    assert_eq!(segment_coordinates(Point::new(940_000, 0), 0, 10, 10, (0, 0)), px(9, 0));
    assert_eq!(segment_coordinates(Point::new(890_000, 0), 0, 10, 10, (0, 0)), Point::new(8_900_000, 0));
}

#[test]
fn an_image_without_pixels_has_the_origin_only() {
    assert_eq!(segment_coordinates(Point::new(UNIT, UNIT), 3_000_000, 0, 10, (1, 1)), px(0, 0));
    assert_eq!(segment_coordinates(Point::new(UNIT, UNIT), 3_000_000, 10, 0, (1, 1)), px(0, 0));
}

#[test]
fn a_diagonal_of_width_three_on_ten_by_ten_pixels() {
    let line = DrawObj::new(vec![Point::new(0, 0), Point::new(UNIT, UNIT)], Stroke { width: 3_000_000, color: RED });
    let p = Painting::new_crop(blank_image(10, 10), vec![line]);
    let segments = p.generate_segments();
    // Four offsets, two segments each.
    assert_eq!(segments.len(), 8);
    let h = |v: i64| v * UNIT / 2;
    let expected = [
        (Point::new(h(3), h(3)), px(9, 9)),
        (Point::new(h(3), h(3)), px(9, 9)),
        (Point::new(h(5), h(5)), px(9, 9)),
        (Point::new(h(3), h(5)), px(9, 9)),
        (Point::new(h(7), h(7)), px(9, 9)),
        (Point::new(h(3), h(7)), px(9, 9)),
        (Point::new(h(9), h(9)), px(9, 9)),
        (Point::new(h(3), h(9)), px(9, 9)),
    ];
    for (s, e) in segments.iter().zip(expected.iter()) {
        assert_eq!((s.start, s.end), *e);
        assert_eq!(s.color, RED);
    }
    for s in &segments {
        for q in [s.start, s.end] {
            assert!(0 <= q.x && q.x <= 9 * UNIT && 0 <= q.y && q.y <= 9 * UNIT);
        }
    }
    let out = draw(p.image(), &segments);
    assert_eq!((out.width(), out.height()), (10, 10));
    let red = image::Rgba([255, 0, 0, 255]);
    for d in 1..=9 {
        assert_eq!(*out.get_pixel(d, d), red, "{}", d);
    }
    assert_eq!(*out.get_pixel(0, 0), image::Rgba([0, 0, 0, 0]));
    assert_eq!(*out.get_pixel(9, 0), image::Rgba([0, 0, 0, 0]));
    assert_eq!(*out.get_pixel(0, 9), image::Rgba([0, 0, 0, 0]));
}

#[test]
fn strokes_of_fewer_than_two_points_draw_nothing() {
    let list = vec![
        DrawObj::new(vec![], Stroke { width: 3_000_000, color: RED }),
        DrawObj::new(vec![Point::new(1, 1)], Stroke { width: 3_000_000, color: RED }),
    ];
    let p = Painting::new_crop(blank_image(10, 10), list);
    assert!(p.generate_segments().is_empty());
    assert!(Painting::new(blank_image(10, 10)).generate_segments().is_empty());
}

#[test]
fn nothing_is_drawn_onto_an_image_without_pixels() {
    let line = DrawObj::new(vec![Point::new(0, 0), Point::new(UNIT, UNIT)], Stroke { width: 3_000_000, color: RED });
    let p = Painting::new_crop(blank_image(0, 0), vec![line]);
    assert!(p.generate_segments().is_empty());
}

#[test]
fn the_width_is_rounded_to_count_the_offsets() {
    for (width, count) in [(0u32, 1usize), (499_999, 1), (500_000, 2), (1_000_000, 2), (1_499_999, 2), (12_000_000, 13)] {
        let line = DrawObj::new(vec![Point::new(0, 0), Point::new(UNIT, UNIT)], Stroke { width, color: RED });
        let p = Painting::new_crop(blank_image(10, 10), vec![line]);
        assert_eq!(p.generate_segments().len(), 2 * count, "{}", width);
    }
}

#[test]
fn segments_follow_strokes_pairs_and_offsets_in_order() {
    let green = Color { r: 0, g: 255, b: 0, a: 255 };
    let list = vec![
        DrawObj::new(
            vec![Point::new(0, 0), Point::new(100_000, 0), Point::new(100_000, 100_000)],
            Stroke { width: 0, color: RED },
        ),
        DrawObj::new(vec![Point::new(0, 500_000), Point::new(500_000, 500_000)], Stroke { width: 1_000_000, color: green }),
    ];
    let p = Painting::new_crop(blank_image(100, 100), list);
    let s = p.generate_segments();
    assert_eq!(s.len(), 2 * 2 + 2 * 2);
    assert_eq!(s[0], Segment { start: px(0, 0), end: px(10, 0), color: RED });
    assert_eq!(s[1], s[0]);
    assert_eq!(s[2], Segment { start: px(10, 0), end: px(10, 10), color: RED });
    assert_eq!(s[3], s[2]);
    let half = UNIT / 2;
    assert_eq!(s[4], Segment { start: Point::new(half, 50 * UNIT + half), end: Point::new(50 * UNIT + half, 50 * UNIT + half), color: green });
    assert_eq!(s[5], s[4]);
    assert_eq!(s[6], Segment { start: Point::new(UNIT + half, 51 * UNIT + half), end: Point::new(51 * UNIT + half, 51 * UNIT + half), color: green });
    assert_eq!(s[7], Segment { start: Point::new(half, 51 * UNIT + half), end: Point::new(50 * UNIT + half, 51 * UNIT + half), color: green });
}

#[test]
fn every_segment_ends_on_the_image() {
    let list = vec![
        DrawObj::new(
            vec![Point::new(-5 * UNIT, 3 * UNIT), Point::new(7 * UNIT, -2 * UNIT), Point::new(i64::MAX, i64::MIN)],
            Stroke { width: 12_000_000, color: RED },
        ),
        DrawObj::new(vec![Point::new(0, 0), Point::new(1, 1)], Stroke { width: u32::MAX, color: RED }),
    ];
    let p = Painting::new_crop(blank_image(7, 5), list);
    let segments = p.generate_segments();
    assert_eq!(segments.len(), 2 * 2 * 13 + 2 * 4296);
    for s in &segments {
        for q in [s.start, s.end] {
            assert!(0 <= q.x && q.x <= 6 * UNIT && 0 <= q.y && q.y <= 4 * UNIT, "{:?}", s);
        }
    }
    let out = draw(p.image(), &segments);
    assert_eq!((out.width(), out.height()), (7, 5));
}
