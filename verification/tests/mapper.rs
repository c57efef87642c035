use yasa::fixed::UNIT;
use yasa::geometry::Point;
use yasa::geometry::Rect;
use yasa::geometry::Size;
use yasa::mapper::fit;
use yasa::mapper::CoordinateMapper;

fn rect(x0: i64, y0: i64, x1: i64, y1: i64) -> Rect {
    Rect { min: Point::new(x0 * UNIT, y0 * UNIT), max: Point::new(x1 * UNIT, y1 * UNIT) }
}

#[test]
fn fit_fills_the_width_of_a_tall_viewport() {
    let s = fit(Size::new(100 * UNIT, 400 * UNIT), 200, 100);
    assert_eq!(s, Size { width: 100 * UNIT, height: 50 * UNIT });
}

#[test]
fn fit_fills_the_height_of_a_wide_viewport() {
    let s = fit(Size::new(400 * UNIT, 100 * UNIT), 200, 100);
    assert_eq!(s, Size { width: 200 * UNIT, height: 100 * UNIT });
}

#[test]
fn fit_in_a_square_viewport() {
    assert_eq!(fit(Size::new(90 * UNIT, 90 * UNIT), 3, 1), Size { width: 90 * UNIT, height: 30 * UNIT });
    assert_eq!(fit(Size::new(90 * UNIT, 90 * UNIT), 1, 3), Size { width: 30 * UNIT, height: 90 * UNIT });
    assert_eq!(fit(Size::new(90 * UNIT, 90 * UNIT), 7, 7), Size { width: 90 * UNIT, height: 90 * UNIT });
}

#[test]
fn fit_rounds_down() {
    assert_eq!(fit(Size::new(100, 100), 3, 1), Size { width: 100, height: 33 });
}

#[test]
fn fit_never_leaves_the_viewport() {
    for (vw, vh) in [(640i64, 400i64), (400, 640), (1, 1), (1920, 1080), (333, 777)] {
        for (aw, ah) in [(1u32, 1u32), (16, 9), (9, 16), (1, 1000), (1000, 1), (1920, 1080)] {
            let s = fit(Size::new(vw * UNIT, vh * UNIT), aw, ah);
            assert!(0 <= s.width && s.width <= vw * UNIT);
            assert!(0 <= s.height && s.height <= vh * UNIT);
            assert!(s.width == vw * UNIT || s.height == vh * UNIT);
        }
    }
}

#[test]
fn nothing_fits_an_empty_viewport_or_empty_proportions() {
    let zero = Size { width: 0, height: 0 };
    assert_eq!(fit(Size::new(0, 100), 1, 1), zero);
    assert_eq!(fit(Size::new(100, 0), 1, 1), zero);
    assert_eq!(fit(Size::new(-5, 100), 1, 1), zero);
    assert_eq!(fit(Size::new(100, 100), 0, 1), zero);
    assert_eq!(fit(Size::new(100, 100), 1, 0), zero);
}

#[test]
fn build_needs_a_source_with_area() {
    assert!(CoordinateMapper::build(rect(0, 0, 1, 1), rect(0, 0, 0, 0)).is_some());
    assert!(CoordinateMapper::build(rect(0, 0, 0, 1), rect(0, 0, 5, 5)).is_none());
    assert!(CoordinateMapper::build(rect(0, 0, 1, 0), rect(0, 0, 5, 5)).is_none());
    assert!(CoordinateMapper::build(rect(3, 3, 1, 1), rect(0, 0, 5, 5)).is_none());
}

#[test]
fn apply_scales_and_moves() {
    let m = CoordinateMapper::build(rect(0, 0, 1, 1), rect(10, 20, 110, 220)).unwrap();
    assert_eq!(m.apply(Point::new(0, 0)), Point::new(10 * UNIT, 20 * UNIT));
    assert_eq!(m.apply(Point::new(UNIT, UNIT)), Point::new(110 * UNIT, 220 * UNIT));
    assert_eq!(m.apply(Point::new(UNIT / 2, UNIT / 4)), Point::new(60 * UNIT, 70 * UNIT));
    assert_eq!(m.apply(Point::new(-UNIT, 2 * UNIT)), Point::new(-90 * UNIT, 420 * UNIT));
}

#[test]
fn apply_rounds_down() {
    let m = CoordinateMapper::build(
        Rect { min: Point::new(0, 0), max: Point::new(3, 3) },
        Rect { min: Point::new(0, 0), max: Point::new(10, 10) },
    )
    .unwrap();
    assert_eq!(m.apply(Point::new(1, 2)), Point::new(3, 6));
    assert_eq!(m.apply(Point::new(-1, -2)), Point::new(-4, -7));
}

#[test]
fn apply_saturates() {
    let m = CoordinateMapper::build(
        Rect { min: Point::new(0, 0), max: Point::new(1, 1) },
        Rect { min: Point::new(0, 0), max: Point::new(i64::MAX, i64::MAX) },
    )
    .unwrap();
    assert_eq!(m.apply(Point::new(2, -2)), Point::new(i64::MAX, i64::MIN));
}

#[test]
fn invert_needs_a_target_with_area() {
    let m = CoordinateMapper::build(rect(0, 0, 1, 1), rect(0, 0, 0, 5)).unwrap();
    assert!(m.invert().is_none());
    let n = CoordinateMapper::build(rect(0, 0, 1, 1), rect(0, 0, 5, 5)).unwrap();
    assert!(n.invert().is_some());
}

#[test]
fn forth_and_back_comes_home_within_one_step() {
    let from = rect(0, 0, 1, 1);
    let to = rect(100, 50, 740, 450);
    let m = CoordinateMapper::build(from, to).unwrap();
    let back = m.invert().unwrap();
    for (x, y) in [(0i64, 0i64), (UNIT, UNIT), (123_456, 654_321), (999_999, 1), (-5, 2 * UNIT)] {
        let p = Point::new(x, y);
        let q = back.apply(m.apply(p));
        assert!(q.x <= p.x && p.x - q.x <= 1, "{:?} {:?}", p, q);
        assert!(q.y <= p.y && p.y - q.y <= 1, "{:?} {:?}", p, q);
    }
}

#[test]
fn forth_and_back_loses_a_step_of_the_coarser_side() {
    let m = CoordinateMapper::build(
        Rect { min: Point::new(0, 0), max: Point::new(1000, 1000) },
        Rect { min: Point::new(0, 0), max: Point::new(10, 10) },
    )
    .unwrap();
    let back = m.invert().unwrap();
    let q = back.apply(m.apply(Point::new(199, 200)));
    assert_eq!(q, Point::new(100, 200));
}

#[test]
fn square_maps_the_shorter_side_to_one() {
    let wide = CoordinateMapper::square(rect(0, 0, 200, 100)).unwrap();
    assert_eq!(wide.apply(Point::new(2 * UNIT, UNIT)), Point::new(200 * UNIT, 100 * UNIT));
    assert_eq!(wide.apply(Point::new(UNIT, UNIT / 2)), Point::new(100 * UNIT, 50 * UNIT));
    let tall = CoordinateMapper::square(rect(10, 10, 110, 310)).unwrap();
    assert_eq!(tall.apply(Point::new(UNIT, 3 * UNIT)), Point::new(110 * UNIT, 310 * UNIT));
    assert!(CoordinateMapper::square(rect(0, 0, 0, 100)).is_none());
}
