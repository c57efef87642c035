use yasa::crop::Crop;
use yasa::crop::CropState;
use yasa::crop::CursorIcon;
use yasa::crop::PixelRect;
use yasa::crop::Side;
use yasa::crop::GRAB;
use yasa::crop::MIN_EXTENT;
use yasa::fixed::UNIT;
use yasa::geometry::Line;
use yasa::geometry::Point;
use yasa::geometry::Rect;
use yasa::geometry::Size;

fn at(x: i64, y: i64) -> Point {
    Point::new(x * UNIT, y * UNIT)
}

fn widget() -> Rect {
    Rect { min: at(0, 0), max: at(200, 100) }
}

#[test]
fn thresholds() {
    assert_eq!(GRAB, 10 * UNIT);
    assert_eq!(MIN_EXTENT, 50 * UNIT);
}

#[test]
fn a_new_session_cuts_nothing() {
    let c = Crop::new();
    let s = c.state();
    assert_eq!(
        s,
        CropState {
            offset_x_right: 0,
            offset_x_left: 0,
            offset_y_up: 0,
            offset_y_down: 0,
            last_click: Point { x: 0, y: 0 },
            limit_reached: false,
            side: Side::Idle,
        }
    );
    let cut = c.get_cut_rect(Size::new(100 * UNIT, 100 * UNIT));
    assert_eq!(cut, Rect { min: at(0, 0), max: at(100, 100) });
}

#[test]
fn offsets_must_be_fractions_that_leave_something() {
    assert!(Crop::with_offsets(0, 0, 0, 0).is_some());
    assert!(Crop::with_offsets(UNIT - 1, 0, 0, UNIT - 1).is_some());
    assert!(Crop::with_offsets(-1, 0, 0, 0).is_none());
    assert!(Crop::with_offsets(0, -1, 0, 0).is_none());
    assert!(Crop::with_offsets(0, 0, -1, 0).is_none());
    assert!(Crop::with_offsets(0, 0, 0, -1).is_none());
    assert!(Crop::with_offsets(UNIT / 2, UNIT / 2, 0, 0).is_none());
    assert!(Crop::with_offsets(0, 0, UNIT, 0).is_none());
    assert!(Crop::with_offsets(i64::MAX, i64::MAX, 0, 0).is_none());
    let c = Crop::with_offsets(1, 2, 3, 4).unwrap().state();
    assert_eq!((c.offset_x_left, c.offset_x_right, c.offset_y_up, c.offset_y_down), (1, 2, 3, 4));
}

#[test]
fn cut_rect_of_a_tenth_off_both_sides() {
    let c = Crop::with_offsets(100_000, 100_000, 0, 0).unwrap();
    let cut = c.get_cut_rect(Size::new(100 * UNIT, 100 * UNIT));
    assert_eq!(cut.min, at(10, 0));
    assert_eq!(cut.width(), 80 * UNIT);
    assert_eq!(cut.height(), 100 * UNIT);
    assert_eq!(c.pixel_rect(100, 100), PixelRect { x: 10, y: 0, width: 80, height: 100 });
}

#[test]
fn cut_rect_stays_within_the_size() {
    let offsets = [0, 1, 333_333, 500_000, 999_998];
    for &l in &offsets {
        for &r in &offsets {
            for &t in &offsets {
                for &b in &offsets {
                    if let Some(c) = Crop::with_offsets(l, r, t, b) {
                        for size in [Size::new(0, 0), Size::new(7, 3), Size::new(1920 * UNIT, 1080 * UNIT), Size::new(i64::MAX, i64::MAX)] {
                            let cut = c.get_cut_rect(size);
                            assert!(0 <= cut.min.x && cut.min.x <= cut.max.x && cut.max.x <= size.width);
                            assert!(0 <= cut.min.y && cut.min.y <= cut.max.y && cut.max.y <= size.height);
                        }
                    }
                }
            }
        }
    }
}

#[test]
fn cut_rect_rounds_down() {
    let c = Crop::with_offsets(333_333, 333_333, 0, 0).unwrap();
    let cut = c.get_cut_rect(Size::new(10, 10));
    assert_eq!(cut.min.x, 3);
    assert_eq!(cut.width(), 3);
}

#[test]
fn pixel_rect_rounds_to_the_nearest_pixel() {
    let c = Crop::with_offsets(250_000, 0, 260_000, 0).unwrap();
    // 2.5 and 7.5 round up, 2.6 rounds up, 7.4 rounds down.
    assert_eq!(c.pixel_rect(10, 10), PixelRect { x: 3, y: 3, width: 8, height: 7 });
}

#[test]
fn a_press_takes_hold_of_the_nearest_part() {
    let cases = [
        (at(100, 3), Side::Up),
        (at(100, 95), Side::Down),
        (at(195, 50), Side::Right),
        (at(4, 50), Side::Left),
        (at(100, 50), Side::Center),
        (at(10, 50), Side::Left),
        (at(100, 10), Side::Up),
    ];
    for (p, side) in cases {
        let mut c = Crop::new();
        c.crop_img(widget(), None, Some(p));
        assert_eq!(c.state().side, side, "{:?}", p);
        assert_eq!(c.state().last_click, p);
    }
}

#[test]
fn the_top_and_bottom_edges_win_in_the_corners() {
    let mut c = Crop::new();
    c.crop_img(widget(), None, Some(at(2, 2)));
    assert_eq!(c.state().side, Side::Up);
    let mut d = Crop::new();
    d.crop_img(widget(), None, Some(at(198, 99)));
    assert_eq!(d.state().side, Side::Down);
}

#[test]
fn a_press_between_edge_and_interior_takes_hold_of_nothing() {
    let mut c = Crop::with_offsets(200_000, 200_000, 200_000, 200_000).unwrap();
    // The cut rectangle is (40,20)-(160,80); (25,50) is 15 left of it.
    c.crop_img(widget(), None, Some(at(25, 50)));
    assert_eq!(c.state().side, Side::Idle);
}

#[test]
fn the_hold_lasts_until_release() {
    let mut c = Crop::new();
    c.crop_img(widget(), None, Some(at(3, 50)));
    assert_eq!(c.state().side, Side::Left);
    c.crop_img(widget(), None, Some(at(100, 3)));
    assert_eq!(c.state().side, Side::Left);
    c.crop_img(widget(), None, None);
    assert_eq!(c.state().side, Side::Idle);
    assert_eq!(c.state().last_click, at(100, 3));
}

#[test]
fn dragging_the_left_edge_sets_the_left_offset() {
    let mut c = Crop::new();
    c.crop_img(widget(), None, Some(at(3, 50)));
    c.crop_img(widget(), None, Some(at(20, 50)));
    let s = c.state();
    assert_eq!(s.offset_x_left, 100_000);
    assert_eq!(s.offset_x_right, 0);
    assert!(!s.limit_reached);
}

#[test]
fn dragging_each_edge_measures_from_its_own_border() {
    let mut c = Crop::new();
    c.crop_img(widget(), None, Some(at(197, 50)));
    c.crop_img(widget(), None, Some(at(150, 50)));
    assert_eq!(c.state().offset_x_right, 250_000);
    c.crop_img(widget(), None, None);
    c.crop_img(widget(), None, Some(at(100, 2)));
    c.crop_img(widget(), None, Some(at(100, 25)));
    assert_eq!(c.state().offset_y_up, 250_000);
    c.crop_img(widget(), None, None);
    c.crop_img(widget(), None, Some(at(100, 98)));
    c.crop_img(widget(), None, Some(at(100, 90)));
    assert_eq!(c.state().offset_y_down, 100_000);
}

#[test]
fn a_widget_that_is_not_at_the_origin() {
    let rect = Rect { min: at(100, 100), max: at(300, 200) };
    let mut c = Crop::new();
    c.crop_img(rect, None, Some(at(102, 150)));
    assert_eq!(c.state().side, Side::Left);
    c.crop_img(rect, None, Some(at(150, 150)));
    assert_eq!(c.state().offset_x_left, 250_000);
    let frame = c.crop_img(rect, None, None);
    assert_eq!(frame.cut_rect, Rect { min: at(150, 100), max: at(300, 200) });
}

#[test]
fn an_axis_is_not_shrunk_below_the_minimum() {
    let mut c = Crop::new();
    c.crop_img(widget(), None, Some(at(100, 2)));
    // 100 high: the top edge may go down to 50, not to 51.
    c.crop_img(widget(), None, Some(at(100, 51)));
    assert_eq!(c.state().offset_y_up, 0);
    assert!(c.state().limit_reached);
    c.crop_img(widget(), None, Some(at(100, 50)));
    assert_eq!(c.state().offset_y_up, 500_000);
    assert!(!c.state().limit_reached);
}

#[test]
fn shrinking_resumes_where_it_was_blocked() {
    let mut c = Crop::new();
    c.crop_img(widget(), None, Some(at(2, 50)));
    c.crop_img(widget(), None, Some(at(150, 50)));
    assert_eq!(c.state().offset_x_left, 750_000);
    c.crop_img(widget(), None, Some(at(160, 50)));
    assert_eq!(c.state().offset_x_left, 750_000);
    assert!(c.state().limit_reached);
    c.crop_img(widget(), None, Some(at(170, 50)));
    assert_eq!(c.state().offset_x_left, 750_000);
    c.crop_img(widget(), None, Some(at(155, 50)));
    assert_eq!(c.state().offset_x_left, 750_000);
    assert!(c.state().limit_reached);
    c.crop_img(widget(), None, Some(at(149, 50)));
    assert_eq!(c.state().offset_x_left, 745_000);
    assert!(!c.state().limit_reached);
}

#[test]
fn a_small_widget_can_only_be_widened() {
    let rect = Rect { min: at(0, 0), max: at(40, 40) };
    let mut c = Crop::with_offsets(500_000, 0, 0, 0).unwrap();
    c.crop_img(rect, None, Some(at(20, 20)));
    assert_eq!(c.state().side, Side::Left);
    c.crop_img(rect, None, Some(at(30, 20)));
    assert_eq!(c.state().offset_x_left, 500_000);
    assert!(c.state().limit_reached);
    c.crop_img(rect, None, Some(at(10, 20)));
    assert_eq!(c.state().offset_x_left, 250_000);
    assert!(!c.state().limit_reached);
}

#[test]
fn the_extent_never_drops_below_the_minimum_during_a_drag() {
    let mut c = Crop::new();
    c.crop_img(widget(), None, Some(at(3, 50)));
    for x in [10, 50, 120, 149, 150, 151, 199, 200, 160, 140, 155, 100, 0] {
        c.crop_img(widget(), None, Some(at(x, 50)));
        let s = c.state();
        let extent = 200 * (UNIT - s.offset_x_left - s.offset_x_right);
        assert!(extent >= 50 * UNIT, "{} {:?}", x, s);
    }
}

#[test]
fn an_unmoved_pointer_changes_nothing() {
    let mut c = Crop::new();
    c.crop_img(widget(), None, Some(at(3, 50)));
    let before = c.state();
    c.crop_img(widget(), None, Some(at(3, 50)));
    assert_eq!(c.state(), before);
}

#[test]
fn a_pointer_outside_the_widget_moves_nothing() {
    let mut c = Crop::new();
    c.crop_img(widget(), None, Some(at(3, 50)));
    c.crop_img(widget(), None, Some(at(20, 150)));
    let s = c.state();
    assert_eq!(s.offset_x_left, 0);
    assert_eq!(s.side, Side::Left);
    assert_eq!(s.last_click, at(20, 150));
}

#[test]
fn a_widget_without_area_moves_nothing() {
    let flat = Rect { min: at(0, 0), max: at(200, 0) };
    let mut c = Crop::new();
    let frame = c.crop_img(flat, Some(at(5, 0)), Some(at(5, 0)));
    assert_eq!(c.state().side, Side::Idle);
    assert_eq!(c.state().last_click, at(5, 0));
    assert_eq!(frame.guides, None);
}

#[test]
fn the_centre_slides_the_rectangle() {
    let mut c = Crop::with_offsets(250_000, 250_000, 200_000, 200_000).unwrap();
    c.crop_img(widget(), None, Some(at(100, 50)));
    assert_eq!(c.state().side, Side::Center);
    c.crop_img(widget(), None, Some(at(120, 40)));
    let s = c.state();
    assert_eq!((s.offset_x_left, s.offset_x_right), (350_000, 150_000));
    assert_eq!((s.offset_y_up, s.offset_y_down), (100_000, 300_000));
    c.crop_img(widget(), None, Some(at(100, 50)));
    let s = c.state();
    assert_eq!((s.offset_x_left, s.offset_x_right), (250_000, 250_000));
    assert_eq!((s.offset_y_up, s.offset_y_down), (200_000, 200_000));
}

#[test]
fn the_centre_stops_at_the_border_on_each_axis_alone() {
    let mut c = Crop::with_offsets(100_000, 400_000, 200_000, 200_000).unwrap();
    c.crop_img(widget(), None, Some(at(70, 50)));
    assert_eq!(c.state().side, Side::Center);
    // 30 to the left is more than the 20 that are free; 10 down is free.
    c.crop_img(widget(), None, Some(at(40, 60)));
    let s = c.state();
    assert_eq!((s.offset_x_left, s.offset_x_right), (100_000, 400_000));
    assert_eq!((s.offset_y_up, s.offset_y_down), (300_000, 100_000));
    // The next frame measures from the last pointer position.
    c.crop_img(widget(), None, Some(at(20, 60)));
    let s = c.state();
    assert_eq!((s.offset_x_left, s.offset_x_right), (0, 500_000));
}

#[test]
fn the_frame_shows_the_rectangle_as_it_stood() {
    let mut c = Crop::with_offsets(100_000, 100_000, 0, 0).unwrap();
    c.crop_img(widget(), None, Some(at(21, 50)));
    let frame = c.crop_img(widget(), None, Some(at(40, 50)));
    assert_eq!(frame.cut_rect, Rect { min: at(20, 0), max: at(180, 100) });
    assert_eq!(c.state().offset_x_left, 200_000);
}

#[test]
fn the_guides_divide_the_rectangle_into_thirds() {
    let mut c = Crop::with_offsets(100_000, 0, 0, 100_000).unwrap();
    let frame = c.crop_img(widget(), None, None);
    // The cut rectangle is (20,0)-(200,90).
    let g = frame.guides.unwrap();
    assert_eq!(g.first_vertical, Line { from: at(80, 0), to: at(80, 90) });
    assert_eq!(g.second_vertical, Line { from: at(140, 0), to: at(140, 90) });
    assert_eq!(g.first_horizontal, Line { from: at(20, 30), to: at(200, 30) });
    assert_eq!(g.second_horizontal, Line { from: at(20, 60), to: at(200, 60) });
}

#[test]
fn hovering_sets_the_pointer_shape() {
    let mut c = Crop::with_offsets(200_000, 200_000, 200_000, 200_000).unwrap();
    // The cut rectangle is (40,20)-(160,80).
    let cases = [
        (at(100, 22), Some(CursorIcon::ResizeVertical)),
        (at(100, 78), Some(CursorIcon::ResizeVertical)),
        (at(42, 50), Some(CursorIcon::ResizeEast)),
        (at(158, 50), Some(CursorIcon::ResizeEast)),
        (at(100, 50), Some(CursorIcon::AllScroll)),
        (at(5, 50), None),
    ];
    for (p, icon) in cases {
        let frame = c.crop_img(widget(), Some(p), None);
        assert_eq!(frame.cursor, icon, "{:?}", p);
    }
    assert_eq!(c.crop_img(widget(), None, None).cursor, None);
}

#[test]
fn taking_hold_sets_the_pointer_shape() {
    let cases = [
        (at(100, 3), CursorIcon::ResizeVertical),
        (at(100, 95), CursorIcon::ResizeVertical),
        (at(195, 50), CursorIcon::ResizeWest),
        (at(4, 50), CursorIcon::ResizeEast),
        (at(100, 50), CursorIcon::AllScroll),
    ];
    for (p, icon) in cases {
        let mut c = Crop::new();
        let frame = c.crop_img(widget(), Some(p), Some(p));
        assert_eq!(frame.cursor, Some(icon), "{:?}", p);
    }
}

#[test]
fn the_default_session_is_the_new_one() {
    assert_eq!(Crop::default().state(), Crop::new().state());
}
