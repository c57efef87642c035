use yasa::capture::desktop_bounds;
use yasa::capture::desktop_size;
use yasa::capture::placement;
use yasa::capture::screen_area;
use yasa::capture::DesktopBounds;
use yasa::capture::DragSnapshot;
use yasa::capture::ScreenArea;
use yasa::capture::ScreenPosition;
use yasa::capture::ScreenshotView;
use yasa::capture::MIN_SELECTION;
use yasa::crop::PixelRect;
use yasa::fixed::UNIT;
use yasa::geometry::Point;
use yasa::geometry::Rect;
use yasa::geometry::Size;

fn at(x: i64, y: i64) -> Point {
    Point::new(x * UNIT, y * UNIT)
}

fn screen() -> Size {
    Size::new(1920 * UNIT, 1080 * UNIT)
}

fn start(p: Point) -> DragSnapshot {
    DragSnapshot { started: true, dragged: false, released: false, position: p }
}

fn drag(p: Point) -> DragSnapshot {
    DragSnapshot { started: false, dragged: true, released: false, position: p }
}

fn release(p: Point) -> DragSnapshot {
    DragSnapshot { started: false, dragged: false, released: true, position: p }
}

#[test]
fn a_new_selection() {
    let s = ScreenshotView::new();
    assert!(!s.started_selection && !s.finished_selection);
    assert_eq!(s.get_timer_delay(), 0);
    assert_eq!(s.screen_selected, 0);
    assert_eq!(MIN_SELECTION, 50 * UNIT);
}

#[test]
fn the_timer_delay_is_read_back() {
    let mut s = ScreenshotView::new();
    s.timer_delay = 7;
    assert_eq!(s.get_timer_delay(), 7);
}

#[test]
fn a_drag_is_outlined_once_it_leaves_its_start() {
    let mut s = ScreenshotView::new();
    let frame = s.ui(start(at(100, 100)), screen());
    assert_eq!(frame.outline, None);
    assert!(s.started_selection);
    assert_eq!(s.ui(drag(at(100, 100)), screen()).outline, None);
    let frame = s.ui(drag(at(40, 160)), screen());
    assert_eq!(frame.outline, Some(Rect { min: at(40, 100), max: at(100, 160) }));
    assert_eq!(s.middle_point, at(40, 160));
    assert_eq!(frame.lookup, None);
}

#[test]
fn a_drag_that_was_never_started_is_not_outlined() {
    let mut s = ScreenshotView::new();
    assert_eq!(s.ui(drag(at(40, 160)), screen()).outline, None);
}

#[test]
fn a_large_enough_drag_finishes_the_selection() {
    let mut s = ScreenshotView::new();
    s.ui(start(at(100, 200)), screen());
    s.ui(drag(at(300, 400)), screen());
    let frame = s.ui(release(at(400, 500)), screen());
    assert!(s.finished_selection);
    assert_eq!(s.starting_point, at(100, 200));
    assert_eq!(s.ending_point, at(400, 500));
    assert_eq!(s.dimension_selected, Size::new(300 * UNIT, 300 * UNIT));
    assert_eq!(frame.lookup, Some(ScreenPosition { x: 100, y: 200 }));
}

#[test]
fn a_drag_up_or_to_the_left_swaps_its_ends() {
    let mut s = ScreenshotView::new();
    s.ui(start(at(400, 500)), screen());
    let frame = s.ui(release(at(100, 200)), screen());
    assert!(s.finished_selection);
    assert_eq!(s.starting_point, at(100, 200));
    assert_eq!(s.ending_point, at(400, 500));
    assert_eq!(s.dimension_selected, Size::new(300 * UNIT, 300 * UNIT));
    assert_eq!(frame.lookup, Some(ScreenPosition { x: 100, y: 200 }));
    let mut t = ScreenshotView::new();
    t.ui(start(at(400, 200)), screen());
    t.ui(release(at(100, 500)), screen());
    assert_eq!(t.starting_point, at(100, 500));
    assert_eq!(t.ending_point, at(400, 200));
}

#[test]
fn a_small_drag_is_given_up() {
    for end in [at(150, 400), at(400, 250), at(150, 250), at(100, 200)] {
        let mut s = ScreenshotView::new();
        s.ui(start(at(100, 200)), screen());
        let frame = s.ui(release(end), screen());
        assert!(!s.finished_selection, "{:?}", end);
        assert!(!s.started_selection);
        assert_eq!(frame.lookup, None);
    }
    let mut s = ScreenshotView::new();
    s.ui(start(at(100, 200)), screen());
    s.ui(release(Point::new(150 * UNIT + 1, 250 * UNIT + 1)), screen());
    assert!(s.finished_selection);
}

#[test]
fn a_selection_is_cut_down_to_the_screen() {
    let mut s = ScreenshotView::new();
    s.ui(start(at(-100, -100)), Size::new(800 * UNIT, 600 * UNIT));
    let frame = s.ui(release(at(1000, 1000)), Size::new(800 * UNIT, 600 * UNIT));
    assert_eq!(s.dimension_selected, Size::new(800 * UNIT, 600 * UNIT));
    assert_eq!(frame.lookup, Some(ScreenPosition { x: 0, y: 0 }));
}

#[test]
fn start_drag_and_release_in_one_frame() {
    let mut s = ScreenshotView::new();
    s.starting_point = at(0, 0);
    let all = DragSnapshot { started: true, dragged: true, released: true, position: at(500, 500) };
    let frame = s.ui(all, screen());
    assert_eq!(frame.outline, None);
    assert!(!s.finished_selection);
    assert_eq!(s.starting_point, at(500, 500));
    assert_eq!(s.middle_point, at(500, 500));
    assert_eq!(s.dimension_selected, Size::new(0, 0));
}

#[test]
fn the_lookup_position_is_in_whole_units() {
    let mut s = ScreenshotView::new();
    s.ui(start(Point::new(100 * UNIT + 999_999, 7 * UNIT + 1)), screen());
    let frame = s.ui(release(at(400, 500)), screen());
    assert_eq!(frame.lookup, Some(ScreenPosition { x: 100, y: 7 }));
    let mut t = ScreenshotView::new();
    t.ui(start(Point::new(i64::MAX, i64::MAX)), screen());
    let frame = t.ui(release(Point::new(i64::MAX - 100 * UNIT, i64::MAX - 100 * UNIT)), screen());
    assert_eq!(frame.lookup, Some(ScreenPosition { x: i32::MAX, y: i32::MAX }));
}

#[test]
fn a_screen_lies_where_its_scale_puts_it() {
    let s = ScreenArea { x: -100, y: 50, width: 800, height: 600, scale_factor: 2 };
    let a = screen_area(s);
    assert_eq!((a.x_min, a.y_min, a.x_max, a.y_max), (-200, 100, 1400, 1300));
    let big = ScreenArea { x: i32::MAX, y: i32::MIN, width: u32::MAX, height: 0, scale_factor: i32::MAX };
    let b = screen_area(big);
    assert_eq!(b.x_max, i64::MAX);
    assert_eq!(b.x_min, i32::MAX as i64 * i32::MAX as i64);
    assert_eq!(b.y_min, i32::MIN as i64 * i32::MAX as i64);
}

#[test]
fn the_desktop_reaches_from_the_least_corner_to_the_greatest() {
    assert_eq!(desktop_bounds(&vec![]), None);
    let left = ScreenArea { x: -1280, y: 100, width: 1280, height: 1024, scale_factor: 1 };
    let main = ScreenArea { x: 0, y: 0, width: 1920, height: 1080, scale_factor: 1 };
    let right = ScreenArea { x: 1920, y: -200, width: 1000, height: 500, scale_factor: 1 };
    let b = desktop_bounds(&vec![main, left, right]).unwrap();
    assert_eq!(b, DesktopBounds { x_min: -1280, y_min: -200, x_max: 2920, y_max: 1124 });
    assert_eq!(desktop_size(b), (4200, 1324));
    assert_eq!(placement(left, b), (0, 300));
    assert_eq!(placement(main, b), (1280, 200));
    assert_eq!(placement(right, b), (3200, 0));
    let one = desktop_bounds(&vec![main]).unwrap();
    assert_eq!(one, DesktopBounds { x_min: 0, y_min: 0, x_max: 1920, y_max: 1080 });
    let scaled = ScreenArea { x: 0, y: 0, width: 1000, height: 500, scale_factor: 2 };
    assert_eq!(desktop_size(desktop_bounds(&vec![scaled]).unwrap()), (2000, 1000));
}

#[test]
fn a_screen_outside_the_bounds_is_placed_on_the_border() {
    let b = DesktopBounds { x_min: 0, y_min: 0, x_max: 100, y_max: 100 };
    let s = ScreenArea { x: -5, y: 7, width: 1, height: 1, scale_factor: 1 };
    assert_eq!(placement(s, b), (0, 7));
    assert_eq!(desktop_size(DesktopBounds { x_min: 5, y_min: 0, x_max: 0, y_max: i64::MAX }), (0, u32::MAX));
}

#[test]
fn a_selection_in_pixels() {
    let mut s = ScreenshotView::new();
    s.ui(start(at(400, 500)), screen());
    s.ui(release(at(100, 200)), screen());
    let b = DesktopBounds { x_min: -1280, y_min: 0, x_max: 1920, y_max: 1080 };
    assert_eq!(s.selected_pixels(UNIT, b), PixelRect { x: 1380, y: 200, width: 300, height: 300 });
    assert_eq!(s.selected_pixels(3 * UNIT / 2, b), PixelRect { x: 1430, y: 300, width: 450, height: 450 });
    let mut t = ScreenshotView::new();
    t.ui(start(Point::new(UNIT / 2, UNIT / 2)), screen());
    t.ui(release(Point::new(100 * UNIT + 1, 60 * UNIT + 999_999)), screen());
    let zero = DesktopBounds { x_min: 0, y_min: 0, x_max: 1, y_max: 1 };
    assert_eq!(t.selected_pixels(UNIT, zero), PixelRect { x: 0, y: 0, width: 99, height: 60 });
    assert_eq!(t.selected_pixels(UNIT, DesktopBounds { x_min: 10, y_min: 10, x_max: 11, y_max: 11 }).x, 0);
}

#[test]
fn the_default_selection_is_the_new_one() {
    assert_eq!(ScreenshotView::default(), ScreenshotView::new());
}
