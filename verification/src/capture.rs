//! Selecting the part of the screen to capture.
use vstd::prelude::*;
use crate::fixed::clamp;
use crate::crop::PixelRect;
use crate::fixed::floor_div;
use crate::fixed::lemma_floor_magnitude;
use crate::fixed::lemma_product_bound;
use crate::fixed::magnitude;
use crate::fixed::narrow;
use crate::fixed::sat64;
use crate::fixed::UNIT;
use crate::geometry::Point;
use crate::geometry::Rect;
use crate::geometry::Size;

verus! {

/// The extent, in screen units, that a selection must exceed on both axes.
pub const MIN_SELECTION: i64 = 50_000_000;

/// What is captured.
#[derive(Clone, Copy, Debug, PartialEq, Eq, Structural)]
pub enum ScreenshotType {
    FullScreen,
    PartialScreen,
}

/// What the pointer does to the selection in one frame.
#[derive(Clone, Copy, Debug, PartialEq, Eq, Structural)]
pub struct DragSnapshot {
    /// A drag began in this frame.
    pub started: bool,
    /// A drag is going on.
    pub dragged: bool,
    /// A drag ended in this frame.
    pub released: bool,
    /// Where the pointer is.
    pub position: Point,
}

/// A position on the desktop, in whole units.
#[derive(Clone, Copy, Debug, PartialEq, Eq, Structural)]
pub struct ScreenPosition {
    pub x: i32,
    pub y: i32,
}

/// What one frame of the selection asks for.
#[derive(Clone, Copy, Debug, PartialEq, Eq, Structural)]
pub struct SelectionFrame {
    /// The rectangle to outline while the selection is dragged.
    pub outline: Option<Rect>,
    /// The whole-unit position whose screen is to be captured, once a
    /// selection is finished.
    pub lookup: Option<ScreenPosition>,
}

/// The selection of a part of the screen.
#[derive(Clone, Copy, Debug, PartialEq, Eq, Structural)]
pub struct ScreenshotView {
    pub started_selection: bool,
    pub starting_point: Point,
    pub middle_point: Point,
    pub ending_point: Point,
    pub dimension_selected: Size,
    pub finished_selection: bool,
    pub screen_selected: u32,
    pub timer_delay: i32,
}

/// The rectangle with the corners `a` and `b`, whichever way round.
pub open spec fn from_two_pos(a: Point, b: Point) -> Rect {
    Rect {
        min: Point {
            x: if a.x < b.x {
                a.x
            } else {
                b.x
            },
            y: if a.y < b.y {
                a.y
            } else {
                b.y
            },
        },
        max: Point {
            x: if a.x < b.x {
                b.x
            } else {
                a.x
            },
            y: if a.y < b.y {
                b.y
            } else {
                a.y
            },
        },
    }
}

/// `v` in whole units, brought into the range of positions on a screen.
pub open spec fn whole(v: int) -> i32 {
    clamp(v / (UNIT as int), 0, i32::MAX as int) as i32
}

/// `extent` cut down to `limit`.
pub open spec fn at_most(extent: int, limit: int) -> int {
    if extent > limit {
        limit
    } else {
        extent
    }
}

impl ScreenshotView {
    /// The selection before anything is selected.
    pub open spec fn initial() -> ScreenshotView {
        ScreenshotView {
            started_selection: false,
            starting_point: Point { x: 0, y: 0 },
            middle_point: Point { x: 0, y: 0 },
            ending_point: Point { x: 0, y: 0 },
            dimension_selected: Size { width: 0, height: 0 },
            finished_selection: false,
            screen_selected: 0,
            timer_delay: 0,
        }
    }

    /// A drag begins at `p`.
    pub open spec fn begun(self, p: Point) -> ScreenshotView {
        ScreenshotView { starting_point: p, started_selection: true, ..self }
    }

    /// The drag goes on at `p`.
    pub open spec fn moved(self, p: Point) -> ScreenshotView {
        ScreenshotView { middle_point: p, ..self }
    }

    /// The width and height of a drag from the starting point to `p`.
    pub open spec fn span(self, p: Point) -> Size {
        Size {
            width: sat64(magnitude(p.x - self.starting_point.x)),
            height: sat64(magnitude(p.y - self.starting_point.y)),
        }
    }

    /// A drag from the starting point to `p` is large enough to select.
    pub open spec fn selects(self, p: Point) -> bool {
        self.span(p).width > MIN_SELECTION && self.span(p).height > MIN_SELECTION
    }

    /// A drag from the starting point to `p` goes up or to the left.
    pub open spec fn backwards(self, p: Point) -> bool {
        p.x < self.starting_point.x || p.y < self.starting_point.y
    }

    /// The drag ends at `p`: the starting and ending points change places
    /// where the drag went up or to the left, and the selection is finished
    /// where it is large enough, cut down to `bound`; a smaller one is
    /// given up.
    pub open spec fn ended(self, p: Point, bound: Size) -> ScreenshotView {
        let start = if self.backwards(p) {
            p
        } else {
            self.starting_point
        };
        let end = if self.backwards(p) {
            self.starting_point
        } else {
            p
        };
        if self.selects(p) {
            ScreenshotView {
                starting_point: start,
                ending_point: end,
                dimension_selected: Size {
                    width: at_most(self.span(p).width as int, bound.width as int) as i64,
                    height: at_most(self.span(p).height as int, bound.height as int) as i64,
                },
                finished_selection: true,
                ..self
            }
        } else {
            ScreenshotView {
                starting_point: start,
                ending_point: end,
                dimension_selected: self.span(p),
                started_selection: false,
                ..self
            }
        }
    }

    /// The selection once the start and the progress of a drag are taken
    /// in.
    pub open spec fn followed(self, drag: DragSnapshot) -> ScreenshotView {
        let a = if drag.started {
            self.begun(drag.position)
        } else {
            self
        };
        if drag.dragged {
            a.moved(drag.position)
        } else {
            a
        }
    }

    /// One frame of the selection over a screen of the size `bound`.
    pub open spec fn stepped(self, drag: DragSnapshot, bound: Size) -> ScreenshotView {
        let b = self.followed(drag);
        if drag.released {
            b.ended(drag.position, bound)
        } else {
            b
        }
    }

    /// What the frame asks for: the outline of a selection that is dragged
    /// away from its start, and the position to look the screen up at when
    /// a selection is finished in this frame.
    pub open spec fn asked(self, drag: DragSnapshot, bound: Size) -> SelectionFrame {
        let b = self.followed(drag);
        SelectionFrame {
            outline: if drag.dragged && drag.position != b.starting_point && b.started_selection {
                Some(from_two_pos(b.starting_point, drag.position))
            } else {
                None
            },
            lookup: if drag.released && b.selects(drag.position) {
                Some(
                    ScreenPosition {
                        x: whole(b.ended(drag.position, bound).starting_point.x as int),
                        y: whole(b.ended(drag.position, bound).starting_point.y as int),
                    },
                )
            } else {
                None
            },
        }
    }

    /// The selection before anything is selected.
    pub fn new() -> (s: ScreenshotView)
        ensures
            s == ScreenshotView::initial(),
    {
        ScreenshotView {
            started_selection: false,
            starting_point: Point { x: 0, y: 0 },
            middle_point: Point { x: 0, y: 0 },
            ending_point: Point { x: 0, y: 0 },
            dimension_selected: Size { width: 0, height: 0 },
            finished_selection: false,
            screen_selected: 0,
            timer_delay: 0,
        }
    }

    /// The delay, in seconds, before the capture.
    pub fn get_timer_delay(&self) -> (delay: i32)
        ensures
            delay == self.timer_delay,
    {
        self.timer_delay
    }
}

/// The distance between two coordinates, saturating.
fn distance(a: i64, b: i64) -> (d: i64)
    ensures
        d == sat64(magnitude(a - b)),
{
    let delta: i128 = a as i128 - b as i128;
    if delta < 0 {
        narrow(-delta)
    } else {
        narrow(delta)
    }
}

/// `v` in whole units, brought into the range of positions on a screen.
fn whole_of(v: i64) -> (r: i32)
    ensures
        r == whole(v as int),
{
    let q: i128 = floor_div(v as i128, UNIT as i128);
    if q < 0 {
        0
    } else if q > i32::MAX as i128 {
        i32::MAX
    } else {
        q as i32
    }
}

impl ScreenshotView {
    /// One frame of the selection over a screen of the size `bound`.
    /// Returns what to outline and, once a selection is finished, where to
    /// look up the screen that it lies on.
    pub fn ui(&mut self, drag: DragSnapshot, bound: Size) -> (frame: SelectionFrame)
        ensures
            *final(self) == old(self).stepped(drag, bound),
            frame == old(self).asked(drag, bound),
    {
        let p = drag.position;
        if drag.started {
            self.starting_point = p;
            self.started_selection = true;
        }
        let mut outline: Option<Rect> = None;
        if drag.dragged {
            self.middle_point = p;
            if p != self.starting_point && self.started_selection {
                let s = self.starting_point;
                outline = Some(
                    Rect {
                        min: Point {
                            x: if s.x < p.x {
                                s.x
                            } else {
                                p.x
                            },
                            y: if s.y < p.y {
                                s.y
                            } else {
                                p.y
                            },
                        },
                        max: Point {
                            x: if s.x < p.x {
                                p.x
                            } else {
                                s.x
                            },
                            y: if s.y < p.y {
                                p.y
                            } else {
                                s.y
                            },
                        },
                    },
                );
            }
        }
        let mut lookup: Option<ScreenPosition> = None;
        if drag.released {
            let width = distance(p.x, self.starting_point.x);
            let height = distance(p.y, self.starting_point.y);
            self.ending_point = p;
            if p.x < self.starting_point.x || p.y < self.starting_point.y {
                self.ending_point = self.starting_point;
                self.starting_point = p;
            }
            if width > MIN_SELECTION && height > MIN_SELECTION {
                self.dimension_selected = Size {
                    width: if width > bound.width {
                        bound.width
                    } else {
                        width
                    },
                    height: if height > bound.height {
                        bound.height
                    } else {
                        height
                    },
                };
                self.finished_selection = true;
                lookup = Some(
                    ScreenPosition {
                        x: whole_of(self.starting_point.x),
                        y: whole_of(self.starting_point.y),
                    },
                );
            } else {
                self.dimension_selected = Size { width, height };
                self.started_selection = false;
            }
        }
        SelectionFrame { outline, lookup }
    }
}

impl Default for ScreenshotView {
    /// The selection before anything is selected.
    fn default() -> (s: ScreenshotView)
        ensures
            s == ScreenshotView::initial(),
    {
        ScreenshotView::new()
    }
}

/// One screen of the desktop: its corner and size in units of its own,
/// and the whole number of pixels that one such unit takes.
#[derive(Clone, Copy, Debug, PartialEq, Eq, Structural)]
pub struct ScreenArea {
    pub x: i32,
    pub y: i32,
    pub width: u32,
    pub height: u32,
    pub scale_factor: i32,
}

/// A rectangle of the desktop, in pixels.
#[derive(Clone, Copy, Debug, PartialEq, Eq, Structural)]
pub struct DesktopBounds {
    pub x_min: i64,
    pub y_min: i64,
    pub x_max: i64,
    pub y_max: i64,
}

/// Where a screen lies on the desktop, in pixels.
pub open spec fn area_of(screen: ScreenArea) -> DesktopBounds {
    DesktopBounds {
        x_min: sat64(screen.x * screen.scale_factor),
        y_min: sat64(screen.y * screen.scale_factor),
        x_max: sat64((screen.x + screen.width) * screen.scale_factor),
        y_max: sat64((screen.y + screen.height) * screen.scale_factor),
    }
}

/// `bounds` is the smallest rectangle that reaches from the least corner
/// of the screens to their greatest: each of its sides is met by a screen,
/// and no screen starts before or ends after it.
pub open spec fn bounds_all(bounds: DesktopBounds, screens: Seq<ScreenArea>) -> bool {
    &&& forall|i: int|
        0 <= i < screens.len() ==> {
            &&& bounds.x_min <= (#[trigger] area_of(screens[i])).x_min
            &&& bounds.y_min <= area_of(screens[i]).y_min
            &&& bounds.x_max >= area_of(screens[i]).x_max
            &&& bounds.y_max >= area_of(screens[i]).y_max
        }
    &&& exists|i: int| 0 <= i < screens.len() && bounds.x_min == (#[trigger] area_of(screens[i])).x_min
    &&& exists|i: int| 0 <= i < screens.len() && bounds.y_min == (#[trigger] area_of(screens[i])).y_min
    &&& exists|i: int| 0 <= i < screens.len() && bounds.x_max == (#[trigger] area_of(screens[i])).x_max
    &&& exists|i: int| 0 <= i < screens.len() && bounds.y_max == (#[trigger] area_of(screens[i])).y_max
}

/// Where a screen lies on the desktop, in pixels.
pub fn screen_area(screen: ScreenArea) -> (area: DesktopBounds)
    ensures
        area == area_of(screen),
{
    let scale: i128 = screen.scale_factor as i128;
    proof {
        lemma_product_bound(screen.x as int, scale as int, 0x1_0000_0000, 0x1_0000_0000);
        lemma_product_bound(screen.y as int, scale as int, 0x1_0000_0000, 0x1_0000_0000);
        lemma_product_bound(screen.x + screen.width, scale as int, 0x2_0000_0000, 0x1_0000_0000);
        lemma_product_bound(screen.y + screen.height, scale as int, 0x2_0000_0000, 0x1_0000_0000);
    }
    DesktopBounds {
        x_min: narrow(screen.x as i128 * scale),
        y_min: narrow(screen.y as i128 * scale),
        x_max: narrow((screen.x as i128 + screen.width as i128) * scale),
        y_max: narrow((screen.y as i128 + screen.height as i128) * scale),
    }
}

/// The rectangle that holds every screen; there is none without a screen.
pub fn desktop_bounds(screens: &Vec<ScreenArea>) -> (bounds: Option<DesktopBounds>)
    ensures
        bounds.is_some() <==> screens@.len() > 0,
        bounds.is_some() ==> bounds_all(bounds.unwrap(), screens@),
{
    let n = screens.len();
    if n == 0 {
        return None;
    }
    let mut b = screen_area(screens[0]);
    let mut i: usize = 1;
    proof {
        let first = screens@.subrange(0, 1);
        assert(first[0] == screens@[0]);
        assert(b.x_min == area_of(first[0]).x_min);
        assert(b.y_min == area_of(first[0]).y_min);
        assert(b.x_max == area_of(first[0]).x_max);
        assert(b.y_max == area_of(first[0]).y_max);
    }
    while i < n
        invariant
            1 <= i <= n,
            n == screens@.len(),
            bounds_all(b, screens@.subrange(0, i as int)),
        decreases n - i,
    {
        let ghost seen = screens@.subrange(0, i as int);
        let ghost next = screens@.subrange(0, i + 1);
        let ghost old_b = b;
        let a = screen_area(screens[i]);
        let x_min = if a.x_min < b.x_min {
            a.x_min
        } else {
            b.x_min
        };
        let y_min = if a.y_min < b.y_min {
            a.y_min
        } else {
            b.y_min
        };
        let x_max = if a.x_max > b.x_max {
            a.x_max
        } else {
            b.x_max
        };
        let y_max = if a.y_max > b.y_max {
            a.y_max
        } else {
            b.y_max
        };
        b = DesktopBounds { x_min, y_min, x_max, y_max };
        proof {
            assert(next[i as int] == screens@[i as int]);
            assert forall|j: int| 0 <= j < i implies next[j] == seen[j] by {}
            let kx = choose|j: int| 0 <= j < seen.len() && old_b.x_min == (#[trigger] area_of(seen[j])).x_min;
            let ky = choose|j: int| 0 <= j < seen.len() && old_b.y_min == (#[trigger] area_of(seen[j])).y_min;
            let lx = choose|j: int| 0 <= j < seen.len() && old_b.x_max == (#[trigger] area_of(seen[j])).x_max;
            let ly = choose|j: int| 0 <= j < seen.len() && old_b.y_max == (#[trigger] area_of(seen[j])).y_max;
            let wx = if a.x_min < old_b.x_min {
                i as int
            } else {
                kx
            };
            let wy = if a.y_min < old_b.y_min {
                i as int
            } else {
                ky
            };
            let vx = if a.x_max > old_b.x_max {
                i as int
            } else {
                lx
            };
            let vy = if a.y_max > old_b.y_max {
                i as int
            } else {
                ly
            };
            assert(next[kx] == seen[kx] && next[ky] == seen[ky] && next[lx] == seen[lx] && next[ly]
                == seen[ly]);
            assert(0 <= wx < next.len() && b.x_min == area_of(next[wx]).x_min);
            assert(0 <= wy < next.len() && b.y_min == area_of(next[wy]).y_min);
            assert(0 <= vx < next.len() && b.x_max == area_of(next[vx]).x_max);
            assert(0 <= vy < next.len() && b.y_max == area_of(next[vy]).y_max);
            assert forall|j: int| 0 <= j < next.len() implies {
                &&& b.x_min <= (#[trigger] area_of(next[j])).x_min
                &&& b.y_min <= area_of(next[j]).y_min
                &&& b.x_max >= area_of(next[j]).x_max
                &&& b.y_max >= area_of(next[j]).y_max
            } by {
                if j < i {
                    assert(next[j] == seen[j]);
                }
            }
        }
        i += 1;
    }
    assert(screens@.subrange(0, n as int) =~= screens@);
    Some(b)
}

/// The number of whole pixels that the length `v` takes at `scale` pixels
/// a unit, both in fixed point.
pub open spec fn pixels(v: int, scale: int) -> int {
    v * scale / (UNIT * UNIT)
}

/// `v` brought into the range of `u32`.
pub open spec fn count(v: int) -> u32 {
    clamp(v, 0, u32::MAX as int) as u32
}

/// The size of the image that holds the whole desktop.
pub open spec fn desktop_extent(bounds: DesktopBounds) -> (u32, u32) {
    (count(bounds.x_max - bounds.x_min), count(bounds.y_max - bounds.y_min))
}

/// Where a screen is drawn on the image of the desktop.
pub open spec fn placed(screen: ScreenArea, bounds: DesktopBounds) -> (u32, u32) {
    (
        count(area_of(screen).x_min - bounds.x_min),
        count(area_of(screen).y_min - bounds.y_min),
    )
}

/// The pixels of the image of the desktop that a selection covers, at
/// `scale` pixels a unit.
pub open spec fn selected(view: ScreenshotView, scale: i64, bounds: DesktopBounds) -> PixelRect {
    let x = if view.starting_point.x > view.ending_point.x {
        view.ending_point.x
    } else {
        view.starting_point.x
    };
    let y = if view.starting_point.y < view.ending_point.y {
        view.starting_point.y
    } else {
        view.ending_point.y
    };
    PixelRect {
        x: count(pixels(x as int, scale as int) - bounds.x_min),
        y: count(pixels(y as int, scale as int) - bounds.y_min),
        width: count(pixels(view.dimension_selected.width as int, scale as int)),
        height: count(pixels(view.dimension_selected.height as int, scale as int)),
    }
}

/// `v` brought into the range of `u32`.
fn count_of(v: i128) -> (r: u32)
    ensures
        r == count(v as int),
{
    if v < 0 {
        0
    } else if v > u32::MAX as i128 {
        u32::MAX
    } else {
        v as u32
    }
}

/// The number of whole pixels that a length takes.
fn pixels_of(v: i64, scale: i64) -> (r: i128)
    ensures
        r == pixels(v as int, scale as int),
        -0x4000_0000_0000_0000_0000_0000_0000_0000 <= r <= 0x4000_0000_0000_0000_0000_0000_0000_0000,
{
    proof {
        lemma_product_bound(
            v as int,
            scale as int,
            0x8000_0000_0000_0000,
            0x8000_0000_0000_0000,
        );
        lemma_floor_magnitude(v * scale, UNIT * UNIT);
    }
    floor_div(v as i128 * scale as i128, UNIT as i128 * UNIT as i128)
}

/// The size of the image that holds the whole desktop.
pub fn desktop_size(bounds: DesktopBounds) -> (size: (u32, u32))
    ensures
        size == desktop_extent(bounds),
{
    (
        count_of(bounds.x_max as i128 - bounds.x_min as i128),
        count_of(bounds.y_max as i128 - bounds.y_min as i128),
    )
}

/// Where a screen is drawn on the image of the desktop.
pub fn placement(screen: ScreenArea, bounds: DesktopBounds) -> (at: (u32, u32))
    ensures
        at == placed(screen, bounds),
{
    let area = screen_area(screen);
    (
        count_of(area.x_min as i128 - bounds.x_min as i128),
        count_of(area.y_min as i128 - bounds.y_min as i128),
    )
}

impl ScreenshotView {
    /// The pixels of the image of the desktop that the selection covers,
    /// at `pixels_per_point` pixels a unit.
    pub fn selected_pixels(&self, pixels_per_point: i64, bounds: DesktopBounds) -> (r: PixelRect)
        ensures
            r == selected(*self, pixels_per_point, bounds),
    {
        let x = if self.starting_point.x > self.ending_point.x {
            self.ending_point.x
        } else {
            self.starting_point.x
        };
        let y = if self.starting_point.y < self.ending_point.y {
            self.starting_point.y
        } else {
            self.ending_point.y
        };
        PixelRect {
            x: count_of(pixels_of(x, pixels_per_point) - bounds.x_min as i128),
            y: count_of(pixels_of(y, pixels_per_point) - bounds.y_min as i128),
            width: count_of(pixels_of(self.dimension_selected.width, pixels_per_point)),
            height: count_of(pixels_of(self.dimension_selected.height, pixels_per_point)),
        }
    }
}

} // verus!
