//! The crop rectangle and the pointer gestures that edit it.
//!
//! The rectangle is kept as four fractions of the image, one per edge, each
//! the share of the width or height that is cut away on that side.
use vstd::prelude::*;
use crate::fixed::floor_div;
use crate::fixed::lemma_floor_bounds;
use crate::fixed::lemma_floor_magnitude;
use crate::fixed::lemma_floor_monotonic;
use crate::fixed::lemma_product_bound;
use crate::fixed::magnitude;
use crate::fixed::narrow;
use crate::fixed::round_units;
use crate::fixed::sat64;
use crate::fixed::UNIT;
use crate::geometry::Line;
use crate::geometry::Point;
use crate::geometry::Rect;
use crate::geometry::Size;

verus! {

/// How close to an edge, in screen units, a press must be to take hold of it.
pub const GRAB: i64 = 10_000_000;

/// The smallest extent, in screen units, that a drag may shrink an axis to.
pub const MIN_EXTENT: i64 = 50_000_000;

/// The part of the crop rectangle that a gesture holds.
#[derive(Clone, Copy, Debug, PartialEq, Eq, Structural)]
pub enum Side {
    Idle,
    Left,
    Right,
    Up,
    Down,
    Center,
}

/// The pointer shape that a frame asks for.
#[derive(Clone, Copy, Debug, PartialEq, Eq, Structural)]
pub enum CursorIcon {
    ResizeVertical,
    ResizeEast,
    ResizeWest,
    AllScroll,
}

/// The four dashed lines that divide the crop rectangle into thirds.
#[derive(Clone, Copy, Debug, PartialEq, Eq, Structural)]
pub struct Guides {
    pub first_vertical: Line,
    pub second_vertical: Line,
    pub first_horizontal: Line,
    pub second_horizontal: Line,
}

/// What one frame of crop mode shows.
#[derive(Clone, Copy, Debug, PartialEq, Eq, Structural)]
pub struct CropFrame {
    /// The crop rectangle in screen space, as it stood when the frame began.
    pub cut_rect: Rect,
    /// The guides to draw; none where the rectangle is degenerate.
    pub guides: Option<Guides>,
    /// The pointer shape to set, if any.
    pub cursor: Option<CursorIcon>,
}

/// A rectangle of whole pixels.
#[derive(Clone, Copy, Debug, PartialEq, Eq, Structural)]
pub struct PixelRect {
    pub x: u32,
    pub y: u32,
    pub width: u32,
    pub height: u32,
}

/// Everything a crop session remembers between frames.
#[derive(Clone, Copy, Debug, PartialEq, Eq, Structural)]
pub struct CropState {
    pub offset_x_right: i64,
    pub offset_x_left: i64,
    pub offset_y_up: i64,
    pub offset_y_down: i64,
    pub last_click: Point,
    pub limit_reached: bool,
    pub side: Side,
}

/// The share `fraction` of `extent`, rounded down.
pub open spec fn inset(extent: int, fraction: int) -> int {
    extent * fraction / (UNIT as int)
}

/// The distance `delta` as a fraction of `extent`, rounded down.
pub open spec fn fraction(delta: int, extent: int) -> int {
    magnitude(delta) * UNIT / extent
}

/// What is left of `extent` once the fractions `near` and `far` are cut away.
pub open spec fn extent_left(extent: int, near: int, far: int) -> int {
    extent * (UNIT - near - far) / (UNIT as int)
}

/// `a` and `b` are within grabbing distance of each other.
pub open spec fn close(a: int, b: int) -> bool {
    magnitude(a - b) <= GRAB
}

/// `p` lies in `cut` shrunk by the grabbing distance on every side.
pub open spec fn interior(cut: Rect, p: Point) -> bool {
    &&& cut.min.x + GRAB <= p.x <= cut.max.x - GRAB
    &&& cut.min.y + GRAB <= p.y <= cut.max.y - GRAB
}

/// The part of `cut` that a press at `p` takes hold of: the top and bottom
/// edges are tried first, then the right and left ones, then the interior.
pub open spec fn classify(cut: Rect, p: Point) -> Side {
    if close(p.y as int, cut.min.y as int) {
        Side::Up
    } else if close(p.y as int, cut.max.y as int) {
        Side::Down
    } else if close(p.x as int, cut.max.x as int) {
        Side::Right
    } else if close(p.x as int, cut.min.x as int) {
        Side::Left
    } else if interior(cut, p) {
        Side::Center
    } else {
        Side::Idle
    }
}

/// The pointer shape over `cut` when nothing is held.
pub open spec fn hover_icon(cut: Rect, p: Point) -> Option<CursorIcon> {
    if close(p.y as int, cut.min.y as int) || close(p.y as int, cut.max.y as int) {
        Some(CursorIcon::ResizeVertical)
    } else if close(p.x as int, cut.min.x as int) || close(p.x as int, cut.max.x as int) {
        Some(CursorIcon::ResizeEast)
    } else if interior(cut, p) {
        Some(CursorIcon::AllScroll)
    } else {
        None
    }
}

/// The pointer shape that goes with taking hold of `side`.
pub open spec fn grab_icon(side: Side) -> Option<CursorIcon> {
    match side {
        Side::Up => Some(CursorIcon::ResizeVertical),
        Side::Down => Some(CursorIcon::ResizeVertical),
        Side::Right => Some(CursorIcon::ResizeWest),
        Side::Left => Some(CursorIcon::ResizeEast),
        Side::Center => Some(CursorIcon::AllScroll),
        Side::Idle => None,
    }
}

/// The lines at one and two thirds of `cut`, across and down.
pub open spec fn thirds(cut: Rect) -> Guides {
    let x1 = sat64(cut.min.x + cut.w() / 3);
    let x2 = sat64(cut.min.x + cut.w() / 3 * 2);
    let y1 = sat64(cut.min.y + cut.h() / 3);
    let y2 = sat64(cut.min.y + cut.h() / 3 * 2);
    Guides {
        first_vertical: Line {
            from: Point { x: x1, y: cut.min.y },
            to: Point { x: x1, y: cut.max.y },
        },
        second_vertical: Line {
            from: Point { x: x2, y: cut.min.y },
            to: Point { x: x2, y: cut.max.y },
        },
        first_horizontal: Line {
            from: Point { x: cut.min.x, y: y1 },
            to: Point { x: cut.max.x, y: y1 },
        },
        second_horizontal: Line {
            from: Point { x: cut.min.x, y: y2 },
            to: Point { x: cut.max.x, y: y2 },
        },
    }
}

impl CropState {
    /// The offsets are fractions that leave something of both axes.
    pub open spec fn wf(self) -> bool {
        &&& 0 <= self.offset_x_left
        &&& 0 <= self.offset_x_right
        &&& self.offset_x_left + self.offset_x_right < UNIT
        &&& 0 <= self.offset_y_up
        &&& 0 <= self.offset_y_down
        &&& self.offset_y_up + self.offset_y_down < UNIT
    }

    /// The state a crop session starts in: nothing cut away, nothing held.
    pub open spec fn initial() -> CropState {
        CropState {
            offset_x_right: 0,
            offset_x_left: 0,
            offset_y_up: 0,
            offset_y_down: 0,
            last_click: Point { x: 0, y: 0 },
            limit_reached: false,
            side: Side::Idle,
        }
    }

    /// The crop rectangle laid over the widget `rect`, in screen space.
    pub open spec fn screen_rect(self, rect: Rect) -> Rect {
        Rect {
            min: Point {
                x: sat64(rect.min.x + inset(rect.w(), self.offset_x_left as int)),
                y: sat64(rect.min.y + inset(rect.h(), self.offset_y_up as int)),
            },
            max: Point {
                x: sat64(rect.max.x - inset(rect.w(), self.offset_x_right as int)),
                y: sat64(rect.max.y - inset(rect.h(), self.offset_y_down as int)),
            },
        }
    }

    /// The crop rectangle within an image of the given size:
    /// its corner at `(left * width, up * height)`, its size
    /// `(width * (1 - left - right), height * (1 - up - down))`.
    pub open spec fn cut_rect(self, size: Size) -> Rect {
        Rect::spanning(
            Point {
                x: sat64(inset(size.width as int, self.offset_x_left as int)),
                y: sat64(inset(size.height as int, self.offset_y_up as int)),
            },
            Size {
                width: sat64(
                    extent_left(
                        size.width as int,
                        self.offset_x_left as int,
                        self.offset_x_right as int,
                    ),
                ),
                height: sat64(
                    extent_left(
                        size.height as int,
                        self.offset_y_up as int,
                        self.offset_y_down as int,
                    ),
                ),
            },
        )
    }

    /// The crop rectangle within an image of `columns` by `rows` pixels,
    /// each of its numbers rounded to the nearest pixel.
    pub open spec fn pixel_rect(self, columns: int, rows: int) -> PixelRect {
        let cut = self.cut_rect(Size { width: sat64(columns * UNIT), height: sat64(rows * UNIT) });
        PixelRect {
            x: round_units(cut.min.x as int) as u32,
            y: round_units(cut.min.y as int) as u32,
            width: round_units(cut.w()) as u32,
            height: round_units(cut.h()) as u32,
        }
    }

    /// Whether an edge may move to the fraction `candidate`: what is left of
    /// the axis stays at least `MIN_EXTENT`, or the limit was hit before and
    /// the edge moves back outwards.
    pub open spec fn accepts(self, extent: int, candidate: int, current: int, opposite: int) -> bool {
        extent_left(extent, candidate, opposite) >= MIN_EXTENT || (self.limit_reached && candidate
            < current)
    }

    /// The held edge follows the pointer to `p`, if that is accepted.
    pub open spec fn pull(self, rect: Rect, p: Point) -> CropState {
        match self.side {
            Side::Up => {
                let c = fraction(rect.min.y - p.y, rect.h());
                if self.accepts(rect.h(), c, self.offset_y_up as int, self.offset_y_down as int) {
                    CropState { offset_y_up: sat64(c), limit_reached: false, ..self }
                } else {
                    CropState { limit_reached: true, ..self }
                }
            },
            Side::Down => {
                let c = fraction(rect.max.y - p.y, rect.h());
                if self.accepts(rect.h(), c, self.offset_y_down as int, self.offset_y_up as int) {
                    CropState { offset_y_down: sat64(c), limit_reached: false, ..self }
                } else {
                    CropState { limit_reached: true, ..self }
                }
            },
            Side::Right => {
                let c = fraction(rect.max.x - p.x, rect.w());
                if self.accepts(rect.w(), c, self.offset_x_right as int, self.offset_x_left as int) {
                    CropState { offset_x_right: sat64(c), limit_reached: false, ..self }
                } else {
                    CropState { limit_reached: true, ..self }
                }
            },
            Side::Left => {
                let c = fraction(rect.min.x - p.x, rect.w());
                if self.accepts(rect.w(), c, self.offset_x_left as int, self.offset_x_right as int) {
                    CropState { offset_x_left: sat64(c), limit_reached: false, ..self }
                } else {
                    CropState { limit_reached: true, ..self }
                }
            },
            _ => self,
        }
    }

    /// The whole rectangle follows the pointer sideways, unless that would
    /// push it past the left or right border.
    pub open spec fn slide_x(self, rect: Rect, p: Point) -> CropState {
        let d = fraction(self.last_click.x - p.x, rect.w());
        if p.x < self.last_click.x && self.offset_x_left - d >= 0 {
            CropState {
                offset_x_left: sat64(self.offset_x_left - d),
                offset_x_right: sat64(self.offset_x_right + d),
                ..self
            }
        } else if p.x > self.last_click.x && self.offset_x_right - d >= 0 {
            CropState {
                offset_x_left: sat64(self.offset_x_left + d),
                offset_x_right: sat64(self.offset_x_right - d),
                ..self
            }
        } else {
            self
        }
    }

    /// The whole rectangle follows the pointer up or down, unless that would
    /// push it past the top or bottom border.
    pub open spec fn slide_y(self, rect: Rect, p: Point) -> CropState {
        let d = fraction(self.last_click.y - p.y, rect.h());
        if p.y < self.last_click.y && self.offset_y_up - d >= 0 {
            CropState {
                offset_y_up: sat64(self.offset_y_up - d),
                offset_y_down: sat64(self.offset_y_down + d),
                ..self
            }
        } else if p.y > self.last_click.y && self.offset_y_down - d >= 0 {
            CropState {
                offset_y_up: sat64(self.offset_y_up + d),
                offset_y_down: sat64(self.offset_y_down - d),
                ..self
            }
        } else {
            self
        }
    }

    /// One frame of a press or drag at `p`, inside a widget of positive size.
    /// A gesture takes hold of a part once and keeps it until release.
    pub open spec fn drag(self, rect: Rect, p: Point) -> CropState {
        match self.side {
            Side::Idle => CropState { side: classify(self.screen_rect(rect), p), ..self },
            Side::Center => if p != self.last_click {
                self.slide_x(rect, p).slide_y(rect, p)
            } else {
                self
            },
            _ => if p != self.last_click {
                self.pull(rect, p)
            } else {
                self
            },
        }
    }

    /// One frame: `interact` is where the pointer presses or drags, if it
    /// does. A pointer outside the widget, or a widget without area, moves
    /// nothing; a release lets go.
    pub open spec fn step(self, rect: Rect, interact: Option<Point>) -> CropState {
        match interact {
            Some(p) => {
                let moved = if rect.holds(p) && rect.positive() {
                    self.drag(rect, p)
                } else {
                    self
                };
                CropState { last_click: p, ..moved }
            },
            None => CropState { side: Side::Idle, ..self },
        }
    }

    /// What the frame shows: the rectangle as it stood, its guides, and the
    /// pointer shape, which taking hold of a part decides before hovering.
    pub open spec fn frame(self, rect: Rect, hover: Option<Point>, interact: Option<Point>) -> CropFrame {
        let cut = self.screen_rect(rect);
        let hovered = match hover {
            Some(p) => hover_icon(cut, p),
            None => None,
        };
        let grabbed = match interact {
            Some(p) => if rect.holds(p) && rect.positive() && self.side == Side::Idle {
                grab_icon(classify(cut, p))
            } else {
                None
            },
            None => None,
        };
        CropFrame {
            cut_rect: cut,
            guides: if cut.positive() {
                Some(thirds(cut))
            } else {
                None
            },
            cursor: if grabbed.is_some() {
                grabbed
            } else {
                hovered
            },
        }
    }
}

/// The share of an extent never exceeds the extent.
pub proof fn lemma_inset_bounds(extent: int, f: int)
    requires
        0 <= f <= UNIT,
    ensures
        extent >= 0 ==> 0 <= inset(extent, f) <= extent,
        extent < 0 ==> extent <= inset(extent, f) <= 0,
{
    let u = UNIT as int;
    lemma_floor_bounds(extent * f, u);
    let q = inset(extent, f);
    assert(extent >= 0 ==> 0 <= q <= extent) by (nonlinear_arith)
        requires
            0 <= f <= u,
            u > 0,
            u * q <= extent * f < u * q + u,
    ;
    assert(extent < 0 ==> extent <= q <= 0) by (nonlinear_arith)
        requires
            0 <= f <= u,
            u > 0,
            u * q <= extent * f < u * q + u,
    ;
}

/// A distance within an extent is a fraction between zero and one.
pub proof fn lemma_fraction_bounds(delta: int, extent: int)
    requires
        extent > 0,
    ensures
        0 <= fraction(delta, extent),
        magnitude(delta) <= extent ==> fraction(delta, extent) <= UNIT,
{
    let m = magnitude(delta);
    let u = UNIT as int;
    assert(m * u >= 0) by (nonlinear_arith)
        requires
            m >= 0,
            u > 0,
    ;
    lemma_floor_magnitude(m * u, extent);
    if m <= extent {
        assert(m * u <= extent * u) by (nonlinear_arith)
            requires
                m <= extent,
                u > 0,
        ;
        lemma_floor_monotonic(m * u, extent * u, extent);
        lemma_floor_bounds(extent * u, extent);
        let q = (extent * u) / extent;
        assert(q == u) by (nonlinear_arith)
            requires
                extent > 0,
                extent * q <= extent * u < extent * q + extent,
        ;
    }
}

/// An axis that keeps a positive extent has fractions that sum to less
/// than one.
pub proof fn lemma_extent_left_positive(extent: int, near: int, far: int)
    requires
        extent > 0,
        extent_left(extent, near, far) > 0,
    ensures
        near + far < UNIT,
{
    let u = UNIT as int;
    let rest = u - near - far;
    lemma_floor_bounds(extent * rest, u);
    let q = extent_left(extent, near, far);
    assert(rest > 0) by (nonlinear_arith)
        requires
            extent > 0,
            q > 0,
            u > 0,
            u * q <= extent * rest,
    ;
}

/// Every frame keeps the offsets valid.
pub proof fn lemma_step_valid(s: CropState, rect: Rect, interact: Option<Point>)
    requires
        s.wf(),
    ensures
        s.step(rect, interact).wf(),
{
    match interact {
        Some(p) => {
            if rect.holds(p) && rect.positive() {
                lemma_drag_valid(s, rect, p);
            }
        },
        None => {},
    }
}

/// A frame of a gesture keeps the offsets valid.
pub proof fn lemma_drag_valid(s: CropState, rect: Rect, p: Point)
    requires
        s.wf(),
        rect.positive(),
    ensures
        s.drag(rect, p).wf(),
{
    match s.side {
        Side::Idle => {},
        Side::Center => {
            lemma_fraction_bounds(s.last_click.x - p.x, rect.w());
            let mid = s.slide_x(rect, p);
            assert(mid.wf());
            assert(mid.last_click == s.last_click);
            lemma_fraction_bounds(mid.last_click.y - p.y, rect.h());
        },
        Side::Up => {
            let c = fraction(rect.min.y - p.y, rect.h());
            if s.accepts(rect.h(), c, s.offset_y_up as int, s.offset_y_down as int) {
                lemma_edge_valid(
                    s,
                    rect.h(),
                    rect.min.y - p.y,
                    s.offset_y_up as int,
                    s.offset_y_down as int,
                );
            }
        },
        Side::Down => {
            let c = fraction(rect.max.y - p.y, rect.h());
            if s.accepts(rect.h(), c, s.offset_y_down as int, s.offset_y_up as int) {
                lemma_edge_valid(
                    s,
                    rect.h(),
                    rect.max.y - p.y,
                    s.offset_y_down as int,
                    s.offset_y_up as int,
                );
            }
        },
        Side::Right => {
            let c = fraction(rect.max.x - p.x, rect.w());
            if s.accepts(rect.w(), c, s.offset_x_right as int, s.offset_x_left as int) {
                lemma_edge_valid(
                    s,
                    rect.w(),
                    rect.max.x - p.x,
                    s.offset_x_right as int,
                    s.offset_x_left as int,
                );
            }
        },
        Side::Left => {
            let c = fraction(rect.min.x - p.x, rect.w());
            if s.accepts(rect.w(), c, s.offset_x_left as int, s.offset_x_right as int) {
                lemma_edge_valid(
                    s,
                    rect.w(),
                    rect.min.x - p.x,
                    s.offset_x_left as int,
                    s.offset_x_right as int,
                );
            }
        },
    }
}

/// An accepted edge position is a fraction that leaves room for the
/// opposite one.
pub proof fn lemma_edge_valid(s: CropState, extent: int, delta: int, current: int, opposite: int)
    requires
        extent > 0,
        0 <= current,
        0 <= opposite,
        current + opposite < UNIT,
        s.accepts(extent, fraction(delta, extent), current, opposite),
    ensures
        0 <= fraction(delta, extent),
        fraction(delta, extent) + opposite < UNIT,
{
    let c = fraction(delta, extent);
    lemma_fraction_bounds(delta, extent);
    if extent_left(extent, c, opposite) >= MIN_EXTENT {
        lemma_extent_left_positive(extent, c, opposite);
    }
}

/// Cutting less away never leaves less.
pub proof fn lemma_extent_left_monotonic(extent: int, near: int, wider: int, far: int)
    requires
        extent >= 0,
        near <= wider,
    ensures
        extent_left(extent, wider, far) <= extent_left(extent, near, far),
{
    let u = UNIT as int;
    assert(extent * (u - wider - far) <= extent * (u - near - far)) by (nonlinear_arith)
        requires
            extent >= 0,
            near <= wider,
    ;
    lemma_floor_monotonic(extent * (u - wider - far), extent * (u - near - far), u);
}

/// No frame shrinks an axis below the minimum extent: after it, each axis
/// spans at least `MIN_EXTENT` or at least what it spanned before.
pub proof fn lemma_step_keeps_extent(s: CropState, rect: Rect, interact: Option<Point>)
    requires
        s.wf(),
    ensures
        ({
            let t = s.step(rect, interact);
            let before = extent_left(rect.w(), s.offset_x_left as int, s.offset_x_right as int);
            let after = extent_left(rect.w(), t.offset_x_left as int, t.offset_x_right as int);
            after >= MIN_EXTENT || after >= before
        }),
        ({
            let t = s.step(rect, interact);
            let before = extent_left(rect.h(), s.offset_y_up as int, s.offset_y_down as int);
            let after = extent_left(rect.h(), t.offset_y_up as int, t.offset_y_down as int);
            after >= MIN_EXTENT || after >= before
        }),
{
    match interact {
        Some(p) => {
            if rect.holds(p) && rect.positive() {
                lemma_drag_valid(s, rect, p);
                match s.side {
                    Side::Idle => {},
                    Side::Center => {
                        if p != s.last_click {
                            lemma_fraction_bounds(s.last_click.x - p.x, rect.w());
                            let mid = s.slide_x(rect, p);
                            assert(mid.offset_x_left + mid.offset_x_right == s.offset_x_left
                                + s.offset_x_right);
                            lemma_fraction_bounds(mid.last_click.y - p.y, rect.h());
                            let t = mid.slide_y(rect, p);
                            assert(t.offset_y_up + t.offset_y_down == s.offset_y_up
                                + s.offset_y_down);
                            assert(t.offset_x_left + t.offset_x_right == s.offset_x_left
                                + s.offset_x_right);
                        }
                    },
                    Side::Up => {
                        let c = fraction(rect.min.y - p.y, rect.h());
                        lemma_fraction_bounds(rect.min.y - p.y, rect.h());
                        if p != s.last_click && s.accepts(
                            rect.h(),
                            c,
                            s.offset_y_up as int,
                            s.offset_y_down as int,
                        ) {
                            lemma_edge_valid(
                                s,
                                rect.h(),
                                rect.min.y - p.y,
                                s.offset_y_up as int,
                                s.offset_y_down as int,
                            );
                            if c < s.offset_y_up {
                                lemma_extent_left_monotonic(
                                    rect.h(),
                                    c,
                                    s.offset_y_up as int,
                                    s.offset_y_down as int,
                                );
                            }
                        }
                    },
                    Side::Down => {
                        let c = fraction(rect.max.y - p.y, rect.h());
                        lemma_fraction_bounds(rect.max.y - p.y, rect.h());
                        if p != s.last_click && s.accepts(
                            rect.h(),
                            c,
                            s.offset_y_down as int,
                            s.offset_y_up as int,
                        ) {
                            lemma_edge_valid(
                                s,
                                rect.h(),
                                rect.max.y - p.y,
                                s.offset_y_down as int,
                                s.offset_y_up as int,
                            );
                            lemma_extent_left_swap(rect.h(), c, s.offset_y_up as int);
                            lemma_extent_left_swap(
                                rect.h(),
                                s.offset_y_down as int,
                                s.offset_y_up as int,
                            );
                            if c < s.offset_y_down {
                                lemma_extent_left_monotonic(
                                    rect.h(),
                                    c,
                                    s.offset_y_down as int,
                                    s.offset_y_up as int,
                                );
                            }
                        }
                    },
                    Side::Right => {
                        let c = fraction(rect.max.x - p.x, rect.w());
                        lemma_fraction_bounds(rect.max.x - p.x, rect.w());
                        if p != s.last_click && s.accepts(
                            rect.w(),
                            c,
                            s.offset_x_right as int,
                            s.offset_x_left as int,
                        ) {
                            lemma_edge_valid(
                                s,
                                rect.w(),
                                rect.max.x - p.x,
                                s.offset_x_right as int,
                                s.offset_x_left as int,
                            );
                            lemma_extent_left_swap(rect.w(), c, s.offset_x_left as int);
                            lemma_extent_left_swap(
                                rect.w(),
                                s.offset_x_right as int,
                                s.offset_x_left as int,
                            );
                            if c < s.offset_x_right {
                                lemma_extent_left_monotonic(
                                    rect.w(),
                                    c,
                                    s.offset_x_right as int,
                                    s.offset_x_left as int,
                                );
                            }
                        }
                    },
                    Side::Left => {
                        let c = fraction(rect.min.x - p.x, rect.w());
                        lemma_fraction_bounds(rect.min.x - p.x, rect.w());
                        if p != s.last_click && s.accepts(
                            rect.w(),
                            c,
                            s.offset_x_left as int,
                            s.offset_x_right as int,
                        ) {
                            lemma_edge_valid(
                                s,
                                rect.w(),
                                rect.min.x - p.x,
                                s.offset_x_left as int,
                                s.offset_x_right as int,
                            );
                            if c < s.offset_x_left {
                                lemma_extent_left_monotonic(
                                    rect.w(),
                                    c,
                                    s.offset_x_left as int,
                                    s.offset_x_right as int,
                                );
                            }
                        }
                    },
                }
            }
        },
        None => {},
    }
}

/// What is left of an axis does not depend on which fraction is which.
pub proof fn lemma_extent_left_swap(extent: int, near: int, far: int)
    ensures
        extent_left(extent, near, far) == extent_left(extent, far, near),
{
    assert(UNIT - near - far == UNIT - far - near);
}

/// The crop rectangle of valid offsets lies within the image it is cut from.
pub proof fn lemma_cut_rect_contained(s: CropState, size: Size)
    requires
        s.wf(),
        size.width >= 0,
        size.height >= 0,
    ensures
        ({
            let cut = s.cut_rect(size);
            &&& 0 <= cut.min.x <= cut.max.x <= size.width
            &&& 0 <= cut.min.y <= cut.max.y <= size.height
            &&& cut.min.x == inset(size.width as int, s.offset_x_left as int)
            &&& cut.min.y == inset(size.height as int, s.offset_y_up as int)
            &&& cut.w() == extent_left(
                size.width as int,
                s.offset_x_left as int,
                s.offset_x_right as int,
            )
            &&& cut.h() == extent_left(
                size.height as int,
                s.offset_y_up as int,
                s.offset_y_down as int,
            )
        }),
{
    lemma_axis_contained(size.width as int, s.offset_x_left as int, s.offset_x_right as int);
    lemma_axis_contained(size.height as int, s.offset_y_up as int, s.offset_y_down as int);
}

/// Along one axis, the kept span starts and ends within the extent.
pub proof fn lemma_axis_contained(extent: int, near: int, far: int)
    requires
        extent >= 0,
        0 <= near,
        0 <= far,
        near + far < UNIT,
    ensures
        0 <= inset(extent, near),
        0 <= extent_left(extent, near, far),
        inset(extent, near) + extent_left(extent, near, far) <= extent,
{
    let u = UNIT as int;
    let a = inset(extent, near);
    let b = extent_left(extent, near, far);
    lemma_inset_bounds(extent, near);
    lemma_floor_bounds(extent * near, u);
    lemma_floor_bounds(extent * (u - near - far), u);
    assert(b >= 0) by (nonlinear_arith)
        requires
            extent >= 0,
            u - near - far > 0,
            u > 0,
            extent * (u - near - far) < u * b + u,
    ;
    assert(a + b <= extent) by (nonlinear_arith)
        requires
            extent >= 0,
            far >= 0,
            u > 0,
            u * a <= extent * near,
            u * b <= extent * (u - near - far),
    ;
}

/// Whether `a` and `b` are within grabbing distance of each other.
fn is_close(a: i64, b: i64) -> (r: bool)
    ensures
        r == close(a as int, b as int),
{
    let d: i128 = a as i128 - b as i128;
    let m: i128 = if d < 0 {
        -d
    } else {
        d
    };
    m <= GRAB as i128
}

/// Whether `p` lies in `cut` shrunk by the grabbing distance.
fn in_interior(cut: Rect, p: Point) -> (r: bool)
    ensures
        r == interior(cut, p),
{
    let g: i128 = GRAB as i128;
    cut.min.x as i128 + g <= p.x as i128 && p.x as i128 <= cut.max.x as i128 - g && cut.min.y as i128
        + g <= p.y as i128 && p.y as i128 <= cut.max.y as i128 - g
}

/// The part of `cut` that a press at `p` takes hold of.
fn side_at(cut: Rect, p: Point) -> (r: Side)
    ensures
        r == classify(cut, p),
{
    if is_close(p.y, cut.min.y) {
        Side::Up
    } else if is_close(p.y, cut.max.y) {
        Side::Down
    } else if is_close(p.x, cut.max.x) {
        Side::Right
    } else if is_close(p.x, cut.min.x) {
        Side::Left
    } else if in_interior(cut, p) {
        Side::Center
    } else {
        Side::Idle
    }
}

/// The pointer shape over `cut` when nothing is held.
fn icon_over(cut: Rect, p: Point) -> (r: Option<CursorIcon>)
    ensures
        r == hover_icon(cut, p),
{
    if is_close(p.y, cut.min.y) || is_close(p.y, cut.max.y) {
        Some(CursorIcon::ResizeVertical)
    } else if is_close(p.x, cut.min.x) || is_close(p.x, cut.max.x) {
        Some(CursorIcon::ResizeEast)
    } else if in_interior(cut, p) {
        Some(CursorIcon::AllScroll)
    } else {
        None
    }
}

/// The pointer shape that goes with taking hold of `side`.
fn icon_for(side: Side) -> (r: Option<CursorIcon>)
    ensures
        r == grab_icon(side),
{
    match side {
        Side::Up => Some(CursorIcon::ResizeVertical),
        Side::Down => Some(CursorIcon::ResizeVertical),
        Side::Right => Some(CursorIcon::ResizeWest),
        Side::Left => Some(CursorIcon::ResizeEast),
        Side::Center => Some(CursorIcon::AllScroll),
        Side::Idle => None,
    }
}

/// The lines at one and two thirds of `cut`.
fn guides_of(cut: Rect) -> (r: Guides)
    ensures
        r == thirds(cut),
{
    let w: i128 = cut.max.x as i128 - cut.min.x as i128;
    let h: i128 = cut.max.y as i128 - cut.min.y as i128;
    proof {
        lemma_floor_magnitude(w as int, 3);
        lemma_floor_magnitude(h as int, 3);
    }
    let tw: i128 = floor_div(w, 3);
    let th: i128 = floor_div(h, 3);
    let x1: i64 = narrow(cut.min.x as i128 + tw);
    let x2: i64 = narrow(cut.min.x as i128 + tw * 2);
    let y1: i64 = narrow(cut.min.y as i128 + th);
    let y2: i64 = narrow(cut.min.y as i128 + th * 2);
    Guides {
        first_vertical: Line {
            from: Point { x: x1, y: cut.min.y },
            to: Point { x: x1, y: cut.max.y },
        },
        second_vertical: Line {
            from: Point { x: x2, y: cut.min.y },
            to: Point { x: x2, y: cut.max.y },
        },
        first_horizontal: Line {
            from: Point { x: cut.min.x, y: y1 },
            to: Point { x: cut.max.x, y: y1 },
        },
        second_horizontal: Line {
            from: Point { x: cut.min.x, y: y2 },
            to: Point { x: cut.max.x, y: y2 },
        },
    }
}

/// The share `f` of `extent`, rounded down.
fn inset_of(extent: i128, f: i64) -> (r: i128)
    requires
        -0x1_0000_0000_0000_0000 < extent < 0x1_0000_0000_0000_0000,
        0 <= f <= UNIT,
    ensures
        r == inset(extent as int, f as int),
        extent >= 0 ==> 0 <= r <= extent,
        extent < 0 ==> extent <= r <= 0,
{
    proof {
        lemma_product_bound(extent as int, f as int, 0x1_0000_0000_0000_0000, UNIT as int);
        lemma_inset_bounds(extent as int, f as int);
    }
    floor_div(extent * (f as i128), UNIT as i128)
}

/// What is left of `extent` once `near` and `far` are cut away.
fn extent_left_of(extent: i128, near: i128, far: i64) -> (r: i128)
    requires
        -0x1_0000_0000_0000_0000 < extent < 0x1_0000_0000_0000_0000,
        0 <= near <= UNIT,
        0 <= far <= UNIT,
    ensures
        r == extent_left(extent as int, near as int, far as int),
{
    let rest: i128 = UNIT as i128 - near - far as i128;
    proof {
        lemma_product_bound(extent as int, rest as int, 0x1_0000_0000_0000_0000, UNIT as int);
    }
    floor_div(extent * rest, UNIT as i128)
}

/// The distance `delta` as a fraction of `extent`.
fn fraction_of(delta: i128, extent: i128) -> (r: i128)
    requires
        -0x1_0000_0000_0000_0000 < delta < 0x1_0000_0000_0000_0000,
        0 < extent,
    ensures
        r == fraction(delta as int, extent as int),
        0 <= r <= 0x1_0000_0000_0000_0000 * UNIT,
        magnitude(delta as int) <= extent ==> r <= UNIT,
{
    let m: i128 = if delta < 0 {
        -delta
    } else {
        delta
    };
    proof {
        lemma_product_bound(m as int, UNIT as int, 0x1_0000_0000_0000_0000, UNIT as int);
        assert(m * UNIT >= 0) by (nonlinear_arith)
            requires
                m >= 0,
        ;
        lemma_floor_magnitude(m * UNIT, extent as int);
        lemma_fraction_bounds(delta as int, extent as int);
    }
    floor_div(m * (UNIT as i128), extent)
}

/// Where the held edge goes, if the move is accepted.
fn edge_target(
    state: CropState,
    extent: i128,
    delta: i128,
    current: i64,
    opposite: i64,
) -> (r: Option<i64>)
    requires
        0 < extent < 0x1_0000_0000_0000_0000,
        -0x1_0000_0000_0000_0000 < delta < 0x1_0000_0000_0000_0000,
        magnitude(delta as int) <= extent,
        0 <= current,
        0 <= opposite,
        current + opposite < UNIT,
    ensures
        r == if state.accepts(
            extent as int,
            fraction(delta as int, extent as int),
            current as int,
            opposite as int,
        ) {
            Some(sat64(fraction(delta as int, extent as int)))
        } else {
            None
        },
{
    let c: i128 = fraction_of(delta, extent);
    let left: i128 = extent_left_of(extent, c, opposite);
    if left >= MIN_EXTENT as i128 || (state.limit_reached && c < current as i128) {
        Some(narrow(c))
    } else {
        None
    }
}

/// The held edge follows the pointer to `p`, if that is accepted.
fn pull_of(state: CropState, rect: Rect, p: Point) -> (r: CropState)
    requires
        state.wf(),
        rect.positive(),
        rect.holds(p),
    ensures
        r == state.pull(rect, p),
{
    let w: i128 = rect.max.x as i128 - rect.min.x as i128;
    let h: i128 = rect.max.y as i128 - rect.min.y as i128;
    match state.side {
        Side::Up => {
            let d: i128 = rect.min.y as i128 - p.y as i128;
            match edge_target(state, h, d, state.offset_y_up, state.offset_y_down) {
                Some(c) => CropState { offset_y_up: c, limit_reached: false, ..state },
                None => CropState { limit_reached: true, ..state },
            }
        },
        Side::Down => {
            let d: i128 = rect.max.y as i128 - p.y as i128;
            match edge_target(state, h, d, state.offset_y_down, state.offset_y_up) {
                Some(c) => CropState { offset_y_down: c, limit_reached: false, ..state },
                None => CropState { limit_reached: true, ..state },
            }
        },
        Side::Right => {
            let d: i128 = rect.max.x as i128 - p.x as i128;
            match edge_target(state, w, d, state.offset_x_right, state.offset_x_left) {
                Some(c) => CropState { offset_x_right: c, limit_reached: false, ..state },
                None => CropState { limit_reached: true, ..state },
            }
        },
        Side::Left => {
            let d: i128 = rect.min.x as i128 - p.x as i128;
            match edge_target(state, w, d, state.offset_x_left, state.offset_x_right) {
                Some(c) => CropState { offset_x_left: c, limit_reached: false, ..state },
                None => CropState { limit_reached: true, ..state },
            }
        },
        _ => state,
    }
}

/// The whole rectangle follows the pointer sideways.
fn slide_x_of(state: CropState, rect: Rect, p: Point) -> (r: CropState)
    requires
        state.wf(),
        rect.positive(),
    ensures
        r == state.slide_x(rect, p),
{
    let w: i128 = rect.max.x as i128 - rect.min.x as i128;
    let d: i128 = fraction_of(state.last_click.x as i128 - p.x as i128, w);
    if p.x < state.last_click.x && state.offset_x_left as i128 - d >= 0 {
        CropState {
            offset_x_left: narrow(state.offset_x_left as i128 - d),
            offset_x_right: narrow(state.offset_x_right as i128 + d),
            ..state
        }
    } else if p.x > state.last_click.x && state.offset_x_right as i128 - d >= 0 {
        CropState {
            offset_x_left: narrow(state.offset_x_left as i128 + d),
            offset_x_right: narrow(state.offset_x_right as i128 - d),
            ..state
        }
    } else {
        state
    }
}

/// The whole rectangle follows the pointer up or down.
fn slide_y_of(state: CropState, rect: Rect, p: Point) -> (r: CropState)
    requires
        state.wf(),
        rect.positive(),
    ensures
        r == state.slide_y(rect, p),
{
    let h: i128 = rect.max.y as i128 - rect.min.y as i128;
    let d: i128 = fraction_of(state.last_click.y as i128 - p.y as i128, h);
    if p.y < state.last_click.y && state.offset_y_up as i128 - d >= 0 {
        CropState {
            offset_y_up: narrow(state.offset_y_up as i128 - d),
            offset_y_down: narrow(state.offset_y_down as i128 + d),
            ..state
        }
    } else if p.y > state.last_click.y && state.offset_y_down as i128 - d >= 0 {
        CropState {
            offset_y_up: narrow(state.offset_y_up as i128 + d),
            offset_y_down: narrow(state.offset_y_down as i128 - d),
            ..state
        }
    } else {
        state
    }
}

/// The crop rectangle laid over the widget `rect`.
fn screen_rect_of(state: CropState, rect: Rect) -> (r: Rect)
    requires
        state.wf(),
    ensures
        r == state.screen_rect(rect),
{
    let w: i128 = rect.max.x as i128 - rect.min.x as i128;
    let h: i128 = rect.max.y as i128 - rect.min.y as i128;
    Rect {
        min: Point {
            x: narrow(rect.min.x as i128 + inset_of(w, state.offset_x_left)),
            y: narrow(rect.min.y as i128 + inset_of(h, state.offset_y_up)),
        },
        max: Point {
            x: narrow(rect.max.x as i128 - inset_of(w, state.offset_x_right)),
            y: narrow(rect.max.y as i128 - inset_of(h, state.offset_y_down)),
        },
    }
}

/// One frame of a press or drag at `p`.
fn drag_of(state: CropState, rect: Rect, p: Point) -> (r: CropState)
    requires
        state.wf(),
        rect.positive(),
        rect.holds(p),
    ensures
        r == state.drag(rect, p),
{
    match state.side {
        Side::Idle => CropState { side: side_at(screen_rect_of(state, rect), p), ..state },
        Side::Center => {
            if p != state.last_click {
                let mid = slide_x_of(state, rect, p);
                proof {
                    lemma_fraction_bounds(state.last_click.x - p.x, rect.w());
                }
                slide_y_of(mid, rect, p)
            } else {
                state
            }
        },
        _ => {
            if p != state.last_click {
                pull_of(state, rect, p)
            } else {
                state
            }
        },
    }
}

/// An interactive crop rectangle.
#[derive(Clone, Copy, Debug)]
pub struct Crop {
    state: CropState,
}

impl Crop {
    #[verifier::type_invariant]
    spec fn valid(self) -> bool {
        self.state.wf()
    }

    /// What the session remembers.
    pub closed spec fn view(&self) -> CropState {
        self.state
    }

    /// A crop session that has cut nothing away yet.
    pub fn new() -> (c: Crop)
        ensures
            c@ == CropState::initial(),
    {
        Crop {
            state: CropState {
                offset_x_right: 0,
                offset_x_left: 0,
                offset_y_up: 0,
                offset_y_down: 0,
                last_click: Point { x: 0, y: 0 },
                limit_reached: false,
                side: Side::Idle,
            },
        }
    }

    /// A crop session that starts from the given fractions, where they are
    /// valid: none negative, and each pair leaving something of its axis.
    pub fn with_offsets(left: i64, right: i64, up: i64, down: i64) -> (c: Option<Crop>)
        ensures
            c.is_some() <==> (CropState {
                offset_x_left: left,
                offset_x_right: right,
                offset_y_up: up,
                offset_y_down: down,
                ..CropState::initial()
            }).wf(),
            c.is_some() ==> c.unwrap()@ == (CropState {
                offset_x_left: left,
                offset_x_right: right,
                offset_y_up: up,
                offset_y_down: down,
                ..CropState::initial()
            }),
    {
        if 0 <= left && 0 <= right && left as i128 + (right as i128) < UNIT as i128 && 0 <= up && 0
            <= down && up as i128 + (down as i128) < UNIT as i128 {
            Some(
                Crop {
                    state: CropState {
                        offset_x_right: right,
                        offset_x_left: left,
                        offset_y_up: up,
                        offset_y_down: down,
                        last_click: Point { x: 0, y: 0 },
                        limit_reached: false,
                        side: Side::Idle,
                    },
                },
            )
        } else {
            None
        }
    }

    /// A copy of what the session remembers.
    pub fn state(&self) -> (s: CropState)
        ensures
            s == self@,
            s.wf(),
    {
        proof {
            use_type_invariant(self);
        }
        self.state
    }

    /// One frame of crop mode over the widget `rect`: `hover` is where the
    /// pointer is, `interact` where it presses or drags, if it does.
    /// Returns what to draw and the pointer shape to show.
    pub fn crop_img(&mut self, rect: Rect, hover: Option<Point>, interact: Option<Point>) -> (frame:
        CropFrame)
        ensures
            final(self)@ == old(self)@.step(rect, interact),
            final(self)@.wf(),
            frame == old(self)@.frame(rect, hover, interact),
    {
        proof {
            use_type_invariant(&*self);
            lemma_step_valid(self.state, rect, interact);
        }
        let state = self.state;
        let cut = screen_rect_of(state, rect);
        let mut cursor: Option<CursorIcon> = match hover {
            Some(p) => icon_over(cut, p),
            None => None,
        };
        let next = match interact {
            Some(p) => {
                let moved = if rect.contains(p) && rect.is_positive() {
                    if state.side == Side::Idle {
                        let grabbed = icon_for(side_at(cut, p));
                        if grabbed.is_some() {
                            cursor = grabbed;
                        }
                    }
                    drag_of(state, rect, p)
                } else {
                    state
                };
                CropState { last_click: p, ..moved }
            },
            None => CropState { side: Side::Idle, ..state },
        };
        self.state = next;
        CropFrame {
            cut_rect: cut,
            guides: if cut.is_positive() {
                Some(guides_of(cut))
            } else {
                None
            },
            cursor,
        }
    }

    /// The crop rectangle within an image of the given size. For a size
    /// that is not negative it lies within `[0, size]` on both axes.
    pub fn get_cut_rect(&self, size: Size) -> (cut: Rect)
        ensures
            cut == self@.cut_rect(size),
            size.width >= 0 && size.height >= 0 ==> {
                &&& 0 <= cut.min.x <= cut.max.x <= size.width
                &&& 0 <= cut.min.y <= cut.max.y <= size.height
            },
    {
        proof {
            use_type_invariant(self);
            if size.width >= 0 && size.height >= 0 {
                lemma_cut_rect_contained(self.state, size);
            }
        }
        let state = self.state;
        let w: i128 = size.width as i128;
        let h: i128 = size.height as i128;
        let min = Point {
            x: narrow(inset_of(w, state.offset_x_left)),
            y: narrow(inset_of(h, state.offset_y_up)),
        };
        let extent = Size {
            width: narrow(extent_left_of(w, state.offset_x_left as i128, state.offset_x_right)),
            height: narrow(extent_left_of(h, state.offset_y_up as i128, state.offset_y_down)),
        };
        Rect::from_min_size(min, extent)
    }
}

/// `v`, between nothing and `limit` whole units, rounded to whole units.
fn rounded(v: i64, limit: u32) -> (r: u32)
    requires
        0 <= v <= limit * UNIT,
    ensures
        r == round_units(v as int),
        r <= limit,
{
    let q: i128 = floor_div(v as i128 + (UNIT / 2) as i128, UNIT as i128);
    proof {
        let u = UNIT as int;
        lemma_floor_bounds(v + u / 2, u);
        assert(0 <= q <= limit) by (nonlinear_arith)
            requires
                u == 1_000_000,
                0 <= v <= limit * u,
                u * q <= v + u / 2 < u * q + u,
        ;
    }
    q as u32
}

impl Crop {
    /// The crop rectangle within an image of `columns` by `rows` pixels,
    /// each of its numbers rounded to the nearest pixel. The corner lies
    /// within the image, and neither extent is larger than the image's.
    pub fn pixel_rect(&self, columns: u32, rows: u32) -> (r: PixelRect)
        ensures
            r == self@.pixel_rect(columns as int, rows as int),
            r.x <= columns,
            r.y <= rows,
            r.width <= columns,
            r.height <= rows,
    {
        let size = Size { width: columns as i64 * UNIT, height: rows as i64 * UNIT };
        let cut = self.get_cut_rect(size);
        PixelRect {
            x: rounded(cut.min.x, columns),
            y: rounded(cut.min.y, rows),
            width: rounded(cut.max.x - cut.min.x, columns),
            height: rounded(cut.max.y - cut.min.y, rows),
        }
    }
}

impl Default for Crop {
    /// A crop session that has cut nothing away yet.
    fn default() -> (c: Crop)
        ensures
            c@ == CropState::initial(),
    {
        Crop::new()
    }
}

} // verus!
