//! Mapping between coordinate spaces, and fitting an image into a viewport.
use vstd::prelude::*;
use crate::fixed::floor_div;
use crate::fixed::lemma_floor_bounds;
use crate::fixed::lemma_floor_magnitude;
use crate::fixed::lemma_product_bound;
use crate::fixed::narrow;
use crate::fixed::sat64;
use crate::fixed::scale_floor;
use crate::fixed::UNIT;
use crate::geometry::Point;
use crate::geometry::Rect;
use crate::geometry::Size;

verus! {

/// Where `v` goes when the span `[fmin, fmax]` is laid onto `[tmin, tmax]`,
/// rounded down.
pub open spec fn map_axis(v: int, fmin: int, fmax: int, tmin: int, tmax: int) -> int {
    tmin + (v - fmin) * (tmax - tmin) / (fmax - fmin)
}

/// Where `p` goes when the rectangle `from` is laid onto `to`.
pub open spec fn map_point(from: Rect, to: Rect, p: Point) -> Point {
    Point {
        x: sat64(
            map_axis(
                p.x as int,
                from.min.x as int,
                from.max.x as int,
                to.min.x as int,
                to.max.x as int,
            ),
        ),
        y: sat64(
            map_axis(
                p.y as int,
                from.min.y as int,
                from.max.y as int,
                to.min.y as int,
                to.max.y as int,
            ),
        ),
    }
}

/// The proportions of `rect` with its shorter side set to one.
pub open spec fn square_proportions(rect: Rect) -> Size {
    if rect.w() > rect.h() {
        Size { width: sat64(rect.w() * UNIT / rect.h()), height: UNIT }
    } else {
        Size { width: UNIT, height: sat64(rect.h() * UNIT / rect.w()) }
    }
}

/// The rectangle of normalized canvas space that belongs to `rect`: it
/// starts at the origin and has the proportions of `rect`.
pub open spec fn canvas_rect(rect: Rect) -> Rect {
    Rect {
        min: Point { x: 0, y: 0 },
        max: Point { x: square_proportions(rect).width, y: square_proportions(rect).height },
    }
}

/// The largest size with the proportions `aw : ah` that fits the viewport:
/// it fills the axis that limits it and rounds the other down. Nothing fits
/// an empty viewport, and nothing has empty proportions.
pub open spec fn fit_size(viewport: Size, aw: int, ah: int) -> Size {
    if viewport.width <= 0 || viewport.height <= 0 || aw <= 0 || ah <= 0 {
        Size { width: 0, height: 0 }
    } else if viewport.width * ah <= viewport.height * aw {
        Size { width: viewport.width, height: (viewport.width * ah / aw) as i64 }
    } else {
        Size { width: (viewport.height * aw / ah) as i64, height: viewport.height }
    }
}

/// One coordinate of a mapped point.
fn map_one(v: i64, fmin: i64, fmax: i64, tmin: i64, tmax: i64) -> (r: i64)
    requires
        fmin < fmax,
    ensures
        r == sat64(map_axis(v as int, fmin as int, fmax as int, tmin as int, tmax as int)),
{
    let a: i128 = v as i128 - fmin as i128;
    let b: i128 = tmax as i128 - tmin as i128;
    let d: i128 = fmax as i128 - fmin as i128;
    let q: i128 = scale_floor(a, b, d);
    narrow(tmin as i128 + q)
}

/// The proportions of a rectangle of positive size.
fn proportions_of(rect: Rect) -> (s: Size)
    requires
        rect.positive(),
    ensures
        s == square_proportions(rect),
        s.width >= UNIT,
        s.height >= UNIT,
{
    let w: i128 = rect.max.x as i128 - rect.min.x as i128;
    let h: i128 = rect.max.y as i128 - rect.min.y as i128;
    proof {
        lemma_product_bound(w as int, UNIT as int, 0x1_0000_0000_0000_0000, UNIT as int);
        lemma_product_bound(h as int, UNIT as int, 0x1_0000_0000_0000_0000, UNIT as int);
        let u = UNIT as int;
        if w > h {
            lemma_floor_bounds(w * u, h as int);
            let q = (w * u) / (h as int);
            assert(q >= u) by (nonlinear_arith)
                requires
                    w > h,
                    h > 0,
                    u > 0,
                    w * u < h * q + h,
            ;
        } else {
            lemma_floor_bounds(h * u, w as int);
            let q = (h * u) / (w as int);
            assert(q >= u) by (nonlinear_arith)
                requires
                    h >= w,
                    w > 0,
                    u > 0,
                    h * u < w * q + w,
            ;
        }
    }
    if w > h {
        Size { width: narrow(floor_div(w * (UNIT as i128), h)), height: UNIT }
    } else {
        Size { width: UNIT, height: narrow(floor_div(h * (UNIT as i128), w)) }
    }
}

/// The largest size with the proportions `aspect_width : aspect_height`
/// that fits the viewport.
pub fn fit(viewport: Size, aspect_width: u32, aspect_height: u32) -> (size: Size)
    ensures
        size == fit_size(viewport, aspect_width as int, aspect_height as int),
        0 <= size.width,
        0 <= size.height,
        viewport.width >= 0 ==> size.width <= viewport.width,
        viewport.height >= 0 ==> size.height <= viewport.height,
{
    if viewport.width <= 0 || viewport.height <= 0 || aspect_width == 0 || aspect_height == 0 {
        return Size { width: 0, height: 0 };
    }
    let vw: i128 = viewport.width as i128;
    let vh: i128 = viewport.height as i128;
    let aw: i128 = aspect_width as i128;
    let ah: i128 = aspect_height as i128;
    proof {
        lemma_product_bound(vw as int, ah as int, 0x8000_0000_0000_0000, 0x1_0000_0000);
        lemma_product_bound(vh as int, aw as int, 0x8000_0000_0000_0000, 0x1_0000_0000);
        lemma_fit_within(viewport, aspect_width as int, aspect_height as int);
    }
    if vw * ah <= vh * aw {
        Size { width: viewport.width, height: floor_div(vw * ah, aw) as i64 }
    } else {
        Size { width: floor_div(vh * aw, ah) as i64, height: viewport.height }
    }
}

/// What fits a viewport lies within it.
pub proof fn lemma_fit_within(viewport: Size, aw: int, ah: int)
    ensures
        0 <= fit_size(viewport, aw, ah).width,
        0 <= fit_size(viewport, aw, ah).height,
        viewport.width >= 0 ==> fit_size(viewport, aw, ah).width <= viewport.width,
        viewport.height >= 0 ==> fit_size(viewport, aw, ah).height <= viewport.height,
        viewport.width > 0 && viewport.height > 0 && aw > 0 && ah > 0 ==> (fit_size(
            viewport,
            aw,
            ah,
        ).width == viewport.width || fit_size(viewport, aw, ah).height == viewport.height),
{
    let vw = viewport.width as int;
    let vh = viewport.height as int;
    if vw > 0 && vh > 0 && aw > 0 && ah > 0 {
        assert(vw * ah >= 0 && vh * aw >= 0) by (nonlinear_arith)
            requires
                vw > 0,
                vh > 0,
                aw > 0,
                ah > 0,
        ;
        if vw * ah <= vh * aw {
            lemma_floor_magnitude(vw * ah, aw);
            lemma_floor_bounds(vw * ah, aw);
            let q = vw * ah / aw;
            assert(q <= vh) by (nonlinear_arith)
                requires
                    aw > 0,
                    aw * q <= vw * ah,
                    vw * ah <= vh * aw,
            ;
        } else {
            lemma_floor_magnitude(vh * aw, ah);
            lemma_floor_bounds(vh * aw, ah);
            let q = vh * aw / ah;
            assert(q <= vw) by (nonlinear_arith)
                requires
                    ah > 0,
                    ah * q <= vh * aw,
                    vh * aw < vw * ah,
            ;
        }
    }
}

/// Nothing of the same proportions that fits the viewport is larger than
/// what `fit_size` gives.
pub proof fn lemma_fit_largest(viewport: Size, aw: int, ah: int, w: int, h: int)
    requires
        aw > 0,
        ah > 0,
        0 <= w <= viewport.width,
        0 <= h <= viewport.height,
        w * ah == h * aw,
    ensures
        w <= fit_size(viewport, aw, ah).width,
        h <= fit_size(viewport, aw, ah).height,
{
    let vw = viewport.width as int;
    let vh = viewport.height as int;
    if vw <= 0 || vh <= 0 {
        assert(w == 0 && h == 0) by (nonlinear_arith)
            requires
                aw > 0,
                ah > 0,
                0 <= w,
                0 <= h,
                w == 0 || h == 0,
                w * ah == h * aw,
        ;
    } else {
        assert(vw * ah >= 0 && vh * aw >= 0) by (nonlinear_arith)
            requires
                vw > 0,
                vh > 0,
                aw > 0,
                ah > 0,
        ;
        if vw * ah <= vh * aw {
            lemma_floor_bounds(vw * ah, aw);
            lemma_floor_magnitude(vw * ah, aw);
            let q = vw * ah / aw;
            assert(q <= vh) by (nonlinear_arith)
                requires
                    aw > 0,
                    aw * q <= vw * ah,
                    vw * ah <= vh * aw,
            ;
            assert(h <= q) by (nonlinear_arith)
                requires
                    aw > 0,
                    ah > 0,
                    w <= vw,
                    w * ah == h * aw,
                    vw * ah < aw * q + aw,
            ;
        } else {
            lemma_floor_bounds(vh * aw, ah);
            lemma_floor_magnitude(vh * aw, ah);
            let q = vh * aw / ah;
            assert(q <= vw) by (nonlinear_arith)
                requires
                    ah > 0,
                    ah * q <= vh * aw,
                    vh * aw < vw * ah,
            ;
            assert(w <= q) by (nonlinear_arith)
                requires
                    aw > 0,
                    ah > 0,
                    h <= vh,
                    w * ah == h * aw,
                    vh * aw < ah * q + ah,
            ;
        }
    }
}

/// Mapping a coordinate forth and back loses at most what one step of the
/// coarser span is worth: the result is never above the start, and below
/// it by less than `1 + fw / tw` for spans of extent `fw` and `tw`.
pub proof fn lemma_round_trip_axis(v: int, fmin: int, fmax: int, tmin: int, tmax: int)
    requires
        fmin < fmax,
        tmin < tmax,
    ensures
        ({
            let there = map_axis(v, fmin, fmax, tmin, tmax);
            let back = map_axis(there, tmin, tmax, fmin, fmax);
            &&& back <= v
            &&& (v - back) * (tmax - tmin) < (fmax - fmin) + (tmax - tmin)
        }),
{
    let fw = fmax - fmin;
    let tw = tmax - tmin;
    let a = v - fmin;
    let y = a * tw / fw;
    lemma_floor_bounds(a * tw, fw);
    let z = y * fw / tw;
    lemma_floor_bounds(y * fw, tw);
    assert(z <= a) by (nonlinear_arith)
        requires
            fw > 0,
            tw > 0,
            fw * y <= a * tw,
            tw * z <= y * fw,
    ;
    assert((a - z) * tw < fw + tw) by (nonlinear_arith)
        requires
            fw > 0,
            tw > 0,
            a * tw < fw * y + fw,
            y * fw < tw * z + tw,
    ;
    assert(map_axis(v, fmin, fmax, tmin, tmax) - tmin == y);
}

/// Mapping a point forth and back: where neither step leaves the range of
/// the coordinates, each coordinate comes back no larger than it started
/// and smaller by less than `1 + fw / tw`.
pub proof fn lemma_round_trip(from: Rect, to: Rect, p: Point)
    requires
        from.positive(),
        to.positive(),
        map_point(from, to, p).x == map_axis(
            p.x as int,
            from.min.x as int,
            from.max.x as int,
            to.min.x as int,
            to.max.x as int,
        ),
        map_point(from, to, p).y == map_axis(
            p.y as int,
            from.min.y as int,
            from.max.y as int,
            to.min.y as int,
            to.max.y as int,
        ),
        p.x - from.w() / to.w() - 1 >= i64::MIN,
        p.y - from.h() / to.h() - 1 >= i64::MIN,
    ensures
        ({
            let back = map_point(to, from, map_point(from, to, p));
            &&& back.x <= p.x
            &&& back.y <= p.y
            &&& (p.x - back.x) * to.w() < from.w() + to.w()
            &&& (p.y - back.y) * to.h() < from.h() + to.h()
        }),
{
    lemma_round_trip_axis(
        p.x as int,
        from.min.x as int,
        from.max.x as int,
        to.min.x as int,
        to.max.x as int,
    );
    lemma_round_trip_axis(
        p.y as int,
        from.min.y as int,
        from.max.y as int,
        to.min.y as int,
        to.max.y as int,
    );
    let tx = map_point(from, to, p).x as int;
    let ty = map_point(from, to, p).y as int;
    let bx = map_axis(tx, to.min.x as int, to.max.x as int, from.min.x as int, from.max.x as int);
    let by = map_axis(ty, to.min.y as int, to.max.y as int, from.min.y as int, from.max.y as int);
    lemma_floor_bounds(from.w(), to.w());
    lemma_floor_bounds(from.h(), to.h());
    let kx = from.w() / to.w();
    let ky = from.h() / to.h();
    assert(p.x - bx <= kx + 1) by (nonlinear_arith)
        requires
            to.w() > 0,
            (p.x - bx) * to.w() < from.w() + to.w(),
            from.w() < to.w() * kx + to.w(),
    ;
    assert(p.y - by <= ky + 1) by (nonlinear_arith)
        requires
            to.h() > 0,
            (p.y - by) * to.h() < from.h() + to.h(),
            from.h() < to.h() * ky + to.h(),
    ;
}

/// A map that lays one rectangle onto another.
#[derive(Clone, Copy, Debug)]
pub struct CoordinateMapper {
    from: Rect,
    to: Rect,
}

impl CoordinateMapper {
    #[verifier::type_invariant]
    spec fn valid(self) -> bool {
        self.from.positive()
    }

    /// The rectangle that is mapped.
    pub closed spec fn source(&self) -> Rect {
        self.from
    }

    /// The rectangle that it is mapped onto.
    pub closed spec fn target(&self) -> Rect {
        self.to
    }

    /// The map that lays `source` onto `target`; there is none where
    /// `source` has no area.
    pub fn build(source: Rect, target: Rect) -> (m: Option<CoordinateMapper>)
        ensures
            m.is_some() <==> source.positive(),
            m.is_some() ==> m.unwrap().source() == source && m.unwrap().target() == target,
    {
        if source.is_positive() {
            Some(CoordinateMapper { from: source, to: target })
        } else {
            None
        }
    }

    /// The map from normalized canvas space onto `target`; there is none
    /// where `target` has no area.
    pub fn square(target: Rect) -> (m: Option<CoordinateMapper>)
        ensures
            m.is_some() <==> target.positive(),
            m.is_some() ==> m.unwrap().source() == canvas_rect(target) && m.unwrap().target()
                == target,
            m.is_some() ==> canvas_rect(target).positive(),
    {
        if target.is_positive() {
            let s = proportions_of(target);
            Some(
                CoordinateMapper {
                    from: Rect { min: Point { x: 0, y: 0 }, max: Point { x: s.width, y: s.height } },
                    to: target,
                },
            )
        } else {
            None
        }
    }

    /// Where `p` goes.
    pub fn apply(&self, p: Point) -> (q: Point)
        ensures
            q == map_point(self.source(), self.target(), p),
            self.source().positive(),
    {
        proof {
            use_type_invariant(self);
        }
        Point {
            x: map_one(p.x, self.from.min.x, self.from.max.x, self.to.min.x, self.to.max.x),
            y: map_one(p.y, self.from.min.y, self.from.max.y, self.to.min.y, self.to.max.y),
        }
    }

    /// The map the other way round; there is none where the target has no
    /// area.
    pub fn invert(&self) -> (m: Option<CoordinateMapper>)
        ensures
            m.is_some() <==> self.target().positive(),
            m.is_some() ==> m.unwrap().source() == self.target() && m.unwrap().target()
                == self.source(),
    {
        if self.to.is_positive() {
            Some(CoordinateMapper { from: self.to, to: self.from })
        } else {
            None
        }
    }
}

} // verus!
