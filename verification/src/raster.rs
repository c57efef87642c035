//! Turning strokes into the line segments that are drawn onto the image.
//!
//! A stroke of some width is drawn as a stack of thin segments: for every
//! whole offset up to the width, one segment moved by the offset along both
//! axes and one moved along the vertical axis only.
use vstd::prelude::*;
use crate::fixed::clamp;
use crate::fixed::clamp_to;
use crate::fixed::floor_div;
use crate::fixed::lemma_floor_bounds;
use crate::fixed::round_units;
use crate::fixed::UNIT;
use crate::geometry::Point;
use crate::geometry::Rect;
use crate::mapper::canvas_rect;
use crate::mapper::map_point;
use crate::mapper::CoordinateMapper;
use crate::painting::models;
use crate::painting::DrawObj;
use crate::painting::DrawObjView;
use crate::painting::Painting;
use crate::painting::Stroke;
use crate::pixels::columns;
use crate::pixels::rows;
use crate::pixels::Color;

verus! {

/// A thin line to draw, its ends in pixel space.
#[derive(Clone, Copy, Debug, PartialEq, Eq, Structural)]
pub struct Segment {
    pub start: Point,
    pub end: Point,
    pub color: Color,
}

/// The rectangle that an image of `columns` by `rows` pixels fills in pixel
/// space.
pub open spec fn pixel_space(columns: int, rows: int) -> Rect {
    Rect {
        min: Point { x: 0, y: 0 },
        max: Point { x: (columns * UNIT) as i64, y: (rows * UNIT) as i64 },
    }
}

/// `p` lies on a pixel of an image of `columns` by `rows` pixels.
pub open spec fn within(p: Point, columns: int, rows: int) -> bool {
    &&& 0 <= p.x <= (columns - 1) * UNIT
    &&& 0 <= p.y <= (rows - 1) * UNIT
}

/// Where a point of a stroke of the given width is drawn on an image of
/// `columns` by `rows` pixels: its place in pixel space, moved by half the
/// width and by `dx` and `dy` whole pixels, and brought back onto the image
/// where that leaves it. An image without pixels has the origin only.
pub open spec fn plot(p: Point, width: int, columns: int, rows: int, dx: int, dy: int) -> Point {
    if columns > 0 && rows > 0 {
        let target = pixel_space(columns, rows);
        let m = map_point(canvas_rect(target), target, p);
        Point {
            x: clamp(m.x + width / 2 + dx * UNIT, 0, (columns - 1) * UNIT) as i64,
            y: clamp(m.y + width / 2 + dy * UNIT, 0, (rows - 1) * UNIT) as i64,
        }
    } else {
        Point { x: 0, y: 0 }
    }
}

/// The number of offsets that a stroke of the given width is drawn at: one
/// for every whole number from zero to the rounded width.
pub open spec fn offsets(width: int) -> nat {
    (round_units(width) + 1) as nat
}

/// The two segments between `a` and `b` at the offset `k`.
pub open spec fn offset_segments(
    a: Point,
    b: Point,
    stroke: Stroke,
    columns: int,
    rows: int,
    k: int,
) -> Seq<Segment> {
    seq![
        Segment {
            start: plot(a, stroke.width as int, columns, rows, k, k),
            end: plot(b, stroke.width as int, columns, rows, k, k),
            color: stroke.color,
        },
        Segment {
            start: plot(a, stroke.width as int, columns, rows, 0, k),
            end: plot(b, stroke.width as int, columns, rows, 0, k),
            color: stroke.color,
        },
    ]
}

/// The segments between `a` and `b` at the first `n` offsets.
pub open spec fn pair_segments(
    a: Point,
    b: Point,
    stroke: Stroke,
    columns: int,
    rows: int,
    n: nat,
) -> Seq<Segment>
    decreases n,
{
    if n == 0 {
        Seq::empty()
    } else {
        pair_segments(a, b, stroke, columns, rows, (n - 1) as nat) + offset_segments(
            a,
            b,
            stroke,
            columns,
            rows,
            n - 1,
        )
    }
}

/// The number of pairs of neighbouring points of a stroke.
pub open spec fn pairs(d: DrawObjView) -> nat {
    if d.points.len() >= 2 {
        (d.points.len() - 1) as nat
    } else {
        0
    }
}

/// The segments of the first `n` pairs of neighbouring points of a stroke.
pub open spec fn stroke_segments(d: DrawObjView, columns: int, rows: int, n: nat) -> Seq<Segment>
    decreases n,
{
    if n == 0 {
        Seq::empty()
    } else {
        stroke_segments(d, columns, rows, (n - 1) as nat) + pair_segments(
            d.points[n - 1],
            d.points[n as int],
            d.stroke,
            columns,
            rows,
            offsets(d.stroke.width as int),
        )
    }
}

/// The segments of the first `m` strokes.
pub open spec fn baked(shapes: Seq<DrawObjView>, columns: int, rows: int, m: nat) -> Seq<Segment>
    decreases m,
{
    if m == 0 {
        Seq::empty()
    } else {
        baked(shapes, columns, rows, (m - 1) as nat) + stroke_segments(
            shapes[m - 1],
            columns,
            rows,
            pairs(shapes[m - 1]),
        )
    }
}

/// The segments that draw `shapes` onto an image of `columns` by `rows`
/// pixels, in the order in which they are drawn. Nothing is drawn onto an
/// image without pixels.
pub open spec fn segments(shapes: Seq<DrawObjView>, columns: int, rows: int) -> Seq<Segment> {
    if columns > 0 && rows > 0 {
        baked(shapes, columns, rows, shapes.len())
    } else {
        Seq::empty()
    }
}

/// Every plotted point lies on the image.
pub proof fn lemma_plot_within(p: Point, width: int, columns: int, rows: int, dx: int, dy: int)
    requires
        0 < columns <= u32::MAX,
        0 < rows <= u32::MAX,
    ensures
        within(plot(p, width, columns, rows, dx, dy), columns, rows),
{
}

/// Every segment between two points ends on the image.
pub proof fn lemma_pair_within(
    a: Point,
    b: Point,
    stroke: Stroke,
    columns: int,
    rows: int,
    n: nat,
)
    requires
        0 < columns <= u32::MAX,
        0 < rows <= u32::MAX,
    ensures
        forall|i: int|
            0 <= i < pair_segments(a, b, stroke, columns, rows, n).len() ==> within(
                (#[trigger] pair_segments(a, b, stroke, columns, rows, n)[i]).start,
                columns,
                rows,
            ) && within(pair_segments(a, b, stroke, columns, rows, n)[i].end, columns, rows),
    decreases n,
{
    if n > 0 {
        lemma_pair_within(a, b, stroke, columns, rows, (n - 1) as nat);
        let w = stroke.width as int;
        lemma_plot_within(a, w, columns, rows, n - 1, n - 1);
        lemma_plot_within(b, w, columns, rows, n - 1, n - 1);
        lemma_plot_within(a, w, columns, rows, 0, n - 1);
        lemma_plot_within(b, w, columns, rows, 0, n - 1);
        let all = pair_segments(a, b, stroke, columns, rows, n);
        let head = pair_segments(a, b, stroke, columns, rows, (n - 1) as nat);
        let tail = offset_segments(a, b, stroke, columns, rows, n - 1);
        assert(all == head + tail);
        assert forall|i: int| 0 <= i < all.len() implies within(
            (#[trigger] all[i]).start,
            columns,
            rows,
        ) && within(all[i].end, columns, rows) by {
            if i < head.len() {
                assert(all[i] == head[i]);
            } else {
                assert(all[i] == tail[i - head.len()]);
            }
        }
    }
}

/// Every segment of a stroke ends on the image.
pub proof fn lemma_stroke_within(d: DrawObjView, columns: int, rows: int, n: nat)
    requires
        0 < columns <= u32::MAX,
        0 < rows <= u32::MAX,
    ensures
        forall|i: int|
            0 <= i < stroke_segments(d, columns, rows, n).len() ==> within(
                (#[trigger] stroke_segments(d, columns, rows, n)[i]).start,
                columns,
                rows,
            ) && within(stroke_segments(d, columns, rows, n)[i].end, columns, rows),
    decreases n,
{
    if n > 0 {
        lemma_stroke_within(d, columns, rows, (n - 1) as nat);
        lemma_pair_within(
            d.points[n - 1],
            d.points[n as int],
            d.stroke,
            columns,
            rows,
            offsets(d.stroke.width as int),
        );
        let all = stroke_segments(d, columns, rows, n);
        let head = stroke_segments(d, columns, rows, (n - 1) as nat);
        let tail = pair_segments(
            d.points[n - 1],
            d.points[n as int],
            d.stroke,
            columns,
            rows,
            offsets(d.stroke.width as int),
        );
        assert(all == head + tail);
        assert forall|i: int| 0 <= i < all.len() implies within(
            (#[trigger] all[i]).start,
            columns,
            rows,
        ) && within(all[i].end, columns, rows) by {
            if i < head.len() {
                assert(all[i] == head[i]);
            } else {
                assert(all[i] == tail[i - head.len()]);
            }
        }
    }
}

/// Every segment of the first `m` strokes ends on the image.
pub proof fn lemma_baked_within(shapes: Seq<DrawObjView>, columns: int, rows: int, m: nat)
    requires
        0 < columns <= u32::MAX,
        0 < rows <= u32::MAX,
    ensures
        forall|i: int|
            0 <= i < baked(shapes, columns, rows, m).len() ==> within(
                (#[trigger] baked(shapes, columns, rows, m)[i]).start,
                columns,
                rows,
            ) && within(baked(shapes, columns, rows, m)[i].end, columns, rows),
    decreases m,
{
    if m > 0 {
        lemma_baked_within(shapes, columns, rows, (m - 1) as nat);
        lemma_stroke_within(shapes[m - 1], columns, rows, pairs(shapes[m - 1]));
        let all = baked(shapes, columns, rows, m);
        let head = baked(shapes, columns, rows, (m - 1) as nat);
        let tail = stroke_segments(shapes[m - 1], columns, rows, pairs(shapes[m - 1]));
        assert(all == head + tail);
        assert forall|i: int| 0 <= i < all.len() implies within(
            (#[trigger] all[i]).start,
            columns,
            rows,
        ) && within(all[i].end, columns, rows) by {
            if i < head.len() {
                assert(all[i] == head[i]);
            } else {
                assert(all[i] == tail[i - head.len()]);
            }
        }
    }
}

/// Whatever the strokes, every segment that is drawn starts and ends on a
/// pixel of the image.
pub proof fn lemma_segments_within(shapes: Seq<DrawObjView>, columns: int, rows: int)
    requires
        columns <= u32::MAX,
        rows <= u32::MAX,
    ensures
        forall|i: int|
            0 <= i < segments(shapes, columns, rows).len() ==> within(
                (#[trigger] segments(shapes, columns, rows)[i]).start,
                columns,
                rows,
            ) && within(segments(shapes, columns, rows)[i].end, columns, rows),
{
    if columns > 0 && rows > 0 {
        lemma_baked_within(shapes, columns, rows, shapes.len());
    }
}

/// The number of offsets that a stroke of the given width is drawn at.
fn offsets_of(width: u32) -> (n: u32)
    ensures
        n == offsets(width as int),
        n <= 4296,
{
    let q: i128 = floor_div(width as i128 + (UNIT / 2) as i128, UNIT as i128);
    proof {
        lemma_floor_bounds(width + UNIT / 2, UNIT as int);
    }
    (q + 1) as u32
}

/// Where a point is drawn, given the map from canvas space to pixel space.
fn plot_with(
    mapper: &CoordinateMapper,
    p: Point,
    width: u32,
    columns: u32,
    rows: u32,
    dx: u32,
    dy: u32,
) -> (r: Point)
    requires
        columns > 0,
        rows > 0,
        mapper.target() == pixel_space(columns as int, rows as int),
        mapper.source() == canvas_rect(pixel_space(columns as int, rows as int)),
        dx <= 4296,
        dy <= 4296,
    ensures
        r == plot(p, width as int, columns as int, rows as int, dx as int, dy as int),
{
    let m = mapper.apply(p);
    let half: i128 = (width / 2) as i128;
    let x: i128 = m.x as i128 + half + dx as i128 * UNIT as i128;
    let y: i128 = m.y as i128 + half + dy as i128 * UNIT as i128;
    Point {
        x: clamp_to(x, 0, (columns as i64 - 1) * UNIT),
        y: clamp_to(y, 0, (rows as i64 - 1) * UNIT),
    }
}

/// The map from canvas space onto the pixels of an image.
fn pixel_mapper(columns: u32, rows: u32) -> (mapper: CoordinateMapper)
    requires
        columns > 0,
        rows > 0,
    ensures
        mapper.target() == pixel_space(columns as int, rows as int),
        mapper.source() == canvas_rect(pixel_space(columns as int, rows as int)),
{
    let target = Rect {
        min: Point { x: 0, y: 0 },
        max: Point { x: columns as i64 * UNIT, y: rows as i64 * UNIT },
    };
    match CoordinateMapper::square(target) {
        Some(m) => m,
        None => vstd::pervasive::unreached(),
    }
}

/// Where a point of a stroke of the given width is drawn on an image of
/// `columns` by `rows` pixels, at the offset `offset` along the two axes.
pub fn segment_coordinates(point: Point, width: u32, columns: u32, rows: u32, offset: (u16, u16)) -> (r:
    Point)
    ensures
        r == plot(
            point,
            width as int,
            columns as int,
            rows as int,
            offset.0 as int,
            offset.1 as int,
        ),
        columns > 0 && rows > 0 ==> within(r, columns as int, rows as int),
{
    if columns == 0 || rows == 0 {
        return Point { x: 0, y: 0 };
    }
    let mapper = pixel_mapper(columns, rows);
    let m = mapper.apply(point);
    let half: i128 = (width / 2) as i128;
    let x: i128 = m.x as i128 + half + offset.0 as i128 * UNIT as i128;
    let y: i128 = m.y as i128 + half + offset.1 as i128 * UNIT as i128;
    Point {
        x: clamp_to(x, 0, (columns as i64 - 1) * UNIT),
        y: clamp_to(y, 0, (rows as i64 - 1) * UNIT),
    }
}

/// Adds the segments between `a` and `b` at every offset of the stroke.
fn push_pair(
    out: &mut Vec<Segment>,
    mapper: &CoordinateMapper,
    a: Point,
    b: Point,
    stroke: Stroke,
    columns: u32,
    rows: u32,
)
    requires
        columns > 0,
        rows > 0,
        mapper.target() == pixel_space(columns as int, rows as int),
        mapper.source() == canvas_rect(pixel_space(columns as int, rows as int)),
    ensures
        final(out)@ == old(out)@ + pair_segments(
            a,
            b,
            stroke,
            columns as int,
            rows as int,
            offsets(stroke.width as int),
        ),
{
    let n = offsets_of(stroke.width);
    let ghost start = out@;
    let mut k: u32 = 0;
    assert(out@ =~= start + pair_segments(a, b, stroke, columns as int, rows as int, 0));
    while k < n
        invariant
            k <= n,
            n <= 4296,
            columns > 0,
            rows > 0,
            mapper.target() == pixel_space(columns as int, rows as int),
            mapper.source() == canvas_rect(pixel_space(columns as int, rows as int)),
            out@ == start + pair_segments(a, b, stroke, columns as int, rows as int, k as nat),
        decreases n - k,
    {
        let ghost before = out@;
        out.push(
            Segment {
                start: plot_with(mapper, a, stroke.width, columns, rows, k, k),
                end: plot_with(mapper, b, stroke.width, columns, rows, k, k),
                color: stroke.color,
            },
        );
        out.push(
            Segment {
                start: plot_with(mapper, a, stroke.width, columns, rows, 0, k),
                end: plot_with(mapper, b, stroke.width, columns, rows, 0, k),
                color: stroke.color,
            },
        );
        assert(out@ =~= before + offset_segments(
            a,
            b,
            stroke,
            columns as int,
            rows as int,
            k as int,
        ));
        assert(out@ =~= start + pair_segments(
            a,
            b,
            stroke,
            columns as int,
            rows as int,
            (k + 1) as nat,
        ));
        k += 1;
    }
}

/// Adds the segments of a stroke.
fn push_stroke(
    out: &mut Vec<Segment>,
    mapper: &CoordinateMapper,
    d: &DrawObj,
    columns: u32,
    rows: u32,
)
    requires
        columns > 0,
        rows > 0,
        mapper.target() == pixel_space(columns as int, rows as int),
        mapper.source() == canvas_rect(pixel_space(columns as int, rows as int)),
    ensures
        final(out)@ == old(out)@ + stroke_segments(d@, columns as int, rows as int, pairs(d@)),
{
    let points = d.points();
    let stroke = d.stroke();
    let ghost start = out@;
    assert(out@ =~= start + stroke_segments(d@, columns as int, rows as int, 0));
    if points.len() < 2 {
        return ;
    }
    let n = points.len() - 1;
    let mut i: usize = 0;
    while i < n
        invariant
            i <= n,
            n == pairs(d@),
            n + 1 == points@.len(),
            points@ == d@.points,
            stroke == d@.stroke,
            columns > 0,
            rows > 0,
            mapper.target() == pixel_space(columns as int, rows as int),
            mapper.source() == canvas_rect(pixel_space(columns as int, rows as int)),
            out@ == start + stroke_segments(d@, columns as int, rows as int, i as nat),
        decreases n - i,
    {
        let ghost before = out@;
        push_pair(out, mapper, points[i], points[i + 1], stroke, columns, rows);
        assert(out@ =~= start + stroke_segments(d@, columns as int, rows as int, (i + 1) as nat));
        i += 1;
    }
}

impl Painting {
    /// The segments that draw the strokes onto the image, in the order in
    /// which they are drawn. Each of them starts and ends on a pixel of the
    /// image.
    pub fn generate_segments(&self) -> (out: Vec<Segment>)
        ensures
            out@ == segments(self@.shapes, columns(self@.image) as int, rows(self@.image) as int),
            forall|i: int|
                0 <= i < out@.len() ==> within(
                    (#[trigger] out@[i]).start,
                    columns(self@.image) as int,
                    rows(self@.image) as int,
                ) && within(out@[i].end, columns(self@.image) as int, rows(self@.image) as int),
    {
        let mut out: Vec<Segment> = Vec::new();
        let image = self.image();
        let w = image.width();
        let h = image.height();
        let shapes = self.shapes();
        proof {
            lemma_segments_within(self@.shapes, w as int, h as int);
        }
        if w == 0 || h == 0 {
            assert(out@ =~= Seq::empty());
            return out;
        }
        let mapper = pixel_mapper(w, h);
        let n = shapes.len();
        let mut i: usize = 0;
        assert(out@ =~= baked(self@.shapes, w as int, h as int, 0));
        while i < n
            invariant
                i <= n,
                n == shapes@.len(),
                models(shapes@) == self@.shapes,
                w > 0,
                h > 0,
                mapper.target() == pixel_space(w as int, h as int),
                mapper.source() == canvas_rect(pixel_space(w as int, h as int)),
                out@ == baked(self@.shapes, w as int, h as int, i as nat),
            decreases n - i,
        {
            push_stroke(&mut out, &mapper, &shapes[i], w, h);
            assert(models(shapes@)[i as int] == shapes@[i as int]@);
            i += 1;
        }
        proof {
            let all = segments(self@.shapes, w as int, h as int);
            assert(out@ == all);
            assert forall|k: int| 0 <= k < out@.len() implies within(
                (#[trigger] out@[k]).start,
                w as int,
                h as int,
            ) && within(out@[k].end, w as int, h as int) by {
                assert(out@[k] == all[k]);
            }
        }
        out
    }
}

} // verus!
