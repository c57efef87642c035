//! The annotation canvas: strokes, tools, undo and redo, and cropping.
use vstd::prelude::*;
use crate::crop::Crop;
use crate::crop::CropFrame;
use crate::crop::CropState;
use crate::crop::PixelRect;
use crate::fixed::sat64;
use crate::fixed::sat_sub;
use crate::fixed::UNIT;
use crate::geometry::Point;
use crate::geometry::Rect;
use crate::geometry::Size;
use crate::mapper::canvas_rect;
use crate::mapper::fit;
use crate::mapper::fit_size;
use crate::mapper::map_point;
use crate::mapper::CoordinateMapper;
use crate::pixels::columns;
use crate::pixels::cut_length;
use crate::pixels::is_cut;
use crate::pixels::rows;
use crate::pixels::Color;
use crate::pixels::PixelBuffer;

verus! {

/// The width, in millionths of a pixel, and the colour of a stroke.
#[derive(Clone, Copy, Debug, PartialEq, Eq, Structural)]
pub struct Stroke {
    pub width: u32,
    pub color: Color,
}

/// The drawing tools.
#[derive(Clone, Copy, Debug, PartialEq, Eq, Structural)]
pub enum DrawingShape {
    /// A freehand line that follows the pointer while it is pressed.
    Line,
    /// A polyline that gains one point with every click.
    StraightLine,
}

/// One annotation: a polyline in normalized canvas space, drawn in one
/// style.
#[derive(Debug)]
pub struct DrawObj {
    points: Vec<Point>,
    stroke: Stroke,
}

/// What a `DrawObj` stands for.
pub struct DrawObjView {
    pub points: Seq<Point>,
    pub stroke: Stroke,
}

impl View for DrawObj {
    type V = DrawObjView;

    closed spec fn view(&self) -> DrawObjView {
        DrawObjView { points: self.points@, stroke: self.stroke }
    }
}

/// What each stroke of a list stands for.
pub open spec fn models(list: Seq<DrawObj>) -> Seq<DrawObjView> {
    Seq::new(list.len(), |i: int| list[i]@)
}

/// The colour that a new canvas draws in.
pub open spec fn default_color() -> Color {
    Color { r: 18, g: 160, b: 215, a: 255 }
}

/// The style that a new canvas draws in: three pixels wide.
pub open spec fn default_stroke() -> Stroke {
    Stroke { width: 3_000_000, color: default_color() }
}

/// The stroke without points in the given style.
pub open spec fn blank(stroke: Stroke) -> DrawObjView {
    DrawObjView { points: Seq::empty(), stroke }
}

/// `p` moved up and to the left by the given offsets.
pub open spec fn shifted(p: Point, left: int, up: int) -> Point {
    Point { x: sat64(p.x - left), y: sat64(p.y - up) }
}

/// The stroke with every point moved up and to the left.
pub open spec fn shifted_stroke(d: DrawObjView, left: int, up: int) -> DrawObjView {
    DrawObjView {
        points: Seq::new(d.points.len(), |i: int| shifted(d.points[i], left, up)),
        stroke: d.stroke,
    }
}

/// The strokes with every point moved up and to the left.
pub open spec fn shifted_strokes(list: Seq<DrawObjView>, left: int, up: int) -> Seq<DrawObjView> {
    Seq::new(list.len(), |i: int| shifted_stroke(list[i], left, up))
}

impl DrawObj {
    /// The stroke through `points` in the style `stroke`.
    pub fn new(points: Vec<Point>, stroke: Stroke) -> (d: DrawObj)
        ensures
            d@ == (DrawObjView { points: points@, stroke }),
    {
        DrawObj { points, stroke }
    }

    /// The points of the stroke, in normalized canvas space.
    pub fn points(&self) -> (points: &Vec<Point>)
        ensures
            points@ == self@.points,
    {
        &self.points
    }

    /// The style of the stroke.
    pub fn stroke(&self) -> (stroke: Stroke)
        ensures
            stroke == self@.stroke,
    {
        self.stroke
    }

    /// Every point moved up and to the left by the given offsets.
    fn shift(&mut self, left: i64, up: i64)
        ensures
            final(self)@ == shifted_stroke(old(self)@, left as int, up as int),
    {
        let n = self.points.len();
        let mut moved: Vec<Point> = Vec::new();
        let mut i: usize = 0;
        while i < n
            invariant
                n == self.points@.len(),
                i <= n,
                moved@.len() == i,
                forall|j: int|
                    0 <= j < i ==> moved@[j] == shifted(
                        #[trigger] self.points@[j],
                        left as int,
                        up as int,
                    ),
            decreases n - i,
        {
            let p = self.points[i];
            moved.push(Point { x: sat_sub(p.x, left), y: sat_sub(p.y, up) });
            i += 1;
        }
        assert(moved@ =~= shifted_stroke(self@, left as int, up as int).points);
        self.points = moved;
    }
}

/// Where the pointer is in one frame, in screen space.
#[derive(Clone, Copy, Debug, PartialEq, Eq, Structural)]
pub struct PointerSnapshot {
    /// Where the pointer hovers, if it is over the window.
    pub hover_position: Option<Point>,
    /// Where the pointer presses, drags or lets go of the canvas.
    pub interact_position: Option<Point>,
    /// Whether the canvas was clicked in this frame.
    pub clicked: bool,
}

/// What one frame of the canvas shows.
pub struct Frame {
    /// Whether the pointer changed the strokes.
    pub changed: bool,
    /// The strokes to draw, in screen space.
    pub lines: Vec<DrawObj>,
    /// What the crop session shows, while there is one.
    pub crop: Option<CropFrame>,
}

/// The point of normalized canvas space under the screen position `p`, for
/// a canvas shown in `rect`.
pub open spec fn to_canvas(rect: Rect, p: Point) -> Point {
    map_point(rect, canvas_rect(rect), p)
}

/// The screen position of the point `p` of normalized canvas space, for a
/// canvas shown in `rect`.
pub open spec fn to_screen(rect: Rect, p: Point) -> Point {
    map_point(canvas_rect(rect), rect, p)
}

/// The stroke as it shows on a canvas in `rect`.
pub open spec fn on_screen(d: DrawObjView, rect: Rect) -> DrawObjView {
    DrawObjView {
        points: Seq::new(d.points.len(), |i: int| to_screen(rect, d.points[i])),
        stroke: d.stroke,
    }
}

/// Those of the first `n` strokes that have a line to show, as they show
/// on a canvas in `rect`.
pub open spec fn lines(shapes: Seq<DrawObjView>, rect: Rect, n: nat) -> Seq<DrawObjView>
    decreases n,
{
    if n == 0 {
        Seq::empty()
    } else {
        let rest = lines(shapes, rect, (n - 1) as nat);
        if shapes[n - 1].points.len() >= 2 {
            rest.push(on_screen(shapes[n - 1], rect))
        } else {
            rest
        }
    }
}

/// What a press on the toolbar asks for.
#[derive(Clone, Copy, Debug, PartialEq, Eq, Structural)]
pub enum Control {
    /// Open the width picker.
    Ruler,
    /// Pick a width in the open width picker.
    Width(u32),
    /// Open the colour picker.
    Palette,
    /// Pick a colour in the open colour picker.
    Tint(Color),
    /// Open the tool picker.
    Shapes,
    /// Pick a tool in the open tool picker.
    Shape(DrawingShape),
    /// Switch drawing on or off.
    Pencil,
    /// Start cropping.
    Scissors,
    /// Remove every stroke.
    Clear,
    /// Take back the last finished stroke.
    Undo,
    /// Bring back the stroke that was undone last.
    Redo,
    /// Leave the annotation view.
    Home,
    /// Crop the image to the crop rectangle.
    Accept,
    /// Give up cropping.
    Cancel,
}

/// Everything an annotation session holds.
pub struct PaintingView {
    /// The strokes, the last of them the one in progress.
    pub shapes: Seq<DrawObjView>,
    /// The style that new points are drawn in.
    pub stroke: Stroke,
    /// The image that is annotated.
    pub image: PixelBuffer,
    /// The strokes that undoing and clearing have taken from `shapes`.
    pub last_actions: Seq<DrawObjView>,
    /// The widget rectangle of the latest frame, in screen space.
    pub ui_size: Rect,
    /// The tool that draws.
    pub selected_shape: DrawingShape,
    /// The crop session, while there is one.
    pub crop: Option<CropState>,
    /// Whether the pointer draws.
    pub active_shape: bool,
    /// Whether the width picker is open.
    pub ruler_button_flag: bool,
    /// Whether the colour picker is open.
    pub color_button_flag: bool,
    /// Whether the tool picker is open.
    pub shape_button_flag: bool,
}

impl PaintingView {
    /// The session as it starts on `image` with the strokes `shapes`.
    pub open spec fn fresh(image: PixelBuffer, shapes: Seq<DrawObjView>) -> PaintingView {
        PaintingView {
            shapes,
            stroke: default_stroke(),
            image,
            last_actions: Seq::empty(),
            ui_size: Rect { min: Point { x: 0, y: 0 }, max: Point { x: 0, y: 0 } },
            selected_shape: DrawingShape::Line,
            crop: None,
            active_shape: false,
            ruler_button_flag: false,
            color_button_flag: false,
            shape_button_flag: false,
        }
    }

    /// The list of strokes is never left empty: an empty one gets a blank
    /// stroke to draw into.
    pub open spec fn normalized(self) -> PaintingView {
        if self.shapes.len() == 0 {
            PaintingView { shapes: seq![blank(self.stroke)], ..self }
        } else {
            self
        }
    }

    /// The last finished stroke moves to `last_actions`; both lists end in a
    /// blank stroke afterwards. Nothing happens without a finished stroke.
    pub open spec fn undone(self) -> PaintingView {
        if self.shapes.len() > 1 {
            let n = self.shapes.len() as int;
            let kept = if self.last_actions.len() > 0 {
                self.last_actions.drop_last()
            } else {
                self.last_actions
            };
            PaintingView {
                shapes: self.shapes.subrange(0, n - 2).push(blank(self.stroke)),
                last_actions: kept.push(self.shapes[n - 2]).push(blank(self.stroke)),
                ..self
            }
        } else {
            self
        }
    }

    /// The stroke that was undone last moves back to `shapes`; both lists
    /// end in a blank stroke afterwards. Nothing happens without one.
    pub open spec fn redone(self) -> PaintingView {
        if self.last_actions.len() > 1 {
            let m = self.last_actions.len() as int;
            let kept = if self.shapes.len() > 0 {
                self.shapes.drop_last()
            } else {
                self.shapes
            };
            PaintingView {
                shapes: kept.push(self.last_actions[m - 2]).push(blank(self.stroke)),
                last_actions: self.last_actions.subrange(0, m - 2).push(blank(self.stroke)),
                ..self
            }
        } else {
            self
        }
    }

    /// All strokes move to `last_actions`, replacing what was there, and a
    /// single blank stroke is left.
    pub open spec fn cleared(self) -> PaintingView {
        PaintingView { shapes: seq![blank(self.stroke)], last_actions: self.shapes, ..self }
    }

    /// Every point of every stroke moved up and to the left.
    pub open spec fn remapped(self, left: int, up: int) -> PaintingView {
        PaintingView { shapes: shifted_strokes(self.shapes, left, up), ..self }
    }

    /// The stroke in progress gains the point `p` and takes the current
    /// style.
    pub open spec fn extended(self, p: Point) -> PaintingView {
        let last = self.shapes.len() - 1;
        PaintingView {
            shapes: self.shapes.update(
                last,
                DrawObjView { points: self.shapes[last].points.push(p), stroke: self.stroke },
            ),
            ..self
        }
    }

    /// The freehand tool: while the pointer presses, each position that
    /// differs from the last point is added to the stroke in progress; once
    /// it lets go of a stroke with points, a blank stroke follows.
    pub open spec fn freehand(self, rect: Rect, pointer: PointerSnapshot) -> PaintingView {
        let current = self.shapes.last();
        match pointer.interact_position {
            Some(p) => if current.points.len() > 0 && current.points.last() == to_canvas(rect, p) {
                self
            } else {
                self.extended(to_canvas(rect, p))
            },
            None => if current.points.len() > 0 {
                PaintingView { shapes: self.shapes.push(blank(self.stroke)), ..self }
            } else {
                self
            },
        }
    }

    /// Where a click lands: where the pointer hovers, or else where it
    /// presses.
    pub open spec fn click_position(pointer: PointerSnapshot) -> Option<Point> {
        if pointer.hover_position.is_some() {
            pointer.hover_position
        } else {
            pointer.interact_position
        }
    }

    /// The straight-line tool: each click adds one point to the stroke in
    /// progress.
    pub open spec fn straight(self, rect: Rect, pointer: PointerSnapshot) -> PaintingView {
        if pointer.clicked {
            match PaintingView::click_position(pointer) {
                Some(p) => self.extended(to_canvas(rect, p)),
                None => self,
            }
        } else {
            self
        }
    }

    /// The pointer draws with the selected tool on a canvas shown in `rect`.
    /// Nothing is drawn while drawing is off or the canvas has no area.
    pub open spec fn fed(self, rect: Rect, pointer: PointerSnapshot) -> PaintingView {
        let ready = self.normalized();
        if ready.active_shape && rect.positive() {
            match ready.selected_shape {
                DrawingShape::Line => ready.freehand(rect, pointer),
                DrawingShape::StraightLine => ready.straight(rect, pointer),
            }
        } else {
            ready
        }
    }

    /// One frame of the canvas shown in `rect`: the pointer draws, and the
    /// crop session, if there is one, follows the pointer.
    pub open spec fn framed(self, rect: Rect, pointer: PointerSnapshot) -> PaintingView {
        let drawn = (PaintingView { ui_size: rect, ..self }).fed(rect, pointer);
        PaintingView {
            crop: match drawn.crop {
                Some(c) => Some(c.step(rect, pointer.interact_position)),
                None => None,
            },
            ..drawn
        }
    }

    /// The strokes that show on a canvas in `rect`: those with two points
    /// or more, and none on a canvas without area.
    pub open spec fn visible(self, rect: Rect) -> Seq<DrawObjView> {
        if rect.positive() {
            lines(self.shapes, rect, self.shapes.len())
        } else {
            Seq::empty()
        }
    }

    /// What a press does at once while annotating. A picker takes a value
    /// only while it is open.
    pub open spec fn pressed(self, control: Option<Control>) -> PaintingView {
        match control {
            Some(Control::Ruler) => PaintingView {
                ruler_button_flag: true,
                color_button_flag: false,
                shape_button_flag: false,
                active_shape: false,
                ..self
            },
            Some(Control::Width(width)) => if self.ruler_button_flag {
                PaintingView { stroke: Stroke { width, color: self.stroke.color }, ..self }
            } else {
                self
            },
            Some(Control::Palette) => PaintingView {
                ruler_button_flag: false,
                color_button_flag: true,
                shape_button_flag: false,
                ..self
            },
            Some(Control::Tint(color)) => if self.color_button_flag {
                PaintingView { stroke: Stroke { width: self.stroke.width, color }, ..self }
            } else {
                self
            },
            Some(Control::Shapes) => PaintingView {
                ruler_button_flag: false,
                color_button_flag: false,
                shape_button_flag: true,
                active_shape: false,
                ..self
            },
            Some(Control::Shape(shape)) => if self.shape_button_flag {
                PaintingView { selected_shape: shape, ..self }
            } else {
                self
            },
            Some(Control::Pencil) => PaintingView {
                ruler_button_flag: false,
                color_button_flag: false,
                shape_button_flag: false,
                active_shape: !self.active_shape,
                ..self
            },
            Some(Control::Scissors) => PaintingView {
                active_shape: false,
                crop: Some(CropState::initial()),
                ..self
            },
            Some(Control::Clear) => self.cleared(),
            _ => self,
        }
    }

    /// What a press does once the list of strokes is known not to be empty.
    pub open spec fn settled(self, control: Option<Control>) -> PaintingView {
        match control {
            Some(Control::Undo) => self.undone(),
            Some(Control::Redo) => self.redone(),
            Some(Control::Home) => PaintingView { active_shape: false, ..self },
            _ => self,
        }
    }

    /// One frame of the toolbar while annotating.
    pub open spec fn annotated(self, control: Option<Control>) -> PaintingView {
        self.pressed(control).normalized().settled(control)
    }

    /// The rectangle of pixels that the crop session asks for.
    pub open spec fn target(self) -> PixelRect {
        self.crop.unwrap().pixel_rect(columns(self.image) as int, rows(self.image) as int)
    }

    /// The crop session asks for a rectangle that holds a pixel.
    pub open spec fn cuttable(self) -> bool {
        &&& self.crop.is_some()
        &&& cut_length(self.target().x as int, self.target().width as int, columns(self.image) as int)
            > 0
        &&& cut_length(self.target().y as int, self.target().height as int, rows(self.image) as int)
            > 0
    }

    /// `after` is the session once the crop is carried out: the image is
    /// cut to the rectangle asked for, every point of every stroke has the
    /// left and upper offsets taken off, drawing is on, and the crop session
    /// is over.
    pub open spec fn committed(self, after: PaintingView) -> bool {
        &&& is_cut(
            after.image,
            self.image,
            self.target().x as int,
            self.target().y as int,
            self.target().width as int,
            self.target().height as int,
        )
        &&& after == (PaintingView {
            image: after.image,
            shapes: shifted_strokes(
                self.shapes,
                self.crop.unwrap().offset_x_left as int,
                self.crop.unwrap().offset_y_up as int,
            ),
            active_shape: true,
            crop: None,
            ..self
        })
    }

    /// `after` is the session one frame of the toolbar later. While a crop
    /// session runs, only accepting and cancelling do anything, and
    /// accepting a rectangle without a pixel does nothing.
    pub open spec fn controlled(self, control: Option<Control>, after: PaintingView) -> bool {
        if self.crop.is_none() {
            after == self.annotated(control)
        } else {
            match control {
                Some(Control::Accept) => if self.cuttable() {
                    self.committed(after)
                } else {
                    after == self
                },
                Some(Control::Cancel) => after == (PaintingView {
                    active_shape: true,
                    crop: None,
                    ..self
                }),
                _ => after == self,
            }
        }
    }
}

/// An annotation session on a captured image.
pub struct Painting {
    shapes: Vec<DrawObj>,
    stroke: Stroke,
    image: PixelBuffer,
    last_actions: Vec<DrawObj>,
    ui_size: Rect,
    selected_shape: DrawingShape,
    crop: Option<Crop>,
    active_shape: bool,
    ruler_button_flag: bool,
    color_button_flag: bool,
    shape_button_flag: bool,
}

impl View for Painting {
    type V = PaintingView;

    closed spec fn view(&self) -> PaintingView {
        PaintingView {
            shapes: models(self.shapes@),
            stroke: self.stroke,
            image: self.image,
            last_actions: models(self.last_actions@),
            ui_size: self.ui_size,
            selected_shape: self.selected_shape,
            crop: match self.crop {
                Some(c) => Some(c@),
                None => None,
            },
            active_shape: self.active_shape,
            ruler_button_flag: self.ruler_button_flag,
            color_button_flag: self.color_button_flag,
            shape_button_flag: self.shape_button_flag,
        }
    }
}

impl Painting {
    /// A session on `image` without strokes.
    pub fn new(image: PixelBuffer) -> (p: Painting)
        ensures
            p@ == PaintingView::fresh(image, Seq::empty()),
    {
        let p = Painting {
            shapes: Vec::new(),
            stroke: Stroke { width: 3_000_000, color: Color { r: 18, g: 160, b: 215, a: 255 } },
            image,
            last_actions: Vec::new(),
            ui_size: Rect { min: Point { x: 0, y: 0 }, max: Point { x: 0, y: 0 } },
            selected_shape: DrawingShape::Line,
            crop: None,
            active_shape: false,
            ruler_button_flag: false,
            color_button_flag: false,
            shape_button_flag: false,
        };
        assert(p@.shapes =~= Seq::empty());
        assert(p@.last_actions =~= Seq::empty());
        p
    }

    /// A session on `image`, the result of a crop, that keeps the strokes
    /// `shapes` and starts afresh otherwise.
    pub fn new_crop(image: PixelBuffer, shapes: Vec<DrawObj>) -> (p: Painting)
        ensures
            p@ == PaintingView::fresh(image, models(shapes@)),
    {
        let p = Painting {
            shapes,
            stroke: Stroke { width: 3_000_000, color: Color { r: 18, g: 160, b: 215, a: 255 } },
            image,
            last_actions: Vec::new(),
            ui_size: Rect { min: Point { x: 0, y: 0 }, max: Point { x: 0, y: 0 } },
            selected_shape: DrawingShape::Line,
            crop: None,
            active_shape: false,
            ruler_button_flag: false,
            color_button_flag: false,
            shape_button_flag: false,
        };
        assert(p@.last_actions =~= Seq::empty());
        p
    }

    /// A blank stroke in the current style is put where there is no stroke.
    fn normalize(&mut self)
        ensures
            final(self)@ == old(self)@.normalized(),
            final(self)@.shapes.len() > 0,
    {
        if self.shapes.len() == 0 {
            self.shapes.push(DrawObj::new(Vec::new(), self.stroke));
            assert(self@.shapes =~= seq![blank(self.stroke)]);
        }
    }

    /// Takes back the last finished stroke.
    pub fn undo(&mut self)
        ensures
            final(self)@ == old(self)@.undone(),
    {
        if self.shapes.len() > 1 {
            let ghost before = self@;
            self.shapes.pop();
            self.last_actions.pop();
            let taken = self.shapes.pop().unwrap();
            self.last_actions.push(taken);
            self.shapes.push(DrawObj::new(Vec::new(), self.stroke));
            self.last_actions.push(DrawObj::new(Vec::new(), self.stroke));
            assert(self@.shapes =~= before.undone().shapes);
            assert(self@.last_actions =~= before.undone().last_actions);
        }
    }

    /// Brings back the stroke that was undone last.
    pub fn redo(&mut self)
        ensures
            final(self)@ == old(self)@.redone(),
    {
        if self.last_actions.len() > 1 {
            let ghost before = self@;
            self.shapes.pop();
            self.last_actions.pop();
            let taken = self.last_actions.pop().unwrap();
            self.shapes.push(taken);
            self.shapes.push(DrawObj::new(Vec::new(), self.stroke));
            self.last_actions.push(DrawObj::new(Vec::new(), self.stroke));
            assert(self@.shapes =~= before.redone().shapes);
            assert(self@.last_actions =~= before.redone().last_actions);
        }
    }

    /// Removes every stroke; the removed strokes can be brought back one by
    /// one, the latest first.
    pub fn clear(&mut self)
        ensures
            final(self)@ == old(self)@.cleared(),
    {
        let mut list: Vec<DrawObj> = Vec::new();
        list.push(DrawObj::new(Vec::new(), self.stroke));
        core::mem::swap(&mut self.shapes, &mut list);
        self.last_actions = list;
        assert(self@.shapes =~= seq![blank(self.stroke)]);
    }

    /// Selects the tool that draws.
    pub fn select_tool(&mut self, shape: DrawingShape)
        ensures
            final(self)@ == (PaintingView { selected_shape: shape, ..old(self)@ }),
    {
        self.selected_shape = shape;
    }

    /// Sets the style that new points are drawn in.
    pub fn set_style(&mut self, color: Color, width: u32)
        ensures
            final(self)@ == (PaintingView { stroke: Stroke { width, color }, ..old(self)@ }),
    {
        self.stroke = Stroke { width, color };
    }

    /// Moves every point of every stroke up and to the left by the offsets
    /// of `crop`, so that the strokes stay where they were on the image.
    pub fn shapes_remap(&mut self, crop: &Crop)
        ensures
            final(self)@ == old(self)@.remapped(
                crop@.offset_x_left as int,
                crop@.offset_y_up as int,
            ),
    {
        let state = crop.state();
        self.remap_by(state.offset_x_left, state.offset_y_up);
    }

    /// Moves every point of every stroke up and to the left.
    fn remap_by(&mut self, left: i64, up: i64)
        ensures
            final(self)@ == old(self)@.remapped(left as int, up as int),
    {
        let ghost before = self@;
        let n = self.shapes.len();
        let mut done: Vec<DrawObj> = Vec::new();
        let mut rest: Vec<DrawObj> = Vec::new();
        core::mem::swap(&mut self.shapes, &mut rest);
        // `rest` is emptied from its end, so `done` is filled in reverse.
        let mut i: usize = n;
        while i > 0
            invariant
                i <= n,
                n == before.shapes.len(),
                rest@.len() == i,
                done@.len() == n - i,
                forall|j: int| 0 <= j < i ==> (#[trigger] rest@[j])@ == before.shapes[j],
                forall|j: int|
                    0 <= j < n - i ==> (#[trigger] done@[j])@ == shifted_stroke(
                        before.shapes[n - 1 - j],
                        left as int,
                        up as int,
                    ),
            decreases i,
        {
            let mut d = rest.pop().unwrap();
            d.shift(left, up);
            done.push(d);
            i -= 1;
        }
        let mut k: usize = n;
        while k > 0
            invariant
                k <= n,
                n == before.shapes.len(),
                done@.len() == k,
                self.shapes@.len() == n - k,
                forall|j: int|
                    0 <= j < k ==> (#[trigger] done@[j])@ == shifted_stroke(
                        before.shapes[n - 1 - j],
                        left as int,
                        up as int,
                    ),
                forall|j: int|
                    0 <= j < n - k ==> (#[trigger] self.shapes@[j])@ == shifted_stroke(
                        before.shapes[j],
                        left as int,
                        up as int,
                    ),
                self.stroke == before.stroke,
                self.image == before.image,
                models(self.last_actions@) == before.last_actions,
                self.ui_size == before.ui_size,
                self.selected_shape == before.selected_shape,
                self@.crop == before.crop,
                self.active_shape == before.active_shape,
                self.ruler_button_flag == before.ruler_button_flag,
                self.color_button_flag == before.color_button_flag,
                self.shape_button_flag == before.shape_button_flag,
            decreases k,
        {
            let d = done.pop().unwrap();
            self.shapes.push(d);
            k -= 1;
        }
        assert(self@.shapes =~= before.remapped(left as int, up as int).shapes);
    }
}

impl Painting {
    /// Carries out the crop, where the rectangle asked for holds a pixel.
    fn commit(&mut self)
        requires
            old(self)@.crop.is_some(),
        ensures
            old(self)@.cuttable() ==> old(self)@.committed(final(self)@),
            !old(self)@.cuttable() ==> final(self)@ == old(self)@,
    {
        let ghost before = self@;
        let w = self.image.width();
        let h = self.image.height();
        let (left, up, rect) = match &self.crop {
            Some(c) => {
                let state = c.state();
                (state.offset_x_left, state.offset_y_up, c.pixel_rect(w, h))
            },
            None => { return ; },
        };
        let cw: u32 = if rect.width < w - rect.x {
            rect.width
        } else {
            w - rect.x
        };
        let ch: u32 = if rect.height < h - rect.y {
            rect.height
        } else {
            h - rect.y
        };
        if cw == 0 || ch == 0 {
            return ;
        }
        let cut = self.image.crop(rect.x, rect.y, rect.width, rect.height);
        self.image = cut;
        self.remap_by(left, up);
        self.active_shape = true;
        self.crop = None;
    }

    /// One frame of the toolbar: `control` is the button that was pressed,
    /// if one was. `flag` says whether the annotation view stays open, and
    /// going home closes it.
    pub fn ui_control(&mut self, control: Option<Control>, flag: &mut bool)
        ensures
            old(self)@.controlled(control, final(self)@),
            *final(flag) == if old(self)@.crop.is_none() && control == Some(Control::Home) {
                false
            } else {
                *old(flag)
            },
            old(self)@.crop.is_none() ==> final(self)@.shapes.len() > 0,
    {
        if self.crop.is_none() {
            match control {
                Some(Control::Ruler) => {
                    self.ruler_button_flag = true;
                    self.color_button_flag = false;
                    self.shape_button_flag = false;
                    self.active_shape = false;
                },
                Some(Control::Width(width)) => {
                    if self.ruler_button_flag {
                        self.stroke = Stroke { width, color: self.stroke.color };
                    }
                },
                Some(Control::Palette) => {
                    self.ruler_button_flag = false;
                    self.color_button_flag = true;
                    self.shape_button_flag = false;
                },
                Some(Control::Tint(color)) => {
                    if self.color_button_flag {
                        self.stroke = Stroke { width: self.stroke.width, color };
                    }
                },
                Some(Control::Shapes) => {
                    self.ruler_button_flag = false;
                    self.color_button_flag = false;
                    self.shape_button_flag = true;
                    self.active_shape = false;
                },
                Some(Control::Shape(shape)) => {
                    if self.shape_button_flag {
                        self.selected_shape = shape;
                    }
                },
                Some(Control::Pencil) => {
                    self.ruler_button_flag = false;
                    self.color_button_flag = false;
                    self.shape_button_flag = false;
                    self.active_shape = !self.active_shape;
                },
                Some(Control::Scissors) => {
                    self.active_shape = false;
                    self.crop = Some(Crop::new());
                },
                Some(Control::Clear) => {
                    self.clear();
                },
                _ => {},
            }
            self.normalize();
            match control {
                Some(Control::Undo) => {
                    self.undo();
                },
                Some(Control::Redo) => {
                    self.redo();
                },
                Some(Control::Home) => {
                    *flag = false;
                    self.active_shape = false;
                },
                _ => {},
            }
        } else {
            match control {
                Some(Control::Accept) => {
                    self.commit();
                },
                Some(Control::Cancel) => {
                    self.active_shape = true;
                    self.crop = None;
                },
                _ => {},
            }
        }
    }
}

/// The stroke as it shows on the canvas that `mapper` maps onto.
fn project(d: &DrawObj, mapper: &CoordinateMapper, Ghost(rect): Ghost<Rect>) -> (r: DrawObj)
    requires
        mapper.source() == canvas_rect(rect),
        mapper.target() == rect,
    ensures
        r@ == on_screen(d@, rect),
{
    let n = d.points.len();
    let mut mapped: Vec<Point> = Vec::new();
    let mut i: usize = 0;
    while i < n
        invariant
            n == d.points@.len(),
            i <= n,
            mapped@.len() == i,
            mapper.source() == canvas_rect(rect),
            mapper.target() == rect,
            forall|j: int| 0 <= j < i ==> mapped@[j] == to_screen(rect, #[trigger] d.points@[j]),
        decreases n - i,
    {
        mapped.push(mapper.apply(d.points[i]));
        i += 1;
    }
    assert(mapped@ =~= on_screen(d@, rect).points);
    DrawObj { points: mapped, stroke: d.stroke }
}

impl Painting {
    /// The stroke in progress gains the point `p`.
    fn extend(&mut self, p: Point)
        requires
            old(self)@.shapes.len() > 0,
        ensures
            final(self)@ == old(self)@.extended(p),
    {
        let ghost before = self@;
        let mut current = self.shapes.pop().unwrap();
        current.points.push(p);
        current.stroke = self.stroke;
        self.shapes.push(current);
        assert(self@.shapes =~= before.extended(p).shapes);
    }

    /// The pointer draws with the selected tool on a canvas shown in `rect`.
    /// Returns whether that changed the strokes.
    pub fn feed_pointer(&mut self, rect: Rect, pointer: PointerSnapshot) -> (changed: bool)
        ensures
            final(self)@ == old(self)@.fed(rect, pointer),
            changed == (final(self)@.shapes != old(self)@.normalized().shapes),
            final(self)@.shapes.len() > 0,
    {
        self.normalize();
        if !self.active_shape {
            return false;
        }
        let from_screen = match CoordinateMapper::square(rect) {
            Some(m) => match m.invert() {
                Some(inverse) => inverse,
                None => { return false; },
            },
            None => { return false; },
        };
        let ghost ready = self@;
        let n = self.shapes.len();
        match self.selected_shape {
            DrawingShape::Line => {
                match pointer.interact_position {
                    Some(p) => {
                        let c = from_screen.apply(p);
                        let m = self.shapes[n - 1].points.len();
                        if m > 0 && self.shapes[n - 1].points[m - 1] == c {
                            false
                        } else {
                            self.extend(c);
                            assert(self@.shapes[n - 1].points.len() != ready.shapes[n
                                - 1].points.len());
                            true
                        }
                    },
                    None => {
                        if self.shapes[n - 1].points.len() > 0 {
                            self.shapes.push(DrawObj::new(Vec::new(), self.stroke));
                            assert(self@.shapes =~= ready.shapes.push(blank(self.stroke)));
                            assert(self@.shapes.len() != ready.shapes.len());
                            true
                        } else {
                            false
                        }
                    },
                }
            },
            DrawingShape::StraightLine => {
                if pointer.clicked {
                    let position = if pointer.hover_position.is_some() {
                        pointer.hover_position
                    } else {
                        pointer.interact_position
                    };
                    match position {
                        Some(p) => {
                            self.extend(from_screen.apply(p));
                            assert(self@.shapes[n - 1].points.len() != ready.shapes[n
                                - 1].points.len());
                            true
                        },
                        None => false,
                    }
                } else {
                    false
                }
            },
        }
    }

    /// The strokes that show on a canvas in `rect`, in screen space.
    pub fn visible_lines(&self, rect: Rect) -> (out: Vec<DrawObj>)
        ensures
            models(out@) == self@.visible(rect),
    {
        let mut out: Vec<DrawObj> = Vec::new();
        let mapper = match CoordinateMapper::square(rect) {
            Some(m) => m,
            None => {
                assert(models(out@) =~= Seq::empty());
                return out;
            },
        };
        let n = self.shapes.len();
        let mut i: usize = 0;
        assert(models(out@) =~= lines(self@.shapes, rect, 0));
        while i < n
            invariant
                n == self.shapes@.len(),
                i <= n,
                mapper.source() == canvas_rect(rect),
                mapper.target() == rect,
                models(out@) == lines(self@.shapes, rect, i as nat),
            decreases n - i,
        {
            let ghost before = models(out@);
            if self.shapes[i].points.len() >= 2 {
                out.push(project(&self.shapes[i], &mapper, Ghost(rect)));
                assert(models(out@) =~= before.push(on_screen(self@.shapes[i as int], rect)));
            }
            i += 1;
        }
        out
    }

    /// One frame of the canvas shown in `rect`: the pointer draws, the crop
    /// session, if there is one, follows the pointer, and the result says
    /// what to show.
    pub fn ui_content(&mut self, rect: Rect, pointer: PointerSnapshot) -> (frame: Frame)
        ensures
            final(self)@ == old(self)@.framed(rect, pointer),
            frame.changed == (final(self)@.shapes != old(self)@.normalized().shapes),
            models(frame.lines@) == final(self)@.visible(rect),
            frame.crop == match old(self)@.crop {
                Some(c) => Some(c.frame(rect, pointer.hover_position, pointer.interact_position)),
                None => None,
            },
            final(self)@.shapes.len() > 0,
            final(self)@.crop.is_some() ==> final(self)@.crop.unwrap().wf(),
    {
        self.ui_size = rect;
        let changed = self.feed_pointer(rect, pointer);
        let lines = self.visible_lines(rect);
        let mut session: Option<Crop> = None;
        core::mem::swap(&mut self.crop, &mut session);
        let crop = match session {
            Some(mut c) => {
                let shown = c.crop_img(rect, pointer.hover_position, pointer.interact_position);
                self.crop = Some(c);
                Some(shown)
            },
            None => None,
        };
        Frame { changed, lines, crop }
    }
}

impl Painting {
    /// The strokes, the last of them the one in progress.
    pub fn shapes(&self) -> (list: &Vec<DrawObj>)
        ensures
            models(list@) == self@.shapes,
    {
        &self.shapes
    }

    /// The strokes that undoing and clearing have taken away.
    pub fn last_actions(&self) -> (list: &Vec<DrawObj>)
        ensures
            models(list@) == self@.last_actions,
    {
        &self.last_actions
    }

    /// The style that new points are drawn in.
    pub fn stroke(&self) -> (stroke: Stroke)
        ensures
            stroke == self@.stroke,
    {
        self.stroke
    }

    /// The image that is annotated.
    pub fn image(&self) -> (image: &PixelBuffer)
        ensures
            *image == self@.image,
    {
        &self.image
    }

    /// The widget rectangle of the latest frame, in screen space.
    pub fn ui_size(&self) -> (rect: Rect)
        ensures
            rect == self@.ui_size,
    {
        self.ui_size
    }

    /// The upper left corner of the widget in the latest frame.
    pub fn ui_position(&self) -> (p: Point)
        ensures
            p == self@.ui_size.min,
    {
        self.ui_size.min
    }

    /// The tool that draws.
    pub fn selected_shape(&self) -> (shape: DrawingShape)
        ensures
            shape == self@.selected_shape,
    {
        self.selected_shape
    }

    /// Whether the pointer draws.
    pub fn active_shape(&self) -> (active: bool)
        ensures
            active == self@.active_shape,
    {
        self.active_shape
    }

    /// What the crop session remembers, while there is one.
    pub fn crop(&self) -> (state: Option<CropState>)
        ensures
            state == self@.crop,
            state.is_some() ==> state.unwrap().wf(),
    {
        match &self.crop {
            Some(c) => Some(c.state()),
            None => None,
        }
    }

    /// Whether the width picker is open.
    pub fn ruler_button_flag(&self) -> (open: bool)
        ensures
            open == self@.ruler_button_flag,
    {
        self.ruler_button_flag
    }

    /// Whether the colour picker is open.
    pub fn color_button_flag(&self) -> (open: bool)
        ensures
            open == self@.color_button_flag,
    {
        self.color_button_flag
    }

    /// Whether the tool picker is open.
    pub fn shape_button_flag(&self) -> (open: bool)
        ensures
            open == self@.shape_button_flag,
    {
        self.shape_button_flag
    }

    /// The size at which the image shows in a viewport of the size
    /// `available`: the largest of the image's proportions that fits.
    pub fn painting_size(&self, available: Size) -> (size: Size)
        ensures
            size == fit_size(
                available,
                columns(self@.image) as int,
                rows(self@.image) as int,
            ),
            0 <= size.width,
            0 <= size.height,
            available.width >= 0 ==> size.width <= available.width,
            available.height >= 0 ==> size.height <= available.height,
    {
        fit(available, self.image.width(), self.image.height())
    }
}

/// The size of the window that is asked for around an image of `columns`
/// by `rows` pixels: two thirds of the image, and a margin of fifty units.
pub open spec fn window_for(columns: int, rows: int) -> Size {
    Size {
        width: (columns * UNIT * 2 / 3 + 50 * UNIT) as i64,
        height: (rows * UNIT * 2 / 3 + 50 * UNIT) as i64,
    }
}

impl Painting {
    /// The size of the window that is asked for around the image.
    pub fn window_size(&self) -> (size: Size)
        ensures
            size == window_for(columns(self@.image) as int, rows(self@.image) as int),
    {
        let w: i64 = self.image.width() as i64;
        let h: i64 = self.image.height() as i64;
        Size { width: w * UNIT * 2 / 3 + 50 * UNIT, height: h * UNIT * 2 / 3 + 50 * UNIT }
    }
}

/// Moving the strokes keeps their number, the number of their points and
/// their styles, and takes the offsets off every coordinate that stays
/// within the range of the coordinates.
pub proof fn lemma_shifted_strokes(list: Seq<DrawObjView>, left: int, up: int, i: int, j: int)
    requires
        0 <= i < list.len(),
        0 <= j < list[i].points.len(),
    ensures
        shifted_strokes(list, left, up).len() == list.len(),
        shifted_strokes(list, left, up)[i].stroke == list[i].stroke,
        shifted_strokes(list, left, up)[i].points.len() == list[i].points.len(),
        i64::MIN <= list[i].points[j].x - left <= i64::MAX ==> shifted_strokes(
            list,
            left,
            up,
        )[i].points[j].x == list[i].points[j].x - left,
        i64::MIN <= list[i].points[j].y - up <= i64::MAX ==> shifted_strokes(
            list,
            left,
            up,
        )[i].points[j].y == list[i].points[j].y - up,
{
}

/// After a crop is carried out, every point of every stroke is the point
/// it was before minus the left and upper offsets of the crop, for every
/// point that does not lie within one unit of the lower end of the range of
/// the coordinates.
pub proof fn lemma_commit_remaps(before: PaintingView, after: PaintingView, i: int, j: int)
    requires
        before.crop.is_some(),
        before.crop.unwrap().wf(),
        before.committed(after),
        0 <= i < before.shapes.len(),
        0 <= j < before.shapes[i].points.len(),
        before.shapes[i].points[j].x >= i64::MIN + UNIT,
        before.shapes[i].points[j].y >= i64::MIN + UNIT,
    ensures
        after.shapes.len() == before.shapes.len(),
        after.shapes[i].stroke == before.shapes[i].stroke,
        after.shapes[i].points.len() == before.shapes[i].points.len(),
        after.shapes[i].points[j].x == before.shapes[i].points[j].x
            - before.crop.unwrap().offset_x_left,
        after.shapes[i].points[j].y == before.shapes[i].points[j].y
            - before.crop.unwrap().offset_y_up,
{
    lemma_shifted_strokes(
        before.shapes,
        before.crop.unwrap().offset_x_left as int,
        before.crop.unwrap().offset_y_up as int,
        i,
        j,
    );
}

impl Default for DrawObj {
    /// The stroke without points, one pixel wide and in the default colour.
    fn default() -> (d: DrawObj)
        ensures
            d@ == blank(Stroke { width: 1_000_000, color: default_color() }),
    {
        DrawObj {
            points: Vec::new(),
            stroke: Stroke { width: 1_000_000, color: Color { r: 18, g: 160, b: 215, a: 255 } },
        }
    }
}

} // verus!
