//! Geometry and state for cropping and annotating a captured image.
//!
//! Every real-valued quantity (screen coordinates, normalized canvas
//! coordinates, crop fractions, stroke widths, sub-pixel positions) is a
//! fixed-point integer counting millionths, see [`fixed::UNIT`]. Results
//! that do not fit an `i64` saturate, so that no function of the library
//! asks anything of the numbers it is given.
//!
//! - [`fixed`]: the arithmetic.
//! - [`geometry`]: points, sizes, rectangles.
//! - [`mapper`]: maps between coordinate spaces, and fitting a viewport.
//! - [`crop`]: the crop rectangle and the gestures that edit it.
//! - [`pixels`]: the pixel buffer of the image.
//! - [`painting`]: strokes, tools, undo and redo, and the crop of a session.
//! - [`history`]: what undoing and redoing do to the finished strokes.
//! - [`raster`]: the line segments that draw the strokes onto the image.
//! - [`save`], [`hotkeys`], [`capture`]: file names, keyboard shortcuts and
//!   the selection of the screen area to capture.
pub mod fixed;
pub mod geometry;
pub mod mapper;
pub mod crop;
pub mod pixels;
pub mod painting;
pub mod history;
pub mod raster;
pub mod save;
pub mod hotkeys;
pub mod capture;
