//! The pixel buffer of a captured image.
//!
//! The buffer is an `image::RgbaImage`. Verus does not look inside it: what
//! this module states of it is taken from the `image` crate and not proved.
use vstd::prelude::*;

verus! {

/// An RGBA colour, eight bits a channel.
#[derive(Clone, Copy, Debug, PartialEq, Eq, Structural)]
pub struct Color {
    pub r: u8,
    pub g: u8,
    pub b: u8,
    pub a: u8,
}

/// A grid of RGBA pixels, stored row by row.
#[verifier::external_body]
pub struct PixelBuffer {
    inner: image::RgbaImage,
}

/// The samples that the buffer holds: four for each pixel, row by row.
pub uninterp spec fn samples(buffer: PixelBuffer) -> Seq<u8>;

/// The number of pixels in a row of the buffer.
pub uninterp spec fn columns(buffer: PixelBuffer) -> nat;

/// The number of rows of the buffer.
pub uninterp spec fn rows(buffer: PixelBuffer) -> nat;

/// The pixel in column `x` of row `y`.
pub open spec fn pixel_at(buffer: PixelBuffer, x: int, y: int) -> Color {
    let i = (y * columns(buffer) + x) * 4;
    Color {
        r: samples(buffer)[i],
        g: samples(buffer)[i + 1],
        b: samples(buffer)[i + 2],
        a: samples(buffer)[i + 3],
    }
}

/// Where a cut that asks to start at `start` begins within `extent`.
pub open spec fn cut_start(start: int, extent: int) -> int {
    if start < extent {
        start
    } else {
        extent
    }
}

/// How much a cut that asks for `length` from `start` gets within `extent`.
pub open spec fn cut_length(start: int, length: int, extent: int) -> int {
    if length < extent - cut_start(start, extent) {
        length
    } else {
        extent - cut_start(start, extent)
    }
}

/// `cut` holds exactly the pixels of `source` in the rectangle at `(x, y)`
/// of `width` by `height` pixels, as far as it lies within `source`.
pub open spec fn is_cut(cut: PixelBuffer, source: PixelBuffer, x: int, y: int, width: int, height: int) -> bool {
    &&& columns(cut) == cut_length(x, width, columns(source) as int)
    &&& rows(cut) == cut_length(y, height, rows(source) as int)
    &&& samples(cut).len() == 4 * columns(cut) * rows(cut)
    &&& forall|i: int, j: int|
        0 <= i < columns(cut) && 0 <= j < rows(cut) ==> #[trigger] pixel_at(cut, i, j) == pixel_at(
            source,
            cut_start(x, columns(source) as int) + i,
            cut_start(y, rows(source) as int) + j,
        )
}

impl PixelBuffer {
    /// `image::ImageBuffer::from_raw`: the buffer is made exactly where
    /// `data` holds at least four samples for each of `width * height`
    /// pixels, and then holds `data` as it is.
    #[verifier::external_body]
    fn raw_from(width: u32, height: u32, data: Vec<u8>) -> (r: Option<PixelBuffer>)
        ensures
            r.is_some() <==> 4 * width * height <= data@.len(),
            r.is_some() ==> columns(r.unwrap()) == width && rows(r.unwrap()) == height && samples(
                r.unwrap(),
            ) == data@,
    {
        match image::RgbaImage::from_raw(width, height, data) {
            Some(inner) => Some(PixelBuffer { inner }),
            None => None,
        }
    }

    /// `image::ImageBuffer::dimensions`: the width and height that the
    /// buffer was made with; its samples cover at least that many pixels.
    #[verifier::external_body]
    fn raw_dimensions(&self) -> (d: (u32, u32))
        ensures
            d.0 == columns(*self),
            d.1 == rows(*self),
            4 * d.0 * d.1 <= samples(*self).len(),
    {
        self.inner.dimensions()
    }

    /// `image::ImageBuffer::get_pixel`, which panics outside the grid: the
    /// four samples of the pixel in column `x` of row `y`.
    #[verifier::external_body]
    fn raw_pixel(&self, x: u32, y: u32) -> (c: Color)
        requires
            x < columns(*self),
            y < rows(*self),
        ensures
            c == pixel_at(*self, x as int, y as int),
    {
        let p = self.inner.get_pixel(x, y);
        Color { r: p.0[0], g: p.0[1], b: p.0[2], a: p.0[3] }
    }

    /// `image::imageops::crop_imm` followed by `SubImage::to_image`: the
    /// corner is moved back into the grid, the size is cut down to what lies
    /// within it from there, and the pixels of that rectangle are copied to
    /// a new buffer that holds nothing else.
    #[verifier::external_body]
    fn raw_crop(&self, x: u32, y: u32, width: u32, height: u32) -> (r: PixelBuffer)
        ensures
            is_cut(r, *self, x as int, y as int, width as int, height as int),
    {
        PixelBuffer { inner: image::imageops::crop_imm(&self.inner, x, y, width, height).to_image() }
    }

    /// `image::ImageBuffer::as_raw`: the samples that the buffer holds,
    /// copied.
    #[verifier::external_body]
    fn raw_samples(&self) -> (data: Vec<u8>)
        ensures
            data@ == samples(*self),
    {
        self.inner.as_raw().clone()
    }

    /// A buffer of `width` by `height` pixels over `data`, where `data`
    /// holds four samples for each pixel; `None` where it holds fewer.
    pub fn from_raw(width: u32, height: u32, data: Vec<u8>) -> (r: Option<PixelBuffer>)
        ensures
            r.is_some() <==> 4 * width * height <= data@.len(),
            r.is_some() ==> columns(r.unwrap()) == width && rows(r.unwrap()) == height && samples(
                r.unwrap(),
            ) == data@,
    {
        PixelBuffer::raw_from(width, height, data)
    }

    /// The number of pixels in a row.
    pub fn width(&self) -> (w: u32)
        ensures
            w == columns(*self),
    {
        self.raw_dimensions().0
    }

    /// The number of rows.
    pub fn height(&self) -> (h: u32)
        ensures
            h == rows(*self),
    {
        self.raw_dimensions().1
    }

    /// The pixel in column `x` of row `y`, or `None` outside the grid.
    pub fn get_pixel(&self, x: u32, y: u32) -> (c: Option<Color>)
        ensures
            c == if x < columns(*self) && y < rows(*self) {
                Some(pixel_at(*self, x as int, y as int))
            } else {
                None
            },
    {
        let d = self.raw_dimensions();
        if x < d.0 && y < d.1 {
            Some(self.raw_pixel(x, y))
        } else {
            None
        }
    }

    /// The part of the buffer that lies in the rectangle at `(x, y)` of
    /// `width` by `height` pixels, as a buffer of its own. A rectangle that
    /// reaches past the grid is cut down to what lies within it.
    pub fn crop(&self, x: u32, y: u32, width: u32, height: u32) -> (r: PixelBuffer)
        ensures
            is_cut(r, *self, x as int, y as int, width as int, height as int),
    {
        self.raw_crop(x, y, width, height)
    }

    /// A copy of the samples of the buffer, four for each pixel, row by row.
    pub fn to_raw(&self) -> (data: Vec<u8>)
        ensures
            data@ == samples(*self),
    {
        self.raw_samples()
    }
}

} // verus!
