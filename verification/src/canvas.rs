//! The raster image that a trace is drawn on.
//!
//! The pixels are kept by the `image` crate, as an 8-bit RGB buffer. What the
//! buffer holds is opaque to the verifier: the contracts speak of it through
//! [`canvas_dimensions`] and [`canvas_pixels`], and the three functions that
//! touch the buffer are believed, not proved.

use vstd::prelude::*;

verus! {

/// The colour of a pixel: its red, green and blue parts.
pub type Color = (u8, u8, u8);

/// The colour of every pixel of a fresh canvas.
pub open spec fn background() -> Color {
    (0u8, 0u8, 0u8)
}

/// The colour of a pixel that a sample fell on.
pub open spec fn foreground() -> Color {
    (255u8, 255u8, 255u8)
}

/// An RGB image: an `image::RgbImage`, kept out of the verifier's sight
/// because the verifier cannot take the bound on that type's pixel
/// parameter. It is made blank, and then changes one pixel at a time.
#[verifier::external_body]
pub struct Canvas {
    image: image::RgbImage,
}

/// The width and the height of the image, in pixels.
pub uninterp spec fn canvas_dimensions(canvas: Canvas) -> (u32, u32);

/// The colour of each pixel of the image, by its column and its row.
pub uninterp spec fn canvas_pixels(canvas: Canvas) -> Map<(int, int), Color>;

/// The pixels of a `width` by `height` image that is all `color`.
pub open spec fn uniform_pixels(width: int, height: int, color: Color) -> Map<(int, int), Color> {
    Map::new(|at: (int, int)| 0 <= at.0 < width && 0 <= at.1 < height, |at: (int, int)| color)
}

/// `data` lays the pixels out row by row from the top, each row from the
/// left, three bytes to a pixel: red, green, blue.
pub open spec fn is_row_major(
    data: Seq<u8>,
    width: int,
    height: int,
    pixels: Map<(int, int), Color>,
) -> bool {
    &&& data.len() == 3 * width * height
    &&& forall|x: int, y: int|
        0 <= x < width && 0 <= y < height ==> #[trigger] pixels[(x, y)] == (
            data[3 * (y * width + x)],
            data[3 * (y * width + x) + 1],
            data[3 * (y * width + x) + 2],
        )
}

impl Canvas {
    /// The number of columns.
    pub open spec fn width(self) -> int {
        canvas_dimensions(self).0 as int
    }

    /// The number of rows.
    pub open spec fn height(self) -> int {
        canvas_dimensions(self).1 as int
    }

    /// The colour at column `x` of row `y`.
    pub open spec fn pixel(self, x: int, y: int) -> Color {
        canvas_pixels(self)[(x, y)]
    }

    /// The canvas has a colour for each position inside its borders and for
    /// no other.
    pub open spec fn wf(self) -> bool {
        forall|at: (int, int)| #[trigger]
            canvas_pixels(self).dom().contains(at) <==> 0 <= at.0 < self.width() && 0 <= at.1
                < self.height()
    }

    /// `image::ImageBuffer::new`: a buffer of the given size with every
    /// channel of every pixel at zero. The crate panics where the number of
    /// bytes, three to a pixel, overflows `usize`, and `Vec` does where it
    /// passes `isize::MAX`; the precondition leaves both out.
    #[verifier::external_body]
    fn zeroed(width: u32, height: u32) -> (canvas: Canvas)
        requires
            3 * width * height <= isize::MAX,
        ensures
            canvas_dimensions(canvas) == (width, height),
            canvas_pixels(canvas) == uniform_pixels(width as int, height as int, (0u8, 0u8, 0u8)),
    {
        Canvas { image: image::ImageBuffer::new(width, height) }
    }

    /// `image::ImageBuffer::get_pixel_mut`, written through: the pixel at
    /// column `x` of row `y` takes the colour, every other pixel and the size
    /// stay. The crate panics on a position outside the image; the
    /// precondition leaves those out.
    #[verifier::external_body]
    fn put(&mut self, x: u32, y: u32, color: Color)
        requires
            x < canvas_dimensions(*old(self)).0,
            y < canvas_dimensions(*old(self)).1,
        ensures
            canvas_dimensions(*final(self)) == canvas_dimensions(*old(self)),
            canvas_pixels(*final(self)) == canvas_pixels(*old(self)).insert(
                (x as int, y as int),
                color,
            ),
    {
        *self.image.get_pixel_mut(x, y) = image::Rgb([color.0, color.1, color.2]);
    }

    /// `image::ImageBuffer::into_raw`: the buffer's bytes, which the crate
    /// keeps row by row, the three channels of the pixel at column `x` of
    /// row `y` from index `3 * (y * width + x)` on.
    #[verifier::external_body]
    fn raw(self) -> (data: Vec<u8>)
        ensures
            is_row_major(
                data@,
                canvas_dimensions(self).0 as int,
                canvas_dimensions(self).1 as int,
                canvas_pixels(self),
            ),
    {
        self.image.into_raw()
    }

    /// A canvas of `width` by `height` pixels, all of the background colour.
    pub fn blank(width: u32, height: u32) -> (canvas: Canvas)
        requires
            3 * width * height <= isize::MAX,
        ensures
            canvas.wf(),
            canvas.width() == width,
            canvas.height() == height,
            canvas_pixels(canvas) == uniform_pixels(width as int, height as int, background()),
    {
        Canvas::zeroed(width, height)
    }

    /// Gives the pixel at column `x` of row `y` the foreground colour.
    pub fn mark(&mut self, x: u32, y: u32)
        requires
            old(self).wf(),
            x < old(self).width(),
            y < old(self).height(),
        ensures
            final(self).wf(),
            final(self).width() == old(self).width(),
            final(self).height() == old(self).height(),
            canvas_pixels(*final(self)) == canvas_pixels(*old(self)).insert(
                (x as int, y as int),
                foreground(),
            ),
    {
        self.put(x, y, (255, 255, 255));
    }

    /// Hands the pixels out as bytes, row by row from the top and three
    /// bytes to a pixel, for an encoder to write.
    pub fn into_raw(self) -> (data: Vec<u8>)
        ensures
            is_row_major(data@, self.width(), self.height(), canvas_pixels(self)),
    {
        self.raw()
    }
}

} // verus!
